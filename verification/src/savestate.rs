//! Save states: a snapshot of the machine, and its return.
//!
//! A save state is a header followed by the encoded machine. The media are not
//! part of it: the BIOS image, the disc and the bytes of a game ROM are those of
//! the machine that loads it, and the fingerprints in the header keep a state
//! from being loaded with other media.

use vstd::prelude::*;
use crate::bus::{bus_state, cd_wf, chip_wf, Machine, SaturnBus};
use crate::cartridge::{Cart, Cartridge};
use crate::cd_block::model::CdState;
use crate::cd_block::port::Audio;
use crate::disc::{fnv1a, fnv1a_spec, Media, SectorSource};
use crate::scsp::chip::Chip;
use crate::text::{decimal, push_decimal};

verus! {

/// What a save state starts with: `5PSS`.
pub const MAGIC: [u8; 4] = [0x35, 0x50, 0x53, 0x53];

/// Version of the format.
pub const VERSION: u32 = 16;

/// Identifies the format, and the media that a state was taken with.
#[derive(Clone, Copy, Debug)]
pub struct Header {
    pub magic: [u8; 4],
    pub version: u32,
    /// Fingerprint of the BIOS image.
    pub bios_fp: u64,
    /// Fingerprint of the disc, if there was one.
    pub disc_fp: Option<u64>,
}

/// Why a state cannot be loaded.
#[derive(Clone, Debug, PartialEq, Eq)]
pub enum SaveStateError {
    /// The bytes are no save state.
    BadMagic,
    /// The version of the format is another one.
    VersionMismatch { found: u32, expected: u32 },
    /// The state was taken with another BIOS.
    BiosMismatch,
    /// The state was taken with another disc, or one of the two is missing.
    DiscMismatch,
    /// The bytes cannot be decoded.
    Decode(String),
}

/// A [`SaveStateError`] with the text that it holds.
pub enum Fault {
    BadMagic,
    VersionMismatch { found: u32, expected: u32 },
    BiosMismatch,
    DiscMismatch,
    Decode(Seq<char>),
}

impl View for SaveStateError {
    type V = Fault;

    open spec fn view(&self) -> Fault {
        match *self {
            SaveStateError::BadMagic => Fault::BadMagic,
            SaveStateError::VersionMismatch { found, expected } => Fault::VersionMismatch {
                found,
                expected,
            },
            SaveStateError::BiosMismatch => Fault::BiosMismatch,
            SaveStateError::DiscMismatch => Fault::DiscMismatch,
            SaveStateError::Decode(e) => Fault::Decode(e@),
        }
    }
}

impl Fault {
    /// The message that a user sees.
    pub open spec fn text(self) -> Seq<char> {
        match self {
            Fault::BadMagic => "not a 5thPlanet save state"@,
            Fault::VersionMismatch { found, expected } => "save-state version "@ + decimal(
                found as nat,
            ) + " != supported "@ + decimal(expected as nat),
            Fault::BiosMismatch => "save state was taken with a different BIOS"@,
            Fault::DiscMismatch => "save state was taken with a different disc"@,
            Fault::Decode(e) => "corrupt save state: "@ + e,
        }
    }
}

impl SaveStateError {
    /// The message that a user sees.
    pub fn message(&self) -> (r: String)
        ensures
            r@ == self@.text(),
    {
        match self {
            SaveStateError::BadMagic => String::from_str("not a 5thPlanet save state"),
            SaveStateError::VersionMismatch { found, expected } => {
                let mut m: String = String::from_str("save-state version ");
                push_decimal(&mut m, *found as u128);
                m.append(" != supported ");
                push_decimal(&mut m, *expected as u128);
                m
            },
            SaveStateError::BiosMismatch => String::from_str(
                "save state was taken with a different BIOS",
            ),
            SaveStateError::DiscMismatch => String::from_str(
                "save state was taken with a different disc",
            ),
            SaveStateError::Decode(e) => {
                let mut m: String = String::from_str("corrupt save state: ");
                m.append(e.as_str());
                m
            },
        }
    }
}

// ---- the header ---------------------------------------------------------------

/// The lowest `k` bytes of a number, lowest first.
pub open spec fn low_bytes(n: u64, k: nat) -> Seq<u8> {
    Seq::new(k, |i: int| (n >> ((8 * i) as u64)) as u8)
}

/// A number in as few bytes as its size asks for: itself up to 250, else a byte
/// that tells the size, and 2, 4 or 8 bytes.
pub open spec fn varint(n: u64) -> Seq<u8> {
    if n <= 250 {
        seq![n as u8]
    } else if n <= 0xFFFF {
        seq![251u8] + low_bytes(n, 2)
    } else if n <= 0xFFFF_FFFF {
        seq![252u8] + low_bytes(n, 4)
    } else {
        seq![253u8] + low_bytes(n, 8)
    }
}

/// The fields of a header, as they are encoded.
pub open spec fn fields_code(magic: Seq<u8>, version: u32, bios_fp: u64, disc_fp: Option<u64>) -> Seq<
    u8,
> {
    magic + varint(version as u64) + varint(bios_fp) + match disc_fp {
        Some(fp) => seq![1u8] + varint(fp),
        None => seq![0u8],
    }
}

/// The fields that bytes start with, and how many bytes those are; or what is
/// wrong with the bytes.
pub uninterp spec fn fields_read(bytes: Seq<u8>) -> Result<
    (Seq<u8>, u32, u64, Option<u64>, int),
    Seq<char>,
>;

/// Encodes the fields of a header.
///
/// Calls `bincode::serde::encode_to_vec` with the standard configuration. The
/// claim: the fields follow each other without framing, bytes as they are,
/// numbers as [`varint`]s, and an option as a byte that tells whether a value
/// follows. Into a vector this does not fail.
#[verifier::external_body]
fn encode_fields(magic: [u8; 4], version: u32, bios_fp: u64, disc_fp: Option<u64>) -> (r: Vec<u8>)
    ensures
        r@ == fields_code(magic@, version, bios_fp, disc_fp),
{
    bincode::serde::encode_to_vec((magic, version, bios_fp, disc_fp), bincode::config::standard())
        .expect("encoding into a vector does not fail")
}

/// Decoded fields, with the bytes that they took.
pub open spec fn fields_of(
    r: Result<(([u8; 4], u32, u64, Option<u64>), usize), String>,
) -> Result<(Seq<u8>, u32, u64, Option<u64>, int), Seq<char>> {
    match r {
        Ok(v) => Ok((v.0.0@, v.0.1, v.0.2, v.0.3, v.1 as int)),
        Err(e) => Err(e@),
    }
}

/// Fields that were encoded at the start of the bytes are what is decoded.
pub open spec fn reads_back(
    bytes: Seq<u8>,
    r: Result<(([u8; 4], u32, u64, Option<u64>), usize), String>,
) -> bool {
    forall|magic: Seq<u8>, version: u32, bios_fp: u64, disc_fp: Option<u64>|
        magic.len() == 4 && (#[trigger] fields_code(
            magic,
            version,
            bios_fp,
            disc_fp,
        )).is_prefix_of(bytes) ==> fields_of(r) == Ok::<
            (Seq<u8>, u32, u64, Option<u64>, int),
            Seq<char>,
        >((magic, version, bios_fp, disc_fp, fields_code(
            magic,
            version,
            bios_fp,
            disc_fp,
        ).len() as int))
}

/// Decodes the fields of a header from the start of some bytes; also gives the
/// bytes read.
///
/// Calls `bincode::serde::decode_from_slice` with the standard configuration, and
/// `to_string` on its error. The claim: the result is a function of the bytes,
/// which [`fields_read`] names, it reads no more than is there, and it gives back
/// what [`encode_fields`] wrote, whatever follows.
#[verifier::external_body]
fn decode_fields(bytes: &[u8]) -> (r: Result<(([u8; 4], u32, u64, Option<u64>), usize), String>)
    ensures
        fields_of(r) == fields_read(bytes@),
        r matches Ok(v) ==> v.1 <= bytes@.len(),
        reads_back(bytes@, r),
{
    match bincode::serde::decode_from_slice(bytes, bincode::config::standard()) {
        Ok(v) => Ok(v),
        Err(e) => Err(e.to_string()),
    }
}

/// Whether bytes start as a save state does.
pub open spec fn is_state(bytes: Seq<u8>) -> bool {
    MAGIC@.is_prefix_of(bytes)
}

fn has_magic(bytes: &[u8]) -> (r: bool)
    ensures
        r == is_state(bytes@),
{
    if bytes.len() < 4 {
        return false;
    }
    let r: bool = same_magic([bytes[0], bytes[1], bytes[2], bytes[3]]);
    proof {
        let head = bytes@.subrange(0, 4);
        assert([bytes@[0], bytes@[1], bytes@[2], bytes@[3]]@ =~= head);
    }
    r
}

impl Header {
    /// The bytes of the header.
    pub open spec fn code(self) -> Seq<u8> {
        fields_code(self.magic@, self.version, self.bios_fp, self.disc_fp)
    }

    /// The header of a state taken with the media of a machine.
    pub open spec fn describes(self, m: Machine) -> bool {
        &&& self.magic@ == MAGIC@
        &&& self.version == VERSION
        &&& self.bios_fp == fnv1a_spec(m.bios)
        &&& self.disc_fp == disc_mark(m.cd.disc)
    }

    /// What keeps a state from being loaded into a machine; `decoded` says whether what
    /// follows the header could be decoded.
    pub open spec fn objection(self, m: Machine, decoded: Result<(), Seq<char>>) -> Option<Fault> {
        if self.magic@ != MAGIC@ {
            Some(Fault::BadMagic)
        } else if self.version != VERSION {
            Some(Fault::VersionMismatch { found: self.version, expected: VERSION })
        } else if decoded is Err {
            Some(Fault::Decode(decoded->Err_0))
        } else if self.bios_fp != fnv1a_spec(m.bios) {
            Some(Fault::BiosMismatch)
        } else if self.disc_fp != disc_mark(m.cd.disc) {
            Some(Fault::DiscMismatch)
        } else {
            None
        }
    }

    /// Reads the header at the start of a save state; also gives where the encoded
    /// machine starts. Bytes that do not start as a save state does are none.
    pub fn read(bytes: &[u8]) -> (r: Result<(Header, usize), SaveStateError>)
        ensures
            !is_state(bytes@) ==> (r matches Err(x) && x@ == Fault::BadMagic),
            is_state(bytes@) ==> (match fields_read(bytes@) {
                Ok(f) => r matches Ok((h, at)) && h.magic@ == f.0 && h.version == f.1 && h.bios_fp
                    == f.2 && h.disc_fp == f.3 && at == f.4 && at <= bytes@.len(),
                Err(e) => r matches Err(x) && x@ == Fault::Decode(e),
            }),
            forall|h: Header|
                h.magic@ == MAGIC@ && (#[trigger] h.code()).is_prefix_of(bytes@) ==> (r matches Ok((x, at))
                && x.magic@ == h.magic@ && x.version == h.version && x.bios_fp == h.bios_fp
                && x.disc_fp == h.disc_fp && at == h.code().len()),
    {
        if !has_magic(bytes) {
            proof {
                assert forall|h: Header| h.magic@ == MAGIC@ implies !(
                #[trigger] h.code()).is_prefix_of(bytes@) by {
                    if h.code().is_prefix_of(bytes@) {
                        assert(MAGIC@ =~= h.code().subrange(0, 4));
                        assert(h.code().subrange(0, 4) =~= bytes@.subrange(0, 4));
                    }
                }
            }
            return Err(SaveStateError::BadMagic);
        }
        match decode_fields(bytes) {
            Ok(v) => {
                let f: ([u8; 4], u32, u64, Option<u64>) = v.0;
                Ok((Header { magic: f.0, version: f.1, bios_fp: f.2, disc_fp: f.3 }, v.1))
            },
            Err(e) => Err(SaveStateError::Decode(e)),
        }
    }
}

/// The fingerprint of the disc, if there is one.
pub open spec fn disc_mark(disc: Option<Media>) -> Option<u64> {
    match disc {
        Some(m) => Some(m.fingerprint),
        None => None,
    }
}

fn same_magic(a: [u8; 4]) -> (r: bool)
    ensures
        r == (a@ == MAGIC@),
{
    let mut i: usize = 0;
    while i < 4
        invariant
            i <= 4,
            forall|j: int| 0 <= j < i ==> a@[j] == MAGIC@[j],
        decreases 4 - i,
    {
        if a[i] != MAGIC[i] {
            return false;
        }
        i += 1;
    }
    assert(a@ =~= MAGIC@);
    true
}

// ---- the machine --------------------------------------------------------------

impl Machine {
    /// A decoded machine with the media of the one that it replaces, and without
    /// audio made before the state was taken.
    pub open spec fn with_media_of(self, live: Machine) -> Machine {
        Machine {
            bios: live.bios,
            cd: CdState {
                disc: live.cd.disc,
                audio: Audio { fifo: Seq::empty(), primed: false },
                ..self.cd
            },
            chip: Chip { out: Seq::empty(), ..self.chip },
            cart: match self.cart {
                Cart::Rom { .. } => Cart::Rom {
                    bytes: match live.cart {
                        Cart::Rom { bytes } => bytes,
                        _ => Seq::empty(),
                    },
                },
                c => c,
            },
            ..self
        }
    }
}

/// Whether a machine was decoded, or why not.
pub open spec fn decoding<S: SectorSource>(machine: Result<SaturnBus<S>, String>) -> Result<
    (),
    Seq<char>,
> {
    match machine {
        Ok(_) => Ok(()),
        Err(e) => Err(e@),
    }
}

impl<S: SectorSource> SaturnBus<S> {
    fn disc_fp(&self) -> (r: Option<u64>)
        ensures
            r == disc_mark(self@.cd.disc),
    {
        proof {
            bus_state(*self);
        }
        match self.cd_block.disc() {
            Some(d) => Some(d.fingerprint()),
            None => None,
        }
    }

    /// The header of a state taken now.
    pub fn header(&self) -> (r: Header)
        ensures
            r.describes(self@),
    {
        proof {
            bus_state(*self);
        }
        Header {
            magic: MAGIC,
            version: VERSION,
            bios_fp: fnv1a(self.bios.image()),
            disc_fp: self.disc_fp(),
        }
    }

    /// The save state that holds an encoded machine, with the media of this one.
    pub fn save_state(&self, machine: &[u8]) -> (r: Vec<u8>)
        ensures
            exists|h: Header| #[trigger] h.describes(self@) && r@ == h.code() + machine@,
    {
        let h: Header = self.header();
        let mut r: Vec<u8> = encode_fields(h.magic, h.version, h.bios_fp, h.disc_fp);
        r.extend_from_slice(machine);
        assert(r@ =~= h.code() + machine@);
        r
    }

    /// Loads a state, of which the header and the decoded machine (or why it could
    /// not be decoded) are given. The media are kept. A state that does not fit
    /// changes nothing: one that is foreign or of another version, that could not be
    /// decoded, or that was taken with other media.
    pub fn load_state(&mut self, header: &Header, machine: Result<SaturnBus<S>, String>) -> (r:
        Result<(), SaveStateError>)
        ensures
            (match header.objection(old(self)@, decoding(machine)) {
                Some(f) => r matches Err(x) && x@ == f && *final(self) == *old(self),
                None => {
                    let m = machine->Ok_0;
                    &&& r is Ok
                    &&& final(self)@ == m@.with_media_of(old(self)@)
                    &&& final(self).cd_block.disc == old(self).cd_block.disc
                    &&& m@.wf() ==> final(self)@.wf()
                    &&& final(self).scsp.probes == m.scsp.probes
                    &&& final(self).sound == m.sound
                    &&& final(self).abus_bbus == m.abus_bbus
                },
            }),
    {
        proof {
            bus_state(*old(self));
        }
        if !same_magic(header.magic) {
            return Err(SaveStateError::BadMagic);
        }
        if header.version != VERSION {
            return Err(
                SaveStateError::VersionMismatch { found: header.version, expected: VERSION },
            );
        }
        let mut other: SaturnBus<S> = match machine {
            Ok(m) => m,
            Err(e) => {
                return Err(SaveStateError::Decode(e));
            },
        };
        if header.bios_fp != fnv1a(self.bios.image()) {
            return Err(SaveStateError::BiosMismatch);
        }
        let same_disc: bool = match (header.disc_fp, self.disc_fp()) {
            (Some(a), Some(b)) => a == b,
            (None, None) => true,
            _ => false,
        };
        if !same_disc {
            return Err(SaveStateError::DiscMismatch);
        }
        let ghost live = *self;
        let ghost loaded = other;
        std::mem::swap(self, &mut other);
        let disc: Option<S> = other.cd_block.take_disc();
        self.cd_block.restore_disc(disc);
        self.cd_block.clear_audio_buffer();
        self.scsp.clear_output_buffer();
        self.bios = other.bios;
        let rom: Vec<u8> = match other.cartridge {
            Cartridge::Rom { bytes } => bytes,
            _ => Vec::new(),
        };
        let is_rom: bool = match &self.cartridge {
            Cartridge::Rom { .. } => true,
            _ => false,
        };
        if is_rom {
            self.cartridge = Cartridge::Rom { bytes: rom };
        }
        proof {
            bus_state(live);
            bus_state(loaded);
            bus_state(*self);
            reveal(cd_wf);
            reveal(chip_wf);
        }
        Ok(())
    }
}

// ---- laws ---------------------------------------------------------------------

/// A state is accepted by a machine with the media that it was taken with.
pub proof fn own_state_is_accepted(h: Header, m: Machine)
    requires
        h.describes(m),
    ensures
        h.objection(m, Ok(())) is None,
{
}

/// A state is refused by a machine whose BIOS or disc has another fingerprint, or
/// that has a disc where there was none, or none where there was one.
pub proof fn other_media_are_refused(h: Header, taken: Machine, m: Machine)
    requires
        h.describes(taken),
    ensures
        fnv1a_spec(m.bios) != fnv1a_spec(taken.bios) ==> h.objection(m, Ok(())) == Some(
            Fault::BiosMismatch,
        ),
        fnv1a_spec(m.bios) == fnv1a_spec(taken.bios) && disc_mark(m.cd.disc) != disc_mark(
            taken.cd.disc,
        ) ==> h.objection(m, Ok(())) == Some(Fault::DiscMismatch),
        (m.cd.disc is Some) != (taken.cd.disc is Some) ==> h.objection(m, Ok(())) is Some,
{
}

/// A foreign or stale file fails as such, whether or not the rest of it can be
/// decoded, and whatever the media.
pub proof fn foreign_states_fail_cleanly(h: Header, m: Machine, decoded: Result<(), Seq<char>>)
    ensures
        h.magic@ != MAGIC@ ==> h.objection(m, decoded) == Some(Fault::BadMagic),
        h.magic@ == MAGIC@ && h.version != VERSION ==> h.objection(m, decoded) == Some(
            Fault::VersionMismatch { found: h.version, expected: VERSION },
        ),
{
}

/// A machine that was encoded without its media comes back whole, but for audio
/// that was not yet played, in a machine with the same media.
pub proof fn machine_comes_back_whole(taken: Machine, decoded: Machine, live: Machine)
    requires
        live.bios == taken.bios,
        live.cd.disc == taken.cd.disc,
        live.cart == taken.cart,
        decoded == (Machine {
            bios: decoded.bios,
            cd: CdState { disc: decoded.cd.disc, audio: decoded.cd.audio, ..taken.cd },
            chip: Chip { out: decoded.chip.out, ..taken.chip },
            cart: decoded.cart,
            ..taken
        }),
        (match taken.cart {
            Cart::Rom { .. } => decoded.cart is Rom,
            c => decoded.cart == c,
        }),
    ensures
        decoded.with_media_of(live) == (Machine {
            cd: CdState { audio: Audio { fifo: Seq::empty(), primed: false }, ..taken.cd },
            chip: Chip { out: Seq::empty(), ..taken.chip },
            ..taken
        }),
{
}

} // verus!
