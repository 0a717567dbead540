//! CD-ROM media: tracks, table of contents and FAD-addressed sector reads.

use vstd::prelude::*;
use crate::bits::{casts, low_bits, right_shifts};
use vstd::string::StringExecFns;
use crate::text::{decimal, push_decimal};

verus! {

/// FAD = LBA + this. The CD lead-in is 150 sectors (2 s at 75 Hz).
pub const FAD_OFFSET: u32 = 150;

/// User-data bytes per sector, the unit the CD-block buffers and transfers.
pub const SECTOR_USER: usize = 2048;

/// Bytes of a raw on-disc sector.
pub const SECTOR_RAW: usize = 2352;

/// 64-bit FNV-1a over a byte sequence.
pub open spec fn fnv1a_spec(bytes: Seq<u8>) -> u64
    decreases bytes.len(),
{
    if bytes.len() == 0 {
        0xcbf2_9ce4_8422_2325
    } else {
        (fnv1a_spec(bytes.drop_last()) ^ bytes.last() as u64).wrapping_mul(0x0000_0100_0000_01B3)
    }
}

/// 64-bit FNV-1a over a byte slice.
pub fn fnv1a(bytes: &[u8]) -> (r: u64)
    ensures
        r == fnv1a_spec(bytes@),
{
    let mut h: u64 = 0xcbf2_9ce4_8422_2325;
    let mut i: usize = 0;
    while i < bytes.len()
        invariant
            i <= bytes@.len(),
            h == fnv1a_spec(bytes@.take(i as int)),
        decreases bytes.len() - i,
    {
        assert(bytes@.take(i + 1).drop_last() =~= bytes@.take(i as int));
        h = (h ^ bytes[i] as u64).wrapping_mul(0x0000_0100_0000_01B3);
        i += 1;
    }
    assert(bytes@.take(i as int) =~= bytes@);
    h
}

/// Truncating a count to 32 bits never makes it larger, and keeps one that
/// fits.
proof fn truncation_shrinks(n: usize)
    ensures
        n as u32 <= n,
        n <= u32::MAX ==> n as u32 == n,
{
    assert(n as u32 <= n) by (bit_vector);
}

/// The geometry of one track as the drive sees it.
#[derive(Clone, Copy, Debug, PartialEq, Eq, Structural)]
pub struct TrackInfo {
    /// 1-based track number.
    pub number: u8,
    /// `(control << 4) | adr`.
    pub ctrl_addr: u8,
    /// FAD of the track's first sector.
    pub start_fad: u32,
    /// Length in sectors.
    pub length: u32,
    /// Red Book audio (else a data track).
    pub is_audio: bool,
}

/// What a drive can read from a medium: the track table, the table of
/// contents, and the readable sectors by FAD.
#[verifier::ext_equal]
pub struct Media {
    /// Number of the first track.
    pub first: u8,
    /// Number of the last track.
    pub last: u8,
    /// FAD of the lead-out.
    pub lead_out: u32,
    /// The table of contents, 408 bytes.
    pub toc: Seq<u8>,
    /// The track that holds each FAD.
    pub tracks: Map<u32, TrackInfo>,
    /// The 2048-byte user payload of each readable sector.
    pub sectors: Map<u32, Seq<u8>>,
    /// The on-disc bytes of each readable sector (at most 2352).
    pub raw: Map<u32, Seq<u8>>,
    /// The Mode-2 subheader `(channel, file, submode, coding)` of the sectors
    /// that carry one.
    pub subheaders: Map<u32, (u8, u8, u8, u8)>,
    /// Fingerprint of the medium.
    pub fingerprint: u64,
}

impl Media {
    /// The track under `fad`.
    pub open spec fn track_at(self, fad: u32) -> Option<TrackInfo> {
        if self.tracks.dom().contains(fad) {
            Some(self.tracks[fad])
        } else {
            None
        }
    }

    /// The user payload at `fad`.
    pub open spec fn sector_at(self, fad: u32) -> Option<Seq<u8>> {
        if self.sectors.dom().contains(fad) {
            Some(self.sectors[fad])
        } else {
            None
        }
    }

    /// The on-disc bytes at `fad`; empty where nothing can be read.
    pub open spec fn raw_at(self, fad: u32) -> Seq<u8> {
        if self.raw.dom().contains(fad) {
            self.raw[fad]
        } else {
            Seq::empty()
        }
    }

    /// The subheader at `fad`.
    pub open spec fn subheader_at(self, fad: u32) -> Option<(u8, u8, u8, u8)> {
        if self.subheaders.dom().contains(fad) {
            Some(self.subheaders[fad])
        } else {
            None
        }
    }

    /// The track numbers are those of a disc that can be addressed by track:
    /// they run upwards from at least 1 and have a slot in the table of
    /// contents.
    pub open spec fn numbered(self) -> bool {
        1 <= self.first <= self.last <= 102
    }
}

/// A medium the CD drive can read from: a disc image, or a live drive.
pub trait SectorSource {
    /// What can be read from this medium.
    spec fn media(&self) -> Media;

    /// The track that holds `fad`, if any.
    fn track_at_fad(&self, fad: u32) -> (r: Option<TrackInfo>)
        ensures
            r == self.media().track_at(fad),
            r matches Some(t) ==> t.start_fad <= fad < t.start_fad + t.length,
    ;

    /// Number of the first track.
    fn first_track(&self) -> (r: u8)
        ensures
            r == self.media().first,
    ;

    /// Number of the last track.
    fn last_track(&self) -> (r: u8)
        ensures
            r == self.media().last,
    ;

    /// FAD of the lead-out.
    fn lead_out_fad(&self) -> (r: u32)
        ensures
            r == self.media().lead_out,
    ;

    /// The 408-byte table of contents.
    fn toc(&self) -> (r: [u8; 408])
        ensures
            r@ == self.media().toc,
    ;

    /// Copies the user payload of the sector at `fad` into `out`. Returns
    /// `false` where there is no such sector.
    fn read_sector(&self, fad: u32, out: &mut [u8]) -> (r: bool)
        requires
            old(out)@.len() == SECTOR_USER,
        ensures
            r == self.media().sectors.dom().contains(fad),
            final(out)@.len() == SECTOR_USER,
            r ==> final(out)@ == self.media().sectors[fad],
    ;

    /// Copies the on-disc bytes of the sector at `fad` into `out` and returns
    /// how many there are, 0 where there is no such sector.
    fn read_full_sector(&self, fad: u32, out: &mut [u8]) -> (n: usize)
        requires
            old(out)@.len() == SECTOR_RAW,
        ensures
            n == self.media().raw_at(fad).len(),
            n <= SECTOR_RAW,
            final(out)@.len() == SECTOR_RAW,
            final(out)@.take(n as int) == self.media().raw_at(fad),
    ;

    /// The Mode-2 subheader `(channel, file, submode, coding)` at `fad`.
    fn subheader(&self, fad: u32) -> (r: Option<(u8, u8, u8, u8)>)
        ensures
            r == self.media().subheader_at(fad),
    ;

    /// A fingerprint of the medium, to tell two media apart.
    fn fingerprint(&self) -> (r: u64)
        ensures
            r == self.media().fingerprint,
    ;
}

/// Track data type, which fixes where the 2048-byte user payload sits inside a
/// raw 2352-byte sector (and the `ctrl/adr` reported in status and contents).
#[derive(Clone, Copy, Debug, PartialEq, Eq, Structural)]
pub enum TrackMode {
    /// Red Book audio (2352 bytes, all sample data).
    Audio,
    /// Mode 1 data: 12 sync + 4 header + 2048 user + 288 EDC/ECC.
    Mode1,
    /// Mode 2 (Form 1) data: 12 sync + 4 header + 8 subheader + 2048 user.
    Mode2,
}

impl TrackMode {
    /// Where the user payload starts in a raw sector.
    pub open spec fn user_offset(self) -> nat {
        match self {
            TrackMode::Audio => 0,
            TrackMode::Mode1 => 16,
            TrackMode::Mode2 => 24,
        }
    }

    /// The `ctrl/adr` byte: data tracks `0x41`, audio tracks `0x01`.
    pub open spec fn ctrl(self) -> u8 {
        match self {
            TrackMode::Audio => 0x01,
            _ => 0x41,
        }
    }

    /// Byte offset of the user payload within a raw 2352-byte sector.
    pub fn user_offset_2352(self) -> (r: usize)
        ensures
            r == self.user_offset(),
    {
        match self {
            TrackMode::Audio => 0,
            TrackMode::Mode1 => 16,
            TrackMode::Mode2 => 24,
        }
    }

    /// The `ctrl/adr` byte: control in the high nibble, ADR = 1 in the low.
    pub fn ctrl_addr(self) -> (r: u8)
        ensures
            r == self.ctrl(),
    {
        match self {
            TrackMode::Audio => 0x01,
            _ => 0x41,
        }
    }
}

/// One track: where it lives in the image and its disc geometry.
#[derive(Clone, Copy, Debug, PartialEq, Eq, Structural)]
pub struct Track {
    /// 1-based track number.
    pub number: u8,
    pub mode: TrackMode,
    /// FAD of this track's first sector (`LBA + 150`).
    pub start_fad: u32,
    /// Length in sectors.
    pub length: u32,
    /// Byte offset of this track's first sector in the image.
    pub image_offset: usize,
    /// On-disc bytes per sector (2048 cooked, 2336, or 2352 raw).
    pub sector_size: usize,
}

impl Track {
    /// The FADs of this track.
    pub open spec fn holds(self, fad: u32) -> bool {
        self.start_fad <= fad < self.start_fad + self.length
    }

    /// The track's geometry as the drive sees it.
    pub open spec fn info(self) -> TrackInfo {
        TrackInfo {
            number: self.number,
            ctrl_addr: self.mode.ctrl(),
            start_fad: self.start_fad,
            length: self.length,
            is_audio: self.mode == TrackMode::Audio,
        }
    }

    /// The track's sectors lie within an image of `len` bytes.
    pub open spec fn within(self, len: nat) -> bool {
        &&& self.sector_size == 2048 || self.sector_size == 2336 || self.sector_size == 2352
        &&& self.image_offset + self.length * self.sector_size <= len
    }

    /// Image offset of the sector at `fad`.
    pub open spec fn sector_base(self, fad: u32) -> int {
        self.image_offset + (fad - self.start_fad) * self.sector_size
    }

    /// Bytes ahead of the user payload in a sector. A Mode-2 sector of 2336 bytes has its
    /// subheader there, and no sync and header.
    pub open spec fn user_skip(self) -> nat {
        if self.sector_size == SECTOR_RAW {
            self.mode.user_offset()
        } else if self.sector_size == 2336 && self.mode == TrackMode::Mode2 {
            8
        } else {
            0
        }
    }

    /// Image offset of the user payload at `fad`.
    pub open spec fn user_base(self, fad: u32) -> int {
        self.sector_base(fad) + self.user_skip()
    }

    /// `(control << 4) | adr` for status reports and the table of contents.
    pub fn ctrl_addr(&self) -> (r: u8)
        ensures
            r == self.mode.ctrl(),
    {
        self.mode.ctrl_addr()
    }
}

/// Index of the first track from `from` on that holds `fad`; the number of
/// tracks if none does.
pub open spec fn track_index(tracks: Seq<Track>, fad: u32, from: int) -> int
    decreases tracks.len() - from,
{
    if from >= tracks.len() {
        tracks.len() as int
    } else if tracks[from].holds(fad) {
        from
    } else {
        track_index(tracks, fad, from + 1)
    }
}

/// The contents of a [`Disc`].
#[verifier::ext_equal]
pub struct DiscView {
    /// The image: the bytes of all sectors.
    pub image: Seq<u8>,
    pub tracks: Seq<Track>,
    pub lead_out: u32,
}

impl DiscView {
    /// Every track lies within the image.
    pub open spec fn wf(self) -> bool {
        forall|i: int| 0 <= i < self.tracks.len() ==> (#[trigger] self.tracks[i]).within(
            self.image.len(),
        )
    }

    /// The track that holds `fad`: the first one in the table.
    pub open spec fn track_of(self, fad: u32) -> Option<Track> {
        let i = track_index(self.tracks, fad, 0);
        if i < self.tracks.len() {
            Some(self.tracks[i])
        } else {
            None
        }
    }

    /// The user payload of the sector at `fad`: 2048 bytes of the image.
    pub open spec fn user_at(self, fad: u32) -> Option<Seq<u8>> {
        match self.track_of(fad) {
            Some(t) => if t.user_base(fad) + SECTOR_USER <= self.image.len() {
                Some(self.image.subrange(t.user_base(fad), t.user_base(fad) + SECTOR_USER))
            } else {
                None
            },
            None => None,
        }
    }

    /// The on-disc bytes of the sector at `fad`.
    pub open spec fn raw_at(self, fad: u32) -> Option<Seq<u8>> {
        match self.track_of(fad) {
            Some(t) => Some(
                self.image.subrange(t.sector_base(fad), t.sector_base(fad) + t.sector_size),
            ),
            None => None,
        }
    }

    /// The subheader of the sector at `fad`: a raw Mode-2 sector has one, file,
    /// channel, submode and coding in bytes 16 to 19.
    pub open spec fn subheader_at(self, fad: u32) -> Option<(u8, u8, u8, u8)> {
        match self.track_of(fad) {
            Some(t) => if t.mode == TrackMode::Mode2 && t.sector_size == SECTOR_RAW {
                let b = t.sector_base(fad);
                Some((self.image[b + 17], self.image[b + 16], self.image[b + 18], self.image[b + 19]))
            } else {
                None
            },
            None => None,
        }
    }

    pub open spec fn first(self) -> u8 {
        if self.tracks.len() > 0 {
            self.tracks[0].number
        } else {
            1
        }
    }

    pub open spec fn last(self) -> u8 {
        if self.tracks.len() > 0 {
            self.tracks.last().number
        } else {
            1
        }
    }
}

/// The last of the first `k` tracks that has number `n`.
pub open spec fn last_numbered(tracks: Seq<Track>, n: int, k: int) -> Option<Track>
    decreases k,
{
    if k <= 0 {
        None
    } else if tracks[k - 1].number == n {
        Some(tracks[k - 1])
    } else {
        last_numbered(tracks, n, k - 1)
    }
}

/// Four bytes of the table of contents: a control/address byte and a 24-bit
/// number, high byte first.
pub open spec fn toc_entry(ctrl: u8, fad: u32) -> Seq<u8> {
    seq![ctrl, (fad >> 16) as u8, (fad >> 8) as u8, fad as u8]
}

/// Four bytes of the table of contents that name a track.
pub open spec fn toc_number(ctrl: u8, number: u8) -> Seq<u8> {
    seq![ctrl, number, 0u8, 0u8]
}

impl DiscView {
    /// The control/address byte of track `n`, `0xFF` where there is none with
    /// a slot in the table of contents.
    pub open spec fn ctrl_of(self, n: u8) -> u8 {
        match last_numbered(self.tracks, n as int, self.tracks.len() as int) {
            Some(t) => if 1 <= n <= 99 {
                t.mode.ctrl()
            } else {
                0xFF
            },
            None => 0xFF,
        }
    }

    /// Slot `n` (from 1) of the table of contents: the track's control/address
    /// byte and start FAD, or all ones where there is no such track.
    pub open spec fn toc_slot(self, n: int) -> Seq<u8> {
        match last_numbered(self.tracks, n, self.tracks.len() as int) {
            Some(t) => toc_entry(t.mode.ctrl(), t.start_fad),
            None => seq![0xFFu8, 0xFFu8, 0xFFu8, 0xFFu8],
        }
    }

    /// The table of contents: 99 track slots, then the first track, the last
    /// track and the lead-out.
    pub open spec fn toc(self) -> Seq<u8> {
        Seq::new(
            408,
            |i: int|
                if i < 396 {
                    self.toc_slot(i / 4 + 1)[i % 4]
                } else if i < 400 {
                    toc_number(self.ctrl_of(self.first()), self.first())[i - 396]
                } else if i < 404 {
                    toc_number(self.ctrl_of(self.last()), self.last())[i - 400]
                } else {
                    toc_entry(self.ctrl_of(self.first()), self.lead_out)[i - 404]
                },
        )
    }

    /// What a drive can read from the disc.
    pub open spec fn media(self) -> Media {
        Media {
            first: self.first(),
            last: self.last(),
            lead_out: self.lead_out,
            toc: self.toc(),
            tracks: Map::new(
                |fad: u32| self.track_of(fad) is Some,
                |fad: u32| self.track_of(fad)->Some_0.info(),
            ),
            sectors: Map::new(
                |fad: u32| self.user_at(fad) is Some,
                |fad: u32| self.user_at(fad)->Some_0,
            ),
            raw: Map::new(
                |fad: u32| self.raw_at(fad) is Some,
                |fad: u32| self.raw_at(fad)->Some_0,
            ),
            subheaders: Map::new(
                |fad: u32| self.subheader_at(fad) is Some,
                |fad: u32| self.subheader_at(fad)->Some_0,
            ),
            fingerprint: fnv1a_spec(self.image),
        }
    }
}

impl DiscView {
    /// A disc of one data track at FAD 150, with the whole 2048-byte sectors of
    /// an image.
    pub open spec fn iso(image: Seq<u8>) -> DiscView {
        let n = (image.len() / 2048) as u32;
        DiscView {
            image,
            tracks: seq![
                Track {
                    number: 1,
                    mode: TrackMode::Mode1,
                    start_fad: FAD_OFFSET,
                    length: n,
                    image_offset: 0,
                    sector_size: SECTOR_USER,
                },
            ],
            lead_out: FAD_OFFSET.wrapping_add(n),
        }
    }
}

/// A track as an image description gives it: number, mode, bytes per sector and
/// image offset.
pub type PendingTrack = (u8, TrackMode, usize, usize);

/// Image offset at which track `i` ends: where the next one starts, or the end
/// of the image.
pub open spec fn pending_end(len: nat, raw: Seq<PendingTrack>, i: int) -> int {
    if i + 1 < raw.len() {
        raw[i + 1].3 as int
    } else {
        len as int
    }
}

/// Track `i` does not lie within the image, or ends before it starts.
pub open spec fn pending_bad(len: nat, raw: Seq<PendingTrack>, i: int) -> bool {
    raw[i].3 > len || pending_end(len, raw, i) < raw[i].3
}

/// The first track from `from` on that is bad; the number of tracks if none is.
pub open spec fn first_bad(len: nat, raw: Seq<PendingTrack>, from: int) -> int
    decreases raw.len() - from,
{
    if from >= raw.len() {
        raw.len() as int
    } else if pending_bad(len, raw, from) {
        from
    } else {
        first_bad(len, raw, from + 1)
    }
}

/// Sectors of the image ahead of track `n`: those of each track before it in its own
/// sector size, and what lies ahead of the first track in that one's.
pub open spec fn sectors_before(len: nat, raw: Seq<PendingTrack>, n: int) -> int
    decreases n,
{
    if n <= 0 {
        raw[0].3 as int / raw[0].2 as int
    } else {
        sectors_before(len, raw, n - 1) + (pending_end(len, raw, n - 1) - raw[n - 1].3)
            / raw[n - 1].2 as int
    }
}

/// The geometry of track `i`: it runs from its image offset to the next track's,
/// and its FAD counts the sectors ahead of it.
pub open spec fn pending_track(len: nat, raw: Seq<PendingTrack>, i: int) -> Track {
    let (number, mode, sector_size, offset) = raw[i];
    Track {
        number,
        mode,
        start_fad: FAD_OFFSET.wrapping_add(sectors_before(len, raw, i) as u32),
        length: ((pending_end(len, raw, i) - offset) / sector_size as int) as u32,
        image_offset: offset,
        sector_size,
    }
}

/// The disc that an image and its tracks make, or what is wrong with them.
pub open spec fn pending_disc(image: Seq<u8>, raw: Seq<PendingTrack>) -> Result<
    DiscView,
    Seq<char>,
> {
    let bad = first_bad(image.len(), raw, 0);
    if raw.len() == 0 {
        Err("no tracks"@)
    } else if bad < raw.len() {
        Err(
            "track "@ + decimal(raw[bad].0 as nat) + " offset "@ + decimal(raw[bad].3 as nat)
                + " past image"@,
        )
    } else {
        let sectors = sectors_before(image.len(), raw, raw.len() as int);
        Ok(
            DiscView {
                image,
                tracks: Seq::new(raw.len(), |i: int| pending_track(image.len(), raw, i)),
                lead_out: FAD_OFFSET.wrapping_add(sectors as u32),
            },
        )
    }
}

/// The result is the disc, or the message, that the model says.
pub open spec fn agrees(r: Result<Disc, String>, model: Result<DiscView, Seq<char>>) -> bool {
    match (r, model) {
        (Ok(d), Ok(v)) => d@ == v,
        (Err(e), Err(m)) => e@ == m,
        _ => false,
    }
}

/// The bytes per sector that images come in.
pub open spec fn sector_size_ok(n: usize) -> bool {
    n == 2048 || n == 2336 || n == 2352
}

/// A disc image: the bytes of its sectors plus the track table.
#[derive(Debug)]
pub struct Disc {
    image: Vec<u8>,
    tracks: Vec<Track>,
    /// FAD of the lead-out (one past the last user sector).
    lead_out_fad: u32,
}

impl View for Disc {
    type V = DiscView;

    closed spec fn view(&self) -> DiscView {
        DiscView { image: self.image@, tracks: self.tracks@, lead_out: self.lead_out_fad }
    }
}

impl Clone for Disc {
    fn clone(&self) -> (r: Disc)
        ensures
            r@ == self@,
    {
        proof {
            use_type_invariant(self);
        }
        let image = self.image.clone();
        let tracks = self.tracks.clone();
        assert(image@ =~= self.image@);
        assert(tracks@ =~= self.tracks@);
        Disc { image, tracks, lead_out_fad: self.lead_out_fad }
    }
}

proof fn track_index_props(tracks: Seq<Track>, fad: u32, from: int)
    requires
        0 <= from <= tracks.len(),
    ensures
        from <= track_index(tracks, fad, from) <= tracks.len(),
        track_index(tracks, fad, from) < tracks.len() ==> tracks[track_index(
            tracks,
            fad,
            from,
        )].holds(fad),
    decreases tracks.len() - from,
{
    if from < tracks.len() && !tracks[from].holds(fad) {
        track_index_props(tracks, fad, from + 1);
    }
}

/// The sector at a FAD that a track holds lies within the image.
proof fn sector_within(t: Track, fad: u32, len: nat)
    requires
        t.within(len),
        t.holds(fad),
    ensures
        0 <= t.image_offset <= t.sector_base(fad),
        t.sector_base(fad) + t.sector_size <= len,
{
    let rel = fad - t.start_fad;
    assert(rel * t.sector_size + t.sector_size == (rel + 1) * t.sector_size) by (nonlinear_arith);
    assert((rel + 1) * t.sector_size <= t.length * t.sector_size) by (nonlinear_arith)
        requires
            rel + 1 <= t.length,
            0 <= t.sector_size,
    ;
    assert(0 <= rel * t.sector_size) by (nonlinear_arith)
        requires
            0 <= rel,
            0 <= t.sector_size,
    ;
}

/// Image offset of the sector at `fad` of track `t`.
fn sector_start(t: &Track, fad: u32, len: usize) -> (r: usize)
    requires
        t.within(len as nat),
        t.holds(fad),
    ensures
        r == t.sector_base(fad),
        r + t.sector_size <= len,
{
    proof {
        sector_within(*t, fad, len as nat);
        let rel = fad - t.start_fad;
        assert(0 <= rel * t.sector_size) by (nonlinear_arith)
            requires
                0 <= rel,
                0 <= t.sector_size,
        ;
    }
    t.image_offset + (fad - t.start_fad) as usize * t.sector_size
}

impl Disc {
    #[verifier::type_invariant]
    closed spec fn inv(&self) -> bool {
        self@.wf()
    }

    /// A raw ISO: a single Mode-1 data track of 2048-byte sectors at FAD 150.
    /// Trailing bytes that don't fill a sector are ignored.
    pub fn from_iso(image: Vec<u8>) -> (r: Disc)
        ensures
            r@ == DiscView::iso(image@),
            r@.wf(),
    {
        let n: usize = image.len() / SECTOR_USER;
        let sectors: u32 = n as u32;
        let track = Track {
            number: 1,
            mode: TrackMode::Mode1,
            start_fad: FAD_OFFSET,
            length: sectors,
            image_offset: 0,
            sector_size: SECTOR_USER,
        };
        proof {
            truncation_shrinks(n);
        }
        let mut tracks: Vec<Track> = Vec::new();
        tracks.push(track);
        assert(tracks@ =~= DiscView::iso(image@).tracks);
        assert(sectors * 2048 <= image@.len());
        assert(tracks@[0].within(image@.len()));
        Disc { image, tracks, lead_out_fad: FAD_OFFSET.wrapping_add(sectors) }
    }

    /// Builds a disc from its image and its tracks in order, deriving each
    /// track's FAD and length from the image offsets.
    pub fn from_pending_tracks(image: Vec<u8>, raw: Vec<PendingTrack>) -> (r: Result<Disc, String>)
        requires
            forall|i: int| 0 <= i < raw@.len() ==> sector_size_ok((#[trigger] raw@[i]).2),
        ensures
            agrees(r, pending_disc(image@, raw@)),
    {
        if raw.len() == 0 {
            return Err(String::from_str("no tracks"));
        }
        let len: usize = image.len();
        let mut tracks: Vec<Track> = Vec::new();
        assert(sector_size_ok(raw@[0].2));
        let mut total: usize = raw[0].3 / raw[0].2;
        assert(total <= raw@[0].3) by (nonlinear_arith)
            requires
                total == raw@[0].3 as int / raw@[0].2 as int,
                raw@[0].2 > 0,
        ;
        let mut i: usize = 0;
        while i < raw.len()
            invariant
                i <= raw@.len(),
                len == image@.len(),
                forall|k: int| 0 <= k < raw@.len() ==> sector_size_ok((#[trigger] raw@[k]).2),
                tracks@.len() == i,
                forall|k: int|
                    0 <= k < i ==> #[trigger] tracks@[k] == pending_track(len as nat, raw@, k),
                forall|k: int| 0 <= k < i ==> !pending_bad(len as nat, raw@, k),
                forall|k: int|
                    0 <= k < i && (k + 1 < raw@.len() ==> raw@[k + 1].3 <= len)
                        ==> (#[trigger] tracks@[k]).within(len as nat),
                first_bad(len as nat, raw@, 0) == first_bad(len as nat, raw@, i as int),
                total == sectors_before(len as nat, raw@, i as int),
                i < raw@.len() ==> total <= raw@[i as int].3,
                i == raw@.len() ==> total <= len,
            decreases raw.len() - i,
        {
            let (number, mode, sector_size, offset) = raw[i];
            let end: usize = if i + 1 < raw.len() {
                raw[i + 1].3
            } else {
                len
            };
            if offset > len || end < offset {
                return Err(Self::past_image(number, offset));
            }
            let sectors: usize = (end - offset) / sector_size;
            let track = Track {
                number,
                mode,
                start_fad: FAD_OFFSET.wrapping_add(total as u32),
                length: sectors as u32,
                image_offset: offset,
                sector_size,
            };
            proof {
                truncation_shrinks(sectors);
                assert(sectors <= end - offset) by (nonlinear_arith)
                    requires
                        sectors == (end - offset) / sector_size as int,
                        sector_size > 0,
                        end >= offset,
                ;
                assert(sectors * sector_size <= end - offset) by (nonlinear_arith)
                    requires
                        sectors == (end - offset) / sector_size as int,
                        sector_size > 0,
                        end >= offset,
                ;
                assert(track.length * sector_size <= sectors * sector_size) by (nonlinear_arith)
                    requires
                        track.length <= sectors,
                        sector_size > 0,
                ;
            }
            tracks.push(track);
            total = total + sectors;
            i += 1;
        }
        let lead_out: u32 = FAD_OFFSET.wrapping_add(total as u32);
        proof {
            let v = DiscView { image: image@, tracks: tracks@, lead_out };
            assert forall|k: int| 0 <= k < tracks@.len() implies (#[trigger] tracks@[k]).within(
                len as nat,
            ) by {
                if k + 1 < raw@.len() {
                    assert(!pending_bad(len as nat, raw@, k + 1));
                }
            }
            assert(tracks@ =~= Seq::new(
                raw@.len(),
                |k: int| pending_track(image@.len(), raw@, k),
            ));
        }
        Ok(Disc { image, tracks, lead_out_fad: lead_out })
    }

    /// The message about a track that does not lie within the image.
    fn past_image(number: u8, offset: usize) -> (r: String)
        ensures
            r@ == "track "@ + decimal(number as nat) + " offset "@ + decimal(offset as nat)
                + " past image"@,
    {
        let mut m: String = String::from_str("track ");
        push_decimal(&mut m, number as u128);
        m.append(" offset ");
        push_decimal(&mut m, offset as u128);
        m.append(" past image");
        m
    }

    /// The disc with another lead-out.
    pub fn with_lead_out(self, lead_out: u32) -> (r: Disc)
        ensures
            r@ == (DiscView { lead_out, ..self@ }),
    {
        proof {
            use_type_invariant(&self);
        }
        Disc { image: self.image, tracks: self.tracks, lead_out_fad: lead_out }
    }

    /// The raw image bytes.
    pub fn image(&self) -> (r: &[u8])
        ensures
            r@ == self@.image,
    {
        self.image.as_slice()
    }

    /// The track table.
    pub fn tracks(&self) -> (r: &[Track])
        ensures
            r@ == self@.tracks,
    {
        self.tracks.as_slice()
    }

    /// Index of the track that holds `fad`, the number of tracks if none does.
    fn find_track(&self, fad: u32) -> (r: usize)
        ensures
            r == track_index(self@.tracks, fad, 0),
            r <= self@.tracks.len(),
            r < self@.tracks.len() ==> self@.tracks[r as int].holds(fad),
    {
        let mut i: usize = 0;
        while i < self.tracks.len()
            invariant
                i <= self.tracks@.len(),
                self@.tracks == self.tracks@,
                track_index(self.tracks@, fad, 0) == track_index(self.tracks@, fad, i as int),
            decreases self.tracks.len() - i,
        {
            let t = self.tracks[i];
            if fad >= t.start_fad && (fad as u64) < t.start_fad as u64 + t.length as u64 {
                return i;
            }
            i += 1;
        }
        i
    }

    /// The track containing `fad`, if any.
    pub fn track_at_fad(&self, fad: u32) -> (r: Option<&Track>)
        ensures
            r matches Some(t) ==> self@.track_of(fad) == Some(*t) && t.holds(fad) && t.within(
                self@.image.len(),
            ),
            r is None ==> self@.track_of(fad) is None,
    {
        proof {
            use_type_invariant(self);
        }
        let i: usize = self.find_track(fad);
        if i < self.tracks.len() {
            Some(&self.tracks[i])
        } else {
            None
        }
    }

    /// The 2048-byte user payload of the sector at `fad`, or `None` if `fad`
    /// is outside any track (e.g. the lead-out) or the image is short.
    pub fn read_sector(&self, fad: u32) -> (r: Option<&[u8]>)
        ensures
            match r {
                Some(b) => self@.user_at(fad) == Some(b@) && b@.len() == SECTOR_USER,
                None => self@.user_at(fad) is None,
            },
    {
        match self.track_at_fad(fad) {
            Some(t) => {
                let start: usize = sector_start(t, fad, self.image.len());
                let skip: usize = if t.sector_size == SECTOR_RAW {
                    t.mode.user_offset_2352()
                } else if t.sector_size == 2336 && t.mode == TrackMode::Mode2 {
                    8
                } else {
                    0
                };
                let base: usize = start + skip;
                if self.image.len() - base >= SECTOR_USER {
                    Some(
                        vstd::slice::slice_subrange(
                            self.image.as_slice(),
                            base,
                            base + SECTOR_USER,
                        ),
                    )
                } else {
                    None
                }
            },
            None => None,
        }
    }

    /// The on-disc bytes of the sector at `fad`, or `None` if `fad` is outside
    /// any track.
    pub fn read_full_sector(&self, fad: u32) -> (r: Option<&[u8]>)
        ensures
            match r {
                Some(b) => self@.raw_at(fad) == Some(b@) && b@.len() <= SECTOR_RAW,
                None => self@.raw_at(fad) is None,
            },
    {
        match self.track_at_fad(fad) {
            Some(t) => {
                let start: usize = sector_start(t, fad, self.image.len());
                Some(
                    vstd::slice::slice_subrange(
                        self.image.as_slice(),
                        start,
                        start + t.sector_size,
                    ),
                )
            },
            None => None,
        }
    }

    /// Number of the first track, 1 on a disc without tracks.
    pub fn first_track(&self) -> (r: u8)
        ensures
            r == self@.first(),
    {
        if self.tracks.len() > 0 {
            self.tracks[0].number
        } else {
            1
        }
    }

    /// Number of the last track, 1 on a disc without tracks.
    pub fn last_track(&self) -> (r: u8)
        ensures
            r == self@.last(),
    {
        if self.tracks.len() > 0 {
            self.tracks[self.tracks.len() - 1].number
        } else {
            1
        }
    }

    /// FAD of the lead-out.
    pub fn lead_out_fad(&self) -> (r: u32)
        ensures
            r == self@.lead_out,
    {
        self.lead_out_fad
    }
}

impl DiscView {
    /// The control/address byte of track `n` as far as the first `k` tracks
    /// tell.
    spec fn ctrl_among(self, n: u8, k: int) -> u8 {
        match last_numbered(self.tracks, n as int, k) {
            Some(t) => if 1 <= n <= 99 {
                t.mode.ctrl()
            } else {
                0xFF
            },
            None => 0xFF,
        }
    }

    /// Slot `n` as far as the first `k` tracks tell.
    spec fn slot_among(self, n: int, k: int) -> Seq<u8> {
        match last_numbered(self.tracks, n, k) {
            Some(t) => toc_entry(t.mode.ctrl(), t.start_fad),
            None => seq![0xFFu8, 0xFFu8, 0xFFu8, 0xFFu8],
        }
    }
}

impl Disc {
    /// The table of contents: 102 four-byte entries, high byte first. 99 track
    /// slots (unused ones all ones), then first track, last track and
    /// lead-out.
    pub fn toc(&self) -> (r: [u8; 408])
        ensures
            r@ == self@.toc(),
    {
        let mut toc: [u8; 408] = [0u8; 408];
        let mut n: usize = 0;
        while n < 408
            invariant
                n <= 408,
                forall|i: int| 0 <= i < n ==> #[trigger] toc@[i] == 0xFF,
            decreases 408 - n,
        {
            toc[n] = 0xFF;
            n += 1;
        }
        let mut first_ctrl: u8 = 0xFF;
        let mut last_ctrl: u8 = 0xFF;
        let first: u8 = self.first_track();
        let last: u8 = self.last_track();
        proof {
            assert forall|i: int| 0 <= i < 396 implies #[trigger] toc@[i] == self@.slot_among(
                i / 4 + 1,
                0,
            )[i % 4] by {
                assert(toc@[i] == 0xFF);
                assert(last_numbered(self@.tracks, i / 4 + 1, 0) is None);
                let k = i % 4;
                assert(k == 0 || k == 1 || k == 2 || k == 3);
            }
        }
        let mut k: usize = 0;
        while k < self.tracks.len()
            invariant
                k <= self.tracks@.len(),
                self@.tracks == self.tracks@,
                first == self@.first(),
                last == self@.last(),
                first_ctrl == self@.ctrl_among(first, k as int),
                last_ctrl == self@.ctrl_among(last, k as int),
                forall|i: int|
                    0 <= i < 396 ==> #[trigger] toc@[i] == self@.slot_among(i / 4 + 1, k as int)[i
                        % 4],
            decreases self.tracks.len() - k,
        {
            let t = self.tracks[k];
            if t.number != 0 && t.number <= 99 {
                let p: usize = (t.number as usize - 1) * 4;
                let ca: u8 = t.ctrl_addr();
                let ghost before = toc@;
                toc[p] = ca;
                toc[p + 1] = (t.start_fad >> 16) as u8;
                toc[p + 2] = (t.start_fad >> 8) as u8;
                toc[p + 3] = t.start_fad as u8;
                if t.number == first {
                    first_ctrl = ca;
                }
                if t.number == last {
                    last_ctrl = ca;
                }
                assert forall|i: int| 0 <= i < 396 implies #[trigger] toc@[i] == self@.slot_among(
                    i / 4 + 1,
                    k + 1,
                )[i % 4] by {
                    if i / 4 + 1 != t.number as int {
                        assert(toc@[i] == before[i]);
                    }
                }
            }
            k += 1;
        }
        toc[396] = first_ctrl;
        toc[397] = first;
        toc[398] = 0;
        toc[399] = 0;
        toc[400] = last_ctrl;
        toc[401] = last;
        toc[402] = 0;
        toc[403] = 0;
        toc[404] = first_ctrl;
        toc[405] = (self.lead_out_fad >> 16) as u8;
        toc[406] = (self.lead_out_fad >> 8) as u8;
        toc[407] = self.lead_out_fad as u8;
        assert(toc@ =~= self@.toc());
        toc
    }

    /// The Mode-2 subheader `(channel, file, submode, coding)` of the sector at
    /// `fad`.
    pub fn subheader(&self, fad: u32) -> (r: Option<(u8, u8, u8, u8)>)
        ensures
            r == self@.subheader_at(fad),
    {
        match self.track_at_fad(fad) {
            Some(t) => {
                if t.mode == TrackMode::Mode2 && t.sector_size == SECTOR_RAW {
                    let b: usize = sector_start(t, fad, self.image.len());
                    Some((self.image[b + 17], self.image[b + 16], self.image[b + 18], self.image[b + 19]))
                } else {
                    None
                }
            },
            None => None,
        }
    }

    /// FNV-1a of the image.
    pub fn fingerprint(&self) -> (r: u64)
        ensures
            r == fnv1a_spec(self@.image),
    {
        fnv1a(self.image.as_slice())
    }
}

/// Copies `src` over the start of `out`.
fn copy_prefix(src: &[u8], out: &mut [u8])
    requires
        src@.len() <= old(out)@.len(),
    ensures
        final(out)@.len() == old(out)@.len(),
        final(out)@.take(src@.len() as int) == src@,
{
    let n: usize = src.len();
    let mut i: usize = 0;
    while i < n
        invariant
            i <= n,
            n == src@.len(),
            n <= out@.len(),
            out@.len() == old(out)@.len(),
            forall|j: int| 0 <= j < i ==> out@[j] == src@[j],
        decreases n - i,
    {
        out[i] = src[i];
        i += 1;
    }
}

impl SectorSource for Disc {
    open spec fn media(&self) -> Media {
        self@.media()
    }

    fn track_at_fad(&self, fad: u32) -> (r: Option<TrackInfo>) {
        match self.track_at_fad(fad) {
            Some(t) => {
                let is_audio = t.mode == TrackMode::Audio;
                Some(
                    TrackInfo {
                        number: t.number,
                        ctrl_addr: t.ctrl_addr(),
                        start_fad: t.start_fad,
                        length: t.length,
                        is_audio,
                    },
                )
            },
            None => None,
        }
    }

    fn first_track(&self) -> (r: u8) {
        self.first_track()
    }

    fn last_track(&self) -> (r: u8) {
        self.last_track()
    }

    fn lead_out_fad(&self) -> (r: u32) {
        self.lead_out_fad()
    }

    fn toc(&self) -> (r: [u8; 408]) {
        self.toc()
    }

    fn read_sector(&self, fad: u32, out: &mut [u8]) -> (r: bool) {
        match self.read_sector(fad) {
            Some(b) => {
                copy_prefix(b, out);
                assert(out@.take(SECTOR_USER as int) =~= out@);
                true
            },
            None => false,
        }
    }

    fn read_full_sector(&self, fad: u32, out: &mut [u8]) -> (n: usize) {
        match self.read_full_sector(fad) {
            Some(b) => {
                copy_prefix(b, out);
                b.len()
            },
            None => {
                assert(out@.take(0) =~= Seq::empty());
                0
            },
        }
    }

    fn subheader(&self, fad: u32) -> (r: Option<(u8, u8, u8, u8)>) {
        self.subheader(fad)
    }

    fn fingerprint(&self) -> (r: u64) {
        self.fingerprint()
    }
}

// ---- laws -----------------------------------------------------------------

/// The sectors of an ISO image are read back by FAD from 150 on; there is none
/// in the lead-in, nor from the lead-out on.
pub proof fn iso_is_read_back_by_fad(image: Seq<u8>, fad: u32)
    requires
        image.len() / 2048 + 150 <= u32::MAX,
    ensures
        DiscView::iso(image).lead_out == 150 + image.len() / 2048,
        150 <= fad < DiscView::iso(image).lead_out ==> DiscView::iso(image).user_at(fad) == Some(
            image.subrange((fad - 150) * 2048, (fad - 150) * 2048 + 2048),
        ),
        !(150 <= fad < DiscView::iso(image).lead_out) ==> DiscView::iso(image).user_at(fad) is None,
{
    let d = DiscView::iso(image);
    reveal_with_fuel(track_index, 2);
}

/// What drives read of an ISO image has track numbers that can be addressed.
pub proof fn iso_is_numbered(image: Seq<u8>)
    ensures
        DiscView::iso(image).media().numbered(),
{
}

/// The tracks of a disc have numbers of their own, from 1 to 99.
pub open spec fn distinctly_numbered(tracks: Seq<Track>) -> bool {
    &&& tracks.len() > 0
    &&& forall|i: int| 0 <= i < tracks.len() ==> 1 <= (#[trigger] tracks[i]).number <= 99
    &&& forall|i: int, j: int|
        0 <= i < j < tracks.len() ==> (#[trigger] tracks[i]).number != (#[trigger] tracks[j]).number
}

/// The table of contents holds each track at the slot of its number, all ones where no
/// track has that number, then the first track, the last track and the lead-out.
pub proof fn contents_list_every_track(d: DiscView, n: int)
    requires
        distinctly_numbered(d.tracks),
        1 <= n <= 99,
    ensures
        d.toc().len() == 408,
        forall|i: int|
            0 <= i < d.tracks.len() && (#[trigger] d.tracks[i]).number == n ==> d.toc().subrange(
                4 * (n - 1),
                4 * n,
            ) == toc_entry(d.tracks[i].mode.ctrl(), d.tracks[i].start_fad),
        (forall|i: int| 0 <= i < d.tracks.len() ==> (#[trigger] d.tracks[i]).number != n)
            ==> d.toc().subrange(4 * (n - 1), 4 * n) == seq![0xFFu8, 0xFFu8, 0xFFu8, 0xFFu8],
        d.toc().subrange(396, 400) == toc_number(d.tracks[0].mode.ctrl(), d.tracks[0].number),
        d.toc().subrange(400, 404) == toc_number(
            d.tracks.last().mode.ctrl(),
            d.tracks.last().number,
        ),
        d.toc().subrange(404, 408) == toc_entry(d.tracks[0].mode.ctrl(), d.lead_out),
{
    let t = d.tracks;
    let len = t.len() as int;
    contents_slot(d, n);
    assert forall|i: int| 0 <= i < len && (#[trigger] t[i]).number == n implies d.toc().subrange(
        4 * (n - 1),
        4 * n,
    ) == toc_entry(t[i].mode.ctrl(), t[i].start_fad) by {
        numbered_is_found(t, i, len);
    }
    if forall|i: int| 0 <= i < len ==> (#[trigger] t[i]).number != n {
        unnumbered_is_not_found(t, n, len);
    }
    numbered_is_found(t, 0, len);
    numbered_is_found(t, len - 1, len);
    assert(d.toc().subrange(396, 400) =~= toc_number(d.ctrl_of(d.first()), d.first()));
    assert(d.toc().subrange(400, 404) =~= toc_number(d.ctrl_of(d.last()), d.last()));
    assert(d.toc().subrange(404, 408) =~= toc_entry(d.ctrl_of(d.first()), d.lead_out));
}

proof fn contents_slot(d: DiscView, n: int)
    requires
        1 <= n <= 99,
    ensures
        d.toc().subrange(4 * (n - 1), 4 * n) == d.toc_slot(n),
{
    let s = d.toc().subrange(4 * (n - 1), 4 * n);
    assert(d.toc_slot(n).len() == 4);
    assert forall|j: int| 0 <= j < 4 implies s[j] == d.toc_slot(n)[j] by {
        let i = 4 * (n - 1) + j;
        assert(i / 4 + 1 == n && i % 4 == j);
    }
    assert(s =~= d.toc_slot(n));
}

proof fn numbered_is_found(t: Seq<Track>, i: int, k: int)
    requires
        distinctly_numbered(t),
        0 <= i < k <= t.len(),
    ensures
        last_numbered(t, t[i].number as int, k) == Some(t[i]),
    decreases k,
{
    if i < k - 1 {
        assert(t[i].number != t[k - 1].number);
        numbered_is_found(t, i, k - 1);
    }
}

proof fn unnumbered_is_not_found(t: Seq<Track>, n: int, k: int)
    requires
        0 <= k <= t.len(),
        forall|i: int| 0 <= i < t.len() ==> (#[trigger] t[i]).number != n,
    ensures
        last_numbered(t, n, k) is None,
    decreases k,
{
    if k > 0 {
        assert(t[k - 1].number != n);
        unnumbered_is_not_found(t, n, k - 1);
    }
}

/// A track at the start of the image starts at FAD 150. Each later one starts where the
/// one before it ends, and the lead-out where the last one ends, whatever the sector
/// sizes.
pub proof fn tracks_are_contiguous(image: Seq<u8>, raw: Seq<PendingTrack>, i: int)
    requires
        pending_disc(image, raw) is Ok,
        forall|k: int| 0 <= k < raw.len() ==> sector_size_ok((#[trigger] raw[k]).2),
        150 + sectors_before(image.len(), raw, raw.len() as int) <= u32::MAX,
        0 <= i < raw.len(),
    ensures
        ({
            let d = pending_disc(image, raw)->Ok_0;
            let t = d.tracks;
            &&& t[0].start_fad == 150 + raw[0].3 as int / raw[0].2 as int
            &&& raw[0].3 == 0 ==> t[0].start_fad == 150
            &&& i + 1 < raw.len() ==> t[i + 1].start_fad == t[i].start_fad + t[i].length
            &&& d.lead_out == t[raw.len() - 1].start_fad + t[raw.len() - 1].length
        }),
{
    let n = raw.len() as int;
    first_bad_bounds(image.len(), raw, 0);
    let (x, y) = (raw[0].3 as int, raw[0].2 as int);
    assert(sector_size_ok(raw[0].2));
    assert(x / y >= 0 && (x == 0 ==> x / y == 0)) by (nonlinear_arith)
        requires
            x >= 0,
            y > 0,
    ;
    assert forall|k: int| 0 <= k < n implies 0 <= sectors_before(image.len(), raw, k) <= #[trigger]
    sectors_before(image.len(), raw, k + 1) <= sectors_before(image.len(), raw, n) by {
        sectors_grow(image.len(), raw, 0, k);
        sectors_grow(image.len(), raw, k, k + 1);
        sectors_grow(image.len(), raw, k + 1, n);
    }
    assert(sectors_before(image.len(), raw, 0int + 1) >= 0);
    assert(sectors_before(image.len(), raw, i + 1) >= 0);
    assert(sectors_before(image.len(), raw, (n - 1) + 1) >= 0);
}

/// A FAD is the sector's number in the image plus 150, where the sectors are of one size.
pub proof fn fads_count_sectors(image: Seq<u8>, raw: Seq<PendingTrack>, size: usize, i: int)
    requires
        pending_disc(image, raw) is Ok,
        sector_size_ok(size),
        forall|k: int| 0 <= k < raw.len() ==> (#[trigger] raw[k]).2 == size && raw[k].3 % size == 0,
        150 + raw[i].3 as int / size as int <= u32::MAX,
        0 <= i < raw.len(),
    ensures
        pending_disc(image, raw)->Ok_0.tracks[i].start_fad == 150 + raw[i].3 as int / size as int,
{
    first_bad_bounds(image.len(), raw, 0);
    sectors_are_numbered(image.len(), raw, size, i);
    let (x, y) = (raw[i].3 as int, size as int);
    assert(x / y >= 0) by (nonlinear_arith)
        requires
            x >= 0,
            y > 0,
    ;
}

proof fn sectors_are_numbered(len: nat, raw: Seq<PendingTrack>, size: usize, i: int)
    requires
        first_bad(len, raw, 0) == raw.len(),
        size > 0,
        forall|k: int| 0 <= k < raw.len() ==> (#[trigger] raw[k]).2 == size && raw[k].3 % size == 0,
        0 <= i < raw.len(),
    ensures
        sectors_before(len, raw, i) == raw[i].3 as int / size as int,
    decreases i,
{
    assert(raw[0].2 == size);
    if i > 0 {
        sectors_are_numbered(len, raw, size, i - 1);
        no_bad_before(len, raw, 0, i - 1);
        let (a, b, y) = (raw[i - 1].3 as int, raw[i].3 as int, size as int);
        assert(raw[i - 1].2 == size && a % y == 0);
        assert(a / y + (b - a) / y == b / y) by (nonlinear_arith)
            requires
                a % y == 0,
                y > 0,
        ;
    }
}

proof fn sectors_grow(len: nat, raw: Seq<PendingTrack>, a: int, b: int)
    requires
        0 <= a <= b <= raw.len(),
        first_bad(len, raw, 0) == raw.len(),
        forall|k: int| 0 <= k < raw.len() ==> sector_size_ok((#[trigger] raw[k]).2),
    ensures
        sectors_before(len, raw, a) <= sectors_before(len, raw, b),
    decreases b - a,
{
    if a < b {
        sectors_grow(len, raw, a, b - 1);
        no_bad_before(len, raw, 0, b - 1);
        let (x, y) = (pending_end(len, raw, b - 1) - raw[b - 1].3, raw[b - 1].2 as int);
        assert(x / y >= 0) by (nonlinear_arith)
            requires
                x >= 0,
                y > 0,
        ;
    }
}

proof fn first_bad_bounds(len: nat, raw: Seq<PendingTrack>, from: int)
    ensures
        first_bad(len, raw, from) <= raw.len(),
    decreases raw.len() - from,
{
    if from < raw.len() && !pending_bad(len, raw, from) {
        first_bad_bounds(len, raw, from + 1);
    }
}

proof fn no_bad_before(len: nat, raw: Seq<PendingTrack>, from: int, i: int)
    requires
        0 <= from <= i < first_bad(len, raw, from),
    ensures
        i < raw.len() ==> !pending_bad(len, raw, i),
    decreases i - from,
{
    if from < raw.len() && from < i && !pending_bad(len, raw, from) {
        no_bad_before(len, raw, from + 1, i);
    }
}

// ---- laws of sectors --------------------------------------------------------------

/// Track `i` is the one that a FAD is in.
pub open spec fn is_in(d: DiscView, i: int, fad: u32) -> bool {
    &&& 0 <= i < d.tracks.len()
    &&& d.tracks[i].start_fad <= fad < d.tracks[i].start_fad + d.tracks[i].length
    &&& forall|k: int|
        0 <= k < i ==> !((#[trigger] d.tracks[k]).start_fad <= fad < d.tracks[k].start_fad
            + d.tracks[k].length)
}

proof fn track_is_found(d: DiscView, i: int, fad: u32, from: int)
    requires
        is_in(d, i, fad),
        0 <= from <= i,
    ensures
        track_index(d.tracks, fad, from) == i,
    decreases i - from,
{
    if from < i {
        assert(!(d.tracks[from].start_fad <= fad < d.tracks[from].start_fad + d.tracks[from].length));
        track_is_found(d, i, fad, from + 1);
    }
}

/// The sectors of a track lie one behind the other in the image, from the track's offset
/// on: the one at a FAD is as many sectors in as the FAD is from the track's first.
pub proof fn sectors_lie_one_behind_the_other(d: DiscView, i: int, fad: u32, k: int)
    requires
        d.wf(),
        is_in(d, i, fad),
        0 <= k < d.tracks[i].sector_size,
    ensures
        ({
            let t = d.tracks[i];
            let m = d.media();
            &&& m.raw_at(fad).len() == t.sector_size
            &&& m.raw_at(fad)[k] == d.image[t.image_offset + (fad - t.start_fad) * t.sector_size + k]
            &&& m.track_at(fad) == Some(t.info())
        }),
{
    track_is_found(d, i, fad, 0);
    let t = d.tracks[i];
    assert(t.within(d.image.len()));
    sector_fits(t, fad);
}

proof fn sector_fits(t: Track, fad: u32)
    requires
        t.start_fad <= fad < t.start_fad + t.length,
    ensures
        0 <= (fad - t.start_fad) * t.sector_size,
        (fad - t.start_fad) * t.sector_size + t.sector_size <= t.length * t.sector_size,
{
    let (a, b, c) = (fad - t.start_fad, t.length as int, t.sector_size as int);
    assert(0 <= a * c && a * c + c <= b * c) by (nonlinear_arith)
        requires
            0 <= a < b,
            0 <= c,
    ;
}

/// The user data of a sector is 2048 bytes of it: all of a cooked sector, and in a raw one
/// what is behind sync and header, in Mode 2 behind the subheader as well. A sector of
/// 2336 bytes begins with the subheader.
pub proof fn user_data_is_part_of_the_sector(d: DiscView, i: int, fad: u32)
    requires
        d.wf(),
        is_in(d, i, fad),
    ensures
        ({
            let t = d.tracks[i];
            let raw = d.media().raw_at(fad);
            let user = d.media().sector_at(fad);
            &&& t.sector_size == 2048 ==> user == Some(raw)
            &&& t.sector_size == 2352 && t.mode == TrackMode::Mode1 ==> user == Some(
                raw.subrange(16, 2064),
            )
            &&& t.sector_size == 2352 && t.mode == TrackMode::Mode2 ==> user == Some(
                raw.subrange(24, 2072),
            )
            &&& t.sector_size == 2336 && t.mode == TrackMode::Mode2 ==> user == Some(
                raw.subrange(8, 2056),
            )
        }),
{
    track_is_found(d, i, fad, 0);
    let t = d.tracks[i];
    assert(t.within(d.image.len()));
    sector_fits(t, fad);
    let b = t.sector_base(fad);
    let raw = d.image.subrange(b, b + t.sector_size);
    assert(d.media().raw_at(fad) == raw);
    assert(raw.subrange(16, 2064) =~= d.image.subrange(b + 16, b + 2064) || t.sector_size < 2064);
    assert(raw.subrange(24, 2072) =~= d.image.subrange(b + 24, b + 2072) || t.sector_size < 2072);
    assert(raw.subrange(8, 2056) =~= d.image.subrange(b + 8, b + 2056) || t.sector_size < 2056);
}

/// The subheader of a raw Mode-2 sector is in its bytes 16 to 19: file, channel, submode
/// and coding. Other sectors have none.
pub proof fn subheader_is_part_of_the_sector(d: DiscView, i: int, fad: u32)
    requires
        d.wf(),
        is_in(d, i, fad),
    ensures
        ({
            let t = d.tracks[i];
            let raw = d.media().raw_at(fad);
            let sub = d.media().subheader_at(fad);
            &&& t.mode == TrackMode::Mode2 && t.sector_size == 2352 ==> (sub matches Some(
                (chan, file, submode, coding),
            ) && file == raw[16] && chan == raw[17] && submode == raw[18] && coding == raw[19])
            &&& t.mode != TrackMode::Mode2 || t.sector_size != 2352 ==> sub is None
        }),
{
    track_is_found(d, i, fad, 0);
    let t = d.tracks[i];
    assert(t.within(d.image.len()));
    sector_fits(t, fad);
}

/// The table of contents ends with the first track, the last one and the lead-out.
pub proof fn contents_end_with_the_lead_out(d: DiscView)
    requires
        d.lead_out < 0x100_0000,
    ensures
        ({
            let t = d.media().toc;
            &&& t.len() == 408
            &&& t[397] == d.media().first && t[401] == d.media().last
            &&& 0x1_0000 * t[405] + 0x100 * t[406] + t[407] == d.media().lead_out
            &&& d.tracks.len() > 0 ==> d.media().first == d.tracks[0].number && d.media().last
                == d.tracks.last().number
        }),
{
    let l = d.lead_out;
    let (a, b) = (l >> 16, l >> 8);
    assert(a == l as int / 0x1_0000 && b == l as int / 0x100) by {
        right_shifts();
    }
    assert(a as u8 == a as int % 256 && b as u8 == b as int % 256 && l as u8 == l as int % 256) by {
        casts();
        low_bits();
    }
}

/// Data tracks and audio tracks are told apart by their control byte.
pub proof fn control_tells_data_from_audio(t: Track)
    ensures
        t.info().is_audio <==> t.info().ctrl_addr == 0x01,
        !t.info().is_audio <==> t.info().ctrl_addr == 0x41,
        t.info().is_audio <==> t.mode == TrackMode::Audio,
{
}

} // verus!
