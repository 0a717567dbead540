//! Compressed CD images (CHD): track metadata, and the disc that the decoded
//! frames make.
//!
//! A CD frame of a CHD holds 2352 sector bytes and 96 subcode bytes. The tracks
//! lie one after the other, each padded to a multiple of four frames. Only the
//! sector bytes are kept.

use vstd::prelude::*;
use vstd::slice::slice_subrange;
use vstd::string::StringExecFns;
use vstd::utf8::{decode_utf8, valid_utf8};
use chd::metadata::MetadataTag;
use crate::disc::{agrees, pending_disc, sector_size_ok, Disc, DiscView, PendingTrack, TrackMode};
use crate::text::{
    bounded, chars_of, decimal, find_char, find_from, push_decimal, read_number, same_text,
    skip_spaces, skip_word, space_end, word_end,
};

verus! {

/// Sector bytes per CD frame.
pub const CD_SECTOR_SIZE: usize = 2352;

/// Subcode bytes per CD frame.
pub const CD_SUBCODE_SIZE: usize = 96;

/// Stored bytes per CD frame.
pub const CD_FRAME_SIZE: usize = 2448;

/// Each track is padded to a multiple of this many frames.
pub const CD_TRACK_PADDING: u32 = 4;

/// A track as one metadata entry describes it.
#[derive(Clone, Copy, Debug, PartialEq, Eq, Structural)]
pub struct ChdTrack {
    pub number: u8,
    pub mode: TrackMode,
    /// Length in frames.
    pub frames: u32,
    /// Pregap frames that are stored ahead of the track.
    pub pregap_in_file: u32,
}

// ---- metadata ---------------------------------------------------------------

/// `s` starts with `head`.
pub open spec fn starts_with(s: Seq<char>, head: Seq<char>) -> bool {
    s.len() >= head.len() && s.take(head.len() as int) == head
}

/// The mode of a track type: what counts is its family.
pub open spec fn mode_of(ty: Seq<char>) -> Option<TrackMode> {
    if ty == "AUDIO"@ {
        Some(TrackMode::Audio)
    } else if starts_with(ty, "MODE1"@) {
        Some(TrackMode::Mode1)
    } else if starts_with(ty, "MODE2"@) || starts_with(ty, "CDI"@) {
        Some(TrackMode::Mode2)
    } else {
        None
    }
}

/// What the tokens of a metadata value have said so far.
pub struct MetaTokens {
    pub number: Option<u8>,
    pub ty: Option<Seq<char>>,
    pub frames: Option<u32>,
    pub pregap: u32,
    pub pgtype: Seq<char>,
}

/// The number in `v`, if it fits 32 bits.
pub open spec fn u32_of(v: Seq<char>) -> Option<u32> {
    match bounded(v, 10, 0, u32::MAX as int) {
        Some(n) => Some(n as u32),
        None => None,
    }
}

/// The number in `v`, if it fits 8 bits.
pub open spec fn u8_of(v: Seq<char>) -> Option<u8> {
    match bounded(v, 10, 0, u8::MAX as int) {
        Some(n) => Some(n as u8),
        None => None,
    }
}

impl MetaTokens {
    /// No token has been read.
    pub open spec fn start() -> MetaTokens {
        MetaTokens { number: None, ty: None, frames: None, pregap: 0, pgtype: Seq::empty() }
    }

    /// A `key:value` token. Other keys do not bear on the geometry.
    pub open spec fn token(self, k: Seq<char>, v: Seq<char>) -> MetaTokens {
        if k == "TRACK"@ {
            MetaTokens { number: u8_of(v), ..self }
        } else if k == "TYPE"@ {
            MetaTokens { ty: Some(v), ..self }
        } else if k == "FRAMES"@ {
            MetaTokens { frames: u32_of(v), ..self }
        } else if k == "PREGAP"@ {
            MetaTokens {
                pregap: match u32_of(v) {
                    Some(n) => n,
                    None => 0,
                },
                ..self
            }
        } else if k == "PGTYPE"@ {
            MetaTokens { pgtype: v, ..self }
        } else {
            self
        }
    }

    /// The track that the tokens describe. A pregap type that starts with `V`
    /// means that the pregap is stored; any other pregap is not.
    pub open spec fn track(self) -> Option<ChdTrack> {
        let stored = self.pgtype.len() > 0 && (self.pgtype[0] == 'V' || self.pgtype[0] == 'v');
        match (self.number, self.ty, self.frames) {
            (Some(number), Some(ty), Some(frames)) => match mode_of(ty) {
                Some(mode) => Some(
                    ChdTrack {
                        number,
                        mode,
                        frames,
                        pregap_in_file: if stored {
                            self.pregap
                        } else {
                            0
                        },
                    },
                ),
                None => None,
            },
            _ => None,
        }
    }
}

/// The tokens of `s` from `pos` on are read; `None` if one has no colon.
pub open spec fn tokens_read(s: Seq<char>, pos: int, st: MetaTokens) -> Option<MetaTokens>
    decreases s.len() - pos,
{
    let a = space_end(s, pos);
    let b = word_end(s, a);
    if a >= s.len() {
        Some(st)
    } else if b <= pos || b > s.len() {
        None
    } else {
        let tok = s.subrange(a, b);
        let e = find_from(tok, ':', 0);
        if e >= tok.len() {
            None
        } else {
            tokens_read(s, b, st.token(tok.take(e), tok.skip(e + 1)))
        }
    }
}

/// One past the last of the first `to` characters that is no NUL.
pub open spec fn nul_start(s: Seq<char>, to: int) -> int
    decreases to,
{
    if to <= 0 {
        0
    } else if s[to - 1] == '\0' {
        nul_start(s, to - 1)
    } else {
        to
    }
}

/// The track that a metadata value describes: space-separated `KEY:VALUE`
/// tokens, followed by NULs.
pub open spec fn track_of_metadata(value: Seq<char>) -> Option<ChdTrack> {
    match tokens_read(value.take(nul_start(value, value.len() as int)), 0, MetaTokens::start()) {
        Some(st) => st.track(),
        None => None,
    }
}

fn has_prefix(s: &[char], head: &str) -> (r: bool)
    ensures
        r == starts_with(s@, head@),
{
    let h = chars_of(head);
    if s.len() < h.len() {
        return false;
    }
    let front = slice_subrange(s, 0, h.len());
    assert(front@ =~= s@.take(head@.len() as int));
    same_text(front, head)
}

/// Maps a track type to the mode of its family.
pub fn track_type_to_mode(ty: &str) -> (r: Option<TrackMode>)
    ensures
        r == mode_of(ty@),
{
    let c = chars_of(ty);
    read_mode(c.as_slice())
}

fn read_mode(ty: &[char]) -> (r: Option<TrackMode>)
    ensures
        r == mode_of(ty@),
{
    if same_text(ty, "AUDIO") {
        Some(TrackMode::Audio)
    } else if has_prefix(ty, "MODE1") {
        Some(TrackMode::Mode1)
    } else if has_prefix(ty, "MODE2") || has_prefix(ty, "CDI") {
        Some(TrackMode::Mode2)
    } else {
        None
    }
}

fn read_u32(v: &[char]) -> (r: Option<u32>)
    ensures
        r == u32_of(v@),
{
    match read_number(v, 10, 0, u32::MAX as i64) {
        Some(n) => Some(n as u32),
        None => None,
    }
}

fn read_u8(v: &[char]) -> (r: Option<u8>)
    ensures
        r == u8_of(v@),
{
    match read_number(v, 10, 0, u8::MAX as i64) {
        Some(n) => Some(n as u8),
        None => None,
    }
}

/// What the tokens of a metadata value have said so far.
struct TokenReader {
    number: Option<u8>,
    mode: Option<TrackMode>,
    has_type: bool,
    frames: Option<u32>,
    pregap: u32,
    stored: bool,
}

impl TokenReader {
    /// The reader knows what it needs of the tokens.
    spec fn knows(self, st: MetaTokens) -> bool {
        &&& self.number == st.number
        &&& self.has_type == (st.ty is Some)
        &&& st.ty matches Some(t) ==> self.mode == mode_of(t)
        &&& self.frames == st.frames
        &&& self.pregap == st.pregap
        &&& self.stored == (st.pgtype.len() > 0 && (st.pgtype[0] == 'V' || st.pgtype[0] == 'v'))
    }

    fn read_token(&mut self, k: &[char], v: &[char], Ghost(st): Ghost<MetaTokens>)
        requires
            old(self).knows(st),
        ensures
            final(self).knows(st.token(k@, v@)),
    {
        if same_text(k, "TRACK") {
            self.number = read_u8(v);
        } else if same_text(k, "TYPE") {
            self.has_type = true;
            self.mode = read_mode(v);
        } else if same_text(k, "FRAMES") {
            self.frames = read_u32(v);
        } else if same_text(k, "PREGAP") {
            self.pregap = match read_u32(v) {
                Some(n) => n,
                None => 0,
            };
        } else if same_text(k, "PGTYPE") {
            self.stored = v.len() > 0 && (v[0] == 'V' || v[0] == 'v');
        }
    }
}

/// Parses one track metadata value.
pub fn parse_track_metadata(value: &str) -> (r: Option<ChdTrack>)
    ensures
        r == track_of_metadata(value@),
{
    let c = chars_of(value);
    let all = c.as_slice();
    let mut n: usize = all.len();
    while n > 0
        invariant_except_break
            nul_start(all@, all@.len() as int) == nul_start(all@, n as int),
        invariant
            n <= all@.len(),
        ensures
            n == nul_start(all@, all@.len() as int),
        decreases n,
    {
        if all[n - 1] != '\0' {
            break ;
        }
        n -= 1;
    }
    let s = slice_subrange(all, 0, n);
    assert(s@ =~= value@.take(n as int));
    let mut reader = TokenReader {
        number: None,
        mode: None,
        has_type: false,
        frames: None,
        pregap: 0,
        stored: false,
    };
    let ghost mut st = MetaTokens::start();
    let mut pos: usize = 0;
    loop
        invariant
            pos <= s@.len(),
            reader.knows(st),
            tokens_read(s@, 0, MetaTokens::start()) == tokens_read(s@, pos as int, st),
            track_of_metadata(value@) == (match tokens_read(s@, 0, MetaTokens::start()) {
                Some(st) => st.track(),
                None => None,
            }),
        ensures
            reader.knows(st),
            track_of_metadata(value@) == st.track(),
        decreases s@.len() - pos,
    {
        let a: usize = skip_spaces(s, pos);
        if a >= s.len() {
            break ;
        }
        let b: usize = skip_word(s, a);
        proof {
            space_end_stops(s@, pos as int);
            word_end_moves(s@, a as int);
        }
        let tok = slice_subrange(s, a, b);
        let e: usize = find_char(tok, ':', 0);
        if e >= tok.len() {
            return None;
        }
        let k = slice_subrange(tok, 0, e);
        let v = slice_subrange(tok, e + 1, tok.len());
        assert(k@ =~= tok@.take(e as int));
        assert(v@ =~= tok@.skip(e + 1));
        reader.read_token(k, v, Ghost(st));
        proof {
            st = st.token(k@, v@);
        }
        pos = b;
    }
    if !reader.has_type {
        return None;
    }
    match reader.number {
        None => None,
        Some(number) => match reader.mode {
            None => None,
            Some(mode) => match reader.frames {
                None => None,
                Some(frames) => Some(
                    ChdTrack {
                        number,
                        mode,
                        frames,
                        pregap_in_file: if reader.stored {
                            reader.pregap
                        } else {
                            0
                        },
                    },
                ),
            },
        },
    }
}

proof fn space_end_stops(s: Seq<char>, from: int)
    requires
        0 <= from <= s.len(),
    ensures
        from <= space_end(s, from) <= s.len(),
        space_end(s, from) < s.len() ==> !crate::text::is_space(s[space_end(s, from)]),
    decreases s.len() - from,
{
    if from < s.len() && crate::text::is_space(s[from]) {
        space_end_stops(s, from + 1);
    }
}

proof fn word_end_moves(s: Seq<char>, from: int)
    requires
        0 <= from < s.len(),
        !crate::text::is_space(s[from]),
    ensures
        from < word_end(s, from) <= s.len(),
    decreases s.len() - from,
{
    reveal_with_fuel(word_end, 2);
    if from + 1 < s.len() && !crate::text::is_space(s[from + 1]) {
        word_end_moves(s, from + 1);
    }
}

// ---- frames -------------------------------------------------------------------

/// `n` rounded up to a whole number of paddings.
pub open spec fn padded(n: int) -> int {
    (n + 3) / 4 * 4
}

/// Rounds a count of frames up to the next multiple of [`CD_TRACK_PADDING`].
pub fn pad_to_track_boundary(frames: u32) -> (r: u32)
    requires
        frames <= 0xFFFF_FFFC,
    ensures
        r == padded(frames as int),
        r % CD_TRACK_PADDING == 0,
        frames <= r < frames + CD_TRACK_PADDING,
{
    let whole: u32 = frames / CD_TRACK_PADDING;
    if frames % CD_TRACK_PADDING == 0 {
        whole * CD_TRACK_PADDING
    } else {
        (whole + 1) * CD_TRACK_PADDING
    }
}

/// The sector bytes of `n` frames from frame `start` on.
pub open spec fn sectors_of(raw: Seq<u8>, start: int, n: nat) -> Seq<u8>
    decreases n,
{
    if n == 0 {
        Seq::empty()
    } else {
        sectors_of(raw, start, (n - 1) as nat) + raw.subrange(
            (start + n - 1) * 2448,
            (start + n - 1) * 2448 + 2352,
        )
    }
}

/// What has been taken from the frames.
pub struct Joined {
    /// The sectors, one track after the other.
    pub image: Seq<u8>,
    pub pending: Seq<PendingTrack>,
    /// The frame that the next track starts at.
    pub frame: int,
}

impl Joined {
    /// Bytes of frames that must be there for track `t`.
    pub open spec fn need(self, t: ChdTrack) -> int {
        (self.frame + t.pregap_in_file + t.frames) * 2448
    }

    /// Track `t` is taken, or found to run past the frames.
    pub open spec fn track_taken(self, t: ChdTrack, raw: Seq<u8>) -> Result<Joined, Seq<char>> {
        if self.need(t) > raw.len() {
            Err(
                "CHD track "@ + decimal(t.number as nat) + " runs past the decompressed data ("@
                    + decimal(self.need(t) as nat) + " > "@ + decimal(raw.len()) + " bytes)"@,
            )
        } else {
            Ok(
                Joined {
                    image: self.image + sectors_of(
                        raw,
                        self.frame + t.pregap_in_file,
                        t.frames as nat,
                    ),
                    pending: self.pending.push(
                        (t.number, t.mode, CD_SECTOR_SIZE, self.image.len() as usize),
                    ),
                    frame: self.frame + padded(t.pregap_in_file + t.frames),
                },
            )
        }
    }
}

/// The first `n` tracks are taken.
pub open spec fn tracks_taken(tracks: Seq<ChdTrack>, raw: Seq<u8>, n: int) -> Result<
    Joined,
    Seq<char>,
>
    decreases n,
{
    if n <= 0 {
        Ok(Joined { image: Seq::empty(), pending: Seq::empty(), frame: 0 })
    } else {
        match tracks_taken(tracks, raw, n - 1) {
            Err(m) => Err(m),
            Ok(j) => j.track_taken(tracks[n - 1], raw),
        }
    }
}

/// The disc that the tracks make of the frames.
pub open spec fn assembled(tracks: Seq<ChdTrack>, raw: Seq<u8>) -> Result<DiscView, Seq<char>> {
    match tracks_taken(tracks, raw, tracks.len() as int) {
        Err(m) => Err(m),
        Ok(j) => pending_disc(j.image, j.pending),
    }
}

/// Appends the sector bytes of `n` frames from frame `start` on.
fn append_sectors(image: &mut Vec<u8>, raw: &[u8], start: usize, n: u32)
    requires
        (start + n) * 2448 <= raw@.len(),
    ensures
        final(image)@ == old(image)@ + sectors_of(raw@, start as int, n as nat),
{
    let have: usize = raw.len();
    let ghost before = image@;
    assert(image@ =~= before + sectors_of(raw@, start as int, 0));
    let mut f: u32 = 0;
    while f < n
        invariant
            f <= n,
            (start + n) * 2448 <= raw@.len(),
            have == raw@.len(),
            image@ == before + sectors_of(raw@, start as int, f as nat),
        decreases n - f,
    {
        assert((start + f) * 2448 + 2448 <= (start + n) * 2448) by (nonlinear_arith)
            requires
                f < n,
        ;
        let base: usize = (start + f as usize) * CD_FRAME_SIZE;
        image.extend_from_slice(slice_subrange(raw, base, base + CD_SECTOR_SIZE));
        f += 1;
        assert(image@ =~= before + sectors_of(raw@, start as int, f as nat));
    }
}

/// The message about a track that runs past the frames.
fn past_data(number: u8, need: u128, have: usize) -> (r: String)
    ensures
        r@ == "CHD track "@ + decimal(number as nat) + " runs past the decompressed data ("@
            + decimal(need as nat) + " > "@ + decimal(have as nat) + " bytes)"@,
{
    let mut m: String = String::from_str("CHD track ");
    push_decimal(&mut m, number as u128);
    m.append(" runs past the decompressed data (");
    push_decimal(&mut m, need);
    m.append(" > ");
    push_decimal(&mut m, have as u128);
    m.append(" bytes)");
    m
}

/// What is wrong with an early track is what is reported.
proof fn taking_fails(tracks: Seq<ChdTrack>, raw: Seq<u8>, n: int, all: int)
    requires
        n <= all,
        tracks_taken(tracks, raw, n) is Err,
    ensures
        tracks_taken(tracks, raw, all) == tracks_taken(tracks, raw, n),
    decreases all - n,
{
    if n < all {
        taking_fails(tracks, raw, n, all - 1);
    }
}

/// Builds a disc from the tracks and the decoded frames: each track's stored
/// pregap is skipped, and so are the subcode bytes and the padding.
pub fn assemble(tracks: &[ChdTrack], raw: &[u8]) -> (r: Result<Disc, String>)
    ensures
        agrees(r, assembled(tracks@, raw@)),
{
    let mut image: Vec<u8> = Vec::new();
    let mut pending: Vec<PendingTrack> = Vec::new();
    let mut frame: u128 = 0;
    let have: usize = raw.len();
    let mut i: usize = 0;
    let ghost mut j = Joined { image: Seq::empty(), pending: Seq::empty(), frame: 0 };
    while i < tracks.len()
        invariant
            i <= tracks@.len(),
            tracks_taken(tracks@, raw@, i as int) == Ok::<Joined, Seq<char>>(j),
            j.image == image@,
            j.pending == pending@,
            j.frame == frame,
            have == raw@.len(),
            frame <= have + 8,
            forall|k: int| 0 <= k < pending@.len() ==> sector_size_ok((#[trigger] pending@[k]).2),
        decreases tracks.len() - i,
    {
        let t: ChdTrack = tracks[i];
        let start: u128 = frame + t.pregap_in_file as u128;
        let end: u128 = start + t.frames as u128;
        let need: u128 = end * 2448;
        if need > have as u128 {
            proof {
                taking_fails(tracks@, raw@, i + 1, tracks@.len() as int);
            }
            return Err(past_data(t.number, need, have));
        }
        let offset: usize = image.len();
        append_sectors(&mut image, raw, start as usize, t.frames);
        pending.push((t.number, t.mode, CD_SECTOR_SIZE, offset));
        let span: u128 = t.pregap_in_file as u128 + t.frames as u128;
        frame = frame + (span + 3) / 4 * 4;
        proof {
            j = j.track_taken(t, raw@)->Ok_0;
        }
        i += 1;
    }
    Disc::from_pending_tracks(image, pending)
}

// ---- the tracks of a file ---------------------------------------------------------

/// Tag of a track metadata entry, `CHTR`.
pub const TAG_TRACK: u32 = 0x4348_5452;

/// Tag of a track metadata entry of the second form, `CHT2`.
pub const TAG_TRACK2: u32 = 0x4348_5432;

/// The tags of metadata about a CD: `CHCD`, `CHTR`, `CHT2`, and of a GD-ROM:
/// `CHGT`, `CHGD`.
pub open spec fn is_cd_tag(tag: u32) -> bool {
    tag == 0x4348_4344 || tag == TAG_TRACK || tag == TAG_TRACK2 || tag == 0x4348_4754 || tag
        == 0x4348_4744
}

/// Whether a metadata tag is about a CD.
///
/// Calls `chd::metadata::KnownMetadata::is_cdrom`. The claim: it holds of the
/// five tags of CD and GD-ROM metadata, and of no other.
#[verifier::external_body]
fn is_cdrom(tag: u32) -> (r: bool)
    ensures
        r == is_cd_tag(tag),
{
    chd::metadata::KnownMetadata::is_cdrom(tag)
}

/// The tags of the two forms of track metadata.
///
/// Calls `chd::metadata::MetadataTag::metatag` on the two kinds of track
/// metadata. The claim: the tags are the four characters `CHTR` and `CHT2`,
/// first character highest.
#[verifier::external_body]
fn track_tags() -> (r: (u32, u32))
    ensures
        r == (TAG_TRACK, TAG_TRACK2),
{
    (
        chd::metadata::KnownMetadata::CdRomTrack.metatag(),
        chd::metadata::KnownMetadata::CdRomTrack2.metatag(),
    )
}

/// The text that bytes in UTF-8 write.
///
/// Calls `std::str::from_utf8`. The claim: it succeeds on valid UTF-8 alone, and
/// then gives the characters that the bytes encode.
#[verifier::external_body]
fn utf8_text(bytes: &[u8]) -> (r: Option<String>)
    ensures
        r is Some <==> valid_utf8(bytes@),
        r matches Some(t) ==> t@ == decode_utf8(bytes@),
{
    match std::str::from_utf8(bytes) {
        Ok(t) => Some(String::from(t)),
        Err(_) => None,
    }
}

/// A text as a string literal: in quotes, with escapes.
pub uninterp spec fn debug_text(s: Seq<char>) -> Seq<char>;

/// Writes a text as a string literal.
///
/// Formats with `std::fmt::Debug` of `str`, whose result [`debug_text`] names.
#[verifier::external_body]
fn literal(s: &str) -> (r: String)
    ensures
        r@ == debug_text(s@),
{
    format!("{s:?}")
}

/// Where a track with number `n` goes among the first `to` of some tracks: behind
/// the last one whose number is not above it.
pub open spec fn sort_place(s: Seq<ChdTrack>, n: u8, to: int) -> int
    decreases to,
{
    if to <= 0 {
        0
    } else if s[to - 1].number <= n {
        to
    } else {
        sort_place(s, n, to - 1)
    }
}

/// The first `k` tracks sorted by number, those of one number in the order in
/// which they come.
pub open spec fn by_number(s: Seq<ChdTrack>, k: int) -> Seq<ChdTrack>
    decreases k,
{
    if k <= 0 {
        Seq::empty()
    } else {
        let t = by_number(s, k - 1);
        t.insert(sort_place(t, s[k - 1].number, t.len() as int), s[k - 1])
    }
}

/// The tracks of the first `n` metadata entries, in the order in which they come;
/// or what is wrong with one of them.
pub open spec fn tracks_listed(metas: Seq<(u32, Seq<u8>)>, n: int) -> Result<
    Seq<ChdTrack>,
    Seq<char>,
>
    decreases n,
{
    if n <= 0 {
        Ok(Seq::empty())
    } else {
        match tracks_listed(metas, n - 1) {
            Err(m) => Err(m),
            Ok(ts) => {
                let (tag, value) = metas[n - 1];
                if tag != TAG_TRACK && tag != TAG_TRACK2 {
                    Ok(ts)
                } else if !valid_utf8(value) {
                    Err("CHD track metadata is not UTF-8"@)
                } else {
                    match track_of_metadata(decode_utf8(value)) {
                        Some(t) => Ok(ts.push(t)),
                        None => Err(
                            "unrecognised CHD track metadata: "@ + debug_text(decode_utf8(value)),
                        ),
                    }
                }
            },
        }
    }
}

/// Some entry is about a CD in a form that is not read.
pub open spec fn has_other_cd(metas: Seq<(u32, Seq<u8>)>) -> bool {
    exists|i: int|
        0 <= i < metas.len() && is_cd_tag((#[trigger] metas[i]).0) && metas[i].0 != TAG_TRACK
            && metas[i].0 != TAG_TRACK2
}

/// The tracks that the metadata of a file describes, by number.
pub open spec fn tracks_described(metas: Seq<(u32, Seq<u8>)>) -> Result<Seq<ChdTrack>, Seq<char>> {
    match tracks_listed(metas, metas.len() as int) {
        Err(m) => Err(m),
        Ok(ts) => if ts.len() > 0 {
            Ok(by_number(ts, ts.len() as int))
        } else if has_other_cd(metas) {
            Err(
                "CHD uses a legacy/GD-ROM CD format this build doesn't decode (re-create it with a current chdman `createcd`)"@,
            )
        } else {
            Err("CHD has no CD tracks (is it a hard-disk or A/V CHD?)"@)
        },
    }
}

/// The views of metadata entries.
pub open spec fn metas_view(v: Seq<(u32, Vec<u8>)>) -> Seq<(u32, Seq<u8>)> {
    Seq::new(v.len(), |i: int| (v[i].0, v[i].1@))
}

/// Sorts tracks by number, keeping the order of those with one number.
fn sort_tracks(ts: &Vec<ChdTrack>) -> (r: Vec<ChdTrack>)
    ensures
        r@ == by_number(ts@, ts@.len() as int),
{
    let mut out: Vec<ChdTrack> = Vec::new();
    let mut k: usize = 0;
    assert(out@ =~= Seq::<ChdTrack>::empty());
    while k < ts.len()
        invariant
            k <= ts@.len(),
            out@ == by_number(ts@, k as int),
        decreases ts.len() - k,
    {
        let t: ChdTrack = ts[k];
        let mut p: usize = out.len();
        while p > 0
            invariant_except_break
                sort_place(out@, t.number, out@.len() as int) == sort_place(
                    out@,
                    t.number,
                    p as int,
                ),
            invariant
                p <= out@.len(),
            ensures
                p == sort_place(out@, t.number, out@.len() as int),
            decreases p,
        {
            if out[p - 1].number <= t.number {
                break ;
            }
            p -= 1;
        }
        out.insert(p, t);
        k += 1;
    }
    out
}

/// What is wrong with an early entry is what is reported.
proof fn listing_fails(metas: Seq<(u32, Seq<u8>)>, n: int, all: int)
    requires
        n <= all,
        tracks_listed(metas, n) is Err,
    ensures
        tracks_listed(metas, all) == tracks_listed(metas, n),
    decreases all - n,
{
    if n < all {
        listing_fails(metas, n, all - 1);
    }
}

/// Reads one track metadata value.
fn read_value(value: &Vec<u8>) -> (r: Result<ChdTrack, String>)
    ensures
        match r {
            Ok(t) => valid_utf8(value@) && track_of_metadata(decode_utf8(value@)) == Some(t),
            Err(m) => if valid_utf8(value@) {
                track_of_metadata(decode_utf8(value@)) is None && m@
                    == "unrecognised CHD track metadata: "@ + debug_text(decode_utf8(value@))
            } else {
                m@ == "CHD track metadata is not UTF-8"@
            },
        },
{
    match utf8_text(value.as_slice()) {
        None => Err(String::from_str("CHD track metadata is not UTF-8")),
        Some(text) => match parse_track_metadata(text.as_str()) {
            Some(t) => Ok(t),
            None => {
                let mut m: String = String::from_str("unrecognised CHD track metadata: ");
                m.append(literal(text.as_str()).as_str());
                Err(m)
            },
        },
    }
}

/// The tracks that the metadata of a CHD describes, sorted by number: `metas`
/// holds the tag and the value of each entry.
pub fn tracks_from_metadata(metas: &Vec<(u32, Vec<u8>)>) -> (r: Result<Vec<ChdTrack>, String>)
    ensures
        match (r, tracks_described(metas_view(metas@))) {
            (Ok(v), Ok(ts)) => v@ == ts,
            (Err(e), Err(m)) => e@ == m,
            _ => false,
        },
{
    let (chtr, cht2) = track_tags();
    let ghost all = metas_view(metas@);
    let mut tracks: Vec<ChdTrack> = Vec::new();
    let mut other: bool = false;
    let mut i: usize = 0;
    assert(tracks@ =~= Seq::<ChdTrack>::empty());
    while i < metas.len()
        invariant
            i <= metas@.len(),
            all == metas_view(metas@),
            chtr == TAG_TRACK,
            cht2 == TAG_TRACK2,
            tracks_listed(all, i as int) == Ok::<Seq<ChdTrack>, Seq<char>>(tracks@),
            other <==> exists|k: int|
                0 <= k < i && is_cd_tag((#[trigger] all[k]).0) && all[k].0 != TAG_TRACK && all[k].0
                    != TAG_TRACK2,
        decreases metas.len() - i,
    {
        let tag: u32 = metas[i].0;
        assert(all[i as int] == (tag, metas@[i as int].1@));
        if tag == cht2 || tag == chtr {
            match read_value(&metas[i].1) {
                Ok(t) => {
                    tracks.push(t);
                },
                Err(m) => {
                    proof {
                        listing_fails(all, i + 1, all.len() as int);
                    }
                    return Err(m);
                },
            }
        } else if is_cdrom(tag) {
            other = true;
        }
        i += 1;
    }
    if tracks.len() == 0 {
        return Err(
            if other {
                String::from_str(
                    "CHD uses a legacy/GD-ROM CD format this build doesn't decode (re-create it with a current chdman `createcd`)",
                )
            } else {
                String::from_str("CHD has no CD tracks (is it a hard-disk or A/V CHD?)")
            },
        );
    }
    Ok(sort_tracks(&tracks))
}

// ---- laws -----------------------------------------------------------------------------

proof fn sort_place_bounds(s: Seq<ChdTrack>, n: u8, to: int)
    requires
        0 <= to <= s.len(),
    ensures
        0 <= sort_place(s, n, to) <= to,
        forall|i: int| sort_place(s, n, to) <= i < to ==> (#[trigger] s[i]).number > n,
        sort_place(s, n, to) > 0 ==> s[sort_place(s, n, to) - 1].number <= n,
    decreases to,
{
    if to > 0 && s[to - 1].number > n {
        sort_place_bounds(s, n, to - 1);
    }
}

/// Sorting orders the tracks by number and loses none.
pub proof fn sorting_orders_the_tracks(s: Seq<ChdTrack>, k: int)
    requires
        0 <= k <= s.len(),
    ensures
        by_number(s, k).to_multiset() == s.take(k).to_multiset(),
        by_number(s, k).len() == k,
        forall|i: int, j: int|
            0 <= i <= j < k ==> (#[trigger] by_number(s, k)[i]).number <= (
            #[trigger] by_number(s, k)[j]).number,
    decreases k,
{
    broadcast use vstd::seq_lib::group_to_multiset_ensures;

    if k > 0 {
        let t = by_number(s, k - 1);
        let x = s[k - 1];
        sorting_orders_the_tracks(s, k - 1);
        sort_place_bounds(t, x.number, t.len() as int);
        let p = sort_place(t, x.number, t.len() as int);
        let r = t.insert(p, x);
        assert(s.take(k) =~= s.take(k - 1).push(x));
        assert forall|i: int, j: int| 0 <= i <= j < k implies (#[trigger] r[i]).number <= (
        #[trigger] r[j]).number by {
            let a = if i < p {
                i
            } else {
                i - 1
            };
            let b = if j < p {
                j
            } else {
                j - 1
            };
            if i < p {
                assert(r[i] == t[i]);
                if p > 0 {
                    assert(t[i].number <= t[p - 1].number);
                }
            }
            if j > p {
                assert(r[j] == t[j - 1]);
                assert(t[j - 1].number > x.number);
            }
            if j < p {
                assert(r[j] == t[j]);
            }
            if i > p {
                assert(r[i] == t[i - 1]);
            }
        }
    } else {
        assert(s.take(0) =~= Seq::<ChdTrack>::empty());
    }
}

/// Padding is always to a multiple of four, the next one.
pub proof fn padding_is_tight(n: int)
    requires
        0 <= n,
    ensures
        padded(n) % 4 == 0,
        n <= padded(n) < n + 4,
        padded(padded(n)) == padded(n),
{
}

/// The image holds 2352 bytes for every frame of every track, and nothing else.
pub proof fn image_holds_the_sectors(raw: Seq<u8>, start: int, n: nat)
    requires
        0 <= start,
        (start + n) * 2448 <= raw.len(),
    ensures
        sectors_of(raw, start, n).len() == n * 2352,
        forall|f: int, b: int|
            0 <= f < n && 0 <= b < 2352 ==> #[trigger] sectors_of(raw, start, n)[f * 2352 + b]
                == raw[(start + f) * 2448 + b],
    decreases n,
{
    if n > 0 {
        image_holds_the_sectors(raw, start, (n - 1) as nat);
        let before = sectors_of(raw, start, (n - 1) as nat);
        let last = raw.subrange((start + n - 1) * 2448, (start + n - 1) * 2448 + 2352);
        assert forall|f: int, b: int| 0 <= f < n && 0 <= b < 2352 implies #[trigger] sectors_of(
            raw,
            start,
            n,
        )[f * 2352 + b] == raw[(start + f) * 2448 + b] by {
            if f < n - 1 {
                assert(f * 2352 + b < before.len());
                assert(before[f * 2352 + b] == raw[(start + f) * 2448 + b]);
            } else {
                assert(f * 2352 + b == before.len() + b);
                assert(last[b] == raw[(start + f) * 2448 + b]);
            }
        }
    }
}

/// A track of a compressed image is taken without its pregap, and lies behind the tracks
/// before it; the next one starts on a boundary of four frames.
pub proof fn track_is_taken_behind_its_pregap(j: Joined, t: ChdTrack, raw: Seq<u8>)
    requires
        j.frame >= 0,
        j.frame % 4 == 0,
        j.image.len() <= u32::MAX,
        (j.frame + t.pregap_in_file + t.frames) * 2448 <= raw.len(),
    ensures
        ({
            let k = j.track_taken(t, raw)->Ok_0;
            &&& j.track_taken(t, raw) is Ok
            &&& k.frame % 4 == 0
            &&& j.frame + t.pregap_in_file + t.frames <= k.frame < j.frame + t.pregap_in_file
                + t.frames + 4
            &&& k.image == j.image + sectors_of(raw, j.frame + t.pregap_in_file, t.frames as nat)
            &&& k.pending.len() == j.pending.len() + 1
            &&& k.pending.last().0 == t.number && k.pending.last().1 == t.mode
            &&& k.pending.last().2 == 2352 && k.pending.last().3 == j.image.len()
        }),
{
}

} // verus!
