//! Disc descriptions: CUE sheets and CloneCD control files.

use vstd::prelude::*;
use vstd::arithmetic::div_mod::lemma_small_mod;
use vstd::slice::slice_subrange;
use vstd::string::StringExecFns;
use crate::disc::{
    agrees, pending_disc, sector_size_ok, Disc, DiscView, PendingTrack, TrackMode, FAD_OFFSET,
};
use crate::text::{
    bounded, chars_of, decimal, decimal_has_digits_alone, decimal_is_read_back, find_char, find_from, lines, mixed_int, nth_word, push_decimal, read_number, same_text, separator_is_found, split_lines, string_of, texts, to_upper_case, trim, trimmed, upper, word,
};

verus! {

// ---- tokens -----------------------------------------------------------------

/// Mode and bytes per sector of a CUE track type, or what is wrong with it.
pub open spec fn track_type(tok: Seq<char>) -> Result<(TrackMode, usize), Seq<char>> {
    let t = upper(tok);
    if t == "AUDIO"@ {
        Ok((TrackMode::Audio, 2352))
    } else if t == "MODE1/2048"@ {
        Ok((TrackMode::Mode1, 2048))
    } else if t == "MODE1/2352"@ {
        Ok((TrackMode::Mode1, 2352))
    } else if t == "MODE2/2336"@ {
        Ok((TrackMode::Mode2, 2336))
    } else if t == "MODE2/2352"@ {
        Ok((TrackMode::Mode2, 2352))
    } else {
        Err("unsupported TRACK type "@ + t)
    }
}

/// The text between the first two double quotes of a line.
pub open spec fn quoted(line: Seq<char>) -> Option<Seq<char>> {
    let a = find_from(line, '"', 0);
    let b = find_from(line, '"', a + 1);
    if a < line.len() && b < line.len() {
        Some(line.subrange(a + 1, b))
    } else {
        None
    }
}

/// Frames of a time `MM:SS:FF`, at 75 frames per second.
pub open spec fn frames(s: Seq<char>) -> Option<u32> {
    let a = find_from(s, ':', 0);
    let b = find_from(s, ':', a + 1);
    let c = find_from(s, ':', b + 1);
    if a < s.len() && b < s.len() {
        match (
            bounded(s.take(a), 10, 0, u32::MAX as int),
            bounded(s.subrange(a + 1, b), 10, 0, u32::MAX as int),
            bounded(s.subrange(b + 1, c), 10, 0, u32::MAX as int),
        ) {
            (Some(m), Some(sec), Some(f)) => Some(
                (m as u32).wrapping_mul(60).wrapping_add(sec as u32).wrapping_mul(
                    75,
                ).wrapping_add(f as u32),
            ),
            _ => None,
        }
    } else {
        None
    }
}

/// Maps a CUE track type to mode and bytes per sector.
pub fn parse_track_type(tok: &str) -> (r: Result<(TrackMode, usize), String>)
    ensures
        match (r, track_type(tok@)) {
            (Ok(a), Ok(b)) => a == b,
            (Err(e), Err(m)) => e@ == m,
            _ => false,
        },
{
    let c = chars_of(tok);
    read_track_type(c.as_slice())
}

fn read_track_type(tok: &[char]) -> (r: Result<(TrackMode, usize), String>)
    ensures
        match (r, track_type(tok@)) {
            (Ok(a), Ok(b)) => a == b && sector_size_ok(a.1),
            (Err(e), Err(m)) => e@ == m,
            _ => false,
        },
{
    let u = to_upper_case(tok);
    let t = u.as_slice();
    if same_text(t, "AUDIO") {
        Ok((TrackMode::Audio, 2352))
    } else if same_text(t, "MODE1/2048") {
        Ok((TrackMode::Mode1, 2048))
    } else if same_text(t, "MODE1/2352") {
        Ok((TrackMode::Mode1, 2352))
    } else if same_text(t, "MODE2/2336") {
        Ok((TrackMode::Mode2, 2336))
    } else if same_text(t, "MODE2/2352") {
        Ok((TrackMode::Mode2, 2352))
    } else {
        let mut m: String = String::from_str("unsupported TRACK type ");
        m.append(string_of(t).as_str());
        Err(m)
    }
}

/// The first double-quoted text of a line.
pub fn cue_quoted(line: &str) -> (r: Option<String>)
    ensures
        match (r, quoted(line@)) {
            (Some(a), Some(b)) => a@ == b,
            (None, None) => true,
            _ => false,
        },
{
    let c = chars_of(line);
    read_quoted(c.as_slice())
}

fn read_quoted(line: &[char]) -> (r: Option<String>)
    ensures
        match (r, quoted(line@)) {
            (Some(a), Some(b)) => a@ == b,
            (None, None) => true,
            _ => false,
        },
{
    let a: usize = find_char(line, '"', 0);
    if a >= line.len() {
        return None;
    }
    let b: usize = find_char(line, '"', a + 1);
    if b >= line.len() {
        return None;
    }
    Some(string_of(slice_subrange(line, a + 1, b)))
}

/// Parses `MM:SS:FF` (75 frames per second) to a frame count.
pub fn mmss_ff_to_frames(s: &str) -> (r: Option<u32>)
    ensures
        r == frames(s@),
{
    let c = chars_of(s);
    read_frames(c.as_slice())
}

fn read_frames(s: &[char]) -> (r: Option<u32>)
    ensures
        r == frames(s@),
{
    let a: usize = find_char(s, ':', 0);
    if a >= s.len() {
        return None;
    }
    let b: usize = find_char(s, ':', a + 1);
    if b >= s.len() {
        return None;
    }
    let c: usize = find_char(s, ':', b + 1);
    let minutes = slice_subrange(s, 0, a);
    assert(minutes@ =~= s@.take(a as int));
    let m: i64 = match read_number(minutes, 10, 0, u32::MAX as i64) {
        Some(m) => m,
        None => {
            return None;
        },
    };
    let sec: i64 = match read_number(slice_subrange(s, a + 1, b), 10, 0, u32::MAX as i64) {
        Some(m) => m,
        None => {
            return None;
        },
    };
    let f: i64 = match read_number(slice_subrange(s, b + 1, c), 10, 0, u32::MAX as i64) {
        Some(m) => m,
        None => {
            return None;
        },
    };
    Some(
        (m as u32).wrapping_mul(60).wrapping_add(sec as u32).wrapping_mul(75).wrapping_add(
            f as u32,
        ),
    )
}

/// Parses a decimal or `0x`-prefixed hexadecimal integer.
pub fn parse_int(s: &str) -> (r: Option<i64>)
    ensures
        r is Some <==> mixed_int(s@) is Some,
        r matches Some(v) ==> mixed_int(s@) == Some(v as int),
{
    let c = chars_of(s);
    read_int(c.as_slice())
}

fn read_int(s: &[char]) -> (r: Option<i64>)
    ensures
        r is Some <==> mixed_int(s@) is Some,
        r matches Some(v) ==> mixed_int(s@) == Some(v as int),
{
    let t = trim(s);
    if t.len() >= 2 && t[0] == '0' && (t[1] == 'x' || t[1] == 'X') {
        let h = slice_subrange(t, 2, t.len());
        assert(h@ =~= t@.skip(2));
        read_number(h, 16, i64::MIN, i64::MAX)
    } else {
        read_number(t, 10, i64::MIN, i64::MAX)
    }
}

// ---- CUE --------------------------------------------------------------------

/// A track of a CUE sheet, in the file at image offset `file_base`.
#[derive(Clone, Copy, Debug, PartialEq, Eq, Structural)]
pub struct CueTrack {
    pub number: u8,
    pub mode: TrackMode,
    pub sector_size: usize,
    pub file_base: usize,
    /// Frame of INDEX 01 within the file.
    pub index01_frame: u32,
}

impl CueTrack {
    /// The track with its image offset.
    pub open spec fn placed(self) -> PendingTrack {
        (
            self.number,
            self.mode,
            self.sector_size,
            self.file_base.wrapping_add(
                (self.index01_frame as usize).wrapping_mul(self.sector_size),
            ),
        )
    }
}

/// A CUE sheet read so far.
pub struct Cue {
    /// The files named so far, one after the other.
    pub image: Seq<u8>,
    /// Where the current file starts in the image.
    pub file_base: usize,
    pub have_file: bool,
    /// The tracks that are complete.
    pub pending: Seq<CueTrack>,
    /// The track being described.
    pub cur: Option<CueTrack>,
}

impl Cue {
    /// Nothing has been read.
    pub open spec fn start() -> Cue {
        Cue {
            image: Seq::empty(),
            file_base: 0,
            have_file: false,
            pending: Seq::empty(),
            cur: None,
        }
    }

    /// The tracks, with the one being described.
    pub open spec fn tracks(self) -> Seq<CueTrack> {
        match self.cur {
            Some(t) => self.pending.push(t),
            None => self.pending,
        }
    }

    /// A FILE line: `loaded` is what the named file holds, if it was found.
    pub open spec fn file_line(self, line: Seq<char>, loaded: Option<Seq<u8>>) -> Result<
        Cue,
        Seq<char>,
    > {
        match (quoted(line), loaded) {
            (None, _) => Err("FILE without a quoted name"@),
            (Some(name), None) => Err("missing "@ + name),
            (Some(name), Some(bytes)) => Ok(
                Cue {
                    file_base: self.image.len() as usize,
                    image: self.image + bytes,
                    have_file: true,
                    ..self
                },
            ),
        }
    }

    /// A TRACK line: the last track is complete, a new one begins.
    pub open spec fn track_line(self, line: Seq<char>) -> Result<Cue, Seq<char>> {
        if !self.have_file {
            Err("TRACK before FILE"@)
        } else {
            match bounded(word(line, 1), 10, 0, u8::MAX as int) {
                None => Err("bad TRACK #"@),
                Some(n) => match track_type(word(line, 2)) {
                    Err(m) => Err(m),
                    Ok((mode, sector_size)) => Ok(
                        Cue {
                            pending: self.tracks(),
                            cur: Some(
                                CueTrack {
                                    number: n as u8,
                                    mode,
                                    sector_size,
                                    file_base: self.file_base,
                                    index01_frame: 0,
                                },
                            ),
                            ..self
                        },
                    ),
                },
            }
        }
    }

    /// An INDEX line: index 1 places the current track within its file, others
    /// mean nothing.
    pub open spec fn index_line(self, line: Seq<char>) -> Result<Cue, Seq<char>> {
        if bounded(word(line, 1), 10, 0, u8::MAX as int) == Some(1int) {
            match frames(word(line, 2)) {
                None => Err("bad INDEX"@),
                Some(f) => Ok(
                    Cue {
                        cur: match self.cur {
                            Some(t) => Some(CueTrack { index01_frame: f, ..t }),
                            None => None,
                        },
                        ..self
                    },
                ),
            }
        } else {
            Ok(self)
        }
    }

    /// One more line is read. `loaded` counts on a FILE line alone.
    pub open spec fn line_read(self, line: Seq<char>, loaded: Option<Seq<u8>>) -> Result<
        Cue,
        Seq<char>,
    > {
        let kw = upper(word(line, 0));
        if kw == "FILE"@ {
            self.file_line(line, loaded)
        } else if kw == "TRACK"@ {
            self.track_line(line)
        } else if kw == "INDEX"@ {
            self.index_line(line)
        } else {
            Ok(self)
        }
    }

    /// The disc that the sheet describes.
    pub open spec fn disc(self) -> Result<DiscView, Seq<char>> {
        if self.tracks().len() == 0 {
            Err("no tracks in CUE"@)
        } else {
            pending_disc(self.image, self.tracks().map(|i: int, t: CueTrack| t.placed()))
        }
    }
}

/// The first `n` lines of a sheet are read; `loads[i]` is what the file that line
/// `i` names holds.
pub open spec fn cue_read(
    text: Seq<Seq<char>>,
    loads: Seq<Option<Seq<u8>>>,
    n: int,
) -> Result<Cue, Seq<char>>
    decreases n,
{
    if n <= 0 {
        Ok(Cue::start())
    } else {
        match cue_read(text, loads, n - 1) {
            Err(m) => Err(m),
            Ok(c) => c.line_read(text[n - 1], loads[n - 1]),
        }
    }
}

/// The disc that a CUE sheet describes.
pub open spec fn cue_disc(cue: Seq<char>, loads: Seq<Option<Seq<u8>>>) -> Result<
    DiscView,
    Seq<char>,
> {
    match cue_read(lines(cue), loads, lines(cue).len() as int) {
        Err(m) => Err(m),
        Ok(c) => c.disc(),
    }
}

/// What a file holds, if it was found.
pub open spec fn bytes_of(f: Option<Vec<u8>>) -> Option<Seq<u8>> {
    match f {
        Some(v) => Some(v@),
        None => None,
    }
}

/// A line asks for the file `name`.
pub open spec fn asks_for(line: Seq<char>, name: Seq<char>) -> bool {
    upper(word(line, 0)) == "FILE"@ && quoted(line) == Some(name)
}

/// A reader of CUE sheets.
pub struct CueReader {
    pub image: Vec<u8>,
    pub file_base: usize,
    pub have_file: bool,
    pub pending: Vec<CueTrack>,
    pub cur: Option<CueTrack>,
}

impl View for CueReader {
    type V = Cue;

    open spec fn view(&self) -> Cue {
        Cue {
            image: self.image@,
            file_base: self.file_base,
            have_file: self.have_file,
            pending: self.pending@,
            cur: self.cur,
        }
    }
}

impl Cue {
    /// Every track has a sector size that images come in.
    pub open spec fn wf(self) -> bool {
        &&& forall|i: int|
            0 <= i < self.pending.len() ==> sector_size_ok((#[trigger] self.pending[i]).sector_size)
        &&& self.cur matches Some(t) ==> sector_size_ok(t.sector_size)
    }
}

impl CueReader {
    /// A reader that has read nothing.
    pub fn new() -> (r: CueReader)
        ensures
            r@ == Cue::start(),
            r@.wf(),
    {
        let r = CueReader {
            image: Vec::new(),
            file_base: 0,
            have_file: false,
            pending: Vec::new(),
            cur: None,
        };
        assert(r@.image =~= Cue::start().image);
        assert(r@.pending =~= Cue::start().pending);
        r
    }

    /// The name of the file that a line asks for.
    pub fn wanted(line: &[char]) -> (r: Option<String>)
        ensures
            match r {
                Some(n) => asks_for(line@, n@),
                None => forall|n: Seq<char>| !asks_for(line@, n),
            },
    {
        let kw = to_upper_case(nth_word(line, 0));
        if same_text(kw.as_slice(), "FILE") {
            read_quoted(line)
        } else {
            None
        }
    }

    /// Reads one line; `loaded` is what the file that it asks for holds.
    pub fn read_line(&mut self, line: &[char], loaded: Option<Vec<u8>>) -> (r: Result<(), String>)
        requires
            old(self)@.wf(),
        ensures
            match (r, old(self)@.line_read(line@, bytes_of(loaded))) {
                (Ok(_), Ok(c)) => final(self)@ == c,
                (Err(e), Err(m)) => e@ == m,
                _ => false,
            },
            final(self)@.wf(),
    {
        let kw = to_upper_case(nth_word(line, 0));
        if same_text(kw.as_slice(), "FILE") {
            self.read_file(line, loaded)
        } else if same_text(kw.as_slice(), "TRACK") {
            self.read_track(line)
        } else if same_text(kw.as_slice(), "INDEX") {
            self.read_index(line)
        } else {
            Ok(())
        }
    }

    fn read_file(&mut self, line: &[char], loaded: Option<Vec<u8>>) -> (r: Result<(), String>)
        requires
            old(self)@.wf(),
        ensures
            match (r, old(self)@.file_line(line@, bytes_of(loaded))) {
                (Ok(_), Ok(c)) => final(self)@ == c,
                (Err(e), Err(m)) => e@ == m,
                _ => false,
            },
            final(self)@.wf(),
    {
        match read_quoted(line) {
            None => Err(String::from_str("FILE without a quoted name")),
            Some(name) => match loaded {
                None => {
                    let mut m: String = String::from_str("missing ");
                    m.append(name.as_str());
                    Err(m)
                },
                Some(bytes) => {
                    self.file_base = self.image.len();
                    self.image.extend_from_slice(bytes.as_slice());
                    self.have_file = true;
                    assert(self@.image =~= old(self)@.image + bytes@);
                    Ok(())
                },
            },
        }
    }

    fn read_track(&mut self, line: &[char]) -> (r: Result<(), String>)
        requires
            old(self)@.wf(),
        ensures
            match (r, old(self)@.track_line(line@)) {
                (Ok(_), Ok(c)) => final(self)@ == c,
                (Err(e), Err(m)) => e@ == m,
                _ => false,
            },
            final(self)@.wf(),
    {
        if !self.have_file {
            return Err(String::from_str("TRACK before FILE"));
        }
        let number: u8 = match read_number(nth_word(line, 1), 10, 0, u8::MAX as i64) {
            Some(n) => n as u8,
            None => {
                return Err(String::from_str("bad TRACK #"));
            },
        };
        match read_track_type(nth_word(line, 2)) {
            Err(m) => Err(m),
            Ok((mode, sector_size)) => {
                if let Some(t) = self.cur {
                    self.pending.push(t);
                }
                self.cur = Some(
                    CueTrack {
                        number,
                        mode,
                        sector_size,
                        file_base: self.file_base,
                        index01_frame: 0,
                    },
                );
                Ok(())
            },
        }
    }

    fn read_index(&mut self, line: &[char]) -> (r: Result<(), String>)
        requires
            old(self)@.wf(),
        ensures
            match (r, old(self)@.index_line(line@)) {
                (Ok(_), Ok(c)) => final(self)@ == c,
                (Err(e), Err(m)) => e@ == m,
                _ => false,
            },
            final(self)@.wf(),
    {
        match read_number(nth_word(line, 1), 10, 0, u8::MAX as i64) {
            Some(1) => match read_frames(nth_word(line, 2)) {
                None => Err(String::from_str("bad INDEX")),
                Some(f) => {
                    if let Some(t) = self.cur {
                        self.cur = Some(CueTrack { index01_frame: f, ..t });
                    }
                    Ok(())
                },
            },
            _ => Ok(()),
        }
    }

    /// The disc that the sheet describes.
    pub fn finish(self) -> (r: Result<Disc, String>)
        requires
            self@.wf(),
        ensures
            agrees(r, self@.disc()),
    {
        let mut all: Vec<CueTrack> = self.pending;
        if let Some(t) = self.cur {
            all.push(t);
        }
        if all.len() == 0 {
            return Err(String::from_str("no tracks in CUE"));
        }
        let ghost placed = self@.tracks().map(|i: int, t: CueTrack| t.placed());
        let mut raw: Vec<PendingTrack> = Vec::new();
        let mut i: usize = 0;
        while i < all.len()
            invariant
                i <= all@.len(),
                all@ == self@.tracks(),
                self@.wf(),
                raw@.len() == i,
                placed == self@.tracks().map(|i: int, t: CueTrack| t.placed()),
                forall|k: int| 0 <= k < i ==> #[trigger] raw@[k] == placed[k],
                forall|k: int| 0 <= k < i ==> sector_size_ok((#[trigger] raw@[k]).2),
            decreases all.len() - i,
        {
            let t: CueTrack = all[i];
            let offset: usize = t.file_base.wrapping_add(
                (t.index01_frame as usize).wrapping_mul(t.sector_size),
            );
            raw.push((t.number, t.mode, t.sector_size, offset));
            i += 1;
        }
        assert(raw@ =~= placed);
        Disc::from_pending_tracks(self.image, raw)
    }
}

/// What is read of a sheet does not depend on files that come later.
proof fn cue_read_prefix(
    text: Seq<Seq<char>>,
    loads: Seq<Option<Seq<u8>>>,
    more: Seq<Option<Seq<u8>>>,
    n: int,
)
    requires
        n <= loads.len() <= more.len(),
        forall|i: int| 0 <= i < n ==> loads[i] == more[i],
    ensures
        cue_read(text, loads, n) == cue_read(text, more, n),
    decreases n,
{
    if n > 0 {
        cue_read_prefix(text, loads, more, n - 1);
    }
}

/// The first thing that is wrong with a sheet is what is reported.
proof fn cue_read_fails(
    text: Seq<Seq<char>>,
    loads: Seq<Option<Seq<u8>>>,
    n: int,
    all: int,
)
    requires
        n <= all,
        cue_read(text, loads, n) is Err,
    ensures
        cue_read(text, loads, all) == cue_read(text, loads, n),
    decreases all - n,
{
    if n < all {
        cue_read_fails(text, loads, n, all - 1);
    }
}

/// Whatever a call of `load` may have returned for the file that line `i` asks
/// for stands in `loads[i]`, up to line `n`.
pub open spec fn loads_from<F: FnMut(&str) -> Option<Vec<u8>>>(
    load: F,
    text: Seq<Seq<char>>,
    loads: Seq<Option<Seq<u8>>>,
    n: int,
) -> bool {
    forall|i: int| #![trigger loads[i]]
        0 <= i < n && quoted(text[i]) is Some && upper(word(text[i], 0)) == "FILE"@ ==> load_gave(
            load,
            quoted(text[i])->0,
            loads[i],
        )
}

/// A call of `load` with the file's name may have returned `got`.
pub open spec fn load_gave<F: FnMut(&str) -> Option<Vec<u8>>>(
    load: F,
    name: Seq<char>,
    got: Option<Seq<u8>>,
) -> bool {
    exists|s: &str, v: Option<Vec<u8>>|
        #![trigger call_ensures(load, (s,), v)]
        s@ == name && bytes_of(v) == got && call_ensures(load, (s,), v)
}

/// `r` is the disc, or the message, that the sheet gives with the files of
/// `loads`. Its first `n` lines were read, all of them unless line `n - 1` is
/// wrong; the files they name are those that `load` handed out.
pub open spec fn cue_outcome<F: FnMut(&str) -> Option<Vec<u8>>>(
    load: F,
    cue: Seq<char>,
    r: Result<Disc, String>,
    loads: Seq<Option<Seq<u8>>>,
    n: int,
) -> bool {
    &&& loads.len() == lines(cue).len()
    &&& agrees(r, cue_disc(cue, loads))
    &&& 0 <= n <= loads.len()
    &&& n < loads.len() ==> cue_read(lines(cue), loads, n) is Err
    &&& loads_from(load, lines(cue), loads, n)
}

/// `r` is what the sheet gives with the files that `load` handed out.
pub open spec fn cue_loaded<F: FnMut(&str) -> Option<Vec<u8>>>(
    load: F,
    cue: Seq<char>,
    r: Result<Disc, String>,
) -> bool {
    exists|loads: Seq<Option<Seq<u8>>>, n: int| #[trigger] cue_outcome(load, cue, r, loads, n)
}

/// A line that is wrong ends the reading.
proof fn cue_stops<F: FnMut(&str) -> Option<Vec<u8>>>(
    load: F,
    cue: Seq<char>,
    loads: Seq<Option<Seq<u8>>>,
    m: String,
)
    requires
        loads.len() <= lines(cue).len(),
        cue_read(lines(cue), loads, loads.len() as int) == Err::<Cue, Seq<char>>(m@),
        loads_from(load, lines(cue), loads, loads.len() as int),
    ensures
        cue_loaded(load, cue, Err(m)),
{
    let all = lines(cue);
    let n = loads.len() as int;
    let whole = loads + Seq::new((all.len() - n) as nat, |k: int| None::<Seq<u8>>);
    cue_read_prefix(all, loads, whole, n);
    cue_read_fails(all, whole, n, all.len() as int);
    assert forall|i: int|
        #![trigger whole[i]]
        0 <= i < n && quoted(all[i]) is Some && upper(word(all[i], 0))
            == "FILE"@ implies load_gave(load, quoted(all[i])->0, whole[i]) by {
        assert(whole[i] == loads[i]);
    }
    assert(cue_outcome(load, cue, Err(m), whole, n));
}

impl Disc {
    /// Reads a CUE sheet; `load` hands out the bytes of each file it names. The
    /// files are joined to one image. A track's place in its file is its INDEX
    /// 01; PREGAP, REM and other lines mean nothing.
    pub fn from_cue<F: FnMut(&str) -> Option<Vec<u8>>>(cue: &str, load: F) -> (r: Result<
        Disc,
        String,
    >)
        requires
            forall|s: &str| call_requires(load, (s,)),
        ensures
            cue_loaded(load, cue@, r),
    {
        let ghost given = load;
        let mut fetch = load;
        let chars = chars_of(cue);
        let text = split_lines(chars.as_slice());
        let ghost all = lines(cue@);
        let mut reader = CueReader::new();
        let ghost mut loads: Seq<Option<Seq<u8>>> = Seq::empty();
        let mut i: usize = 0;
        while i < text.len()
            invariant
                i <= text@.len(),
                texts(text@) == all,
                all == lines(cue@),
                loads.len() == i,
                reader@.wf(),
                cue_read(all, loads, i as int) == Ok::<Cue, Seq<char>>(reader@),
                forall|s: &str| call_requires(fetch, (s,)),
                loads_from(given, all, loads, i as int),
                fetch == given,
                given == load,
            decreases text.len() - i,
        {
            let line = text[i].as_slice();
            assert(all[i as int] == line@);
            let loaded: Option<Vec<u8>> = match CueReader::wanted(line) {
                Some(name) => {
                    let got = fetch(name.as_str());
                    assert(load_gave(given, name@, bytes_of(got)));
                    got
                },
                None => {
                    proof {
                        assert(!asks_for(line@, quoted(line@)->0));
                    }
                    None
                },
            };
            let ghost before = loads;
            proof {
                loads = loads.push(bytes_of(loaded));
                cue_read_prefix(all, before, loads, i as int);
            }
            match reader.read_line(line, loaded) {
                Err(m) => {
                    proof {
                        cue_stops(given, cue@, loads, m);
                    }
                    return Err(m);
                },
                Ok(_) => {},
            }
            i += 1;
        }
        let r = reader.finish();
        assert(cue_outcome(given, cue@, r, loads, loads.len() as int));
        r
    }
}

// ---- CloneCD ------------------------------------------------------------------

/// One entry of a CloneCD table of contents.
#[derive(Clone, Copy, Debug, PartialEq, Eq, Structural)]
pub struct CcdEntry {
    /// A track number, or what else the entry is about.
    pub point: u32,
    pub control: u32,
    /// Position of the track, or of the lead-out.
    pub plba: i64,
    /// Track number, in an entry about the first or last track.
    pub pmin: i64,
}

/// A CloneCD file read so far.
#[verifier::ext_equal]
pub struct Ccd {
    /// The entries that are complete.
    pub entries: Seq<CcdEntry>,
    pub point: Option<u32>,
    pub control: u32,
    pub plba: Option<i64>,
    pub pmin: i64,
    /// The current section is an entry.
    pub in_entry: bool,
}

/// A section header opens an entry: `[Entry 0]`, in any case.
pub open spec fn opens_entry(t: Seq<char>) -> bool {
    t.len() >= 6 && upper(t.take(6)) == "[ENTRY"@
}

/// The number in `v` as the field type of an entry.
pub open spec fn int_or_none(v: Seq<char>) -> Option<i64> {
    match mixed_int(v) {
        Some(n) => Some(n as i64),
        None => None,
    }
}

/// The number in `v`, 0 if it is none.
pub open spec fn int_or_zero(v: Seq<char>) -> i64 {
    match mixed_int(v) {
        Some(n) => n as i64,
        None => 0,
    }
}

impl Ccd {
    /// Nothing has been read.
    pub open spec fn start() -> Ccd {
        Ccd {
            entries: Seq::empty(),
            point: None,
            control: 0,
            plba: None,
            pmin: 0,
            in_entry: false,
        }
    }

    /// The current entry, if there is one with a point and a position, is
    /// complete.
    pub open spec fn committed(self) -> Ccd {
        if !self.in_entry {
            self
        } else {
            Ccd {
                entries: match (self.point, self.plba) {
                    (Some(point), Some(plba)) => self.entries.push(
                        CcdEntry { point, control: self.control, plba, pmin: self.pmin },
                    ),
                    _ => self.entries,
                },
                point: None,
                plba: None,
                ..self
            }
        }
    }

    /// A `key=value` line.
    pub open spec fn key_read(self, key: Seq<char>, v: Seq<char>) -> Ccd {
        if key == "POINT"@ {
            Ccd {
                point: match int_or_none(v) {
                    Some(n) => Some(n as u32),
                    None => None,
                },
                ..self
            }
        } else if key == "CONTROL"@ {
            Ccd { control: int_or_zero(v) as u32, ..self }
        } else if key == "PLBA"@ {
            Ccd { plba: int_or_none(v), ..self }
        } else if key == "PMIN"@ {
            Ccd { pmin: int_or_zero(v), ..self }
        } else {
            self
        }
    }

    /// One more line is read.
    pub open spec fn line_read(self, line: Seq<char>) -> Ccd {
        let t = trimmed(line);
        let e = find_from(t, '=', 0);
        if t.len() > 0 && t[0] == '[' {
            Ccd { in_entry: opens_entry(t), control: 0, pmin: 0, ..self.committed() }
        } else if e < t.len() {
            self.key_read(upper(trimmed(t.take(e))), trimmed(t.skip(e + 1)))
        } else {
            self
        }
    }
}

/// The first `n` lines of a CloneCD file are read.
pub open spec fn ccd_read(text: Seq<Seq<char>>, n: int) -> Ccd
    decreases n,
{
    if n <= 0 {
        Ccd::start()
    } else {
        ccd_read(text, n - 1).line_read(text[n - 1])
    }
}

/// The first entry about `point`, from index `from` on.
pub open spec fn entry_about(entries: Seq<CcdEntry>, point: u32, from: int) -> Option<CcdEntry>
    decreases entries.len() - from,
{
    if from >= entries.len() {
        None
    } else if entries[from].point == point {
        Some(entries[from])
    } else {
        entry_about(entries, point, from + 1)
    }
}

/// A position, not below 0.
pub open spec fn at_least_zero(n: i64) -> i64 {
    if n < 0 {
        0
    } else {
        n
    }
}

/// Track `tno`: raw sectors at its position in the image, a data track where
/// control bit 2 is set.
pub open spec fn ccd_track(e: CcdEntry, tno: u8) -> PendingTrack {
    (
        tno,
        if e.control & 0x04 != 0 {
            TrackMode::Mode1
        } else {
            TrackMode::Audio
        },
        2352,
        (at_least_zero(e.plba) as usize).wrapping_mul(2352),
    )
}

/// The tracks 1 to `n`, or a message about the first that is missing.
pub open spec fn ccd_tracks(entries: Seq<CcdEntry>, n: nat) -> Result<
    Seq<PendingTrack>,
    Seq<char>,
>
    decreases n,
{
    if n == 0 {
        Ok(Seq::empty())
    } else {
        match ccd_tracks(entries, (n - 1) as nat) {
            Err(m) => Err(m),
            Ok(ts) => match entry_about(entries, n as u32, 0) {
                None => Err("CCD: missing track "@ + decimal(n)),
                Some(e) => Ok(ts.push(ccd_track(e, n as u8))),
            },
        }
    }
}

/// The disc that the entries of a CloneCD file describe: point `0xA1` gives the
/// number of tracks, `0xA2` the lead-out.
pub open spec fn entries_disc(entries: Seq<CcdEntry>, img: Seq<u8>) -> Result<
    DiscView,
    Seq<char>,
> {
    match entry_about(entries, 0xA1, 0) {
        None => Err("CCD: no point 0xA1 (last track)"@),
        Some(last) => match ccd_tracks(entries, (last.pmin as u8) as nat) {
            Err(m) => Err(m),
            Ok(ts) => match pending_disc(img, ts) {
                Err(m) => Err(m),
                Ok(d) => Ok(
                    match entry_about(entries, 0xA2, 0) {
                        Some(lo) => DiscView {
                            lead_out: (at_least_zero(lo.plba) as u32).wrapping_add(FAD_OFFSET),
                            ..d
                        },
                        None => d,
                    },
                ),
            },
        },
    }
}

/// The disc that a CloneCD file describes.
pub open spec fn ccd_disc(ccd: Seq<char>, img: Seq<u8>) -> Result<DiscView, Seq<char>> {
    entries_disc(ccd_read(lines(ccd), lines(ccd).len() as int).committed().entries, img)
}

/// A reader of CloneCD files.
pub struct CcdReader {
    pub entries: Vec<CcdEntry>,
    pub point: Option<u32>,
    pub control: u32,
    pub plba: Option<i64>,
    pub pmin: i64,
    pub in_entry: bool,
}

impl View for CcdReader {
    type V = Ccd;

    open spec fn view(&self) -> Ccd {
        Ccd {
            entries: self.entries@,
            point: self.point,
            control: self.control,
            plba: self.plba,
            pmin: self.pmin,
            in_entry: self.in_entry,
        }
    }
}

impl CcdReader {
    /// A reader that has read nothing.
    pub fn new() -> (r: CcdReader)
        ensures
            r@ == Ccd::start(),
    {
        let r = CcdReader {
            entries: Vec::new(),
            point: None,
            control: 0,
            plba: None,
            pmin: 0,
            in_entry: false,
        };
        assert(r@.entries =~= Ccd::start().entries);
        r
    }

    /// Completes the current entry.
    pub fn commit(&mut self)
        ensures
            final(self)@ == old(self)@.committed(),
    {
        if self.in_entry {
            if let Some(point) = self.point {
                if let Some(plba) = self.plba {
                    self.entries.push(
                        CcdEntry { point, control: self.control, plba, pmin: self.pmin },
                    );
                }
            }
            self.point = None;
            self.plba = None;
        }
    }

    /// Reads one line.
    pub fn read_line(&mut self, line: &[char])
        ensures
            final(self)@ == old(self)@.line_read(line@),
    {
        let t = trim(line);
        if t.len() > 0 && t[0] == '[' {
            self.commit();
            self.in_entry = Self::is_entry(t);
            self.control = 0;
            self.pmin = 0;
            return ;
        }
        let e: usize = find_char(t, '=', 0);
        if e < t.len() {
            let k = slice_subrange(t, 0, e);
            let v = slice_subrange(t, e + 1, t.len());
            assert(k@ =~= t@.take(e as int));
            assert(v@ =~= t@.skip(e + 1));
            let key = to_upper_case(trim(k));
            self.read_key(key.as_slice(), trim(v));
        }
    }

    fn is_entry(t: &[char]) -> (r: bool)
        ensures
            r == opens_entry(t@),
    {
        if t.len() < 6 {
            return false;
        }
        let head = slice_subrange(t, 0, 6);
        assert(head@ =~= t@.take(6));
        let u = to_upper_case(head);
        same_text(u.as_slice(), "[ENTRY")
    }

    fn read_key(&mut self, key: &[char], v: &[char])
        ensures
            final(self)@ == old(self)@.key_read(key@, v@),
    {
        let n: Option<i64> = read_int(v);
        let or_zero: i64 = match n {
            Some(x) => x,
            None => 0,
        };
        if same_text(key, "POINT") {
            self.point = match n {
                Some(x) => Some(x as u32),
                None => None,
            };
        } else if same_text(key, "CONTROL") {
            self.control = or_zero as u32;
        } else if same_text(key, "PLBA") {
            self.plba = n;
        } else if same_text(key, "PMIN") {
            self.pmin = or_zero;
        }
    }
}

/// The first entry about `point`.
fn find_entry(entries: &Vec<CcdEntry>, point: u32) -> (r: Option<CcdEntry>)
    ensures
        r == entry_about(entries@, point, 0),
{
    let mut i: usize = 0;
    while i < entries.len()
        invariant
            i <= entries@.len(),
            entry_about(entries@, point, 0) == entry_about(entries@, point, i as int),
        decreases entries.len() - i,
    {
        if entries[i].point == point {
            return Some(entries[i]);
        }
        i += 1;
    }
    None
}

/// The tracks that some entries describe.
fn entry_tracks(entries: &Vec<CcdEntry>, n: u8) -> (r: Result<Vec<PendingTrack>, String>)
    ensures
        match (r, ccd_tracks(entries@, n as nat)) {
            (Ok(v), Ok(ts)) => v@ == ts,
            (Err(e), Err(m)) => e@ == m,
            _ => false,
        },
        r matches Ok(v) ==> forall|i: int|
            0 <= i < v@.len() ==> sector_size_ok((#[trigger] v@[i]).2),
{
    let mut tracks: Vec<PendingTrack> = Vec::new();
    let mut k: u8 = 0;
    assert(tracks@ =~= Seq::<PendingTrack>::empty());
    while k < n
        invariant
            k <= n,
            ccd_tracks(entries@, k as nat) == Ok::<Seq<PendingTrack>, Seq<char>>(tracks@),
            forall|i: int| 0 <= i < tracks@.len() ==> sector_size_ok((#[trigger] tracks@[i]).2),
        decreases n - k,
    {
        k += 1;
        match find_entry(entries, k as u32) {
            None => {
                let mut m: String = String::from_str("CCD: missing track ");
                push_decimal(&mut m, k as u128);
                proof {
                    missing_track_stays(entries@, k as nat, n as nat);
                }
                return Err(m);
            },
            Some(e) => {
                let mode: TrackMode = if e.control & 0x04 != 0 {
                    TrackMode::Mode1
                } else {
                    TrackMode::Audio
                };
                let lba: i64 = if e.plba < 0 {
                    0
                } else {
                    e.plba
                };
                tracks.push((k, mode, 2352, (lba as usize).wrapping_mul(2352)));
            },
        }
    }
    Ok(tracks)
}

/// The first missing track is the one reported.
proof fn missing_track_stays(entries: Seq<CcdEntry>, k: nat, n: nat)
    requires
        k <= n,
        ccd_tracks(entries, k) is Err,
    ensures
        ccd_tracks(entries, n) == ccd_tracks(entries, k),
    decreases n,
{
    if k < n {
        missing_track_stays(entries, k, (n - 1) as nat);
    }
}

impl Disc {
    /// Reads a CloneCD control file with its image of raw 2352-byte sectors.
    pub fn from_ccd(ccd: &str, img: Vec<u8>) -> (r: Result<Disc, String>)
        ensures
            agrees(r, ccd_disc(ccd@, img@)),
    {
        let chars = chars_of(ccd);
        let text = split_lines(chars.as_slice());
        let ghost all = lines(ccd@);
        let mut reader = CcdReader::new();
        let mut i: usize = 0;
        while i < text.len()
            invariant
                i <= text@.len(),
                texts(text@) == all,
                all == lines(ccd@),
                reader@ == ccd_read(all, i as int),
            decreases text.len() - i,
        {
            let line = text[i].as_slice();
            assert(all[i as int] == line@);
            reader.read_line(line);
            i += 1;
        }
        reader.commit();
        Self::from_entries(&reader.entries, img)
    }

    /// Builds a disc from the entries of a CloneCD file and its image.
    fn from_entries(entries: &Vec<CcdEntry>, img: Vec<u8>) -> (r: Result<Disc, String>)
        ensures
            agrees(r, entries_disc(entries@, img@)),
    {
        match find_entry(entries, 0xA1) {
            None => Err(String::from_str("CCD: no point 0xA1 (last track)")),
            Some(last) => match entry_tracks(entries, last.pmin as u8) {
                Err(m) => Err(m),
                Ok(ts) => match Disc::from_pending_tracks(img, ts) {
                    Err(m) => Err(m),
                    Ok(d) => Ok(
                        match find_entry(entries, 0xA2) {
                            Some(lo) => {
                                let lba: i64 = if lo.plba < 0 {
                                    0
                                } else {
                                    lo.plba
                                };
                                d.with_lead_out((lba as u32).wrapping_add(FAD_OFFSET))
                            },
                            None => d,
                        },
                    ),
                },
            },
        }
    }
}

// ---- laws -------------------------------------------------------------------------

/// A time of minutes, seconds and frames is as many frames as it says, at 75 to the
/// second.
pub proof fn time_counts_its_frames(m: u32, sec: u32, f: u32)
    requires
        (m * 60 + sec) * 75 + f <= u32::MAX,
    ensures
        frames(decimal(m as nat) + seq![':'] + decimal(sec as nat) + seq![':'] + decimal(f as nat))
            == Some(((m * 60 + sec) * 75 + f) as u32),
{
    let (x, y, z) = (decimal(m as nat), decimal(sec as nat), decimal(f as nat));
    let s = x + seq![':'] + y + seq![':'] + z;
    let a = x.len() as int;
    let b = a + 1 + y.len();
    assert forall|i: int| 0 <= i < a implies #[trigger] s[i] != ':' by {
        decimal_has_digits_alone(m as nat, i);
        assert(s[i] == x[i]);
    }
    assert forall|i: int| a + 1 <= i < b implies #[trigger] s[i] != ':' by {
        decimal_has_digits_alone(sec as nat, i - a - 1);
        assert(s[i] == y[i - a - 1]);
    }
    assert forall|i: int| b + 1 <= i < s.len() implies #[trigger] s[i] != ':' by {
        decimal_has_digits_alone(f as nat, i - b - 1);
        assert(s[i] == z[i - b - 1]);
    }
    separator_is_found(s, ':', 0, a);
    separator_is_found(s, ':', a + 1, b);
    separator_is_found(s, ':', b + 1, s.len() as int);
    assert(s.take(a) =~= x);
    assert(s.subrange(a + 1, b) =~= y);
    assert(s.subrange(b + 1, s.len() as int) =~= z);
    decimal_is_read_back(m as nat);
    decimal_is_read_back(sec as nat);
    decimal_is_read_back(f as nat);
}

/// A track lies in its file as many sectors in as its index says.
pub proof fn index_places_the_track(t: CueTrack)
    requires
        t.file_base + t.index01_frame * t.sector_size <= u32::MAX,
    ensures
        t.placed().0 == t.number,
        t.placed().1 == t.mode,
        t.placed().2 == t.sector_size,
        t.placed().3 == t.file_base + t.index01_frame * t.sector_size,
{
    let (a, b) = (t.index01_frame as int, t.sector_size as int);
    assert(0 <= a * b) by (nonlinear_arith)
        requires
            0 <= a,
            0 <= b,
    ;
    lemma_small_mod((a * b) as nat, (usize::MAX + 1) as nat);
}

/// A file that a sheet names lies behind those before it, and its tracks count from where
/// it starts.
pub proof fn files_lie_one_behind_the_other(c: Cue, line: Seq<char>, bytes: Seq<u8>)
    requires
        quoted(line) is Some,
        c.image.len() <= u32::MAX,
    ensures
        ({
            let d = c.file_line(line, Some(bytes))->Ok_0;
            &&& c.file_line(line, Some(bytes)) is Ok
            &&& d.file_base == c.image.len()
            &&& d.image == c.image + bytes
            &&& d.image.subrange(d.file_base as int, d.image.len() as int) == bytes
            &&& d.have_file && d.pending == c.pending && d.cur == c.cur
        }),
{
    let d = c.file_line(line, Some(bytes))->Ok_0;
    assert(d.image.subrange(d.file_base as int, d.image.len() as int) =~= bytes);
}

/// The tracks of a CloneCD file are in the order of their numbers, each at the position of
/// its entry; whether it is data is in its control.
pub proof fn ccd_tracks_are_in_order(entries: Seq<CcdEntry>, n: nat, i: int)
    requires
        n <= 255,
        ccd_tracks(entries, n) is Ok,
        0 <= i < n,
    ensures
        ({
            let ts = ccd_tracks(entries, n)->Ok_0;
            let e = entry_about(entries, (i + 1) as u32, 0);
            &&& ts.len() == n
            &&& ts[i].0 == i + 1
            &&& e is Some
            &&& ts[i].2 == 2352
            &&& 0 <= e->Some_0.plba <= 0x10_0000 ==> ts[i].3 == 2352 * e->Some_0.plba
            &&& ts[i].1 == TrackMode::Mode1 || ts[i].1 == TrackMode::Audio
            &&& ts[i].1 == TrackMode::Mode1 <==> e->Some_0.control & 0x04 != 0
        }),
    decreases n,
{
    ccd_tracks_count(entries, (n - 1) as nat);
    if i < n - 1 {
        ccd_tracks_are_in_order(entries, (n - 1) as nat, i);
    } else {
        let e = entry_about(entries, n as u32, 0)->Some_0;
        if 0 <= e.plba <= 0x10_0000 {
            lemma_small_mod((e.plba * 2352) as nat, (usize::MAX + 1) as nat);
        }
    }
}

proof fn ccd_tracks_count(entries: Seq<CcdEntry>, n: nat)
    ensures
        ccd_tracks(entries, n) matches Ok(ts) ==> ts.len() == n,
    decreases n,
{
    if n > 0 {
        ccd_tracks_count(entries, (n - 1) as nat);
    }
}

/// The lead-out of a CloneCD file is where its entry says, counted from FAD 150.
pub proof fn ccd_lead_out_is_told(entries: Seq<CcdEntry>, img: Seq<u8>)
    requires
        entries_disc(entries, img) is Ok,
        entry_about(entries, 0xA2, 0) matches Some(e) && 0 <= e.plba < 0x1000_0000,
    ensures
        entries_disc(entries, img)->Ok_0.lead_out == entry_about(entries, 0xA2, 0)->Some_0.plba + 150,
{
}

/// A track type says the size of its sectors, and the mode that they have.
pub proof fn track_type_says_its_size(tok: Seq<char>)
    ensures
        track_type(tok) matches Ok((mode, size)) ==> {
            &&& mode == TrackMode::Mode1 ==> upper(tok) == "MODE1/"@ + decimal(size as nat)
            &&& mode == TrackMode::Mode2 ==> upper(tok) == "MODE2/"@ + decimal(size as nat)
            &&& mode == TrackMode::Audio ==> upper(tok) == "AUDIO"@ && size == 2352
        },
{
    reveal_strlit("MODE1/2048");
    reveal_strlit("MODE1/2352");
    reveal_strlit("MODE2/2336");
    reveal_strlit("MODE2/2352");
    reveal_strlit("MODE1/");
    reveal_strlit("MODE2/");
    reveal_with_fuel(decimal, 5);
    assert(decimal(2048) =~= seq!['2', '0', '4', '8']);
    assert(decimal(2336) =~= seq!['2', '3', '3', '6']);
    assert(decimal(2352) =~= seq!['2', '3', '5', '2']);
    assert("MODE1/"@ + decimal(2048) =~= "MODE1/2048"@);
    assert("MODE1/"@ + decimal(2352) =~= "MODE1/2352"@);
    assert("MODE2/"@ + decimal(2336) =~= "MODE2/2336"@);
    assert("MODE2/"@ + decimal(2352) =~= "MODE2/2352"@);
}

} // verus!
