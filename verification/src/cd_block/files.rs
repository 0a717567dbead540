//! The ISO 9660 directory the host browses.

use vstd::prelude::*;
use crate::disc::{Media, SectorSource, FAD_OFFSET, SECTOR_USER};
use super::model::media_of;

verus! {

/// One ISO 9660 directory record.
#[derive(Clone, Debug)]
pub struct DirEntry {
    pub firstfad: u32,
    pub length: u32,
    pub flags: u8,
    pub file_unit_size: u8,
    pub interleave_gap_size: u8,
    pub name: Vec<u8>,
}

/// The contents of a [`DirEntry`].
#[verifier::ext_equal]
pub struct DirView {
    pub firstfad: u32,
    pub length: u32,
    pub flags: u8,
    pub file_unit_size: u8,
    pub interleave_gap_size: u8,
    pub name: Seq<u8>,
}

impl View for DirEntry {
    type V = DirView;

    open spec fn view(&self) -> DirView {
        DirView {
            firstfad: self.firstfad,
            length: self.length,
            flags: self.flags,
            file_unit_size: self.file_unit_size,
            interleave_gap_size: self.interleave_gap_size,
            name: self.name@,
        }
    }
}

impl DirView {
    /// A record with every field zero.
    pub open spec fn zero() -> DirView {
        DirView {
            firstfad: 0,
            length: 0,
            flags: 0,
            file_unit_size: 0,
            interleave_gap_size: 0,
            name: Seq::empty(),
        }
    }
}

/// The current directory.
#[derive(Clone, Debug)]
pub struct Directory {
    /// Root directory record.
    pub root: DirEntry,
    /// Entries of the current directory.
    pub dir: Vec<DirEntry>,
    pub numfiles: u32,
    /// Index of the first entry that is not a directory.
    pub firstfile: u32,
}

/// The contents of a [`Directory`].
pub struct Files {
    pub root: DirView,
    pub dir: Seq<DirView>,
    pub numfiles: u32,
    pub firstfile: u32,
}

pub open spec fn dir_view(v: Seq<DirEntry>) -> Seq<DirView> {
    Seq::new(v.len(), |i: int| v[i]@)
}

impl View for Directory {
    type V = Files;

    open spec fn view(&self) -> Files {
        Files {
            root: self.root@,
            dir: dir_view(self.dir@),
            numfiles: self.numfiles,
            firstfile: self.firstfile,
        }
    }
}

/// Little-endian 32-bit number at `o`, 0 if out of range.
pub open spec fn le32_at(b: Seq<u8>, o: int) -> u32 {
    if o + 4 <= b.len() {
        b[o] as u32 | ((b[o + 1] as u32) << 8) | ((b[o + 2] as u32) << 16) | ((b[o + 3] as u32)
            << 24)
    } else {
        0
    }
}

/// Little-endian 32-bit number from a byte slice at `o` (0 if out of range).
pub fn le32(b: &[u8], o: usize) -> (r: u32)
    ensures
        r == le32_at(b@, o as int),
{
    if b.len() >= 4 && o <= b.len() - 4 {
        b[o] as u32 | ((b[o + 1] as u32) << 8) | ((b[o + 2] as u32) << 16) | ((b[o + 3] as u32)
            << 24)
    } else {
        0
    }
}

/// A volume descriptor: the standard identifier follows the type byte.
pub open spec fn is_descriptor(sect: Seq<u8>) -> bool {
    sect[1] == 0x43 && sect[2] == 0x44 && sect[3] == 0x30 && sect[4] == 0x30 && sect[5] == 0x31
}

/// The primary volume descriptor, searched from `fad` up to FAD 200. The search
/// stops at the set terminator and at an unreadable sector.
pub open spec fn find_pvd(m: Media, fad: u32) -> Option<Seq<u8>>
    decreases 200 - fad,
{
    if fad >= 200 {
        None
    } else {
        match m.sector_at(fad) {
            None => None,
            Some(sect) => if is_descriptor(sect) && sect[0] == 1 {
                Some(sect)
            } else if is_descriptor(sect) && sect[0] == 0xFF {
                None
            } else {
                find_pvd(m, (fad + 1) as u32)
            },
        }
    }
}

/// The first `n` sectors of a directory at `fad`, zeros where one cannot be
/// read.
pub open spec fn dir_bytes(m: Media, fad: u32, n: nat) -> Seq<u8>
    decreases n,
{
    if n == 0 {
        Seq::empty()
    } else {
        dir_bytes(m, fad, (n - 1) as nat) + (match m.sector_at(fad.wrapping_add((n - 1) as u32)) {
            Some(sect) => sect,
            None => Seq::new(SECTOR_USER as nat, |i: int| 0u8),
        })
    }
}

/// The directory record at `pos`.
pub open spec fn dir_record(buf: Seq<u8>, pos: int) -> DirView {
    let namelen = buf[pos + 32] as int;
    DirView {
        firstfad: le32_at(buf, pos + 2).wrapping_add(FAD_OFFSET),
        length: le32_at(buf, pos + 10),
        flags: buf[pos + 25],
        file_unit_size: buf[pos + 26],
        interleave_gap_size: buf[pos + 27],
        name: if pos + 33 + namelen <= buf.len() {
            buf.subrange(pos + 33, pos + 33 + namelen)
        } else {
            Seq::empty()
        },
    }
}

/// The directory records from `pos` on. A zero length byte ends the records of
/// a sector: reading goes on `gap + 0x800` bytes into the directory, as long as
/// `gap` is within its length `limit`.
pub open spec fn dir_records(buf: Seq<u8>, limit: int, pos: int, gap: int) -> Seq<DirView>
    decreases
            if gap < limit {
                limit - gap
            } else {
                0
            },
            if pos < buf.len() {
                buf.len() - pos
            } else {
                0
            },
{
    if pos < 0 || pos >= buf.len() {
        Seq::empty()
    } else if buf[pos] == 0 {
        if gap < limit {
            dir_records(buf, limit, gap + 0x800, gap + 0x800)
        } else {
            Seq::empty()
        }
    } else if pos + 33 > buf.len() {
        Seq::empty()
    } else {
        seq![dir_record(buf, pos)] + dir_records(buf, limit, pos + buf[pos], gap)
    }
}

/// Index of the first entry from `from` on that is not a directory; 0 if there
/// is none.
pub open spec fn first_file(dir: Seq<DirView>, from: int) -> int
    decreases dir.len() - from,
{
    if from < 0 || from >= dir.len() {
        0
    } else if dir[from].flags & 0x02 == 0 {
        from
    } else {
        first_file(dir, from + 1)
    }
}

impl Files {
    /// Number of sectors read of a directory.
    pub open spec fn dir_sectors(self) -> nat {
        if self.root.length <= 2048 {
            1
        } else {
            ((self.root.length + 2047) / 2048) as nat
        }
    }

    /// The bytes of the directory at `fad`.
    pub open spec fn dir_image(self, disc: Option<Media>, fad: u32) -> Seq<u8> {
        match disc {
            Some(m) => dir_bytes(m, fad, self.dir_sectors()),
            None => Seq::empty(),
        }
    }

    /// The directory at `fad` is the current one.
    pub open spec fn entered(self, disc: Option<Media>, fad: u32) -> Files {
        let dir = dir_records(self.dir_image(disc, fad), self.root.length as int, 0, 0);
        Files {
            dir,
            numfiles: dir.len() as u32,
            firstfile: first_file(dir, 0) as u32,
            ..self
        }
    }

    /// The root record of a primary volume descriptor.
    pub open spec fn root_of(pvd: Seq<u8>) -> DirView {
        DirView {
            firstfad: le32_at(pvd, 158).wrapping_add(FAD_OFFSET),
            length: le32_at(pvd, 166),
            flags: pvd[181],
            ..DirView::zero()
        }
    }

    /// Directory `fileno` is entered: the root for `0xFFFFFF`, else an entry of
    /// the current directory. Nothing changes where there is none.
    pub open spec fn changed(self, disc: Option<Media>, fileno: u32) -> Files {
        if fileno == 0xFF_FFFF {
            match disc {
                Some(m) => match find_pvd(m, 166) {
                    Some(pvd) => {
                        let root = Self::root_of(pvd);
                        Files { root, ..self }.entered(disc, root.firstfad)
                    },
                    None => self,
                },
                None => self,
            }
        } else if fileno < self.dir.len() {
            self.entered(disc, self.dir[fileno as int].firstfad)
        } else {
            self
        }
    }
}

impl Directory {
    /// The primary volume descriptor.
    fn read_pvd<S: SectorSource>(disc: &S) -> (r: Option<[u8; 2048]>)
        ensures
            match r {
                Some(b) => find_pvd(disc.media(), 166) == Some(b@),
                None => find_pvd(disc.media(), 166) is None,
            },
    {
        let mut sect: [u8; 2048] = [0u8; 2048];
        let mut fad: u32 = 166;
        while fad < 200
            invariant
                166 <= fad <= 200,
                find_pvd(disc.media(), 166) == find_pvd(disc.media(), fad),
            decreases 200 - fad,
        {
            if !disc.read_sector(fad, &mut sect) {
                return None;
            }
            if sect[1] == 0x43 && sect[2] == 0x44 && sect[3] == 0x30 && sect[4] == 0x30 && sect[5]
                == 0x31 {
                if sect[0] == 1 {
                    return Some(sect);
                }
                if sect[0] == 0xFF {
                    return None;
                }
            }
            fad += 1;
        }
        None
    }

    /// The bytes of the directory at `fad`.
    fn read_dir<S: SectorSource>(&self, disc: &Option<S>, fad: u32) -> (r: Vec<u8>)
        ensures
            r@ == self@.dir_image(media_of(*disc), fad),
    {
        let len: u32 = if self.root.length < 2048 {
            2048
        } else {
            self.root.length
        };
        let nsect: u32 = len / 2048 + if len % 2048 == 0 {
            0
        } else {
            1
        };
        let mut buf: Vec<u8> = Vec::new();
        match disc {
            None => buf,
            Some(d) => {
                assert(nsect == self@.dir_sectors());
                let mut i: u32 = 0;
                while i < nsect
                    invariant
                        i <= nsect,
                        buf@ == dir_bytes(d.media(), fad, i as nat),
                    decreases nsect - i,
                {
                    let mut sect: [u8; 2048] = [0u8; 2048];
                    let ok: bool = d.read_sector(fad.wrapping_add(i), &mut sect);
                    if !ok {
                        sect = [0u8; 2048];
                    }
                    let ghost before = buf@;
                    buf.extend_from_slice(sect.as_slice());
                    assert(buf@ =~= before + sect@);
                    assert(!ok ==> sect@ =~= Seq::new(SECTOR_USER as nat, |j: int| 0u8));
                    i += 1;
                }
                buf
            },
        }
    }

    /// Parses directory records.
    fn parse_records(buf: &Vec<u8>, limit: u32) -> (r: Vec<DirEntry>)
        ensures
            dir_view(r@) == dir_records(buf@, limit as int, 0, 0),
    {
        let mut entries: Vec<DirEntry> = Vec::new();
        let len: u64 = buf.len() as u64;
        let mut pos: u64 = 0;
        let mut gap: u64 = 0;
        let ghost goal = dir_records(buf@, limit as int, 0, 0);
        assert(dir_view(entries@) =~= Seq::<DirView>::empty());
        assert(goal =~= Seq::<DirView>::empty() + goal);
        while pos < len
            invariant
                len == buf@.len(),
                len <= usize::MAX,
                gap <= limit + 0x800,
                goal == dir_view(entries@) + dir_records(
                    buf@,
                    limit as int,
                    pos as int,
                    gap as int,
                ),
            ensures
                goal == dir_view(entries@),
            decreases
                    (if gap < limit {
                        limit - gap
                    } else {
                        0int
                    }),
                    (if pos < len {
                        len - pos
                    } else {
                        0int
                    }),
        {
            let p: usize = pos as usize;
            let rec: u8 = buf[p];
            if rec == 0 {
                if gap < limit as u64 {
                    gap += 0x800;
                    pos = gap;
                    continue ;
                }
                assert(goal =~= dir_view(entries@));
                break ;
            }
            if len - pos < 33 {
                assert(goal =~= dir_view(entries@));
                break ;
            }
            let namelen: usize = buf[p + 32] as usize;
            let mut name: Vec<u8> = Vec::new();
            if buf.len() - (p + 33) >= namelen {
                name.extend_from_slice(
                    vstd::slice::slice_subrange(buf.as_slice(), p + 33, p + 33 + namelen),
                );
                assert(name@ =~= buf@.subrange(p + 33, p + 33 + namelen));
            }
            let e = DirEntry {
                firstfad: le32(buf.as_slice(), p + 2).wrapping_add(FAD_OFFSET),
                length: le32(buf.as_slice(), p + 10),
                flags: buf[p + 25],
                file_unit_size: buf[p + 26],
                interleave_gap_size: buf[p + 27],
                name,
            };
            assert(e@ == dir_record(buf@, pos as int));
            let ghost before = entries@;
            let ghost after = dir_records(buf@, limit as int, pos + rec, gap as int);
            entries.push(e);
            assert(dir_view(entries@) =~= dir_view(before).push(e@));
            assert(dir_view(before) + (seq![e@] + after) =~= dir_view(before).push(e@) + after);
            pos = if (rec as u64) < len - pos {
                pos + rec as u64
            } else {
                len
            };
        }
        assert(dir_view(entries@) + Seq::<DirView>::empty() =~= dir_view(entries@));
        entries
    }

    /// Index of the first entry that is not a directory, 0 if there is none.
    fn find_first_file(dir: &Vec<DirEntry>) -> (r: usize)
        ensures
            r == first_file(dir_view(dir@), 0),
    {
        let ghost view = dir_view(dir@);
        let mut i: usize = 0;
        while i < dir.len()
            invariant
                i <= dir@.len(),
                view == dir_view(dir@),
                first_file(view, 0) == first_file(view, i as int),
            decreases dir.len() - i,
        {
            assert(view[i as int] == dir@[i as int]@);
            if dir[i].flags & 0x02 == 0 {
                return i;
            }
            i += 1;
        }
        0
    }

    /// Reads the directory at `fad` and makes it the current one.
    pub fn make_dir_current<S: SectorSource>(&mut self, disc: &Option<S>, fad: u32)
        ensures
            final(self)@ == old(self)@.entered(media_of(*disc), fad),
    {
        let buf = self.read_dir(disc, fad);
        let entries = Self::parse_records(&buf, self.root.length);
        self.numfiles = entries.len() as u32;
        self.firstfile = Self::find_first_file(&entries) as u32;
        self.dir = entries;
    }

    /// Loads a directory. `0xFFFFFF` finds the primary volume descriptor, takes
    /// the root record from it and reads the root directory; any other number
    /// reads the sub-directory at that entry.
    pub fn read_new_dir<S: SectorSource>(&mut self, disc: &Option<S>, fileno: u32)
        ensures
            final(self)@ == old(self)@.changed(media_of(*disc), fileno),
    {
        if fileno == 0xFF_FFFF {
            if let Some(d) = disc {
                if let Some(sect) = Self::read_pvd(d) {
                    let sl = sect.as_slice();
                    self.root = DirEntry {
                        firstfad: le32(sl, 158).wrapping_add(FAD_OFFSET),
                        length: le32(sl, 166),
                        flags: sect[181],
                        file_unit_size: 0,
                        interleave_gap_size: 0,
                        name: Vec::new(),
                    };
                    assert(self.root@ == Files::root_of(sect@));
                    let fad: u32 = self.root.firstfad;
                    self.make_dir_current(disc, fad);
                }
            }
        } else if (fileno as u64) < self.dir.len() as u64 {
            let fad: u32 = self.dir[fileno as usize].firstfad;
            self.make_dir_current(disc, fad);
        }
    }
}

// ---- laws -----------------------------------------------------------------------

/// Four bytes, the lowest first.
pub open spec fn le_number(a: u8, b: u8, c: u8, d: u8) -> int {
    a + 0x100 * b + 0x1_0000 * c + 0x100_0000 * d
}

proof fn le_bits(a: u8, b: u8, c: u8, d: u8)
    by (bit_vector)
    ensures
        a as u32 | ((b as u32) << 8) | ((c as u32) << 16) | ((d as u32) << 24) == a + 0x100 * b
            + 0x1_0000 * c + 0x100_0000 * d,
        a & 2 == 0 <==> (a / 2) % 2 == 0,
{
}

/// `len` bytes from `pos` on are a record of `d`: its length, the extent and the size of
/// the file, the flags, the interleaving, and the name with its length before it. The
/// extent is counted from FAD 150.
pub open spec fn holds_record(buf: Seq<u8>, pos: int, len: int, d: DirView) -> bool {
    &&& 0 <= pos
    &&& pos + len <= buf.len()
    &&& 33 + d.name.len() <= len
    &&& buf[pos] == len
    &&& d.firstfad == (le_number(buf[pos + 2], buf[pos + 3], buf[pos + 4], buf[pos + 5]) + 150)
        % 0x1_0000_0000
    &&& d.length == le_number(buf[pos + 10], buf[pos + 11], buf[pos + 12], buf[pos + 13])
    &&& d.flags == buf[pos + 25]
    &&& d.file_unit_size == buf[pos + 26]
    &&& d.interleave_gap_size == buf[pos + 27]
    &&& d.name.len() == buf[pos + 32]
    &&& forall|i: int| 0 <= i < d.name.len() ==> #[trigger] d.name[i] == buf[pos + 33 + i]
}

proof fn record_is_read(buf: Seq<u8>, pos: int, len: int, d: DirView)
    requires
        holds_record(buf, pos, len, d),
    ensures
        dir_record(buf, pos) == d,
{
    le_bits(buf[pos + 2], buf[pos + 3], buf[pos + 4], buf[pos + 5]);
    le_bits(buf[pos + 10], buf[pos + 11], buf[pos + 12], buf[pos + 13]);
    let r = dir_record(buf, pos);
    assert(r.name =~= d.name);
    assert(r =~= d);
}

/// Record `i` of `dir` lies at `at[i]`, and ends where the next begins.
pub open spec fn record_lies_at(buf: Seq<u8>, at: Seq<int>, dir: Seq<DirView>, i: int) -> bool {
    holds_record(buf, at[i], at[i + 1] - at[i], dir[i])
}

/// Records that lie one behind the other are listed in their order, before whatever
/// follows them.
pub proof fn records_are_listed_in_order(
    buf: Seq<u8>,
    limit: int,
    gap: int,
    at: Seq<int>,
    dir: Seq<DirView>,
)
    requires
        at.len() == dir.len() + 1,
        forall|i: int| 0 <= i < dir.len() ==> #[trigger] record_lies_at(buf, at, dir, i),
    ensures
        dir_records(buf, limit, at[0], gap) == dir + dir_records(buf, limit, at.last(), gap),
    decreases dir.len(),
{
    if dir.len() == 0 {
        assert(dir + dir_records(buf, limit, at.last(), gap) =~= dir_records(
            buf,
            limit,
            at[0],
            gap,
        ));
    } else {
        assert(record_lies_at(buf, at, dir, 0));
        record_is_read(buf, at[0], at[1] - at[0], dir[0]);
        let at2 = at.drop_first();
        let dir2 = dir.drop_first();
        assert forall|i: int| 0 <= i < dir2.len() implies #[trigger] record_lies_at(
            buf,
            at2,
            dir2,
            i,
        ) by {
            assert(record_lies_at(buf, at, dir, i + 1));
        }
        records_are_listed_in_order(buf, limit, gap, at2, dir2);
        assert(at2.last() == at.last());
        assert(dir_records(buf, limit, at[0], gap) =~= seq![dir[0]] + dir_records(
            buf,
            limit,
            at[1],
            gap,
        ));
        assert(dir =~= seq![dir[0]] + dir2);
        assert(dir + dir_records(buf, limit, at.last(), gap) =~= seq![dir[0]] + (dir2 + dir_records(
            buf,
            limit,
            at.last(),
            gap,
        )));
    }
}

/// A zero length byte ends the records of a sector: the next ones are at the start of
/// the next sector, within the length of the directory.
pub proof fn records_go_on_in_the_next_sector(buf: Seq<u8>, limit: int, pos: int, gap: int)
    requires
        0 <= pos < buf.len(),
        buf[pos] == 0,
    ensures
        gap < limit ==> dir_records(buf, limit, pos, gap) == dir_records(
            buf,
            limit,
            gap + 2048,
            gap + 2048,
        ),
        gap >= limit ==> dir_records(buf, limit, pos, gap).len() == 0,
{
}

/// Sector `k` of the directory at `fad` is what the disc has at `fad + k`.
pub open spec fn sector_is(m: Media, fad: u32, image: Seq<u8>, k: int) -> bool {
    m.sector_at(((fad + k) % 0x1_0000_0000) as u32) == Some(image.subrange(2048 * k, 2048 * k + 2048))
}

proof fn image_is_read(m: Media, fad: u32, image: Seq<u8>, n: nat)
    requires
        2048 * n <= image.len(),
        n <= 0x20_0000,
        forall|k: int| 0 <= k < n ==> #[trigger] sector_is(m, fad, image, k),
    ensures
        dir_bytes(m, fad, n) == image.subrange(0, 2048 * n as int),
    decreases n,
{
    if n == 0 {
        assert(image.subrange(0, 0) =~= Seq::empty());
    } else {
        image_is_read(m, fad, image, (n - 1) as nat);
        assert(sector_is(m, fad, image, n - 1));
        assert(fad.wrapping_add((n - 1) as u32) == (fad + (n - 1)) % 0x1_0000_0000);
        assert(image.subrange(0, 2048 * (n - 1)) + image.subrange(2048 * (n - 1), 2048 * n as int)
            =~= image.subrange(0, 2048 * n as int));
    }
}

/// After a change to entry `n` of the current directory, the current directory lists
/// the records of the sectors from the first FAD of entry `n` on, and counts them.
pub proof fn entered_directory_is_listed(
    f: Files,
    m: Media,
    n: u32,
    image: Seq<u8>,
    at: Seq<int>,
    dir: Seq<DirView>,
)
    requires
        n < f.dir.len(),
        n != 0xFF_FFFF,
        image.len() % 2048 == 0,
        image.len() >= 2048,
        image.len() - 2048 < f.root.length <= image.len() || (f.root.length == 0 && image.len()
            == 2048),
        forall|k: int|
            0 <= k < image.len() as int / 2048 ==> #[trigger] sector_is(
                m,
                f.dir[n as int].firstfad,
                image,
                k,
            ),
        at.len() == dir.len() + 1,
        at[0] == 0,
        forall|i: int| 0 <= i < dir.len() ==> #[trigger] record_lies_at(image, at, dir, i),
    ensures
        ({
            let g = f.changed(Some(m), n);
            let rest = dir_records(image, f.root.length as int, at.last(), 0);
            &&& g.dir == dir + rest
            &&& g.numfiles == g.dir.len() as u32
            &&& g.root == f.root
            &&& at.last() == image.len() ==> g.dir == dir
            &&& at.last() < image.len() == 2048 && image[at.last()] == 0 ==> g.dir == dir
        }),
{
    let fad = f.dir[n as int].firstfad;
    let count = (image.len() as int / 2048) as nat;
    assert(f.dir_sectors() == count);
    image_is_read(m, fad, image, count);
    assert(image.subrange(0, 2048 * count as int) =~= image);
    records_are_listed_in_order(image, f.root.length as int, 0, at, dir);
    let rest = dir_records(image, f.root.length as int, at.last(), 0);
    if at.last() == image.len() {
        assert(dir + rest =~= dir);
    } else if at.last() < image.len() && image.len() == 2048 && image[at.last()] == 0 {
        reveal_with_fuel(dir_records, 2);
        assert(rest.len() == 0);
        assert(dir + rest =~= dir);
    }
}

/// Directories with different records give different listings, whichever entries of
/// whichever directory they are.
pub proof fn different_directories_differ(f: Files, m: Media, n: u32, k: u32, a: Seq<u8>, b: Seq<u8>)
    requires
        n < f.dir.len(),
        k < f.dir.len(),
        n != 0xFF_FFFF,
        k != 0xFF_FFFF,
        f.root.length <= 2048,
        m.sector_at(f.dir[n as int].firstfad) == Some(a),
        m.sector_at(f.dir[k as int].firstfad) == Some(b),
        a.len() == 2048,
        b.len() == 2048,
        a[0] != 0,
        b[0] != 0,
        le_number(a[2], a[3], a[4], a[5]) != le_number(b[2], b[3], b[4], b[5]),
    ensures
        f.changed(Some(m), n).dir != f.changed(Some(m), k).dir,
{
    let (x, y) = (f.changed(Some(m), n), f.changed(Some(m), k));
    reveal_with_fuel(dir_bytes, 2);
    assert(f.dir_image(Some(m), f.dir[n as int].firstfad) =~= a);
    assert(f.dir_image(Some(m), f.dir[k as int].firstfad) =~= b);
    le_bits(a[2], a[3], a[4], a[5]);
    le_bits(b[2], b[3], b[4], b[5]);
    assert(x.dir[0] == dir_record(a, 0));
    assert(y.dir[0] == dir_record(b, 0));
    assert(x.dir[0].firstfad != y.dir[0].firstfad);
}

/// The root comes from the primary volume descriptor, which is searched from FAD 166 on:
/// the descriptors before it are passed over, and the root directory is entered as any
/// other directory is.
pub proof fn root_comes_from_the_descriptor(f: Files, m: Media, fad: u32, pvd: Seq<u8>)
    requires
        166 <= fad < 200,
        pvd.len() == 2048,
        m.sector_at(fad) == Some(pvd),
        pvd.subrange(0, 6) == seq![1u8, 0x43, 0x44, 0x30, 0x30, 0x31],
        forall|k: u32|
            166 <= k < fad ==> (#[trigger] m.sector_at(k)) is Some && m.sector_at(k)->Some_0[0] != 1
                && m.sector_at(k)->Some_0[0] != 0xFF,
    ensures
        ({
            let g = f.changed(Some(m), 0xFF_FFFF);
            let first = (le_number(pvd[158], pvd[159], pvd[160], pvd[161]) + 150) % 0x1_0000_0000;
            &&& g.root.firstfad == first
            &&& g.root.length == le_number(pvd[166], pvd[167], pvd[168], pvd[169])
            &&& g.root.flags == pvd[181]
            &&& forall|h: Files, n: u32|
                #![trigger h.changed(Some(m), n)]
                h.root == g.root && n < h.dir.len() && n != 0xFF_FFFF && h.dir[n as int].firstfad
                    == first ==> h.changed(Some(m), n).dir == g.dir
        }),
{
    descriptor_is_found(m, 166, fad, pvd);
    le_bits(pvd[158], pvd[159], pvd[160], pvd[161]);
    le_bits(pvd[166], pvd[167], pvd[168], pvd[169]);
}

proof fn descriptor_is_found(m: Media, from: u32, fad: u32, pvd: Seq<u8>)
    requires
        from <= fad < 200,
        pvd.len() == 2048,
        m.sector_at(fad) == Some(pvd),
        pvd.subrange(0, 6) == seq![1u8, 0x43, 0x44, 0x30, 0x30, 0x31],
        forall|k: u32|
            from <= k < fad ==> (#[trigger] m.sector_at(k)) is Some && m.sector_at(k)->Some_0[0] != 1
                && m.sector_at(k)->Some_0[0] != 0xFF,
    ensures
        find_pvd(m, from) == Some(pvd),
    decreases fad - from,
{
    if from == fad {
        let s = pvd.subrange(0, 6);
        assert(s[0] == pvd[0] && s[1] == pvd[1] && s[2] == pvd[2] && s[3] == pvd[3] && s[4] == pvd[4]
            && s[5] == pvd[5]);
    } else {
        assert(m.sector_at(from) is Some);
        descriptor_is_found(m, (from + 1) as u32, fad, pvd);
    }
}

/// The first file is the first entry without the directory flag.
pub proof fn first_file_is_no_directory(dir: Seq<DirView>, i: int)
    requires
        0 <= i < dir.len(),
        (dir[i].flags / 2) % 2 == 0,
        forall|k: int| 0 <= k < i ==> ((#[trigger] dir[k]).flags / 2) % 2 == 1,
    ensures
        first_file(dir, 0) == i,
{
    first_file_from(dir, 0, i);
}

proof fn first_file_from(dir: Seq<DirView>, from: int, i: int)
    requires
        0 <= from <= i < dir.len(),
        (dir[i].flags / 2) % 2 == 0,
        forall|k: int| from <= k < i ==> ((#[trigger] dir[k]).flags / 2) % 2 == 1,
    ensures
        first_file(dir, from) == i,
    decreases i - from,
{
    le_bits(dir[from].flags, 0, 0, 0);
    if from < i {
        first_file_from(dir, from + 1, i);
    }
}

} // verus!
