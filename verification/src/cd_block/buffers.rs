//! The sector pool, filters and partitions.

use vstd::prelude::*;
use crate::disc::{Media, SectorSource, SECTOR_USER};
use super::model::media_of;
use super::{MAX_BLOCKS, MAX_FILTERS, NO_FILTER};

verus! {

/// One buffered sector. `size < 0` marks the slot free; otherwise it holds
/// `size` bytes of data plus the sector's disc coordinates and subheader.
#[derive(Clone, Debug)]
pub struct Block {
    pub size: i32,
    pub fad: i32,
    pub data: Vec<u8>,
    pub chan: u8,
    pub fnum: u8,
    pub subm: u8,
    pub cinf: u8,
}

/// The contents of a [`Block`].
#[verifier::ext_equal]
pub struct BlockView {
    pub size: i32,
    pub fad: i32,
    pub data: Seq<u8>,
    pub chan: u8,
    pub fnum: u8,
    pub subm: u8,
    pub cinf: u8,
}

impl View for Block {
    type V = BlockView;

    open spec fn view(&self) -> BlockView {
        BlockView {
            size: self.size,
            fad: self.fad,
            data: self.data@,
            chan: self.chan,
            fnum: self.fnum,
            subm: self.subm,
            cinf: self.cinf,
        }
    }
}

impl Block {
    /// A free pool slot.
    pub fn free() -> (r: Block)
        ensures
            r@ == BlockView::free(),
    {
        Block { size: -1, fad: 0, data: Vec::new(), chan: 0, fnum: 0, subm: 0, cinf: 0 }
    }
}

/// A sector-selection filter: FAD-range and subheader conditions, plus the
/// partition a match goes to and the filter a miss goes on to.
#[derive(Clone, Copy, Debug, PartialEq, Eq, Structural)]
pub struct Filter {
    pub mode: u8,
    pub chan: u8,
    pub smmask: u8,
    pub cimask: u8,
    pub fid: u8,
    pub smval: u8,
    pub cival: u8,
    pub condtrue: u8,
    pub condfalse: u8,
    pub fad: u32,
    pub range: u32,
}

impl Filter {
    /// A filter with every field zero.
    pub open spec fn zero() -> Filter {
        Filter {
            mode: 0,
            chan: 0,
            smmask: 0,
            cimask: 0,
            fid: 0,
            smval: 0,
            cival: 0,
            condtrue: 0,
            condfalse: 0,
            fad: 0,
            range: 0,
        }
    }
}

impl Default for Filter {
    fn default() -> (r: Filter)
        ensures
            r == Filter::zero(),
    {
        Filter {
            mode: 0,
            chan: 0,
            smmask: 0,
            cimask: 0,
            fid: 0,
            smval: 0,
            cival: 0,
            condtrue: 0,
            condfalse: 0,
            fad: 0,
            range: 0,
        }
    }
}

/// A partition: the pool slots of its sectors, in order of arrival.
#[derive(Clone, Debug)]
pub struct Partition {
    pub blocks: Vec<usize>,
}

impl BlockView {
    /// A free slot.
    pub open spec fn free() -> BlockView {
        BlockView { size: (-1) as i32, fad: 0, data: Seq::empty(), chan: 0, fnum: 0, subm: 0, cinf: 0 }
    }

    /// The slot after its sector was given back.
    pub open spec fn freed(self) -> BlockView {
        BlockView { size: (-1) as i32, data: Seq::empty(), ..self }
    }
}

/// The sector pool with its filters and partitions.
#[derive(Clone, Debug)]
pub struct SectorBuffers {
    /// The pool.
    pub blocks: Vec<Block>,
    /// Number of free pool slots.
    pub free_blocks: i32,
    /// Buffer-full latch.
    pub buf_full: bool,
    pub filters: Vec<Filter>,
    pub partitions: Vec<Partition>,
    /// Filter the drive's output is connected to.
    pub cd_device_filter: u8,
    /// Partition the last sector was delivered to.
    pub last_buffer: u8,
    /// Bytes stored of each sector read.
    pub sectlenin: u32,
    /// Bytes handed to the host of each sector.
    pub sectlenout: u32,
    /// Result of the last size calculation, in words.
    pub calcsize: u32,
    /// A sector was buffered since the last read command.
    pub sectorstore: bool,
    /// The sector being filtered.
    pub curblock: Block,
    /// It carries a Mode-2 subheader.
    pub curblock_mode2: bool,
}

/// The contents of [`SectorBuffers`].
pub struct Buffers {
    pub blocks: Seq<BlockView>,
    pub free_blocks: i32,
    pub buf_full: bool,
    pub filters: Seq<Filter>,
    pub partitions: Seq<Seq<usize>>,
    pub cd_device_filter: u8,
    pub last_buffer: u8,
    pub sectlenin: u32,
    pub sectlenout: u32,
    pub calcsize: u32,
    pub sectorstore: bool,
    pub curblock: BlockView,
    pub curblock_mode2: bool,
}

pub open spec fn blocks_view(v: Seq<Block>) -> Seq<BlockView> {
    Seq::new(v.len(), |i: int| v[i]@)
}

pub open spec fn partitions_view(v: Seq<Partition>) -> Seq<Seq<usize>> {
    Seq::new(v.len(), |i: int| v[i].blocks@)
}

impl View for SectorBuffers {
    type V = Buffers;

    open spec fn view(&self) -> Buffers {
        Buffers {
            blocks: blocks_view(self.blocks@),
            free_blocks: self.free_blocks,
            buf_full: self.buf_full,
            filters: self.filters@,
            partitions: partitions_view(self.partitions@),
            cd_device_filter: self.cd_device_filter,
            last_buffer: self.last_buffer,
            sectlenin: self.sectlenin,
            sectlenout: self.sectlenout,
            calcsize: self.calcsize,
            sectorstore: self.sectorstore,
            curblock: self.curblock@,
            curblock_mode2: self.curblock_mode2,
        }
    }
}

// ---- the sector pool -----------------------------------------------------

/// Number of free slots among the first `n`.
pub open spec fn count_free(blocks: Seq<BlockView>, n: int) -> int
    decreases n,
{
    if n <= 0 {
        0
    } else {
        count_free(blocks, n - 1) + if blocks[n - 1].size < 0 {
            1int
        } else {
            0
        }
    }
}

/// Number of sectors held by the first `n` partitions.
pub open spec fn count_held(partitions: Seq<Seq<usize>>, n: int) -> int
    decreases n,
{
    if n <= 0 {
        0
    } else {
        count_held(partitions, n - 1) + partitions[n - 1].len()
    }
}

/// Index of the first free slot from `from` on; the pool's size if none is.
pub open spec fn first_free(blocks: Seq<BlockView>, from: int) -> int
    decreases blocks.len() - from,
{
    if from >= blocks.len() {
        blocks.len() as int
    } else if blocks[from].size < 0 {
        from
    } else {
        first_free(blocks, from + 1)
    }
}

impl Buffers {
    /// How many slots, filters and partitions there are, and that partitions
    /// hold pool indices.
    pub open spec fn shaped(self) -> bool {
        &&& self.blocks.len() == MAX_BLOCKS
        &&& self.filters.len() == MAX_FILTERS
        &&& self.partitions.len() == MAX_FILTERS
        &&& forall|p: int, i: int|
            0 <= p < MAX_FILTERS && 0 <= i < self.partitions[p].len() ==> (
            #[trigger] self.partitions[p][i]) < MAX_BLOCKS
    }

    /// The pool is accounted for: a slot in a partition is in use and is in no
    /// other place, and the free count is the number of slots that are free.
    pub open spec fn pooled(self) -> bool {
        &&& forall|p: int, i: int|
            0 <= p < MAX_FILTERS && 0 <= i < self.partitions[p].len()
                ==> self.blocks[#[trigger] self.partitions[p][i] as int].size >= 0
        &&& forall|p: int, i: int, q: int, j: int|
            0 <= p < MAX_FILTERS && 0 <= i < self.partitions[p].len() && 0 <= q < MAX_FILTERS && 0
                <= j < self.partitions[q].len() && !(p == q && i == j) ==> #[trigger] self.partitions[p][i]
                != #[trigger] self.partitions[q][j]
        &&& self.free_blocks == count_free(self.blocks, MAX_BLOCKS as int)
        &&& self.free_blocks + count_held(self.partitions, MAX_FILTERS as int) == MAX_BLOCKS
    }

    /// The sector lengths the host can select.
    pub open spec fn lengths_ok(self) -> bool {
        &&& self.sectlenin == 2048 || self.sectlenin == 2336 || self.sectlenin == 2340
            || self.sectlenin == 2352
        &&& self.sectlenout == 2048 || self.sectlenout == 2336 || self.sectlenout == 2340
            || self.sectlenout == 2352
    }

    /// No slot holds more than a raw sector.
    pub open spec fn sized(self) -> bool {
        forall|i: int| 0 <= i < MAX_BLOCKS ==> (#[trigger] self.blocks[i]).size <= 2352
    }

    /// What every operation preserves of the buffers.
    pub open spec fn wf(self) -> bool {
        self.shaped() && self.pooled() && self.lengths_ok() && self.sized()
    }
}

// ---- the buffer engine ----------------------------------------------------

/// Whether a sector passes filter `f`: its FAD lies in the range (mode bit 6),
/// and a sector with a subheader meets the file, channel, submode and coding
/// conditions (bits 0 to 3), the verdict reversed by bit 4.
pub open spec fn filter_hit(f: Filter, b: BlockView, mode2: bool) -> bool {
    let fad = b.fad as u32;
    let in_range = f.mode & 0x40 != 0 ==> f.fad <= fad <= f.fad.wrapping_add(f.range);
    let file = f.mode & 0x01 != 0 ==> b.fnum == f.fid;
    let chan = f.mode & 0x02 != 0 ==> b.chan == f.chan;
    let subm = f.mode & 0x04 != 0 ==> b.subm & f.smmask == f.smval;
    let cinf = f.mode & 0x08 != 0 ==> b.cinf & f.cimask == f.cival;
    if mode2 {
        let all = in_range && file && chan && subm && cinf;
        if f.mode & 0x10 != 0 {
            !all
        } else {
            all
        }
    } else {
        in_range
    }
}

/// Where a sector goes that reaches filter `f`: on a hit to the filter's true
/// connector; on a miss on to its false connector, at most `hops` times.
pub open spec fn route(
    filters: Seq<Filter>,
    b: BlockView,
    mode2: bool,
    f: int,
    hops: nat,
) -> Option<u8>
    decreases hops,
{
    if filter_hit(filters[f], b, mode2) {
        Some(filters[f].condtrue)
    } else {
        let next = filters[f].condfalse;
        if next == NO_FILTER || hops == 0 || next >= MAX_FILTERS {
            None
        } else {
            route(filters, b, mode2, next as int, (hops - 1) as nat)
        }
    }
}

/// Slot `i` is among `idxs`.
pub open spec fn listed(idxs: Seq<usize>, i: int) -> bool {
    exists|k: int| 0 <= k < idxs.len() && #[trigger] idxs[k] == i
}

/// The slots of `idxs` given back to the pool.
pub open spec fn blocks_freed(blocks: Seq<BlockView>, idxs: Seq<usize>) -> Seq<BlockView> {
    Seq::new(
        blocks.len(),
        |i: int|
            if listed(idxs, i) {
                blocks[i].freed()
            } else {
                blocks[i]
            },
    )
}

impl Buffers {
    /// The slots of `idxs` are given back: the pool has room again.
    pub open spec fn freed(self, idxs: Seq<usize>) -> Buffers {
        if idxs.len() == 0 {
            self
        } else {
            Buffers {
                blocks: blocks_freed(self.blocks, idxs),
                free_blocks: (self.free_blocks + idxs.len()) as i32,
                buf_full: false,
                ..self
            }
        }
    }

    /// One past the last of `num` sectors from `ofs` on, as far as partition
    /// `p` reaches.
    pub open spec fn range_end(self, p: int, ofs: int, num: int) -> int {
        if ofs + num < self.partitions[p].len() {
            ofs + num
        } else {
            self.partitions[p].len() as int
        }
    }

    /// Partition `p` without its sectors from `ofs` to `end`.
    pub open spec fn cut(self, p: int, ofs: int, end: int) -> Buffers {
        let blocks = self.partitions[p];
        Buffers {
            partitions: self.partitions.update(
                p,
                blocks.subrange(0, ofs) + blocks.subrange(end, blocks.len() as int),
            ),
            ..self
        }
    }

    /// Sectors `ofs` to `ofs + num` of partition `p` (as far as it reaches) are
    /// removed and their slots given back.
    pub open spec fn deleted(self, p: int, ofs: int, num: int) -> Buffers {
        let end = self.range_end(p, ofs, num);
        if ofs > end {
            self
        } else {
            self.cut(p, ofs, end).freed(self.partitions[p].subrange(ofs, end))
        }
    }

    /// Whether [`Self::deleted`] gives any slot back.
    pub open spec fn deletes_any(self, p: int, ofs: int, num: int) -> bool {
        ofs < self.range_end(p, ofs, num)
    }

    /// The partition the working sector is bound for, through the filter that
    /// the drive is connected to.
    pub open spec fn destination(self) -> Option<u8> {
        let f = self.cd_device_filter;
        if f >= MAX_FILTERS {
            None
        } else {
            match route(
                self.filters,
                self.curblock,
                self.curblock_mode2,
                f as int,
                2,
            ) {
                Some(d) => if d < MAX_FILTERS {
                    Some(d)
                } else {
                    None
                },
                None => None,
            }
        }
    }

    /// The pool's first free slot is taken by the working sector, which joins
    /// the end of partition `d`.
    pub open spec fn stored(self, d: u8) -> Buffers {
        let i = first_free(self.blocks, 0);
        if i < self.blocks.len() {
            Buffers {
                last_buffer: d,
                blocks: self.blocks.update(
                    i,
                    BlockView { size: self.sectlenin as i32, ..self.curblock },
                ),
                free_blocks: (self.free_blocks - 1) as i32,
                buf_full: self.buf_full || self.free_blocks <= 1,
                partitions: self.partitions.update(
                    d as int,
                    self.partitions[d as int].push(i as usize),
                ),
                ..self
            }
        } else {
            Buffers { last_buffer: d, buf_full: true, ..self }
        }
    }

    /// The working sector is delivered to its destination, if it has one.
    pub open spec fn filtered(self) -> Buffers {
        match self.destination() {
            Some(d) => self.stored(d),
            None => self,
        }
    }

    /// Whether [`Self::filtered`] stores the sector.
    pub open spec fn filter_accepts(self) -> bool {
        self.destination() is Some && first_free(self.blocks, 0) < self.blocks.len()
    }

    /// The bytes the drive stores of the sector at `fad`: the user payload at
    /// the 2048-byte length, else the start of the on-disc sector.
    pub open spec fn sector_bytes(self, m: Media, fad: u32) -> Option<Seq<u8>> {
        if self.sectlenin == 2048 {
            m.sector_at(fad)
        } else if m.raw_at(fad).len() == 0 {
            None
        } else if m.raw_at(fad).len() < self.sectlenin {
            Some(m.raw_at(fad))
        } else {
            Some(m.raw_at(fad).take(self.sectlenin as int))
        }
    }

    /// The sector at `fad` becomes the working sector.
    pub open spec fn loaded(self, m: Media, fad: u32, data: Seq<u8>) -> Buffers {
        let sub = m.subheader_at(fad);
        let (chan, fnum, subm, cinf) = match sub {
            Some(s) => s,
            None => (0u8, 0u8, 0u8, 0u8),
        };
        Buffers {
            curblock: BlockView {
                size: self.sectlenin as i32,
                fad: fad as i32,
                data,
                chan,
                fnum,
                subm,
                cinf,
            },
            curblock_mode2: sub is Some,
            ..self
        }
    }

    /// The sector at `fad` is read and sent through the connected filter; a
    /// disconnected drive, a full buffer and an unreadable sector change
    /// nothing.
    pub open spec fn sector_read(self, disc: Option<Media>, fad: u32) -> Buffers {
        if self.cd_device_filter == NO_FILTER || self.buf_full || disc is None {
            self
        } else {
            match self.sector_bytes(disc->Some_0, fad) {
                Some(data) => self.loaded(disc->Some_0, fad, data).filtered(),
                None => self,
            }
        }
    }

    /// Whether [`Self::sector_read`] stores the sector.
    pub open spec fn sector_kept(self, disc: Option<Media>, fad: u32) -> bool {
        if self.cd_device_filter == NO_FILTER || self.buf_full || disc is None {
            false
        } else {
            match self.sector_bytes(disc->Some_0, fad) {
                Some(data) => self.loaded(disc->Some_0, fad, data).filter_accepts(),
                None => false,
            }
        }
    }
}

// ---- accounting lemmas ------------------------------------------------------

spec fn is_free(b: BlockView) -> int {
    if b.size < 0 {
        1
    } else {
        0
    }
}

proof fn count_free_update(blocks: Seq<BlockView>, i: int, x: BlockView, n: int)
    requires
        0 <= i < blocks.len(),
        0 <= n <= blocks.len(),
    ensures
        count_free(blocks.update(i, x), n) == count_free(blocks, n) + if i < n {
            is_free(x) - is_free(blocks[i])
        } else {
            0
        },
    decreases n,
{
    if n > 0 {
        count_free_update(blocks, i, x, n - 1);
    }
}

proof fn count_free_bounds(blocks: Seq<BlockView>, n: int)
    requires
        0 <= n <= blocks.len(),
    ensures
        0 <= count_free(blocks, n) <= n,
    decreases n,
{
    if n > 0 {
        count_free_bounds(blocks, n - 1);
    }
}

proof fn count_free_positive(blocks: Seq<BlockView>, i: int, n: int)
    requires
        0 <= i < n <= blocks.len(),
        blocks[i].size < 0,
    ensures
        count_free(blocks, n) >= 1,
    decreases n,
{
    count_free_bounds(blocks, n - 1);
    if i < n - 1 {
        count_free_positive(blocks, i, n - 1);
    }
}

proof fn count_held_update(parts: Seq<Seq<usize>>, p: int, x: Seq<usize>, n: int)
    requires
        0 <= p < parts.len(),
        0 <= n <= parts.len(),
    ensures
        count_held(parts.update(p, x), n) == count_held(parts, n) + if p < n {
            x.len() - parts[p].len()
        } else {
            0
        },
    decreases n,
{
    if n > 0 {
        count_held_update(parts, p, x, n - 1);
    }
}

proof fn count_held_bounds(parts: Seq<Seq<usize>>, n: int)
    requires
        0 <= n <= parts.len(),
    ensures
        count_held(parts, n) >= 0,
        forall|p: int| 0 <= p < n ==> (#[trigger] parts[p]).len() <= count_held(parts, n),
    decreases n,
{
    if n > 0 {
        count_held_bounds(parts, n - 1);
    }
}

/// Freeing `k` distinct used slots adds `k` to the free count.
proof fn count_freed(blocks: Seq<BlockView>, idxs: Seq<usize>)
    requires
        forall|i: int| 0 <= i < idxs.len() ==> #[trigger] idxs[i] < blocks.len(),
        forall|i: int| 0 <= i < idxs.len() ==> blocks[#[trigger] idxs[i] as int].size >= 0,
        idxs.no_duplicates(),
    ensures
        count_free(blocks_freed(blocks, idxs), blocks.len() as int) == count_free(
            blocks,
            blocks.len() as int,
        ) + idxs.len(),
    decreases idxs.len(),
{
    if idxs.len() == 0 {
        assert(blocks_freed(blocks, idxs) =~= blocks);
    } else {
        let head = idxs.drop_last();
        let b = idxs.last();
        count_freed(blocks, head);
        assert(idxs =~= head.push(b));
        assert forall|i: int| 0 <= i < blocks.len() implies #[trigger] listed(idxs, i) == (listed(
            head,
            i,
        ) || i == b) by {
            if listed(head, i) {
                let k = choose|k: int| 0 <= k < head.len() && #[trigger] head[k] == i;
                assert(idxs[k] == i);
            }
            if i == b {
                assert(idxs[idxs.len() - 1] == i);
            }
            if listed(idxs, i) && i != b {
                let k = choose|k: int| 0 <= k < idxs.len() && #[trigger] idxs[k] == i;
                assert(head[k] == i);
            }
        }
        assert(!listed(head, b as int)) by {
            if listed(head, b as int) {
                let k = choose|k: int| 0 <= k < head.len() && #[trigger] head[k] == b;
                assert(idxs[k] == idxs[idxs.len() - 1]);
            }
        }
        let mid = blocks_freed(blocks, head);
        assert(blocks_freed(blocks, idxs) =~= mid.update(b as int, blocks[b as int].freed()));
        count_free_update(mid, b as int, blocks[b as int].freed(), blocks.len() as int);
    }
}

proof fn removed_no_duplicates(s: Buffers, p: int, ofs: int, end: int)
    requires
        s.wf(),
        0 <= p < MAX_FILTERS,
        0 <= ofs <= end <= s.partitions[p].len(),
    ensures
        s.partitions[p].subrange(ofs, end).no_duplicates(),
{
    let r = s.partitions[p].subrange(ofs, end);
    assert forall|i: int, j: int| 0 <= i < r.len() && 0 <= j < r.len() && i != j implies r[i]
        != r[j] by {
        assert(r[i] == s.partitions[p][ofs + i]);
        assert(r[j] == s.partitions[p][ofs + j]);
    }
}

/// Deleting sectors keeps the buffers accounted for.
pub proof fn deleted_ok(s: Buffers, p: int, ofs: int, num: int)
    requires
        s.wf(),
        0 <= p < MAX_FILTERS,
        0 <= ofs,
        0 <= num,
    ensures
        s.deleted(p, ofs, num).wf(),
{
    let blocks = s.partitions[p];
    let end = if ofs + num < blocks.len() {
        ofs + num
    } else {
        blocks.len() as int
    };
    if ofs <= end {
        let removed = blocks.subrange(ofs, end);
        let rest = blocks.subrange(0, ofs) + blocks.subrange(end, blocks.len() as int);
        let parts = s.partitions.update(p, rest);
        let t = s.deleted(p, ofs, num);
        removed_no_duplicates(s, p, ofs, end);
        count_freed(s.blocks, removed);
        count_held_update(s.partitions, p, rest, MAX_FILTERS as int);
        count_free_bounds(t.blocks, MAX_BLOCKS as int);
        assert(blocks_freed(s.blocks, Seq::<usize>::empty()) =~= s.blocks);
        assert(removed.len() == 0 ==> removed =~= Seq::<usize>::empty());
        assert(t.partitions == parts);
        // Entry `j` of the shortened partition was entry `src(p, j)` before.
        let src = |q: int, j: int|
            if q == p && j >= ofs {
                j + (end - ofs)
            } else {
                j
            };
        assert forall|q: int, j: int|
            0 <= q < MAX_FILTERS && 0 <= j < parts[q].len() implies 0 <= src(q, j)
            < s.partitions[q].len() && #[trigger] parts[q][j] == s.partitions[q][src(q, j)] && !(q
            == p && ofs <= src(q, j) < end) by {
            if q == p && j >= ofs {
                assert(rest[j] == blocks.subrange(end, blocks.len() as int)[j - ofs]);
            }
        }
        assert forall|q: int, j: int|
            0 <= q < MAX_FILTERS && 0 <= j < parts[q].len() implies !listed(
            removed,
            #[trigger] parts[q][j] as int,
        ) by {
            if listed(removed, parts[q][j] as int) {
                let k = choose|k: int|
                    0 <= k < removed.len() && #[trigger] removed[k] == parts[q][j];
                assert(removed[k] == s.partitions[p][ofs + k]);
                assert(parts[q][j] == s.partitions[q][src(q, j)]);
            }
        }
    }
}

pub proof fn first_free_props(blocks: Seq<BlockView>, from: int)
    requires
        0 <= from <= blocks.len(),
    ensures
        from <= first_free(blocks, from) <= blocks.len(),
        first_free(blocks, from) < blocks.len() ==> blocks[first_free(blocks, from)].size < 0,
    decreases blocks.len() - from,
{
    if from < blocks.len() && blocks[from].size >= 0 {
        first_free_props(blocks, from + 1);
    }
}

/// Storing a sector keeps the buffers accounted for.
pub proof fn stored_ok(s: Buffers, d: u8)
    requires
        s.wf(),
        d < MAX_FILTERS,
    ensures
        s.stored(d).wf(),
{
    let i = first_free(s.blocks, 0);
    first_free_props(s.blocks, 0);
    if i < s.blocks.len() {
        let t = s.stored(d);
        let nb = BlockView { size: s.sectlenin as i32, ..s.curblock };
        count_free_update(s.blocks, i, nb, MAX_BLOCKS as int);
        count_free_bounds(s.blocks, MAX_BLOCKS as int);
        count_free_positive(s.blocks, i, MAX_BLOCKS as int);
        count_held_update(
            s.partitions,
            d as int,
            s.partitions[d as int].push(i as usize),
            MAX_FILTERS as int,
        );
        assert forall|q: int, j: int|
            0 <= q < MAX_FILTERS && 0 <= j < t.partitions[q].len() implies #[trigger] t.partitions[q][j]
            == (if q == d && j == s.partitions[q].len() {
            i as usize
        } else {
            s.partitions[q][j]
        }) by {}
        assert forall|q: int, j: int|
            0 <= q < MAX_FILTERS && 0 <= j < s.partitions[q].len() implies #[trigger] s.partitions[q][j]
            != i by {}
    }
}

/// Freeing one more slot extends a run of freed slots.
proof fn freed_push(s: Buffers, idxs: Seq<usize>, b: usize)
    requires
        s.blocks.len() == MAX_BLOCKS,
        b < MAX_BLOCKS,
        0 <= s.free_blocks,
        s.free_blocks + idxs.len() + 1 <= i32::MAX,
    ensures
        s.freed(idxs).freed(seq![b]) == s.freed(idxs.push(b)),
{
    let one = seq![b];
    let more = idxs.push(b);
    assert(one[0] == b);
    assert forall|i: int| #[trigger] listed(more, i) == (listed(idxs, i) || i == b) by {
        if listed(idxs, i) {
            let k = choose|k: int| 0 <= k < idxs.len() && #[trigger] idxs[k] == i;
            assert(more[k] == i);
        }
        if i == b {
            assert(more[idxs.len() as int] == i);
        }
        if listed(more, i) && i != b {
            let k = choose|k: int| 0 <= k < more.len() && #[trigger] more[k] == i;
            assert(idxs[k] == i);
        }
    }
    assert forall|i: int| #[trigger] listed(one, i) == (i == b) by {
        if i == b {
            assert(one[0] == i);
        }
    }
    assert(blocks_freed(s.freed(idxs).blocks, one) =~= blocks_freed(s.blocks, more));
}

proof fn count_free_whole(blocks: Seq<BlockView>, n: int)
    requires
        0 <= n <= blocks.len(),
        forall|i: int| 0 <= i < n ==> (#[trigger] blocks[i]).size < 0,
    ensures
        count_free(blocks, n) == n,
    decreases n,
{
    if n > 0 {
        count_free_whole(blocks, n - 1);
    }
}

proof fn count_held_none(partitions: Seq<Seq<usize>>, n: int)
    requires
        0 <= n <= partitions.len(),
        forall|i: int| 0 <= i < n ==> (#[trigger] partitions[i]).len() == 0,
    ensures
        count_held(partitions, n) == 0,
    decreases n,
{
    if n > 0 {
        count_held_none(partitions, n - 1);
    }
}

/// Buffers whose slots are all free are well-formed.
pub proof fn pool_is_free(s: Buffers)
    requires
        s.blocks.len() == MAX_BLOCKS,
        s.filters.len() == MAX_FILTERS,
        s.partitions.len() == MAX_FILTERS,
        forall|i: int| 0 <= i < MAX_BLOCKS ==> (#[trigger] s.blocks[i]).size < 0,
        forall|i: int| 0 <= i < MAX_FILTERS ==> (#[trigger] s.partitions[i]).len() == 0,
        s.free_blocks == MAX_BLOCKS,
        s.lengths_ok(),
    ensures
        s.wf(),
{
    count_free_whole(s.blocks, MAX_BLOCKS as int);
    count_held_none(s.partitions, MAX_FILTERS as int);
}

impl Buffers {
    /// No partition holds more sectors than the pool has.
    pub proof fn held_bounds(self)
        requires
            self.wf(),
        ensures
            forall|p: int|
                0 <= p < MAX_FILTERS ==> (#[trigger] self.partitions[p]).len() <= MAX_BLOCKS,
            0 <= self.free_blocks <= MAX_BLOCKS,
    {
        count_free_bounds(self.blocks, MAX_BLOCKS as int);
        count_held_bounds(self.partitions, MAX_FILTERS as int);
    }
}

impl SectorBuffers {
    /// The buffers of the model are those of the block, one for one.
    pub proof fn buffers_match(&self)
        ensures
            self@.blocks.len() == self.blocks@.len(),
            self@.partitions.len() == self.partitions@.len(),
            forall|i: int|
                0 <= i < self.blocks@.len() ==> #[trigger] self@.blocks[i] == self.blocks@[i]@,
            forall|i: int|
                0 <= i < self.partitions@.len() ==> #[trigger] self@.partitions[i]
                    == self.partitions@[i].blocks@,
    {
    }

    /// Returns a pool slot to the free list (clearing the buffer-full latch).
    pub fn free_block(&mut self, idx: usize)
        requires
            old(self)@.blocks.len() == MAX_BLOCKS,
            idx < MAX_BLOCKS,
            old(self)@.free_blocks < i32::MAX,
        ensures
            final(self)@ == old(self)@.freed(seq![idx]),
    {
        self.blocks[idx].size = -1;
        self.blocks[idx].data = Vec::new();
        self.free_blocks += 1;
        self.buf_full = false;
        proof {
            let one = seq![idx];
            assert(one[0] == idx);
            assert forall|i: int| #[trigger] listed(one, i) == (i == idx) by {
                if i == idx {
                    assert(one[0] == i);
                }
            }
            assert(self@.blocks =~= blocks_freed(old(self)@.blocks, one));
        }
    }

    /// Removes `num` sectors from partition `buf` starting at `ofs`, as far as
    /// it reaches, and gives their slots back. Returns whether there were any.
    pub fn delete_partition_sectors(&mut self, buf: usize, ofs: usize, num: usize) -> (r: bool)
        requires
            old(self)@.wf(),
            buf < MAX_FILTERS,
            ofs + num <= usize::MAX,
        ensures
            final(self)@ == old(self)@.deleted(buf as int, ofs as int, num as int),
            r == old(self)@.deletes_any(buf as int, ofs as int, num as int),
            final(self)@.wf(),
    {
        proof {
            self.buffers_match();
        }
        let len: usize = self.partitions[buf].blocks.len();
        let end: usize = if ofs + num < len {
            ofs + num
        } else {
            len
        };
        let ghost s0 = self@;
        proof {
            deleted_ok(s0, buf as int, ofs as int, num as int);
        }
        if ofs > end {
            return false;
        }
        let ghost blocks = s0.partitions[buf as int];
        let mut k: usize = 0;
        proof {
            assert(blocks.subrange(0, ofs as int) + blocks.subrange(ofs as int, len as int)
                =~= blocks);
            assert(s0.partitions.update(buf as int, blocks) =~= s0.partitions);
            assert(blocks.subrange(ofs as int, ofs as int) =~= Seq::<usize>::empty());
            count_free_bounds(s0.blocks, MAX_BLOCKS as int);
            count_held_bounds(s0.partitions, MAX_FILTERS as int);
        }
        while k < end - ofs
            invariant
                k <= end - ofs,
                ofs <= end <= len,
                buf < MAX_FILTERS,
                s0.wf(),
                0 <= s0.free_blocks <= MAX_BLOCKS,
                blocks == s0.partitions[buf as int],
                blocks.len() == len,
                len <= MAX_BLOCKS,
                self@ == s0.cut(buf as int, ofs as int, ofs + k).freed(
                    blocks.subrange(ofs as int, ofs + k),
                ),
            decreases end - ofs - k,
        {
            let ghost s1 = self@;
            let ghost rest = blocks.subrange(0, ofs as int) + blocks.subrange(ofs + k, len as int);
            let ghost gone = blocks.subrange(ofs as int, ofs + k);
            proof {
                self.buffers_match();
                assert(s1.partitions == s0.partitions.update(buf as int, rest));
                assert(s1.partitions[buf as int] == rest);
                assert(rest[ofs as int] == blocks[ofs + k]);
            }
            let b: usize = self.partitions[buf].blocks.remove(ofs);
            let ghost cut = s0.cut(buf as int, ofs as int, ofs + k + 1);
            proof {
                self.buffers_match();
                assert(rest.remove(ofs as int) =~= blocks.subrange(0, ofs as int) + blocks.subrange(
                    ofs + k + 1,
                    len as int,
                ));
                assert(self.partitions@[buf as int].blocks@ == rest.remove(ofs as int));
                assert forall|q: int| 0 <= q < MAX_FILTERS implies #[trigger] self@.partitions[q]
                    == cut.partitions[q] by {
                    if q != buf {
                        assert(self@.partitions[q] == s1.partitions[q]);
                    }
                }
                assert(self@.partitions =~= cut.partitions);
                assert(self@ == cut.freed(gone));
            }
            self.free_block(b);
            proof {
                freed_push(cut, gone, b);
                assert(gone.push(b) =~= blocks.subrange(ofs as int, ofs + k + 1));
            }
            k += 1;
        }
        ofs < end
    }

    /// Index of the pool's first free slot, its size if none is.
    fn find_free(&self) -> (r: usize)
        ensures
            r == first_free(self@.blocks, 0),
            r <= self@.blocks.len(),
    {
        proof {
            self.buffers_match();
        }
        let ghost blocks = self@.blocks;
        let n: usize = self.blocks.len();
        let mut i: usize = 0;
        while i < n
            invariant
                i <= n,
                n == self.blocks@.len(),
                n == blocks.len(),
                blocks == self@.blocks,
                forall|j: int| 0 <= j < n ==> #[trigger] blocks[j] == self.blocks@[j]@,
                first_free(blocks, 0) == first_free(blocks, i as int),
            decreases n - i,
        {
            assert(blocks[i as int] == self.blocks@[i as int]@);
            if self.blocks[i].size < 0 {
                return i;
            }
            i += 1;
        }
        i
    }

    /// Allocates a free pool slot (its `size` set to the sector length),
    /// returning the index, or `None` (latching buffer-full) when the pool is
    /// exhausted.
    pub fn alloc_block(&mut self) -> (r: Option<usize>)
        requires
            old(self)@.blocks.len() == MAX_BLOCKS,
            old(self)@.free_blocks > i32::MIN,
        ensures
            match r {
                Some(i) => {
                    &&& i == first_free(old(self)@.blocks, 0)
                    &&& i < MAX_BLOCKS
                    &&& final(self)@ == (Buffers {
                        blocks: old(self)@.blocks.update(
                            i as int,
                            BlockView {
                                size: old(self)@.sectlenin as i32,
                                ..old(self)@.blocks[i as int]
                            },
                        ),
                        free_blocks: (old(self)@.free_blocks - 1) as i32,
                        buf_full: old(self)@.buf_full || old(self)@.free_blocks <= 1,
                        ..old(self)@
                    })
                },
                None => {
                    &&& first_free(old(self)@.blocks, 0) == MAX_BLOCKS
                    &&& final(self)@ == (Buffers { buf_full: true, ..old(self)@ })
                },
            },
    {
        let i: usize = self.find_free();
        proof {
            self.buffers_match();
        }
        if i < self.blocks.len() {
            self.free_blocks -= 1;
            if self.free_blocks <= 0 {
                self.buf_full = true;
            }
            self.blocks[i].size = self.sectlenin as i32;
            proof {
                self.buffers_match();
                assert(self@.blocks =~= old(self)@.blocks.update(
                    i as int,
                    BlockView {
                        size: old(self)@.sectlenin as i32,
                        ..old(self)@.blocks[i as int]
                    },
                ));
            }
            Some(i)
        } else {
            self.buf_full = true;
            None
        }
    }

    /// Whether the working sector matches filter `f`.
    pub fn filter_match(&self, f: &Filter) -> (r: bool)
        ensures
            r == filter_hit(*f, self@.curblock, self@.curblock_mode2),
    {
        let mut m: bool = true;
        if f.mode & 0x40 != 0 {
            let fad: u32 = self.curblock.fad as u32;
            if fad < f.fad || fad > f.fad.wrapping_add(f.range) {
                m = false;
            }
        }
        if self.curblock_mode2 {
            if f.mode & 0x01 != 0 && self.curblock.fnum != f.fid {
                m = false;
            }
            if f.mode & 0x02 != 0 && self.curblock.chan != f.chan {
                m = false;
            }
            if f.mode & 0x04 != 0 && (self.curblock.subm & f.smmask) != f.smval {
                m = false;
            }
            if f.mode & 0x08 != 0 && (self.curblock.cinf & f.cimask) != f.cival {
                m = false;
            }
            if f.mode & 0x10 != 0 {
                m = !m;
            }
        }
        m
    }

    /// The partition the working sector is bound for.
    fn find_destination(&self) -> (r: Option<u8>)
        requires
            self@.shaped(),
        ensures
            r == self@.destination(),
    {
        let mut fidx: usize = self.cd_device_filter as usize;
        if fidx >= MAX_FILTERS {
            return None;
        }
        let mut hops: u8 = 2;
        let ghost b = self@.curblock;
        let ghost goal = route(self@.filters, b, self@.curblock_mode2, fidx as int, 2);
        assert(self@.destination() == (match goal {
            Some(d) => if d < MAX_FILTERS {
                Some(d)
            } else {
                None
            },
            None => None,
        }));
        loop
            invariant
                self@.filters.len() == MAX_FILTERS,
                b == self@.curblock,
                fidx < MAX_FILTERS,
                hops <= 2,
                goal == route(
                    self@.filters,
                    b,
                    self@.curblock_mode2,
                    fidx as int,
                    hops as nat,
                ),
                self@.destination() == (match goal {
                    Some(d) => if d < MAX_FILTERS {
                        Some(d)
                    } else {
                        None
                    },
                    None => None,
                }),
            decreases hops,
        {
            let f: Filter = self.filters[fidx];
            if self.filter_match(&f) {
                return if f.condtrue as usize >= MAX_FILTERS {
                    None
                } else {
                    Some(f.condtrue)
                };
            }
            if f.condfalse == NO_FILTER || hops == 0 {
                return None;
            }
            fidx = f.condfalse as usize;
            if fidx >= MAX_FILTERS {
                return None;
            }
            hops -= 1;
        }
    }

    /// Routes the working sector to a partition through the filter chain: a
    /// match goes to the filter's true connector; a miss follows the false
    /// connector (up to two hops) before the sector is dropped. Returns whether
    /// it was stored.
    pub fn filter_data(&mut self) -> (r: bool)
        requires
            old(self)@.wf(),
        ensures
            r == old(self)@.filter_accepts(),
            final(self)@ == old(self)@.filtered(),
            final(self)@.wf(),
    {
        let ghost s0 = self@;
        match self.find_destination() {
            None => false,
            Some(last) => {
                let part: usize = last as usize;
                proof {
                    stored_ok(s0, last);
                    count_free_bounds(s0.blocks, MAX_BLOCKS as int);
                }
                self.last_buffer = last;
                match self.alloc_block() {
                    None => false,
                    Some(b) => {
                        let ghost s1 = self@;
                        proof {
                            self.buffers_match();
                        }
                        let data = self.curblock.data.clone();
                        assert(data@ =~= self.curblock.data@);
                        let size: i32 = self.sectlenin as i32;
                        self.blocks[b] = Block {
                            size,
                            fad: self.curblock.fad,
                            data,
                            chan: self.curblock.chan,
                            fnum: self.curblock.fnum,
                            subm: self.curblock.subm,
                            cinf: self.curblock.cinf,
                        };
                        self.partitions[part].blocks.push(b);
                        proof {
                            self.buffers_match();
                            let t = s0.stored(last);
                            assert(self.blocks@[b as int]@ == t.blocks[b as int]);
                            assert forall|i: int| 0 <= i < MAX_BLOCKS implies #[trigger] self@.blocks[i]
                                == t.blocks[i] by {
                                if i != b {
                                    assert(self@.blocks[i] == s1.blocks[i]);
                                }
                            }
                            assert(self@.blocks =~= t.blocks);
                            assert(self@.partitions =~= t.partitions);
                        }
                        true
                    },
                }
            },
        }
    }

    /// The bytes the drive stores of the sector at `fad`, and its subheader.
    fn fetch_sector<S: SectorSource>(&self, disc: &S, fad: u32) -> (r: Option<
        (Vec<u8>, Option<(u8, u8, u8, u8)>),
    >)
        requires
            self@.lengths_ok(),
        ensures
            match r {
                Some(d) => {
                    &&& self@.sector_bytes(disc.media(), fad) == Some(d.0@)
                    &&& d.1 == disc.media().subheader_at(fad)
                },
                None => self@.sector_bytes(disc.media(), fad) is None,
            },
    {
        let len: usize = self.sectlenin as usize;
        let mut data: Vec<u8> = Vec::new();
        if len == SECTOR_USER {
            let mut buf: [u8; 2048] = [0u8; 2048];
            if !disc.read_sector(fad, &mut buf) {
                return None;
            }
            data.extend_from_slice(buf.as_slice());
            assert(data@ =~= disc.media().sectors[fad]);
        } else {
            let mut buf: [u8; 2352] = [0u8; 2352];
            let n: usize = disc.read_full_sector(fad, &mut buf);
            if n == 0 {
                return None;
            }
            let m: usize = if len < n {
                len
            } else {
                n
            };
            data.extend_from_slice(vstd::slice::slice_subrange(buf.as_slice(), 0, m));
            assert(data@ =~= buf@.take(n as int).take(m as int));
            assert(disc.media().raw_at(fad).take(n as int) =~= disc.media().raw_at(fad));
        }
        let sub = disc.subheader(fad);
        Some((data, sub))
    }

    /// Reads the sector at `fad` into the working block and routes it through
    /// the connected filter into a partition. Returns whether it was stored.
    pub fn read_filtered_sector<S: SectorSource>(&mut self, disc: &Option<S>, fad: u32) -> (r: bool)
        requires
            old(self)@.wf(),
        ensures
            r == old(self)@.sector_kept(media_of(*disc), fad),
            final(self)@ == old(self)@.sector_read(media_of(*disc), fad),
            final(self)@.wf(),
    {
        if self.cd_device_filter == NO_FILTER || self.buf_full {
            return false;
        }
        match disc {
            None => false,
            Some(disc) => match self.fetch_sector(disc, fad) {
                None => false,
                Some((data, sub)) => {
                    let mut chan: u8 = 0;
                    let mut fnum: u8 = 0;
                    let mut subm: u8 = 0;
                    let mut cinf: u8 = 0;
                    if let Some(t) = sub {
                        chan = t.0;
                        fnum = t.1;
                        subm = t.2;
                        cinf = t.3;
                    }
                    let size: i32 = self.sectlenin as i32;
                    self.curblock = Block { size, fad: fad as i32, data, chan, fnum, subm, cinf };
                    self.curblock_mode2 = sub.is_some();
                    assert(self@ == old(self)@.loaded(disc.media(), fad, data@));
                    self.filter_data()
                },
            },
        }
    }
}

} // verus!
