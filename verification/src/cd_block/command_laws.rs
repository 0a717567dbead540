//! What the host commands answer and do, in the numbers that the host writes and
//! reads.

use vstd::prelude::*;
use crate::bits::{casts, low_bits, right_shifts};
use crate::disc::Media;
use super::buffers::{filter_hit, BlockView, Filter};
use super::commands::{data_words, hi8, num24};
use super::model::{CdState, Host};
use super::{
    DrivePhase, HIRQ_CMOK, HIRQ_DCHG, HIRQ_EFLS, HIRQ_PEND, MAX_BLOCKS, MAX_FILTERS, NO_FILTER,
};

verus! {

/// The upper byte of a register.
pub open spec fn upper(r: u16) -> int {
    r as int / 256
}

/// The lower byte of a register.
pub open spec fn lower(r: u16) -> int {
    r as int % 256
}

/// The number that the low byte of one register and the next register hold.
pub open spec fn number(hi: u16, lo: u16) -> int {
    0x1_0000 * lower(hi) + lo
}

proof fn register_bits(r: u16, lo: u16, a: u8, b: u8, n: u32, x: i32)
    by (bit_vector)
    ensures
        r == 256 * (r >> 8) + (r & 0xFF) && r & 0xFF <= 0xFF,
        (r >> 8) as u8 == r >> 8,
        r as u8 == r & 0xFF,
        (r >> 8) & 0xFF == r >> 8,
        ((r as u32 & 0xFF) << 16) | lo as u32 == 0x1_0000 * (r & 0xFF) + lo,
        ((r as u32 & 0x7F) << 16) | lo as u32 == 0x1_0000 * (r & 0x7F) + lo,
        r & 0xFF == (r & 0x80) + (r & 0x7F) && (r & 0x80 == 0 || r & 0x80 == 0x80) && r & 0x7F <= 0x7F,
        ((r as u32 & 0xFF) << 8) | (lo as u32 & 0xFF) == 0x100 * (r & 0xFF) + (lo & 0xFF),
        ((a as u16) << 8) | b as u16 == 256 * a + b,
        (a as u16) << 8 == 256 * a,
        n == 0x1_0000 * (n >> 16) + (n & 0xFFFF) && n & 0xFFFF <= 0xFFFF,
        n as u16 == n & 0xFFFF,
        n >> 16 == 0x100 * (n >> 24) + ((n >> 16) & 0xFF) && (n >> 16) & 0xFF <= 0xFF,
        ((n >> 16) & 0xFF) as u16 == (n >> 16) & 0xFF,
        n == 2 * (n >> 1) + (n & 1) && n & 1 <= 1,
        n >> 1 == 0x1_0000 * (n >> 17) + ((n >> 1) & 0xFFFF) && (n >> 1) & 0xFFFF <= 0xFFFF,
        ((n >> 1) & 0xFFFF) as u16 == (n >> 1) & 0xFFFF,
        n >> 17 == 0x100 * (n >> 25) + ((n >> 17) & 0xFF) && (n >> 17) & 0xFF <= 0xFF,
        ((n >> 17) & 0xFF) as u16 == (n >> 17) & 0xFF,
        0 <= x < 0x100_0000 ==> x == 0x1_0000 * ((x >> 16) & 0xFF) + (x & 0xFFFF),
        0 <= x ==> 0 <= (x >> 16) & 0xFF <= 0xFF && 0 <= x & 0xFFFF <= 0xFFFF,
        0 <= x ==> ((x >> 16) & 0xFF) as u16 == (x >> 16) & 0xFF && (x & 0xFFFF) as u16 == x & 0xFFFF,
        (n >> 24) as u8 == n >> 24,
        (n >> 16) as u8 == (n >> 16) & 0xFF,
        n & 0xFFFF == 0x100 * ((n >> 8) as u8) + (n as u8),
        (n >> 8) as u8 == (n >> 8) & 0xFF,
{
}

/// The registers and numbers of a command, in bytes.
#[verifier::spinoff_prover]
proof fn word_bits(r: u16, lo: u16, a: u8, b: u8, n: u32, x: i32)
    ensures
        hi8(r) == upper(r),
        r >> 8 == upper(r),
        (r >> 8) & 0xFF == upper(r),
        r as u8 == lower(r),
        r & 0xFF == lower(r),
        num24(r, lo) == number(r, lo),
        ((r as u32 & 0x7F) << 16) | lo as u32 == (if lower(r) >= 128 {
            number(r, lo) - 0x80_0000
        } else {
            number(r, lo)
        }),
        r & 0x80 != 0 <==> lower(r) >= 128,
        ((r as u32 & 0xFF) << 8) | (lo as u32 & 0xFF) == 0x100 * lower(r) + lower(lo),
        upper(((a as u16) << 8) | b as u16) == a,
        lower(((a as u16) << 8) | b as u16) == b,
        upper((a as u16) << 8) == a,
        lower((a as u16) << 8) == 0,
        ((n >> 16) & 0xFF) as u16 == n as int / 0x1_0000 % 256,
        n as u16 == n as int % 0x1_0000,
        ((n >> 1) & 0xFFFF) as u16 == n as int / 2 % 0x1_0000,
        ((n >> 17) & 0xFF) as u16 == n as int / 0x2_0000 % 256,
        0 <= x < 0x100_0000 ==> x == 0x1_0000 * (((x >> 16) & 0xFF) as u16) + ((x & 0xFFFF) as u16)
            && ((x >> 16) & 0xFF) as u16 <= 0xFF,
        n == 0x100_0000 * ((n >> 24) as u8) + 0x1_0000 * ((n >> 16) as u8) + 0x100 * ((n >> 8) as u8)
            + (n as u8),
        n < 0x100_0000 ==> (n >> 24) as u8 == 0,
        n as u8 == n as int % 256,
{
    register_parts(r, lo);
    number_parts(n);
    register_bits(0, 0, a, b, 0, x);
}

#[verifier::spinoff_prover]
proof fn register_parts(r: u16, lo: u16)
    ensures
        hi8(r) == upper(r),
        r >> 8 == upper(r),
        (r >> 8) & 0xFF == upper(r),
        r as u8 == lower(r),
        r & 0xFF == lower(r),
        num24(r, lo) == number(r, lo),
        ((r as u32 & 0x7F) << 16) | lo as u32 == (if lower(r) >= 128 {
            number(r, lo) - 0x80_0000
        } else {
            number(r, lo)
        }),
        r & 0x80 != 0 <==> lower(r) >= 128,
        ((r as u32 & 0xFF) << 8) | (lo as u32 & 0xFF) == 0x100 * lower(r) + lower(lo),
{
    register_bits(r, lo, 0, 0, 0, 0);
    register_bits(lo, 0, 0, 0, 0, 0);
}

#[verifier::spinoff_prover]
proof fn number_parts(n: u32)
    ensures
        ((n >> 16) & 0xFF) as u16 == n as int / 0x1_0000 % 256,
        n as u16 == n as int % 0x1_0000,
        ((n >> 1) & 0xFFFF) as u16 == n as int / 2 % 0x1_0000,
        ((n >> 17) & 0xFF) as u16 == n as int / 0x2_0000 % 256,
        n == 0x100_0000 * ((n >> 24) as u8) + 0x1_0000 * ((n >> 16) as u8) + 0x100 * ((n >> 8) as u8)
            + (n as u8),
        n < 0x100_0000 ==> (n >> 24) as u8 == 0,
        n as u8 == n as int % 256,
{
    shifted_part(n >> 16);
    shifted_part(n >> 17);
    shifted_part(n >> 1);
    shifted_part(n);
    assert(n >> 16 == n as int / 0x1_0000 && n >> 1 == n as int / 2 && n >> 17 == n as int
        / 0x2_0000) by {
        right_shifts();
    }
    bytes_of(n);
}

/// A number of 24 bits is its upper byte and its lower word.
proof fn low_24(n: int)
    requires
        0 <= n,
    ensures
        0x1_0000 * (n / 0x1_0000 % 256) + n % 0x1_0000 == n % 0x100_0000,
{
    let (q, r) = (n / 0x1_0000, n % 0x1_0000);
    let (a, b) = (q / 256, q % 256);
    assert(n == 0x1_0000 * q + r && q == 256 * a + b);
    assert(n == 0x100_0000 * a + (0x1_0000 * b + r));
}

/// A part of a number, as a register holds it.
#[verifier::spinoff_prover]
proof fn shifted_part(x: u32)
    ensures
        (x & 0xFF) as u16 == x as int % 256,
        (x & 0xFFFF) as u16 == x as int % 0x1_0000,
        x as u16 == x as int % 0x1_0000,
        x as u8 == x as int % 256,
{
    let (a, b) = (x & 0xFF, x & 0xFFFF);
    assert(a == x as int % 256 && b == x as int % 0x1_0000 && a & 0xFFFF == a && b & 0xFFFF == b) by {
        low_bits();
    }
    casts();
}

proof fn bytes_of(n: u32)
    ensures
        n == 0x100_0000 * ((n >> 24) as u8) + 0x1_0000 * ((n >> 16) as u8) + 0x100 * ((n >> 8) as u8)
            + (n as u8),
        n < 0x100_0000 ==> (n >> 24) as u8 == 0,
{
    let (a, b, c, d) = ((n >> 24) as u8, (n >> 16) as u8, (n >> 8) as u8, n as u8);
    let (h, l) = (n >> 16, n & 0xFFFF);
    assert(n == 0x1_0000 * h + l && h == 0x100 * a + b && l == 0x100 * c + d && 0 <= l <= 0xFFFF) by {
        register_bits(0, 0, 0, 0, n, 0);
    }
}

/// The status word leaves the low byte of CR1 to the answer.
proof fn status_bits(a: u8, b: u8)
    ensures
        lower((((a as u16) << 8) | 0x4000) | b as u16) == b,
        lower(((((a as u16) << 8) | 0x4000) | 0x4000) | b as u16) == b,
        lower(((a as u16) << 8) | b as u16) == b,
        lower((((a as u16) << 8) | 0x4000) | 0x4000) == 0,
        lower(((a as u16) << 8) | 0x4000) == 0,
        lower((a as u16) << 8) == 0,
        lower(((a as u16) << 8) | 0x00FF) == 0xFF,
        lower((((a as u16) << 8) | 0x4000) | 0x00FF) == 0xFF,
{
    status_masks(a, b, 0);
    register_bits((((a as u16) << 8) | 0x4000) | b as u16, 0, 0, 0, 0, 0);
    register_bits(((((a as u16) << 8) | 0x4000) | 0x4000) | b as u16, 0, 0, 0, 0, 0);
    register_bits(((a as u16) << 8) | b as u16, 0, 0, 0, 0, 0);
    register_bits((((a as u16) << 8) | 0x4000) | 0x4000, 0, 0, 0, 0, 0);
    register_bits(((a as u16) << 8) | 0x4000, 0, 0, 0, 0, 0);
    register_bits((a as u16) << 8, 0, 0, 0, 0, 0);
    register_bits(((a as u16) << 8) | 0x00FF, 0, 0, 0, 0, 0);
    register_bits((((a as u16) << 8) | 0x4000) | 0x00FF, 0, 0, 0, 0, 0);
}

proof fn status_masks(a: u8, b: u8, h: u16)
    by (bit_vector)
    ensures
        (((((((h & 0xFFE5) | 0x20) | 1) | 0x40) | 0x80) | 0x100) | 0x200) & 0x20 != 0,
        (((((((h & 0xFFE5) & !0x20) | 1) | 0x40) | 0x80) | 0x100) | 0x200) & 0x20 == 0,
        (((((((h & 0xFFE5) | 0x20) | 1) | 0x40) | 0x80) | 0x100) | 0x200) & 1 != 0,
        (((((((h & 0xFFE5) & !0x20) | 1) | 0x40) | 0x80) | 0x100) | 0x200) & 1 != 0,
        h & 0x10 != 0 <==> (h >> 4) & 1 == 1,
        h & 1 <= 1,
        h & 2 != 0 <==> (h >> 1) & 1 == 1,
        h & 0x80 != 0 <==> (h >> 7) & 1 == 1,
        h & 0x40 != 0 <==> (h >> 6) & 1 == 1,
        h & 0x04 != 0 <==> (h >> 2) & 1 == 1,
        0u8 & 0x40 == 0 && 0u8 & 0x10 == 0 && 0u8 & 1 == 0 && 0u8 & 2 == 0 && 0u8 & 4 == 0 && 0u8 & 8
            == 0,
        b < 16 ==> b & 0x70 == 0 && b & 0x0F == b && b & 0x80 == 0,
        b >= 128 <==> b & 0x80 != 0,
        16 <= b < 128 ==> b & 0x70 != 0,
        ((((a as u16) << 8) | 0x4000) | b as u16) & 0xFF == b,
        (((((a as u16) << 8) | 0x4000) | 0x4000) | b as u16) & 0xFF == b,
        (((a as u16) << 8) | b as u16) & 0xFF == b,
        ((((a as u16) << 8) | 0x4000) | 0x4000) & 0xFF == 0,
        (((a as u16) << 8) | 0x4000) & 0xFF == 0,
        ((a as u16) << 8) & 0xFF == 0,
        (((a as u16) << 8) | 0x00FF) & 0xFF == 0xFF,
        ((((a as u16) << 8) | 0x4000) | 0x00FF) & 0xFF == 0xFF,
        ((((a as u16) << 8) | 0x80) | (b & 0x7F) as u16) & 0xFF == 0x80 + (b & 0x7F),
        ((((a as u16) << 8) | 0) | (b & 0x7F) as u16) & 0xFF == b & 0x7F,
        (((((a as u16) << 8) | 0x4000) | 0x80) | (b & 0x7F) as u16) & 0xFF == 0x80 + (b & 0x7F),
        (((((a as u16) << 8) | 0x4000) | 0) | (b & 0x7F) as u16) & 0xFF == b & 0x7F,
        0x0100u16 | b as u16 == 256 + b,
{
}

// ---- reports ----------------------------------------------------------------------

/// A status report tells the repeat count and whether the last sector was data; the
/// control and address and the track; the index and the FAD.
#[verifier::spinoff_prover]
pub proof fn report_tells_the_position(s: CdState)
    ensures
        ({
            let h = s.reported().host;
            &&& lower(h.cr1) == (if s.pos.is_cdrom {
                128int
            } else {
                0
            }) + s.pos.repcnt as int % 128
            &&& upper(h.cr2) == s.pos.ctrladdr
            &&& lower(h.cr2) == s.pos.track
            &&& upper(h.cr3) == s.pos.index
            &&& number(h.cr3, h.cr4) == s.report_fad() as int % 0x100_0000
            &&& s.disc is Some ==> s.report_fad() == s.pos.cd_curfad
            &&& h.hirq == s.host.hirq
        }),
{
    let f = s.report_fad();
    let p = s.pos;
    let m = ((f >> 16) & 0xFF) as u16;
    number_parts(f);
    low_24(f as int);
    narrow(m);
    joined_bytes(p.ctrladdr, p.track);
    joined_bytes(p.index, m as u8);
    report_word(s);
}

proof fn joined_bytes(a: u8, b: u8)
    ensures
        upper(((a as u16) << 8) | b as u16) == a,
        lower(((a as u16) << 8) | b as u16) == b,
{
    register_bits(0, 0, a, b, 0, 0);
}

proof fn report_word(s: CdState)
    ensures
        lower(s.reported().host.cr1) == (if s.pos.is_cdrom {
            128int
        } else {
            0
        }) + s.pos.repcnt as int % 128,
{
    let c = s.pos.repcnt;
    status_masks(s.pos.status, c, 0);
    assert(c & 0x7F == c as int % 128) by {
        low_bits();
    }
    register_parts(s.reported().host.cr1, 0);
}

/// A byte in a wider number.
proof fn narrow(m: u16)
    ensures
        m < 256 ==> m as u8 as u16 == m,
{
    register_bits(m, 0, 0, 0, 0, 0);
}

/// Get Session Info 0 tells where the disc ends.
pub proof fn session_info_tells_the_lead_out(s: CdState, m: Media)
    requires
        s.disc == Some(m),
        lower(s.host.cr1) == 0,
        m.lead_out < 0x100_0000,
    ensures
        ({
            let h = s.commanded(0x03).host;
            upper(h.cr3) == 1 && number(h.cr3, h.cr4) == m.lead_out && h.cr2 == 0
        }),
{
    reveal(CdState::drive_commanded);
    word_bits(s.host.cr1, 0, 0, 0, m.lead_out, 0);
    let lo = ((m.lead_out >> 16) & 0xFF) as u16;
    narrow(lo);
    status_masks(0, lo as u8, 0);
}

/// Get TOC stages the disc's table of contents, from its first byte on, and says how
/// many words it has.
pub proof fn contents_are_staged(s: CdState, m: Media)
    requires
        s.disc == Some(m),
        m.toc.len() == 408,
    ensures
        s.commanded(0x02).port.xfer == m.toc,
        s.commanded(0x02).port.xfer_pos == 0,
        s.commanded(0x02).port.transfer_request,
        2 * s.commanded(0x02).host.cr2 == m.toc.len(),
{
    reveal(CdState::drive_commanded);
}

/// Initialise sets the speed by bit 4 of the argument, parks the drive at the start of
/// the disc, and announces a disc change once.
#[verifier::spinoff_prover]
#[verifier::rlimit(60)]
pub proof fn initialise_announces_a_change_once(s: CdState, h: Host)
    requires
        s.disc is Some,
        s.drive.phase != DrivePhase::Startup,
        h.link == s.commanded(0x04).host.link,
    ensures
        ({
            let t = s.commanded(0x04);
            let u = (CdState { host: h, ..t }).commanded(0x04);
            &&& t.drive.speed == (if s.host.cr1 as int / 16 % 2 == 1 {
                1int
            } else {
                2
            })
            &&& t.drive.sector == 150 && t.pos.cd_curfad == 150
            &&& t.drive.phase == DrivePhase::Idle
            &&& t.host.hirq & HIRQ_DCHG != 0 <==> s.host.link.disk_changed
            &&& u.host.hirq & HIRQ_DCHG == 0
            &&& t.host.hirq & HIRQ_CMOK != 0
        }),
{
    reveal(CdState::drive_commanded);
    status_masks(0, 0, s.host.hirq);
    status_masks(0, 0, h.hirq);
    connector_bits(s.host.cr1);
}

/// End Data Transfer counts the words that were read; all ones says that none were.
#[verifier::spinoff_prover]
#[verifier::rlimit(60)]
pub proof fn ended_transfer_is_counted(s: CdState)
    ensures
        ({
            let h = s.commanded(0x06).host;
            let n = s.port.xfer_done as u32;
            number(h.cr1, h.cr2) == (if n == 0 {
                0xFF_FFFF
            } else {
                n as int / 2 % 0x100_0000
            })
        }),
        s.commanded(0x06).port.xfer32 is None,
        !s.commanded(0x06).port.transfer_request,
        s.commanded(0x06).port.xfer_done == 0,
{
    reveal(CdState::drive_commanded);
    let n = s.port.xfer_done as u32;
    number_parts(n);
    low_24(n as int / 2);
    assert(n as int / 2 / 0x1_0000 == n as int / 0x2_0000);
    let b = ((n >> 17) & 0xFF) as u16;
    narrow(b);
    status_bits(s.pos.status, b as u8);
}

/// Get Sector Info tells of a sector in the selected partition its FAD, its file and
/// channel, and its submode and coding; there is no answer behind the last one.
#[verifier::spinoff_prover]
pub proof fn sector_info_tells_the_sector(s: CdState, i: int)
    requires
        s.wf(),
        upper(s.host.cr3) < MAX_FILTERS,
        0 <= i < s.buf.partitions[upper(s.host.cr3)].len(),
        i == lower(s.host.cr2),
        ({
            let b = s.buf.blocks[s.buf.partitions[upper(s.host.cr3)][i] as int];
            0 <= b.fad < 0x100_0000
        }),
    ensures
        ({
            let b = s.buf.blocks[s.buf.partitions[upper(s.host.cr3)][i] as int];
            let h = s.commanded(0x54).host;
            &&& number(h.cr1, h.cr2) == b.fad
            &&& upper(h.cr3) == b.fnum && lower(h.cr3) == b.chan
            &&& upper(h.cr4) == b.subm && lower(h.cr4) == b.cinf
        }),
{
    reveal(CdState::data_commanded);
    let b = s.buf.blocks[s.buf.partitions[upper(s.host.cr3)][i] as int];
    word_bits(s.host.cr3, 0, b.fnum, b.chan, 0, b.fad);
    word_bits(s.host.cr2, 0, b.subm, b.cinf, 0, b.fad);
    let m = ((b.fad >> 16) & 0xFF) as u16;
    narrow(m);
    status_bits(s.pos.status, m as u8);
}

/// Get Buffer Size tells the free slots; what the partitions hold and the free slots are
/// the whole pool. Get Sector Number tells what one partition holds.
pub proof fn buffer_size_tells_the_free_slots(s: CdState)
    requires
        s.wf(),
    ensures
        ({
            let h = s.commanded(0x50).host;
            &&& h.cr2 + super::buffers::count_held(s.buf.partitions, MAX_FILTERS as int) == MAX_BLOCKS
            &&& upper(h.cr3) == MAX_FILTERS && lower(h.cr3) == 0
            &&& h.cr4 == MAX_BLOCKS
        }),
        upper(s.host.cr3) < MAX_FILTERS ==> s.commanded(0x51).host.cr4 == s.buf.partitions[upper(
            s.host.cr3,
        )].len(),
        upper(s.host.cr3) >= MAX_FILTERS ==> s.commanded(0x51).host.cr4 == 0,
{
    reveal(CdState::data_commanded);
    word_bits(s.host.cr3, 0, 0, 0, 0, 0);
    s.buf.held_bounds();
}

// ---- sizes ------------------------------------------------------------------------

/// The size of sectors is the sum of their sizes: in words, a sector has half of its
/// bytes.
pub proof fn sizes_add_up(blocks: Seq<BlockView>, a: Seq<usize>, b: Seq<usize>)
    ensures
        data_words(blocks, a + b) == data_words(blocks, a) + data_words(blocks, b),
    decreases b.len(),
{
    if b.len() == 0 {
        assert(a + b =~= a);
    } else {
        assert((a + b).drop_last() =~= a + b.drop_last());
        sizes_add_up(blocks, a, b.drop_last());
    }
}

pub proof fn one_sector_has_half_its_bytes(blocks: Seq<BlockView>, i: usize)
    requires
        blocks[i as int].size >= 0,
    ensures
        2 * data_words(blocks, seq![i]) <= blocks[i as int].size <= 2 * data_words(blocks, seq![i])
            + 1,
{
    assert(seq![i].drop_last() =~= Seq::empty());
    assert(data_words(blocks, Seq::empty()) == 0);
}

/// Calculate Data Size works out the words of the sectors that it is asked for, and Get
/// Data Size tells them.
#[verifier::spinoff_prover]
pub proof fn calculated_size_is_told(s: CdState, h: Host, from: int, n: int)
    requires
        s.wf(),
        upper(s.host.cr3) < MAX_FILTERS,
        s.host.cr2 == from,
        s.host.cr4 == n,
        from + n <= s.buf.partitions[upper(s.host.cr3)].len(),
        0 <= data_words(
            s.buf.blocks,
            s.buf.partitions[upper(s.host.cr3)].subrange(from, from + n),
        ) < 0x100_0000,
    ensures
        ({
            let r = (CdState { host: h, ..s.commanded(0x52) }).commanded(0x53).host;
            number(r.cr1, r.cr2) == data_words(
                s.buf.blocks,
                s.buf.partitions[upper(s.host.cr3)].subrange(from, from + n),
            )
        }),
{
    reveal(CdState::data_commanded);
    word_bits(s.host.cr3, 0, 0, 0, 0, 0);
    let t = s.commanded(0x52);
    let p = s.buf.partitions[upper(s.host.cr3)];
    assert(s.size_range() =~= p.subrange(from, from + n));
    let c = t.buf.calcsize;
    word_bits(0, 0, 0, 0, c, 0);
    let m = ((c >> 16) & 0xFF) as u16;
    narrow(m);
    status_bits(s.pos.status, m as u8);
}

/// Set Sector Length takes one of four codes for each direction: user data, with
/// subheader and codes, with header, and the whole sector; others keep the length.
pub proof fn sector_length_takes_its_codes(s: CdState)
    ensures
        ({
            let b = s.commanded(0x60).buf;
            let i = lower(s.host.cr1);
            let o = upper(s.host.cr2);
            &&& b.sectlenin == (if i == 0 {
                2048int
            } else if i == 1 {
                2336
            } else if i == 2 {
                2340
            } else if i == 3 {
                2352
            } else {
                s.buf.sectlenin as int
            })
            &&& b.sectlenout == (if o == 0 {
                2048int
            } else if o == 1 {
                2336
            } else if o == 2 {
                2340
            } else if o == 3 {
                2352
            } else {
                s.buf.sectlenout as int
            })
        }),
{
    reveal(CdState::data_commanded);
    word_bits(s.host.cr1, 0, 0, 0, 0, 0);
    word_bits(s.host.cr2, 0, 0, 0, 0, 0);
}

// ---- filters ----------------------------------------------------------------------

/// What the filter commands write is in the filter that CR3 names, each number in its
/// place: a FAD and a count of sectors, the subheader conditions, and the connectors
/// that CR1 asks for.
#[verifier::spinoff_prover]
pub proof fn filter_commands_fill_their_fields(s: CdState)
    requires
        s.wf(),
        upper(s.host.cr3) < MAX_FILTERS,
    ensures
        ({
            let i = upper(s.host.cr3);
            let old_f = s.buf.filters[i];
            let h = s.host;
            let range = s.commanded(0x40).buf.filters[i];
            let sub = s.commanded(0x42).buf.filters[i];
            let con = s.commanded(0x46).buf.filters[i];
            &&& range.fad == number(h.cr1, h.cr2) && range.range == number(h.cr3, h.cr4)
            &&& range == (Filter { fad: range.fad, range: range.range, ..old_f })
            &&& sub.chan == lower(h.cr1) && sub.fid == lower(h.cr3)
            &&& sub.smmask == upper(h.cr2) && sub.cimask == lower(h.cr2)
            &&& sub.smval == upper(h.cr4) && sub.cival == lower(h.cr4)
            &&& sub.mode == old_f.mode && sub.fad == old_f.fad && sub.range == old_f.range
                && sub.condtrue == old_f.condtrue && sub.condfalse == old_f.condfalse
            &&& h.cr1 as int % 2 == 1 ==> con.condtrue == upper(h.cr2)
            &&& h.cr1 as int % 2 == 0 ==> con.condtrue == old_f.condtrue
            &&& h.cr1 as int / 2 % 2 == 1 ==> con.condfalse == lower(h.cr2)
            &&& h.cr1 as int / 2 % 2 == 0 ==> con.condfalse == old_f.condfalse
            &&& con == (Filter { condtrue: con.condtrue, condfalse: con.condfalse, ..old_f })
        }),
{
    reveal(CdState::selector_commanded);
    let h = s.host;
    word_bits(h.cr1, h.cr2, 0, 0, 0, 0);
    word_bits(h.cr2, 0, 0, 0, 0, 0);
    word_bits(h.cr3, h.cr4, 0, 0, 0, 0);
    word_bits(h.cr4, 0, 0, 0, 0, 0);
    connector_bits(h.cr1);
}

#[verifier::spinoff_prover]
proof fn connector_bits(r: u16)
    ensures
        r & 1 != 0 <==> r as int % 2 == 1,
        r & 2 != 0 <==> r as int / 2 % 2 == 1,
        r & 0x80 != 0 <==> r as int / 128 % 2 == 1,
        r & 0x40 != 0 <==> r as int / 64 % 2 == 1,
        r & 0x10 != 0 <==> r as int / 16 % 2 == 1,
        r & 0x04 != 0 <==> r as int / 4 % 2 == 1,
{
    status_masks(0, 0, r);
    low_bits();
    right_shifts();
}

/// Reset Selector by its flags: the conditions of every filter are cleared, so that it
/// passes every sector, or its connectors alone; what no flag names stays.
pub proof fn selector_reset_goes_by_its_flags(s: CdState, i: int, b: BlockView, mode2: bool)
    requires
        s.wf(),
        0 <= i < MAX_FILTERS,
    ensures
        ({
            let f = s.buf.filters[i];
            let g = CdState::filter_reset(s.host.cr1, f);
            let c = s.host.cr1 as int;
            &&& s.filters_reset(s.host.cr1).buf.filters[i] == g
            &&& c / 16 % 2 == 1 ==> filter_hit(g, b, mode2)
            &&& c / 16 % 2 == 0 && c / 64 % 2 == 1 ==> g.condtrue == 0
            &&& c / 16 % 2 == 0 && c / 64 % 2 == 0 ==> g.condtrue == f.condtrue
            &&& c / 16 % 2 == 0 && c / 128 % 2 == 1 ==> g.condfalse == 0
            &&& c / 16 % 2 == 0 && c / 128 % 2 == 0 ==> g.condfalse == f.condfalse
            &&& c / 16 % 2 == 0 ==> g == (Filter {
                condtrue: g.condtrue,
                condfalse: g.condfalse,
                ..f
            })
        }),
{
    connector_bits(s.host.cr1);
    status_masks(0, 0, 0);
}

// ---- ranges -----------------------------------------------------------------------

proof fn fad_bits(n: u32, e: u32)
    by (bit_vector)
    ensures
        n < 0x100_0000 ==> (n & 0x80_0000 != 0 <==> n >= 0x80_0000),
        0x80_0000 <= n < 0x100_0000 ==> n & 0x7F_FFFF == n - 0x80_0000,
        e < 0x80_0000 ==> (0x80_0000 | e) == 0x80_0000 + e,
        e < 0x80_0000 ==> e & 0x7F_FFFF == e,
        n <= 0xFFFF_FFFF ==> n & 0x7F_FFFF < 0x80_0000,
        n < 0x100_0000 && e < 0x100_0000 ==> ((n ^ e) & 0x80_0000 != 0 <==> (n < 0x80_0000) != (e
            < 0x80_0000)),
        n >= 0x100_0000 && n < 0x180_0000 ==> 0x80_0000 | (n & 0x7F_FFFF) == n - 0x80_0000,
{
}

/// A range of FADs has a first FAD and a count: within it the drive plays on, before it
/// and from its end on it is done.
pub open spec fn plays_exactly(t: CdState, first: int, count: int) -> bool {
    forall|f: u32|
        #![trigger t.at_fad(f)]
        t.pos.track != 0xAA ==> (t.at_fad(f).end_met() <==> f < first || f >= first + count)
}

impl CdState {
    /// The state with the head at a FAD.
    pub open spec fn at_fad(self, fad: u32) -> CdState {
        CdState { pos: super::Position { cd_curfad: fad, ..self.pos }, ..self }
    }
}

/// Play Disc with FADs plays as many sectors as it is told, from the FAD that it is
/// told, and repeats as often as it is told; the end is announced as such.
#[verifier::spinoff_prover]
pub proof fn play_covers_its_range(s: CdState, first: int, count: int)
    requires
        s.disc is Some,
        150 <= first,
        0 < count,
        first + count < 0x80_0000,
        number(s.host.cr1, s.host.cr2) == 0x80_0000 + first,
        number(s.host.cr3, s.host.cr4) == 0x80_0000 + count,
        first != 0x7F_FFFF,
        upper(s.host.cr3) < 16,
    ensures
        ({
            let t = s.commanded(0x10);
            &&& t.seek_target() == first
            &&& plays_exactly(t, first, count)
            &&& t.drive.play_repeat == upper(s.host.cr3)
            &&& t.drive.end_irq == HIRQ_PEND
            &&& t.drive.phase == DrivePhase::SeekStart
            &&& t.drive.repeat_counter == 0
            &&& !t.drive.pre_in
            &&& t.host.hirq == s.host.hirq | HIRQ_CMOK
        }),
{
    reveal(CdState::drive_commanded);
    reveal(CdState::seek_commanded);
    let h = s.host;
    word_bits(h.cr1, h.cr2, 0, 0, 0, 0);
    word_bits(h.cr3, h.cr4, 0, 0, 0, 0);
    let a = num24(h.cr1, h.cr2);
    let b = num24(h.cr3, h.cr4);
    fad_bits(a, b);
    fad_bits(b, (first + count) as u32);
    fad_bits((a + b) as u32, 0);
    assert(s.play_from() == a);
    assert(s.play_to() == 0x80_0000 + first + count);
    fad_bits(a, s.play_to());
    fad_bits(s.play_to(), 0);
    status_masks(0, hi8(h.cr3), 0);
}

/// A play that keeps the pickup where it is keeps the sector read ahead, and a drive
/// that plays does not seek; a repeat count out of range keeps the last one; a range
/// from a FAD to a track, or from a track to a FAD, is rejected.
pub proof fn play_keeps_what_it_is_told_to_keep(s: CdState)
    requires
        s.disc is Some,
    ensures
        ({
            let t = s.commanded(0x10);
            let a = s.play_from();
            let b = s.play_to();
            let mixed = a < 0x100_0000 && b < 0x100_0000 && b != 0 && (a < 0x80_0000) != (b
                < 0x80_0000);
            let alike = a < 0x100_0000 && b < 0x100_0000 && (b == 0 || (a < 0x80_0000) == (b
                < 0x80_0000));
            &&& mixed ==> t.drive == s.drive && upper(t.host.cr1) == 0xFF
            &&& alike && upper(s.host.cr3) >= 128 && s.drive.phase == DrivePhase::Play
                ==> t.drive.phase == DrivePhase::Play && t.drive.pre_in == s.drive.pre_in
                && t.drive.counter == s.drive.counter
            &&& alike && 16 <= upper(s.host.cr3) < 128 ==> t.drive.play_repeat == s.drive.play_repeat
            &&& number(s.host.cr1, s.host.cr2) == 0xFF_FFFF ==> a == s.drive.play_start
            &&& number(s.host.cr3, s.host.cr4) == 0xFF_FFFF ==> b == s.drive.play_end
        }),
{
    reveal(CdState::drive_commanded);
    reveal(CdState::seek_commanded);
    let h = s.host;
    word_bits(h.cr1, h.cr2, 0, 0, 0, 0);
    word_bits(h.cr3, h.cr4, 0, 0, 0, 0);
    fad_bits(s.play_from(), s.play_to());
    status_masks(0, hi8(h.cr3), 0);
}

/// Seek Disc goes to a FAD, to a track, or stops; it plays nothing.
pub proof fn seek_goes_where_it_is_told(s: CdState)
    ensures
        ({
            let t = s.commanded(0x11);
            let n = number(s.host.cr1, s.host.cr2);
            &&& t.drive.phase == DrivePhase::Idle && t.drive.play_end == 0
            &&& 0x80_0000 <= n < 0xFF_FFFF ==> t.pos.cd_curfad == n - 0x80_0000
            &&& n == 0xFF_FFFF ==> t.pos.cd_curfad == s.pos.cd_curfad
            &&& n < 0x80_0000 && upper(s.host.cr2) > 0 ==> t.pos.track == upper(s.host.cr2)
                && t.pos.cd_curfad == s.pos.cd_curfad
            &&& n < 0x80_0000 && upper(s.host.cr2) == 0 ==> t.pos.cd_curfad == 0xFFFF_FFFF
        }),
{
    reveal(CdState::drive_commanded);
    let h = s.host;
    word_bits(h.cr1, h.cr2, 0, 0, 0, 0);
    word_bits(h.cr2, 0, 0, 0, 0, 0);
}

/// The Q subcode tells the head's FAD, and how far it is into its track.
pub proof fn subcode_tells_the_head(s: CdState, m: Media)
    requires
        s.disc == Some(m),
        s.pos.cd_curfad < 0x100_0000,
        m.track_at(s.pos.cd_curfad) is Some,
        m.track_at(s.pos.cd_curfad)->Some_0.start_fad <= s.pos.cd_curfad,
        lower(s.host.cr1) == 0,
    ensures
        ({
            let q = s.commanded(0x20).port.xfer;
            let t = m.track_at(s.pos.cd_curfad)->Some_0;
            &&& q.len() == 10 && 2 * s.commanded(0x20).host.cr2 == q.len()
            &&& q[0] == s.pos.ctrladdr && q[1] == s.pos.track && q[2] == s.pos.index
            &&& t.start_fad + 0x1_0000 * q[3] + 0x100 * q[4] + q[5] == s.pos.cd_curfad
            &&& 0x1_0000 * q[7] + 0x100 * q[8] + q[9] == s.pos.cd_curfad
        }),
{
    reveal(CdState::drive_commanded);
    word_bits(s.host.cr1, 0, 0, 0, 0, 0);
    let f = s.pos.cd_curfad;
    let t = m.track_at(f)->Some_0;
    word_bits(0, 0, 0, 0, f, 0);
    word_bits(0, 0, 0, 0, (f - t.start_fad) as u32, 0);
}

// ---- sector data ------------------------------------------------------------------

/// Get Sector Data arms a transfer of the sectors that it names: from CR2 on, as many as
/// CR4 says, or all that are left. The other command of its kind deletes them as well.
pub proof fn armed_transfer_is_what_was_asked(s: CdState, from: int, n: int)
    requires
        s.wf(),
        upper(s.host.cr3) < MAX_FILTERS,
        s.host.cr2 == from,
        from + n <= s.buf.partitions[upper(s.host.cr3)].len(),
        0 <= n,
        s.host.cr4 == n || (s.host.cr4 == 0xFFFF && from + n == s.buf.partitions[upper(
            s.host.cr3,
        )].len()),
    ensures
        ({
            let get = s.commanded(0x61).port;
            let take = s.commanded(0x63).port;
            let x = get.xfer32->Some_0;
            let y = take.xfer32->Some_0;
            &&& get.xfer32 is Some && take.xfer32 is Some
            &&& !x.delete && y.delete
            &&& x.part == upper(s.host.cr3) && x.pos == from && x.num == n && x.sect == 0 && x.offs
                == 0
            &&& y.part == x.part && y.pos == from && y.num == n && y.sect == 0 && y.offs == 0
            &&& get.transfer_request && take.transfer_request
        }),
{
    reveal(CdState::data_commanded);
    word_bits(s.host.cr3, 0, 0, 0, 0, 0);
    s.buf.held_bounds();
}

/// Delete Sector Data takes the sectors that it names out of the partition, and leaves
/// the others in their order.
pub proof fn deletion_takes_what_was_asked(s: CdState, from: int, n: int)
    requires
        s.wf(),
        upper(s.host.cr3) < MAX_FILTERS,
        s.host.cr2 == from,
        from + n <= s.buf.partitions[upper(s.host.cr3)].len(),
        0 <= n,
        s.buf.partitions[upper(s.host.cr3)].len() > 0,
        s.host.cr4 == n || (s.host.cr4 == 0xFFFF && from + n == s.buf.partitions[upper(
            s.host.cr3,
        )].len()),
    ensures
        ({
            let p = s.buf.partitions[upper(s.host.cr3)];
            s.commanded(0x62).buf.partitions[upper(s.host.cr3)] == p.take(from) + p.skip(from + n)
        }),
{
    reveal(CdState::data_commanded);
    word_bits(s.host.cr3, 0, 0, 0, 0, 0);
    s.buf.held_bounds();
    let p = s.buf.partitions[upper(s.host.cr3)];
    assert(p.take(from) =~= p.subrange(0, from));
    assert(p.skip(from + n) =~= p.subrange(from + n, p.len() as int));
}

// ---- files ------------------------------------------------------------------------

/// Get File Info stages twelve bytes of a file: its FAD, its length, its interleaving,
/// its number and its flags.
pub proof fn file_info_tells_the_file(s: CdState, n: int)
    requires
        0 <= n < s.files.dir.len(),
        n < 0xFF_FFFF,
        number(s.host.cr3, s.host.cr4) == n,
    ensures
        ({
            let e = s.files.dir[n];
            let r = s.commanded(0x73).port.xfer;
            &&& r.len() == 12 && 2 * s.commanded(0x73).host.cr2 == r.len()
            &&& 0x100_0000 * r[0] + 0x1_0000 * r[1] + 0x100 * r[2] + r[3] == e.firstfad
            &&& 0x100_0000 * r[4] + 0x1_0000 * r[5] + 0x100 * r[6] + r[7] == e.length
            &&& r[8] == e.interleave_gap_size && r[9] == e.file_unit_size
            &&& r[10] == n % 256 && r[11] == e.flags
        }),
{
    reveal(CdState::data_commanded);
    word_bits(s.host.cr3, s.host.cr4, 0, 0, 0, 0);
    let e = s.files.dir[n];
    word_bits(0, 0, 0, 0, e.firstfad, 0);
    word_bits(0, 0, 0, 0, e.length, 0);
    word_bits(0, 0, 0, 0, n as u32, 0);
}

/// Get File System Scope tells how many files there are, and the first of them.
pub proof fn scope_tells_the_files(s: CdState)
    requires
        s.files.numfiles < 0x1_0000,
        s.files.firstfile < 0x1_0000,
    ensures
        s.commanded(0x72).host.cr2 == s.files.numfiles,
        s.commanded(0x72).host.cr4 == s.files.firstfile,
{
    reveal(CdState::data_commanded);
    word_bits(0, 0, 0, 0, s.files.numfiles, 0);
    word_bits(0, 0, 0, 0, s.files.firstfile, 0);
}

/// Change Directory enters the directory that CR3 and CR4 number.
pub proof fn directory_number_is_followed(s: CdState, n: u32)
    requires
        number(s.host.cr3, s.host.cr4) == n,
    ensures
        s.commanded(0x70).files == s.files.changed(s.disc, n),
        s.commanded(0x70).buf == s.buf,
        s.commanded(0x70).drive == s.drive,
{
    reveal(CdState::data_commanded);
    word_bits(s.host.cr3, s.host.cr4, 0, 0, 0, 0);
}

/// Read File plays the sectors of the file that hold its bytes, from an offset in sectors
/// to its last byte, through the filter that CR3 names; its end is announced as that of
/// a file.
#[verifier::spinoff_prover]
pub proof fn file_read_covers_the_file(s: CdState, id: int, count: int)
    requires
        s.wf(),
        s.disc is Some,
        0 <= id < s.files.dir.len(),
        number(s.host.cr3, s.host.cr4) == id,
        ({
            let e = s.files.dir[id];
            let skip = 0x100 * lower(s.host.cr1) + lower(s.host.cr2);
            &&& 0 < count
            &&& (skip + count - 1) * s.buf.sectlenin < e.length <= (skip + count) * s.buf.sectlenin
            &&& 150 <= e.firstfad
            &&& e.firstfad + skip + count < 0x80_0000
        }),
    ensures
        ({
            let e = s.files.dir[id];
            let skip = 0x100 * lower(s.host.cr1) + lower(s.host.cr2);
            let t = s.commanded(0x74);
            &&& t.seek_target() == e.firstfad + skip
            &&& plays_exactly(t, e.firstfad + skip, count)
            &&& t.drive.end_irq == HIRQ_EFLS
            &&& t.drive.play_repeat == 0
            &&& t.drive.phase == DrivePhase::SeekStart
            &&& upper(s.host.cr3) < MAX_FILTERS ==> t.buf.cd_device_filter == upper(s.host.cr3)
            &&& upper(s.host.cr3) >= MAX_FILTERS ==> t.buf.cd_device_filter == NO_FILTER
        }),
{
    reveal(CdState::data_commanded);
    reveal(CdState::seek_commanded);
    let h = s.host;
    word_bits(h.cr1, h.cr2, 0, 0, 0, 0);
    word_bits(h.cr3, h.cr4, 0, 0, 0, 0);
    let e = s.files.dir[id];
    let skip = 0x100 * lower(h.cr1) + lower(h.cr2);
    let l = s.buf.sectlenin as int;
    let n = s.file_sectors(e.length);
    file_length(e.length as int, l, skip + count);
    assert(n == skip + count);
    let a = (e.firstfad + skip) as u32;
    let b = (e.firstfad + skip + count) as u32;
    fad_bits(0, a);
    fad_bits(0, b);
    fad_bits((0x80_0000 + a) as u32, 0);
    fad_bits((0x80_0000 + b) as u32, 0);
}

proof fn file_length(length: int, l: int, n: int)
    by (nonlinear_arith)
    requires
        l > 0,
        (n - 1) * l < length <= n * l,
    ensures
        (length + l - 1) / l == n,
{
}

/// Abort stops the drive and drops the transfer that is armed.
pub proof fn abort_stops_everything(s: CdState)
    requires
        s.disc is Some,
    ensures
        s.commanded(0x75).port.xfer32 is None,
        s.commanded(0x75).drive.phase == DrivePhase::Idle,
        s.commanded(0x75).drive.play_end == 0,
        !s.commanded(0x75).drive.pre_in,
        s.commanded(0x75).buf == s.buf,
        s.commanded(0x75).files == s.files,
{
    reveal(CdState::data_commanded);
}

/// A disc is authenticated as a data disc of this machine, and nothing is without one;
/// the MPEG card is asked for apart.
pub proof fn disc_is_authenticated(s: CdState)
    ensures
        s.host.cr2 != 1 && s.disc is Some ==> s.commanded(0xE1).host.cr2 == 4,
        s.host.cr2 != 1 && s.disc is None ==> s.commanded(0xE1).host.cr2 == 0,
        s.host.cr2 == 1 ==> s.commanded(0xE1).host.cr2 == 2,
        s.disc is Some ==> s.commanded(0xE0).pos.status == super::STAT_PAUSE,
{
    reveal(CdState::drive_commanded);
}

/// The device connection and the last buffer are told where they are set: the filter
/// that the drive is connected to, and the partition that got a sector last.
pub proof fn connections_are_told(s: CdState)
    ensures
        s.commanded(0x30).buf.cd_device_filter == upper(s.host.cr3),
        upper(s.commanded(0x31).host.cr3) == s.buf.cd_device_filter,
        upper(s.commanded(0x32).host.cr3) == s.buf.last_buffer,
{
    reveal(CdState::selector_commanded);
    word_bits(s.host.cr3, 0, s.buf.cd_device_filter, 0, 0, 0);
    word_bits(s.host.cr3, 0, s.buf.last_buffer, 0, 0, 0);
}

} // verus!
