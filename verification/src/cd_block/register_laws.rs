//! What the host sees of the CD-block's registers.

use vstd::prelude::*;
use crate::disc::Media;
use super::model::{CdState, Host};
use super::{Handshake, HIRQ_BFUL, HIRQ_DCHG, HIRQ_MPED, STAT_NODISC};

verus! {

proof fn slot_bits(h: u16, v: u16, k: u16, c: u8)
    by (bit_vector)
    ensures
        (0x08u32 & 0xFFFF) & 0xFFFC == 0x08 && (0x0Au32 & 0xFFFF) & 0xFFFC == 0x08,
        (0x0Cu32 & 0xFFFF) & 0xFFFC == 0x0C && (0x0Eu32 & 0xFFFF) & 0xFFFC == 0x0C,
        (0x18u32 & 0xFFFF) & 0xFFFC == 0x18 && (0x1Au32 & 0xFFFF) & 0xFFFC == 0x18,
        (0x1Cu32 & 0xFFFF) & 0xFFFC == 0x1C && (0x1Eu32 & 0xFFFF) & 0xFFFC == 0x1C,
        (0x20u32 & 0xFFFF) & 0xFFFC == 0x20 && (0x22u32 & 0xFFFF) & 0xFFFC == 0x20,
        (0x24u32 & 0xFFFF) & 0xFFFC == 0x24 && (0x26u32 & 0xFFFF) & 0xFFFC == 0x24,
        0x08u32 & 0xFFFF < 0x8000 && 0x0Au32 & 0xFFFF < 0x8000 && 0x0Cu32 & 0xFFFF < 0x8000 && 0x0Eu32
            & 0xFFFF < 0x8000,
        0x18u32 & 0xFFFF < 0x8000 && 0x1Au32 & 0xFFFF < 0x8000 && 0x1Cu32 & 0xFFFF < 0x8000 && 0x1Eu32
            & 0xFFFF < 0x8000,
        0x20u32 & 0xFFFF < 0x8000 && 0x22u32 & 0xFFFF < 0x8000 && 0x24u32 & 0xFFFF < 0x8000 && 0x26u32
            & 0xFFFF < 0x8000,
        k < 16 ==> (((h & v) | 0x800) & (1u16 << k) != 0 <==> k == 11 || (h & (1u16 << k) != 0 && v & (
        1u16 << k) != 0)),
        (h & !8) & 8 == 0,
        (h | 0x20) & 0x20 != 0,
        7u8 | 8 == 0x0F,
        ((0u8 | 1) | 2) | 4 == 7,
        0u8 | 8 == 8,
        v & 0xFF00 == 256 * (v >> 8),
        v == 256 * (v >> 8) + (v & 0x00FF) && v & 0x00FF <= 0xFF,
        ((((((1u16 | 0x40) | 0x80) | 0x800) | 0x100) | 0x200) | 0x20) & 0x20 != 0,
        ((((((1u16 | 0x40) | 0x80) | 0x800) | 0x100) | 0x200) | 0) & 0x20 == 0,
        ((((((1u16 | 0x40) | 0x80) | 0x800) | 0x100) | 0x200) | 0x20) & 0x800 != 0,
        ((((((1u16 | 0x40) | 0x80) | 0x800) | 0x100) | 0x200) | 0) & 0x800 != 0,
        (v & 0x00FF) | ((c as u16) << 8) == 256 * c + (v & 0x00FF),
        (v & 0xFF00) | c as u16 == (v & 0xFF00) + c,
        0u32 & 1 == 0 && 1u32 & 1 == 1,
{
}

/// Each register fills four bytes: both halves of them read it.
pub proof fn registers_fill_their_slots(s: CdState)
    ensures
        s.word_at(0x0C) == s.host.hirq_mask && s.word_at(0x0E) == s.host.hirq_mask,
        s.word_at(0x18) == s.host.cr1 && s.word_at(0x1A) == s.host.cr1,
        s.word_at(0x1C) == s.host.cr2 && s.word_at(0x1E) == s.host.cr2,
        s.word_at(0x20) == s.host.cr3 && s.word_at(0x22) == s.host.cr3,
        s.word_at(0x24) == s.host.cr4 && s.word_at(0x26) == s.host.cr4,
        s.word_at(0x0A) == s.word_at(0x08),
{
    slot_bits(0, 0, 0, 0);
}

/// The mask and the first three command registers read back what was written to them, and
/// a write to one leaves the others.
pub proof fn command_registers_read_back(s: CdState, v: u16)
    ensures
        s.word_written(0x0C, v).word_at(0x0C) == v,
        s.word_written(0x18, v).word_at(0x18) == v,
        s.word_written(0x1C, v).word_at(0x1C) == v,
        s.word_written(0x20, v).word_at(0x20) == v,
        s.word_written(0x18, v).host.cr2 == s.host.cr2 && s.word_written(0x18, v).host.cr3
            == s.host.cr3 && s.word_written(0x18, v).host.cr4 == s.host.cr4,
        s.word_written(0x1C, v).host.cr1 == s.host.cr1 && s.word_written(0x1C, v).host.cr3
            == s.host.cr3,
        s.word_written(0x20, v).host.cr1 == s.host.cr1 && s.word_written(0x20, v).host.cr2
            == s.host.cr2,
        s.word_written(0x18, v).drive == s.drive && s.word_written(0x1C, v).drive == s.drive
            && s.word_written(0x20, v).drive == s.drive,
{
    slot_bits(0, 0, 0, 0);
}

/// A write to HIRQ clears the bits that are 0 in it, and no others; that of the missing
/// MPEG card stays.
pub proof fn written_zeros_clear_interrupts(s: CdState, v: u16, k: u16)
    requires
        k < 16,
    ensures
        s.word_written(0x08, v).host.hirq & (1u16 << k) != 0 <==> k == 11 || (s.host.hirq & (1u16
            << k) != 0 && v & (1u16 << k) != 0),
{
    slot_bits(s.host.hirq, v, k, 0);
    reveal(CdState::hirq_noted);
}

/// A read of HIRQ takes note of a full buffer, and of nothing else.
pub proof fn reading_interrupts_takes_the_full_buffer(s: CdState)
    ensures
        s.word_read(0x08).host.hirq & HIRQ_BFUL == 0,
        s.word_read(0x08).host.hirq == s.word_at(0x08),
        s.word_read(0x08) == (CdState {
            host: Host { hirq: s.word_read(0x08).host.hirq, ..s.host },
            ..s
        }),
{
    slot_bits(s.host.hirq, 0, 0, 0);
}

/// A command runs when its last register is written, with all four registers as they were
/// written; while one is missing, nothing runs.
pub proof fn command_runs_when_it_is_whole(s: CdState, a: u16, b: u16, c: u16, d: u16)
    requires
        s.host.link.cr_written == 0,
    ensures
        ({
            let t = s.word_written(0x18, a).word_written(0x1C, b).word_written(0x20, c);
            let u = t.word_written(0x24, d);
            &&& t.drive == s.drive && t.buf == s.buf && t.port == s.port && t.host.hirq == s.host.hirq
            &&& u == (CdState {
                host: Host {
                    cr1: a,
                    cr2: b,
                    cr3: c,
                    cr4: d,
                    link: Handshake { cr_written: 0, ..s.host.link },
                    ..s.host
                },
                ..t
            }).executed()
            &&& s.word_written(0x24, d).drive == s.drive && s.word_written(0x24, d).host.cr4 == d
        }),
{
    slot_bits(0, 0, 0, 0);
    let t = s.word_written(0x18, a).word_written(0x1C, b).word_written(0x20, c);
    assert(t.host.link.cr_written == 7);
}

/// A byte replaces one half of a register, the upper one at an even address.
pub proof fn byte_replaces_its_half(cur: u16, v: u8)
    ensures
        CdState::byte_merged(cur, 0, v) as int / 256 == v,
        CdState::byte_merged(cur, 0, v) as int % 256 == cur as int % 256,
        CdState::byte_merged(cur, 1, v) as int / 256 == cur as int / 256,
        CdState::byte_merged(cur, 1, v) as int % 256 == v,
{
    slot_bits(0, cur, 0, v);
    crate::bits::low_bits();
}

/// A disc that is put in is at its start, and one that is taken out leaves nothing to
/// play; both are flagged as a change, the first once a host is there to be told.
pub proof fn disc_changes_are_flagged(s: CdState, m: Media)
    ensures
        ({
            let t = s.disc_inserted(m);
            let e = s.ejected();
            &&& t.disc == Some(m) && t.pos.cd_curfad == 150 && t.drive.sector == 150 && t.pos.track
                == m.first
            &&& s.host.link.host_initialized ==> t.host.hirq & HIRQ_DCHG != 0
            &&& !s.host.link.host_initialized ==> t.host.hirq & HIRQ_DCHG == 0
            &&& t.host.link.disk_changed
            &&& e.disc is None && e.host.hirq & HIRQ_DCHG != 0 && e.host.link.disk_changed
            &&& e.pos.status == STAT_NODISC && e.drive.play_end == 0 && !e.drive.pre_in
            &&& t.host.hirq & HIRQ_MPED != 0
        }),
{
    slot_bits(s.host.hirq, 0, 0, 0);
}

} // verus!
