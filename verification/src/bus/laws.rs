//! What holds of the address space as a whole.

use vstd::prelude::*;
use crate::memory::folded16;
use super::{Machine, Region};

verus! {

proof fn byte_bits(a: u8, b: u8, c: u8, d: u8, v: u16, w: u32)
    by (bit_vector)
    ensures
        ((a as u16) << 8) | b as u16 == 256 * a + b,
        ((a as u32) << 24) | ((b as u32) << 16) | ((c as u32) << 8) | d as u32 == 0x100_0000 * a
            + 0x1_0000 * b + 0x100 * c + d,
        v == 256 * ((v >> 8) as u8) + (v as u8),
        w == 0x100_0000 * ((w >> 24) as u8) + 0x1_0000 * ((w >> 16) as u8) + 0x100 * ((w >> 8) as u8)
            + (w as u8),
{
}

/// The regions lie one behind the other: ROM, system registers, backup RAM and low work
/// RAM at the bottom; the cartridge, the CD-block, the sound system, the graphics chips,
/// the system control unit and the high work RAM above; what is not listed is open.
pub proof fn regions_are_laid_out(a: u32)
    ensures
        a < 0x0010_0000 <==> Region::of(a) is Bios,
        0x0010_0000 <= a < 0x0018_0000 <==> Region::of(a) is Smpc,
        0x0018_0000 <= a < 0x0020_0000 <==> Region::of(a) is Backup,
        0x0020_0000 <= a < 0x0030_0000 <==> Region::of(a) is LowWram,
        0x0200_0000 <= a < 0x0500_0000 <==> Region::of(a) is Cartridge,
        0x0581_8000 <= a < 0x0581_8004 ==> Region::of(a) is CdPort,
        0x0589_0000 <= a < 0x058A_0000 <==> Region::of(a) is CdBlock,
        0x05A0_0000 <= a < 0x05A8_0000 ==> Region::of(a) is ScspRam,
        0x05B0_0000 <= a < 0x05B0_1000 ==> Region::of(a) is ScspRegs,
        0x05C0_0000 <= a < 0x05C8_0000 ==> Region::of(a) is Vdp1,
        0x05E0_0000 <= a < 0x05E8_0000 ==> Region::of(a) is Vdp2,
        0x05FE_0000 <= a < 0x05FE_00D0 ==> Region::of(a) is Scu,
        0x0600_0000 <= a < 0x0700_0000 <==> Region::of(a) is HighWram,
{
}

/// Memory that a region shows as plain bytes.
pub open spec fn is_plain(r: Region) -> bool {
    r is Bios || r is LowWram || r is ScspRam || r is HighWram
}

/// A wide read of memory is its bytes, the highest first.
pub proof fn wide_reads_are_bytes(m: Machine, a: u32, x: u32)
    requires
        is_plain(Region::of(a)),
        a + 3 <= u32::MAX,
        Region::of((a + 1) as u32) == Region::of(a),
        Region::of((a + 2) as u32) == Region::of(a),
        Region::of((a + 3) as u32) == Region::of(a),
    ensures
        ({
            let b = |k: int| m.answer8((a + k) as u32, x as u8) as int;
            &&& m.answer16(a, x as u16) == 256 * b(0) + b(1)
            &&& m.answer32(a, x) == 0x100_0000 * b(0) + 0x1_0000 * b(1) + 0x100 * b(2) + b(3)
        }),
{
    let b0 = m.answer8(a, x as u8);
    let b1 = m.answer8((a + 1) as u32, x as u8);
    let b2 = m.answer8((a + 2) as u32, x as u8);
    let b3 = m.answer8((a + 3) as u32, x as u8);
    byte_bits(b0, b1, b2, b3, 0, 0);
}

/// A byte, a word and a long of work RAM that are written are found by byte, the highest
/// first, and the byte behind them is as it was.
pub proof fn wide_writes_are_bytes(m: Machine, a: u32, v: u16, w: u32, x: u8)
    requires
        m.wf(),
        0x0600_0000 <= a && a + 4 < 0x0610_0000,
    ensures
        ({
            let s = m.written16(a, v);
            let t = m.written32(a, w);
            let b = |n: Machine, k: int| n.answer8((a + k) as u32, x) as int;
            &&& 256 * b(s, 0) + b(s, 1) == v
            &&& b(s, 2) == b(m, 2)
            &&& 0x100_0000 * b(t, 0) + 0x1_0000 * b(t, 1) + 0x100 * b(t, 2) + b(t, 3) == w
            &&& b(t, 4) == b(m, 4)
        }),
{
    let o = (a - 0x0600_0000) as u32;
    assert(m.high.len() == 0x10_0000);
    assert((o as int % 0x10_0000 + 1) % 0x10_0000 == o + 1 && (o as int % 0x10_0000 + 2) % 0x10_0000
        == o + 2 && (o as int % 0x10_0000 + 3) % 0x10_0000 == o + 3);
    byte_bits(0, 0, 0, 0, v, w);
}

/// A write reaches one device: work RAM, the cartridge and backup RAM, the system control
/// unit, the sound system and the CD-block keep what is not theirs.
pub proof fn writes_reach_one_device(m: Machine, a: u32, v: u32)
    ensures
        ({
            let n = m.written32(a, v);
            &&& !(Region::of(a) is HighWram) ==> n.high == m.high
            &&& !(Region::of(a) is LowWram) ==> n.low == m.low
            &&& !(Region::of(a) is Backup) ==> n.backup == m.backup
            &&& !(Region::of(a) is Cartridge) ==> n.cart == m.cart
            &&& !(Region::of(a) is Scu) ==> n.scu == m.scu
            &&& !(Region::of(a) is CdBlock) ==> n.cd == m.cd
            &&& !(Region::of(a) is ScspRam) && !(Region::of(a) is ScspRegs) ==> n.chip == m.chip
            &&& n.bios == m.bios
        }),
{
    reveal(Machine::cd_written32);
    reveal(Machine::scu_written32);
    reveal(Machine::sound_ram_written32);
    reveal(Machine::sound_written32);
}

/// A register of the system control unit is written and read at its own address.
pub proof fn scu_answers_at_its_address(m: Machine, o: u32, v: u32, x: u32)
    requires
        o < 0xD0,
    ensures
        m.answer32((0x05FE_0000 + o) as u32, x) == m.scu.at(o),
        m.written32((0x05FE_0000 + o) as u32, v).scu == m.scu.written(o, v),
        m.read32((0x05FE_0000 + o) as u32).scu == m.scu.read(o),
{
    reveal(Machine::scu_written32);
    reveal(Machine::scu_read32);
}

/// Sound RAM and the registers of the sound generator, and those of the CD-block, are
/// written and read at their own addresses.
pub proof fn devices_answer_at_their_addresses(m: Machine, o: u32, v: u16, x: u16)
    ensures
        o < 0x1000 ==> m.answer16((0x05B0_0000 + o) as u32, x) == m.chip.sound.at16(o),
        o < 0x1000 ==> m.written16((0x05B0_0000 + o) as u32, v).chip.sound
            == m.chip.sound.written16(o, v),
        o < 0x8_0000 ==> m.answer16((0x05A0_0000 + o) as u32, x) == folded16(m.chip.ram, o),
        o < 0x1_0000 ==> m.answer16((0x0589_0000 + o) as u32, x) == m.cd.word_at(o),
        o < 0x1_0000 ==> m.read16((0x0589_0000 + o) as u32, v).cd == m.cd.word_read(o),
{
    reveal(Machine::sound_written16);
    reveal(Machine::cd_read16);
}

} // verus!
