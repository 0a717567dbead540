//! Self-diagnostics: small programs and set-ups, each of which shows one thing to
//! work.
//!
//! A check boots a machine of its own from a program, without a BIOS ([`Check::boot`]),
//! writes to it ([`Check::poke`]), has it run ([`Check::span`]), and judges what it
//! finds ([`Check::judge`]). The CPUs and the graphics chips are hosted outside, so
//! running the machine is the host's part.

use vstd::prelude::*;
use crate::bus::timing::AccessKind;
use crate::bus::{
    bus_state, chip_wf, offset, Machine, SaturnBus, HIGH_WRAM_BASE, LOW_WRAM_BASE,
};
use crate::disc::{Disc, SectorSource, FAD_OFFSET};
use crate::memory::{folded32, put16};
use crate::scsp::chip::Chip;
use crate::text::{decimal, hex, push_decimal, push_hex};
use assembler::{assemble, bra_self, image, NOP};
use programs::{
    cpu_add_imm, cpu_add_imm_code,
    cpu_sub_reg, cpu_sub_reg_code,
    cpu_mull_macl, cpu_mull_macl_code,
    branch_delay_slot, branch_delay_slot_code,
    mem_roundtrip_low, mem_roundtrip_low_code,
    mem_roundtrip_high, mem_roundtrip_high_code,
    divu_divide, divu_divide_code,
    timer_frc_advances, timer_frc_advances_code,
    cpu_logic_ops, cpu_logic_ops_code,
    cpu_shift_ops, cpu_shift_ops_code,
    scu_dma_copy, scu_dma_copy_code,
    dmac_transfer, dmac_transfer_code,
    cpu_mac_l, cpu_mac_l_code,
    cpu_cmp_branch, cpu_cmp_branch_code,
    cache_purge_coherency, cache_purge_coherency_code,
    scu_dma_alias_fold, scu_dma_alias_fold_code,
    park, park_code,
};

pub mod assembler;
pub mod programs;

verus! {

/// Where programs leave their results.
pub const LOW_SCRATCH: u32 = 0x0020_0100;

pub const HIGH_SCRATCH: u32 = 0x0600_0104;

/// The value that is moved about.
pub const SENTINEL: u32 = 0x2A2A_2A2A;

/// Cycles in which every program is done.
pub const RUN_CYCLES: u64 = 5_000;

/// Sound RAM address of the wave of the tone.
pub const TONE_BASE: u32 = 0x4000;

/// The peak that the tone has to reach.
pub const TONE_PEAK: u16 = 0x1000;

/// The two dots that are read of the polygon check: within, and at the corner of
/// the screen.
pub const INSIDE_DOT: u32 = 0x05C8_3C1E;

pub const CORNER_DOT: u32 = 0x05C8_0000;

/// One period of a sine wave, of amplitude 0x4000.
pub const SINE: [i16; 64] = [
    0, 1606, 3196, 4756, 6270, 7723, 9102, 10394,
    11585, 12665, 13623, 14449, 15137, 15679, 16069, 16305,
    16384, 16305, 16069, 15679, 15137, 14449, 13623, 12665,
    11585, 10394, 9102, 7723, 6270, 4756, 3196, 1606,
    0, -1606, -3196, -4756, -6270, -7723, -9102, -10394,
    -11585, -12665, -13623, -14449, -15137, -15679, -16069, -16305,
    -16384, -16305, -16069, -15679, -15137, -14449, -13623, -12665,
    -11585, -10394, -9102, -7723, -6270, -4756, -3196, -1606,
];

/// A check.
#[derive(Clone, Copy, Debug, PartialEq, Eq, Structural)]
pub enum Check {
    /// `ADD #imm` accumulates.
    CpuAddImm,
    /// `ADD` and `SUB` of registers.
    CpuSubReg,
    /// `MUL.L` reaches a register through MACL.
    CpuMullMacl,
    /// A delay slot runs, and what the branch skips does not.
    BranchDelaySlot,
    /// Low work RAM holds what is stored.
    MemRoundtripLow,
    /// High work RAM holds what is stored.
    MemRoundtripHigh,
    /// The divider of the CPU divides.
    DivuDivide,
    /// The free-running timer of the CPU advances.
    TimerFrcAdvances,
    /// `OR`, `XOR` and `AND`.
    CpuLogicOps,
    /// Shifts by one bit.
    CpuShiftOps,
    /// The SCU copies.
    ScuDmaCopy,
    /// The DMA controller of the CPU copies.
    DmacTransfer,
    /// `MAC.L` multiplies and accumulates.
    CpuMacL,
    /// A comparison and a conditional branch.
    CpuCmpBranch,
    /// The background engine shows its back screen.
    Vdp2BackScreen,
    /// A voice makes a tone.
    ScspTone,
    /// The sound CPU runs a program.
    M68kExec,
    /// The DSP of the SCU runs a program.
    ScuDspExec,
    /// The sprite engine fills a polygon.
    Vdp1Polygon,
    /// A machine goes on from a save state as from where it was taken.
    SavestateRoundtrip,
    /// A line of the cache is stale until it is purged.
    CachePurgeCoherency,
    /// The SCU copies to a cache-through address.
    ScuDmaAliasFold,
}

/// The result of a check.
#[derive(Clone, Debug)]
pub struct DiagOutcome {
    pub name: &'static str,
    pub category: &'static str,
    pub passed: bool,
    /// What was found, for a reader.
    pub detail: String,
}

impl DiagOutcome {
    /// What the result says.
    pub open spec fn says(self, name: Seq<char>, category: Seq<char>, v: (bool, Seq<char>)) -> bool {
        self.name@ == name && self.category@ == category && self.passed == v.0 && self.detail@
            == v.1
    }
}

/// A write by way of the bus, of 32 bits if `wide`, else of 16.
#[derive(Clone, Copy, Debug, PartialEq, Eq, Structural)]
pub struct Poke {
    pub addr: u32,
    pub val: u32,
    pub wide: bool,
}

/// For how long a machine runs.
#[derive(Clone, Copy, Debug, PartialEq, Eq, Structural)]
pub enum Span {
    Cycles(u64),
    Frames(u32),
}

/// What a run left behind.
#[derive(Debug)]
pub struct Finished {
    pub bus: SaturnBus<Disc>,
    /// The audio of all frames.
    pub audio: Vec<i16>,
    /// The last frame, four bytes per pixel.
    pub frame: Vec<u8>,
    pub width: usize,
    pub height: usize,
    /// What the sprite engine drew at [`INSIDE_DOT`] and [`CORNER_DOT`].
    pub inside: u16,
    pub corner: u16,
    /// Save states of the machine and of one that was loaded from it, after both
    /// ran on; or why the load was refused.
    pub snapshots: Result<(Vec<u8>, Vec<u8>), String>,
}

// ---- what checks do ---------------------------------------------------------------

/// A write of 16 bits.
#[verifier::allow_in_spec]
pub fn word(addr: u32, val: u16) -> Poke
    returns
        (Poke { addr, val: val as u32, wide: false }),
{
    Poke { addr, val: val as u32, wide: false }
}

/// A write of 32 bits.
#[verifier::allow_in_spec]
pub fn long(addr: u32, val: u32) -> Poke
    returns
        (Poke { addr, val, wide: true }),
{
    Poke { addr, val, wide: true }
}

/// Sound RAM with words put at their addresses.
pub open spec fn sown(ram: Seq<u8>, words: Seq<(u32, u16)>) -> Seq<u8>
    decreases words.len(),
{
    if words.len() == 0 {
        ram
    } else {
        put16(sown(ram, words.drop_last()), words.last().0, words.last().1)
    }
}

impl Machine {
    /// The machine after a write.
    #[verifier::opaque]
    pub open spec fn poked(self, p: Poke) -> Machine {
        if p.wide {
            self.watched(p.addr, p.val).written32(p.addr, p.val).done(
                p.addr,
                4,
                true,
                AccessKind::Data,
                0,
            )
        } else {
            self.watched(p.addr, p.val as u16 as u32).written16(p.addr, p.val as u16).done(
                p.addr,
                2,
                true,
                AccessKind::Data,
                0,
            )
        }
    }

    /// The machine after writes in turn.
    pub open spec fn poked_all(self, ps: Seq<Poke>) -> Machine
        decreases ps.len(),
    {
        if ps.len() == 0 {
            self
        } else {
            self.poked_all(ps.drop_last()).poked(ps.last())
        }
    }

    /// The 32 bits at an address of the low work RAM.
    pub open spec fn low_at(self, addr: u32) -> u32 {
        folded32(self.low, offset(addr, LOW_WRAM_BASE))
    }

    /// The 32 bits at an address of the high work RAM.
    pub open spec fn high_at(self, addr: u32) -> u32 {
        folded32(self.high, offset(addr, HIGH_WRAM_BASE))
    }
}

/// The loudest of some samples.
pub open spec fn peak(audio: Seq<i16>) -> int
    decreases audio.len(),
{
    if audio.len() == 0 {
        0
    } else {
        let x = audio.last() as int;
        let a = if x < 0 {
            -x
        } else {
            x
        };
        let p = peak(audio.drop_last());
        if a > p {
            a
        } else {
            p
        }
    }
}

/// The verdict on a value.
pub open spec fn compared(got: u32, want: u32) -> (bool, Seq<char>) {
    (got == want, "got 0x"@ + hex(got as nat, 8) + ", want 0x"@ + hex(want as nat, 8))
}

/// The verdict on two readings of a counter.
pub open spec fn advanced(first: u32, second: u32) -> (bool, Seq<char>) {
    (second > first, "advanced "@ + decimal(first as nat) + " -> "@ + decimal(second as nat))
}

/// Four bytes in hexadecimal, as a list.
pub open spec fn byte_list(b: Seq<u8>) -> Seq<char> {
    "["@ + hex(b[0] as nat, 2) + ", "@ + hex(b[1] as nat, 2) + ", "@ + hex(b[2] as nat, 2) + ", "@
        + hex(b[3] as nat, 2) + "]"@
}

impl Finished {
    /// The place of the middle pixel of the frame.
    pub open spec fn middle(self) -> int {
        ((self.height as int / 2) * self.width + self.width as int / 2) * 4
    }

    pub open spec fn wf(self, check: Check) -> bool {
        &&& self.bus@.wf()
        &&& check is Vdp2BackScreen ==> self.width > 0 && self.height > 0 && self.width
            * self.height * 4 <= self.frame@.len()
    }
}

impl Check {
    /// All checks, in order.
    pub open spec fn all() -> Seq<Check> {
        seq![
            Check::CpuAddImm,
            Check::CpuSubReg,
            Check::CpuMullMacl,
            Check::BranchDelaySlot,
            Check::MemRoundtripLow,
            Check::MemRoundtripHigh,
            Check::DivuDivide,
            Check::TimerFrcAdvances,
            Check::CpuLogicOps,
            Check::CpuShiftOps,
            Check::ScuDmaCopy,
            Check::DmacTransfer,
            Check::CpuMacL,
            Check::CpuCmpBranch,
            Check::Vdp2BackScreen,
            Check::ScspTone,
            Check::M68kExec,
            Check::ScuDspExec,
            Check::Vdp1Polygon,
            Check::SavestateRoundtrip,
            Check::CachePurgeCoherency,
            Check::ScuDmaAliasFold,
        ]
    }

    pub open spec fn label(self) -> Seq<char> {
        match self {
            Check::CpuAddImm => "cpu_add_imm"@,
            Check::CpuSubReg => "cpu_sub_reg"@,
            Check::CpuMullMacl => "cpu_mull_macl"@,
            Check::BranchDelaySlot => "branch_delay_slot"@,
            Check::MemRoundtripLow => "mem_roundtrip_low"@,
            Check::MemRoundtripHigh => "mem_roundtrip_high"@,
            Check::DivuDivide => "divu_divide"@,
            Check::TimerFrcAdvances => "timer_frc_advances"@,
            Check::CpuLogicOps => "cpu_logic_ops"@,
            Check::CpuShiftOps => "cpu_shift_ops"@,
            Check::ScuDmaCopy => "scu_dma_copy"@,
            Check::DmacTransfer => "dmac_transfer"@,
            Check::CpuMacL => "cpu_mac_l"@,
            Check::CpuCmpBranch => "cpu_cmp_branch"@,
            Check::Vdp2BackScreen => "vdp2_back_screen"@,
            Check::ScspTone => "scsp_tone"@,
            Check::M68kExec => "m68k_exec"@,
            Check::ScuDspExec => "scu_dsp_exec"@,
            Check::Vdp1Polygon => "vdp1_polygon"@,
            Check::SavestateRoundtrip => "savestate_roundtrip"@,
            Check::CachePurgeCoherency => "cache_purge_coherency"@,
            Check::ScuDmaAliasFold => "scu_dma_alias_fold"@,
        }
    }

    pub open spec fn kind(self) -> Seq<char> {
        match self {
            Check::CpuAddImm => "cpu"@,
            Check::CpuSubReg => "cpu"@,
            Check::CpuMullMacl => "cpu"@,
            Check::BranchDelaySlot => "branch"@,
            Check::MemRoundtripLow => "memory"@,
            Check::MemRoundtripHigh => "memory"@,
            Check::DivuDivide => "onchip"@,
            Check::TimerFrcAdvances => "onchip"@,
            Check::CpuLogicOps => "cpu"@,
            Check::CpuShiftOps => "cpu"@,
            Check::ScuDmaCopy => "scu"@,
            Check::DmacTransfer => "onchip"@,
            Check::CpuMacL => "cpu"@,
            Check::CpuCmpBranch => "branch"@,
            Check::Vdp2BackScreen => "vdp2"@,
            Check::ScspTone => "scsp"@,
            Check::M68kExec => "m68k"@,
            Check::ScuDspExec => "scu_dsp"@,
            Check::Vdp1Polygon => "vdp1"@,
            Check::SavestateRoundtrip => "savestate"@,
            Check::CachePurgeCoherency => "cache"@,
            Check::ScuDmaAliasFold => "scu"@,
        }
    }

    /// The program that the master CPU runs. The checks of a chip park it.
    pub open spec fn code(self) -> Seq<u16> {
        match self {
            Check::CpuAddImm => cpu_add_imm_code(),
            Check::CpuSubReg => cpu_sub_reg_code(),
            Check::CpuMullMacl => cpu_mull_macl_code(),
            Check::BranchDelaySlot => branch_delay_slot_code(),
            Check::MemRoundtripLow => mem_roundtrip_low_code(),
            Check::MemRoundtripHigh => mem_roundtrip_high_code(),
            Check::DivuDivide => divu_divide_code(),
            Check::TimerFrcAdvances => timer_frc_advances_code(),
            Check::CpuLogicOps => cpu_logic_ops_code(),
            Check::CpuShiftOps => cpu_shift_ops_code(),
            Check::ScuDmaCopy => scu_dma_copy_code(),
            Check::DmacTransfer => dmac_transfer_code(),
            Check::CpuMacL => cpu_mac_l_code(),
            Check::CpuCmpBranch => cpu_cmp_branch_code(),
            Check::CachePurgeCoherency => cache_purge_coherency_code(),
            Check::ScuDmaAliasFold => scu_dma_alias_fold_code(),
            _ => park_code(),
        }
    }

    /// The words that are put into sound RAM: the wave, or a program of the sound
    /// CPU, and its start vectors.
    pub open spec fn sound_words(self) -> Seq<(u32, u16)> {
        match self {
            Check::ScspTone => Seq::new(
                64,
                |i: int| ((TONE_BASE + i * 2) as u32, SINE@[i] as u16),
            ) + seq![
                (0u32, 0u16),
                (2, 0x1000),
                (4, 0),
                (6, 0x0100),
                (0x100, 0x60FE),
            ],
            Check::M68kExec => seq![
                (0u32, 0u16),
                (2, 0x1000),
                (4, 0),
                (6, 0x0100),
                (0x100, 0x21FC),
                (0x102, 0x2A2A),
                (0x104, 0x2A2A),
                (0x106, 0x0800),
                (0x108, 0x60FE),
            ],
            _ => Seq::empty(),
        }
    }

    /// Whether the sound CPU runs.
    pub open spec fn with_sound(self) -> bool {
        self is ScspTone || self is M68kExec
    }

    /// The machine that a check boots.
    pub open spec fn booted(self) -> Machine {
        let m = Machine::power_on(image(self.code()));
        Machine {
            chip: Chip {
                ram: sown(m.chip.ram, self.sound_words()),
                running: self.with_sound() || m.chip.running,
                ..m.chip
            },
            ..m
        }
    }

    /// The writes of a check.
    pub open spec fn pokes(self) -> Seq<Poke> {
        match self {
            Check::Vdp2BackScreen => seq![
                word(0x05F8_0000, 0x8000),
                word(0x05F8_0020, 0),
                word(0x05F8_00AC, 0),
                word(0x05F8_00AE, 0x0100),
            ],
            Check::ScspTone => seq![
                word(0x05B0_0400, 0x000F),
                word(0x05B0_0002, 0x4000),
                word(0x05B0_0004, 0),
                word(0x05B0_0006, 63),
                word(0x05B0_0008, 0x001F),
                word(0x05B0_000C, 0),
                word(0x05B0_0010, 0),
                word(0x05B0_0014, 0),
                word(0x05B0_0016, 0xE000),
                word(0x05B0_0000, 0x1820),
            ],
            Check::ScuDspExec => seq![
                long(0x0020_1000, SENTINEL),
                long(0x05FE_0084, 0x9808_0400),
                long(0x05FE_0084, 0xC000_8001),
                long(0x05FE_0084, 0xF800_0000),
                long(0x05FE_0080, 0x0001_8000),
            ],
            Check::Vdp1Polygon => seq![
                word(0x05C0_0000, 0x0004),
                word(0x05C0_0002, 0x0000),
                word(0x05C0_0004, 0x0080),
                word(0x05C0_0006, 0x001F),
                word(0x05C0_0008, 0x0000),
                word(0x05C0_000A, 0x0000),
                word(0x05C0_000C, 0x000A),
                word(0x05C0_000E, 0x000A),
                word(0x05C0_0010, 0x0014),
                word(0x05C0_0012, 0x000A),
                word(0x05C0_0014, 0x0014),
                word(0x05C0_0016, 0x0014),
                word(0x05C0_0018, 0x000A),
                word(0x05C0_001A, 0x0014),
                word(0x05C0_0020, 0x8000),
                word(0x05D0_0004, 1),
            ],
            Check::SavestateRoundtrip => seq![
                long(LOW_SCRATCH, SENTINEL),
            ],
            _ => Seq::empty(),
        }
    }

    /// Cycles that the machine runs before the writes.
    pub open spec fn lead_of(self) -> u64 {
        if self is SavestateRoundtrip {
            50_000
        } else {
            0
        }
    }

    /// For how long it runs after them.
    pub open spec fn span_of(self) -> Span {
        match self {
            Check::Vdp2BackScreen => Span::Frames(1),
            Check::ScspTone => Span::Frames(8),
            Check::M68kExec => Span::Frames(4),
            Check::ScuDspExec => Span::Cycles(4096),
            Check::Vdp1Polygon => Span::Cycles(0),
            Check::SavestateRoundtrip => Span::Cycles(200_000),
            _ => Span::Cycles(RUN_CYCLES),
        }
    }

    /// The verdict on what a run left behind, and what it is based on.
    pub open spec fn verdict(self, f: Finished) -> (bool, Seq<char>) {
        let m = f.bus@;
        match self {
            Check::CpuLogicOps | Check::CpuShiftOps => compared(m.low_at(LOW_SCRATCH), 0x2A),
            Check::MemRoundtripLow => compared(m.low_at(0x0020_0104), SENTINEL),
            Check::MemRoundtripHigh => compared(m.high_at(HIGH_SCRATCH), SENTINEL),
            Check::TimerFrcAdvances => advanced(m.low_at(LOW_SCRATCH), m.low_at(0x0020_0104)),
            Check::ScuDmaCopy | Check::ScuDmaAliasFold | Check::DmacTransfer => compared(
                m.low_at(0x0020_0300),
                SENTINEL,
            ),
            Check::Vdp2BackScreen => {
                let got = f.frame@.subrange(f.middle(), f.middle() + 4);
                let want = seq![0u8, 0xFF, 0, 0xFF];
                (
                    got == want,
                    "centre pixel "@ + byte_list(got) + ", want [00, FF, 00, FF]"@,
                )
            },
            Check::ScspTone => (
                peak(f.audio@) >= TONE_PEAK,
                "peak "@ + decimal(peak(f.audio@) as nat) + ", want >= 4096"@,
            ),
            Check::M68kExec => compared(folded32(m.chip.ram, 0x800), SENTINEL),
            Check::ScuDspExec => (
                m.scu.dsp.data[0][0] == SENTINEL && !m.scu.dsp.regs.flags.running,
                "data_ram[0][0]=0x"@ + hex(m.scu.dsp.data[0][0] as nat, 8)
                    + ", want 0x2A2A2A2A"@,
            ),
            Check::Vdp1Polygon => (
                f.inside != 0 && f.corner == 0,
                "interior=0x"@ + hex(f.inside as nat, 4) + " (want !=0), corner=0x"@ + hex(
                    f.corner as nat,
                    4,
                ) + " (want 0)"@,
            ),
            Check::SavestateRoundtrip => match f.snapshots {
                Err(e) => (false, "load_state rejected the snapshot: "@ + e@),
                Ok((a, b)) => (
                    a@ == b@,
                    "post-run snapshots "@ + (if a@ == b@ {
                        "identical"@
                    } else {
                        "DIVERGED"@
                    }) + " ("@ + decimal(a@.len()) + " vs "@ + decimal(b@.len()) + " bytes)"@,
                ),
            },
            Check::CachePurgeCoherency => {
                let before = m.low_at(LOW_SCRATCH);
                let after = m.low_at(0x0020_0104);
                (
                    before == SENTINEL && after == 0x55,
                    "stale-hit 0x"@ + hex(before as nat, 8) + " (want 0x2A2A2A2A), post-purge 0x"@
                        + hex(after as nat, 8) + " (want 0x00000055)"@,
                )
            },
            _ => compared(m.low_at(LOW_SCRATCH), 42),
        }
    }
}

// ---- running them -----------------------------------------------------------------

/// The 32 bits at an address of the low work RAM.
pub fn read_low(bus: &SaturnBus<Disc>, addr: u32) -> (r: u32)
    requires
        bus@.wf(),
        addr >= LOW_WRAM_BASE,
    ensures
        r == bus@.low_at(addr),
{
    proof {
        bus_state(*bus);
    }
    bus.low_wram.read32(addr - LOW_WRAM_BASE)
}

/// The 32 bits at an address of the high work RAM.
pub fn read_high(bus: &SaturnBus<Disc>, addr: u32) -> (r: u32)
    requires
        bus@.wf(),
        addr >= HIGH_WRAM_BASE,
    ensures
        r == bus@.high_at(addr),
{
    proof {
        bus_state(*bus);
    }
    bus.high_wram.read32(addr - HIGH_WRAM_BASE)
}

/// The verdict on a value.
pub fn verdict(got: u32, want: u32) -> (r: (bool, String))
    ensures
        (r.0, r.1@) == compared(got, want),
{
    let mut m: String = String::from_str("got 0x");
    push_hex(&mut m, got, 8);
    m.append(", want 0x");
    push_hex(&mut m, want, 8);
    (got == want, m)
}

/// The verdict on two readings of a counter.
pub fn verdict_advanced(first: u32, second: u32) -> (r: (bool, String))
    ensures
        (r.0, r.1@) == advanced(first, second),
{
    let mut m: String = String::from_str("advanced ");
    push_decimal(&mut m, first as u128);
    m.append(" -> ");
    push_decimal(&mut m, second as u128);
    (second > first, m)
}

/// The loudest of some samples.
pub fn peak_of(audio: &Vec<i16>) -> (r: u16)
    ensures
        r == peak(audio@),
{
    let mut p: u16 = 0;
    let mut i: usize = 0;
    while i < audio.len()
        invariant
            i <= audio@.len(),
            p == peak(audio@.take(i as int)),
        decreases audio@.len() - i,
    {
        let x: i32 = audio[i] as i32;
        let a: u16 = if x < 0 {
            (-x) as u16
        } else {
            x as u16
        };
        proof {
            assert(audio@.take(i + 1).drop_last() =~= audio@.take(i as int));
        }
        if a > p {
            p = a;
        }
        i += 1;
    }
    proof {
        assert(audio@.take(i as int) =~= audio@);
    }
    p
}

fn same_bytes(a: &Vec<u8>, b: &Vec<u8>) -> (r: bool)
    ensures
        r == (a@ == b@),
{
    if a.len() != b.len() {
        return false;
    }
    let mut i: usize = 0;
    while i < a.len()
        invariant
            i <= a@.len(),
            a@.len() == b@.len(),
            a@.take(i as int) =~= b@.take(i as int),
        decreases a@.len() - i,
    {
        if a[i] != b[i] {
            return false;
        }
        i += 1;
    }
    assert(a@ =~= a@.take(i as int));
    assert(b@ =~= b@.take(i as int));
    true
}

fn push_byte_list(m: &mut String, b: [u8; 4])
    ensures
        final(m)@ == old(m)@ + byte_list(b@),
{
    m.append("[");
    push_hex(m, b[0] as u32, 2);
    m.append(", ");
    push_hex(m, b[1] as u32, 2);
    m.append(", ");
    push_hex(m, b[2] as u32, 2);
    m.append(", ");
    push_hex(m, b[3] as u32, 2);
    m.append("]");
    assert(m@ =~= old(m)@ + byte_list(b@));
}

impl Finished {
    /// A run of which only the machine matters.
    pub fn new(bus: SaturnBus<Disc>) -> (r: Finished)
        ensures
            r.bus == bus,
            r.audio@.len() == 0,
            r.frame@.len() == 0,
            r.width == 0,
            r.height == 0,
            r.inside == 0,
            r.corner == 0,
            r.snapshots matches Ok((a, b)) && a@.len() == 0 && b@.len() == 0,
    {
        Finished {
            bus,
            audio: Vec::new(),
            frame: Vec::new(),
            width: 0,
            height: 0,
            inside: 0,
            corner: 0,
            snapshots: Ok((Vec::new(), Vec::new())),
        }
    }

    /// The middle pixel of the frame.
    fn middle_pixel(&self) -> (r: [u8; 4])
        requires
            self.wf(Check::Vdp2BackScreen),
        ensures
            r@ == self.frame@.subrange(self.middle(), self.middle() + 4),
    {
        let total: usize = self.frame.len();
        proof {
            let (w, h) = (self.width as int, self.height as int);
            assert(h / 2 <= h - 1 && w / 2 <= w - 1);
            assert((h / 2) * w <= (h - 1) * w) by (nonlinear_arith)
                requires
                    h / 2 <= h - 1,
                    w > 0,
            ;
            assert((h - 1) * w == h * w - w) by (nonlinear_arith);
            assert(h * w == w * h) by (nonlinear_arith);
            assert(h * w * 4 <= total);
            assert(0 <= (h / 2) * w) by (nonlinear_arith)
                requires
                    h > 0,
                    w > 0,
            ;
        }
        let px: usize = ((self.height / 2) * self.width + self.width / 2) * 4;
        let r: [u8; 4] = [
            self.frame[px],
            self.frame[px + 1],
            self.frame[px + 2],
            self.frame[px + 3],
        ];
        assert(r@ =~= self.frame@.subrange(self.middle(), self.middle() + 4));
        r
    }
}

/// Does a write.
fn poke_one(bus: &mut SaturnBus<Disc>, p: Poke)
    requires
        old(bus)@.wf(),
    ensures
        final(bus)@ == old(bus)@.poked(p),
        final(bus)@.wf(),
{
    proof {
        reveal(Machine::poked);
    }
    if p.wide {
        let _ = bus.write32(p.addr, p.val, AccessKind::Data, 0);
    } else {
        let _ = bus.write16(p.addr, p.val as u16, AccessKind::Data, 0);
    }
}

impl Check {
    /// All checks, in order.
    pub fn registry() -> (r: Vec<Check>)
        ensures
            r@ == Check::all(),
    {
        let r: Vec<Check> = vec![
            Check::CpuAddImm,
            Check::CpuSubReg,
            Check::CpuMullMacl,
            Check::BranchDelaySlot,
            Check::MemRoundtripLow,
            Check::MemRoundtripHigh,
            Check::DivuDivide,
            Check::TimerFrcAdvances,
            Check::CpuLogicOps,
            Check::CpuShiftOps,
            Check::ScuDmaCopy,
            Check::DmacTransfer,
            Check::CpuMacL,
            Check::CpuCmpBranch,
            Check::Vdp2BackScreen,
            Check::ScspTone,
            Check::M68kExec,
            Check::ScuDspExec,
            Check::Vdp1Polygon,
            Check::SavestateRoundtrip,
            Check::CachePurgeCoherency,
            Check::ScuDmaAliasFold,
        ];
        assert(r@ =~= Check::all());
        r
    }

    pub fn name(self) -> (r: &'static str)
        ensures
            r@ == self.label(),
    {
        match self {
            Check::CpuAddImm => "cpu_add_imm",
            Check::CpuSubReg => "cpu_sub_reg",
            Check::CpuMullMacl => "cpu_mull_macl",
            Check::BranchDelaySlot => "branch_delay_slot",
            Check::MemRoundtripLow => "mem_roundtrip_low",
            Check::MemRoundtripHigh => "mem_roundtrip_high",
            Check::DivuDivide => "divu_divide",
            Check::TimerFrcAdvances => "timer_frc_advances",
            Check::CpuLogicOps => "cpu_logic_ops",
            Check::CpuShiftOps => "cpu_shift_ops",
            Check::ScuDmaCopy => "scu_dma_copy",
            Check::DmacTransfer => "dmac_transfer",
            Check::CpuMacL => "cpu_mac_l",
            Check::CpuCmpBranch => "cpu_cmp_branch",
            Check::Vdp2BackScreen => "vdp2_back_screen",
            Check::ScspTone => "scsp_tone",
            Check::M68kExec => "m68k_exec",
            Check::ScuDspExec => "scu_dsp_exec",
            Check::Vdp1Polygon => "vdp1_polygon",
            Check::SavestateRoundtrip => "savestate_roundtrip",
            Check::CachePurgeCoherency => "cache_purge_coherency",
            Check::ScuDmaAliasFold => "scu_dma_alias_fold",
        }
    }

    pub fn category(self) -> (r: &'static str)
        ensures
            r@ == self.kind(),
    {
        match self {
            Check::CpuAddImm => "cpu",
            Check::CpuSubReg => "cpu",
            Check::CpuMullMacl => "cpu",
            Check::BranchDelaySlot => "branch",
            Check::MemRoundtripLow => "memory",
            Check::MemRoundtripHigh => "memory",
            Check::DivuDivide => "onchip",
            Check::TimerFrcAdvances => "onchip",
            Check::CpuLogicOps => "cpu",
            Check::CpuShiftOps => "cpu",
            Check::ScuDmaCopy => "scu",
            Check::DmacTransfer => "onchip",
            Check::CpuMacL => "cpu",
            Check::CpuCmpBranch => "branch",
            Check::Vdp2BackScreen => "vdp2",
            Check::ScspTone => "scsp",
            Check::M68kExec => "m68k",
            Check::ScuDspExec => "scu_dsp",
            Check::Vdp1Polygon => "vdp1",
            Check::SavestateRoundtrip => "savestate",
            Check::CachePurgeCoherency => "cache",
            Check::ScuDmaAliasFold => "scu",
        }
    }

    /// The program that the master CPU runs.
    pub fn program(self) -> (r: Vec<u16>)
        ensures
            r@ == self.code(),
    {
        match self {
            Check::CpuAddImm => cpu_add_imm(),
            Check::CpuSubReg => cpu_sub_reg(),
            Check::CpuMullMacl => cpu_mull_macl(),
            Check::BranchDelaySlot => branch_delay_slot(),
            Check::MemRoundtripLow => mem_roundtrip_low(),
            Check::MemRoundtripHigh => mem_roundtrip_high(),
            Check::DivuDivide => divu_divide(),
            Check::TimerFrcAdvances => timer_frc_advances(),
            Check::CpuLogicOps => cpu_logic_ops(),
            Check::CpuShiftOps => cpu_shift_ops(),
            Check::ScuDmaCopy => scu_dma_copy(),
            Check::DmacTransfer => dmac_transfer(),
            Check::CpuMacL => cpu_mac_l(),
            Check::CpuCmpBranch => cpu_cmp_branch(),
            Check::CachePurgeCoherency => cache_purge_coherency(),
            Check::ScuDmaAliasFold => scu_dma_alias_fold(),
            _ => park(),
        }
    }

    fn sound_list(self) -> (r: Vec<(u32, u16)>)
        ensures
            r@ == self.sound_words(),
    {
        match self {
            Check::ScspTone => {
                let mut r: Vec<(u32, u16)> = Vec::new();
                let mut i: u32 = 0;
                while i < 64
                    invariant
                        i <= 64,
                        r@ =~= Seq::new(
                            i as nat,
                            |k: int| ((TONE_BASE + k * 2) as u32, SINE@[k] as u16),
                        ),
                    decreases 64 - i,
                {
                    r.push((TONE_BASE + i * 2, SINE[i as usize] as u16));
                    i += 1;
                }
                r.push((0, 0));
                r.push((2, 0x1000));
                r.push((4, 0));
                r.push((6, 0x0100));
                r.push((0x100, 0x60FE));
                assert(r@ =~= self.sound_words());
                r
            },
            Check::M68kExec => {
                let r: Vec<(u32, u16)> = vec![
                    (0, 0),
                    (2, 0x1000),
                    (4, 0),
                    (6, 0x0100),
                    (0x100, 0x21FC),
                    (0x102, 0x2A2A),
                    (0x104, 0x2A2A),
                    (0x106, 0x0800),
                    (0x108, 0x60FE),
                ];
                assert(r@ =~= self.sound_words());
                r
            },
            _ => Vec::new(),
        }
    }

    /// Boots a machine for the check.
    pub fn boot(self) -> (r: SaturnBus<Disc>)
        ensures
            r@ == self.booted(),
            r@.wf(),
    {
        let code: Vec<u16> = self.program();
        let mut bus: SaturnBus<Disc> = SaturnBus::new(assemble(code.as_slice()));
        let words: Vec<(u32, u16)> = self.sound_list();
        let ghost m = bus@;
        let ghost first = bus;
        proof {
            reveal(chip_wf);
            bus_state(bus);
        }
        let mut i: usize = 0;
        while i < words.len()
            invariant
                i <= words@.len(),
                bus.scsp@ == (Chip { ram: sown(m.chip.ram, words@.take(i as int)), ..m.chip }),
                m.chip.wf(),
                bus.scsp@.wf(),
                bus == (SaturnBus { scsp: bus.scsp, ..first }),
            decreases words@.len() - i,
        {
            let w: (u32, u16) = words[i];
            bus.scsp.ram.write16(w.0, w.1);
            assert(words@.take(i + 1).drop_last() =~= words@.take(i as int));
            i += 1;
        }
        assert(words@.take(i as int) =~= words@);
        if self.sounds() {
            let _ = bus.scsp.start();
        }
        proof {
            bus_state(first);
            bus_state(bus);
        }
        bus
    }

    /// Whether the sound CPU runs.
    pub fn sounds(self) -> (r: bool)
        ensures
            r == self.with_sound(),
    {
        match self {
            Check::ScspTone => true,
            Check::M68kExec => true,
            _ => false,
        }
    }

    /// The words that are put into the memory of the background engine.
    pub fn vram(self) -> (r: Vec<(u32, u16)>)
        ensures
            r@ == (if self is Vdp2BackScreen {
                seq![(0x200u32, 0x03E0u16)]
            } else {
                Seq::empty()
            }),
    {
        match self {
            Check::Vdp2BackScreen => {
                let r: Vec<(u32, u16)> = vec![(0x200, 0x03E0)];
                assert(r@ =~= seq![(0x200u32, 0x03E0u16)]);
                r
            },
            _ => Vec::new(),
        }
    }

    /// The writes of the check. Those to the graphics chips are the host's to pass
    /// on.
    pub fn writes(self) -> (r: Vec<Poke>)
        ensures
            r@ == self.pokes(),
    {
        match self {
            Check::Vdp2BackScreen => {
                let r: Vec<Poke> = vec![
                    word(0x05F8_0000, 0x8000),
                    word(0x05F8_0020, 0),
                    word(0x05F8_00AC, 0),
                    word(0x05F8_00AE, 0x0100),
                ];
                assert(r@ =~= self.pokes());
                r
            },
            Check::ScspTone => {
                let r: Vec<Poke> = vec![
                    word(0x05B0_0400, 0x000F),
                    word(0x05B0_0002, 0x4000),
                    word(0x05B0_0004, 0),
                    word(0x05B0_0006, 63),
                    word(0x05B0_0008, 0x001F),
                    word(0x05B0_000C, 0),
                    word(0x05B0_0010, 0),
                    word(0x05B0_0014, 0),
                    word(0x05B0_0016, 0xE000),
                    word(0x05B0_0000, 0x1820),
                ];
                assert(r@ =~= self.pokes());
                r
            },
            Check::ScuDspExec => {
                let r: Vec<Poke> = vec![
                    long(0x0020_1000, SENTINEL),
                    long(0x05FE_0084, 0x9808_0400),
                    long(0x05FE_0084, 0xC000_8001),
                    long(0x05FE_0084, 0xF800_0000),
                    long(0x05FE_0080, 0x0001_8000),
                ];
                assert(r@ =~= self.pokes());
                r
            },
            Check::Vdp1Polygon => {
                let r: Vec<Poke> = vec![
                    word(0x05C0_0000, 0x0004),
                    word(0x05C0_0002, 0x0000),
                    word(0x05C0_0004, 0x0080),
                    word(0x05C0_0006, 0x001F),
                    word(0x05C0_0008, 0x0000),
                    word(0x05C0_000A, 0x0000),
                    word(0x05C0_000C, 0x000A),
                    word(0x05C0_000E, 0x000A),
                    word(0x05C0_0010, 0x0014),
                    word(0x05C0_0012, 0x000A),
                    word(0x05C0_0014, 0x0014),
                    word(0x05C0_0016, 0x0014),
                    word(0x05C0_0018, 0x000A),
                    word(0x05C0_001A, 0x0014),
                    word(0x05C0_0020, 0x8000),
                    word(0x05D0_0004, 1),
                ];
                assert(r@ =~= self.pokes());
                r
            },
            Check::SavestateRoundtrip => {
                let r: Vec<Poke> = vec![
                    long(LOW_SCRATCH, SENTINEL),
                ];
                assert(r@ =~= self.pokes());
                r
            },
            _ => Vec::new(),
        }
    }

    /// Does the writes of the check.
    pub fn poke(self, bus: &mut SaturnBus<Disc>)
        requires
            old(bus)@.wf(),
        ensures
            final(bus)@ == old(bus)@.poked_all(self.pokes()),
            final(bus)@.wf(),
    {
        let list: Vec<Poke> = self.writes();
        let mut i: usize = 0;
        while i < list.len()
            invariant
                i <= list@.len(),
                bus@.wf(),
                bus@ == old(bus)@.poked_all(list@.take(i as int)),
            decreases list@.len() - i,
        {
            assert(list@.take(i + 1).drop_last() =~= list@.take(i as int));
            poke_one(bus, list[i]);
            i += 1;
        }
        assert(list@.take(i as int) =~= list@);
    }

    /// Cycles that the machine runs before the writes.
    pub fn lead(self) -> (r: u64)
        ensures
            r == self.lead_of(),
    {
        match self {
            Check::SavestateRoundtrip => 50_000,
            _ => 0,
        }
    }

    /// For how long it runs after them.
    pub fn span(self) -> (r: Span)
        ensures
            r == self.span_of(),
    {
        match self {
            Check::Vdp2BackScreen => Span::Frames(1),
            Check::ScspTone => Span::Frames(8),
            Check::M68kExec => Span::Frames(4),
            Check::ScuDspExec => Span::Cycles(4096),
            Check::Vdp1Polygon => Span::Cycles(0),
            Check::SavestateRoundtrip => Span::Cycles(200_000),
            _ => Span::Cycles(RUN_CYCLES),
        }
    }

    fn judge_chip(self, f: &Finished) -> (r: (bool, String))
        requires
            f.wf(self),
            self is Vdp2BackScreen || self is ScspTone || self is M68kExec || self is ScuDspExec || self is Vdp1Polygon || self is SavestateRoundtrip || self is CachePurgeCoherency,
        ensures
            (r.0, r.1@) == self.verdict(*f),
    {
        proof {
            bus_state(f.bus);
            reveal(chip_wf);
        }
        match self {
            Check::Vdp2BackScreen => {
                let got: [u8; 4] = f.middle_pixel();
                let mut m: String = String::from_str("centre pixel ");
                push_byte_list(&mut m, got);
                m.append(", want [00, FF, 00, FF]");
                let same: bool = got[0] == 0 && got[1] == 0xFF && got[2] == 0 && got[3] == 0xFF;
                proof {
                    let want = seq![0u8, 0xFF, 0, 0xFF];
                    if same {
                        assert(got@ =~= want);
                    } else {
                        assert(got@ != want) by {
                            assert(want[0] == 0 && want[1] == 0xFF && want[2] == 0 && want[3]
                                == 0xFF);
                        }
                    }
                }
                (same, m)
            },
            Check::ScspTone => {
                let p: u16 = peak_of(&f.audio);
                let mut m: String = String::from_str("peak ");
                push_decimal(&mut m, p as u128);
                m.append(", want >= 4096");
                (p >= TONE_PEAK, m)
            },
            Check::M68kExec => verdict(f.bus.scsp.ram.read32(0x800), SENTINEL),
            Check::ScuDspExec => {
                let got: u32 = f.bus.scu.dsp.data_ram[0][0];
                let mut m: String = String::from_str("data_ram[0][0]=0x");
                push_hex(&mut m, got, 8);
                m.append(", want 0x2A2A2A2A");
                (got == SENTINEL && !f.bus.scu.dsp.regs.flags.running, m)
            },
            Check::Vdp1Polygon => {
                let mut m: String = String::from_str("interior=0x");
                push_hex(&mut m, f.inside as u32, 4);
                m.append(" (want !=0), corner=0x");
                push_hex(&mut m, f.corner as u32, 4);
                m.append(" (want 0)");
                (f.inside != 0 && f.corner == 0, m)
            },
            Check::SavestateRoundtrip => match &f.snapshots {
                Err(e) => {
                    let mut m: String = String::from_str("load_state rejected the snapshot: ");
                    m.append(e.as_str());
                    (false, m)
                },
                Ok(pair) => {
                    let same: bool = same_bytes(&pair.0, &pair.1);
                    let mut m: String = String::from_str("post-run snapshots ");
                    m.append(
                        if same {
                            "identical"
                        } else {
                            "DIVERGED"
                        },
                    );
                    m.append(" (");
                    push_decimal(&mut m, pair.0.len() as u128);
                    m.append(" vs ");
                    push_decimal(&mut m, pair.1.len() as u128);
                    m.append(" bytes)");
                    (same, m)
                },
            },
            _ => {
                let before: u32 = read_low(&f.bus, LOW_SCRATCH);
                let after: u32 = read_low(&f.bus, LOW_SCRATCH + 4);
                let mut m: String = String::from_str("stale-hit 0x");
                push_hex(&mut m, before, 8);
                m.append(" (want 0x2A2A2A2A), post-purge 0x");
                push_hex(&mut m, after, 8);
                m.append(" (want 0x00000055)");
                (before == SENTINEL && after == 0x55, m)
            },
        }
    }

    fn judge_value(self, f: &Finished) -> (r: (bool, String))
        requires
            f.wf(self),
        ensures
            (r.0, r.1@) == self.verdict(*f),
    {
        match self {
            Check::CpuLogicOps | Check::CpuShiftOps => verdict(read_low(&f.bus, LOW_SCRATCH), 0x2A),
            Check::MemRoundtripLow => verdict(read_low(&f.bus, LOW_SCRATCH + 4), SENTINEL),
            Check::MemRoundtripHigh => verdict(read_high(&f.bus, HIGH_SCRATCH), SENTINEL),
            Check::TimerFrcAdvances => verdict_advanced(
                read_low(&f.bus, LOW_SCRATCH),
                read_low(&f.bus, LOW_SCRATCH + 4),
            ),
            Check::ScuDmaCopy | Check::ScuDmaAliasFold | Check::DmacTransfer => verdict(
                read_low(&f.bus, 0x0020_0300),
                SENTINEL,
            ),
            Check::Vdp2BackScreen | Check::ScspTone | Check::M68kExec | Check::ScuDspExec | Check::Vdp1Polygon | Check::SavestateRoundtrip | Check::CachePurgeCoherency => self.judge_chip(f),
            _ => verdict(read_low(&f.bus, LOW_SCRATCH), 42),
        }
    }

    /// Judges what a run left behind.
    pub fn judge(self, f: &Finished) -> (r: DiagOutcome)
        requires
            f.wf(self),
        ensures
            r.says(self.label(), self.kind(), self.verdict(*f)),
    {
        let v: (bool, String) = self.judge_value(f);
        DiagOutcome { name: self.name(), category: self.category(), passed: v.0, detail: v.1 }
    }
}

/// A result is that of a run that the host may have made.
pub open spec fn comes_from_run<F: FnMut(Check) -> Finished>(
    run: F,
    check: Check,
    r: DiagOutcome,
) -> bool {
    exists|f: Finished|
        #![trigger call_ensures(run, (check,), f)]
        call_ensures(run, (check,), f) && r.says(check.label(), check.kind(), check.verdict(f))
}

/// Runs every check, in order: `run` boots the machine of a check, has it run, and
/// hands over what was left behind.
pub fn run_all<F: FnMut(Check) -> Finished>(run: F) -> (r: Vec<DiagOutcome>)
    requires
        forall|c: Check| call_requires(run, (c,)),
        forall|c: Check, f: Finished| #[trigger] call_ensures(run, (c,), f) ==> f.wf(c),
    ensures
        r@.len() == Check::all().len(),
        forall|i: int|
            0 <= i < r@.len() ==> comes_from_run(run, Check::all()[i], #[trigger] r@[i]),
{
    let ghost given = run;
    let mut host = run;
    let list: Vec<Check> = Check::registry();
    let mut out: Vec<DiagOutcome> = Vec::new();
    let mut i: usize = 0;
    while i < list.len()
        invariant
            i <= list@.len(),
            list@ == Check::all(),
            out@.len() == i,
            host == given,
            given == run,
            forall|c: Check| call_requires(given, (c,)),
            forall|c: Check, f: Finished| #[trigger] call_ensures(given, (c,), f) ==> f.wf(c),
            forall|k: int| 0 <= k < i ==> comes_from_run(given, list@[k], #[trigger] out@[k]),
        decreases list@.len() - i,
    {
        let f: Finished = host(list[i]);
        let o: DiagOutcome = list[i].judge(&f);
        assert(comes_from_run(given, list@[i as int], o));
        out.push(o);
        i += 1;
    }
    out
}

// ---- a boot with media ------------------------------------------------------------

/// A frame of a machine that boots.
#[derive(Debug)]
pub struct FrameSeen {
    /// The program counter of the master CPU at its end.
    pub pc: u32,
    /// Four bytes per pixel.
    pub picture: Vec<u8>,
    pub width: usize,
    pub height: usize,
}

impl FrameSeen {
    pub open spec fn wf(self) -> bool {
        self.width * self.height * 4 <= self.picture@.len()
    }

    /// The master CPU runs in high work RAM: a loaded program was started.
    pub open spec fn in_high_ram(self) -> bool {
        0x0600_0000 <= self.pc <= 0x060F_FFFF
    }

    /// Pixels that are not black.
    pub open spec fn lit(self) -> int {
        lit_pixels(self.picture@, self.width * self.height)
    }
}

/// How many of the first `n` pixels are not black.
pub open spec fn lit_pixels(picture: Seq<u8>, n: int) -> int
    decreases n,
{
    if n <= 0 {
        0
    } else {
        lit_pixels(picture, n - 1) + if picture[n * 4 - 4] | picture[n * 4 - 3] | picture[n * 4
            - 2] != 0 {
            1int
        } else {
            0
        }
    }
}

/// The brightest of some frames.
pub open spec fn most_lit(seen: Seq<FrameSeen>) -> int
    decreases seen.len(),
{
    if seen.len() == 0 {
        0
    } else {
        let p = most_lit(seen.drop_last());
        if seen.last().lit() > p {
            seen.last().lit()
        } else {
            p
        }
    }
}

/// The frames that a boot is given: with a disc, until the program of the disc
/// runs, or 400; without, 180.
pub open spec fn frames_of_boot(disc: bool, seen: Seq<FrameSeen>) -> bool {
    if disc {
        &&& 1 <= seen.len() <= 400
        &&& forall|i: int| 0 <= i < seen.len() - 1 ==> !(#[trigger] seen[i]).in_high_ram()
        &&& seen.len() < 400 ==> seen.last().in_high_ram()
    } else {
        seen.len() == 180
    }
}

/// What is reported of a boot: without a disc, whether it made a picture; with one,
/// whether its contents are in order, and whether its program came to run.
pub open spec fn reported(r: Seq<DiagOutcome>, toc: Option<(u8, u8, u32)>, lit: int, pc: u32, ran: bool) -> bool {
    match toc {
        None => r.len() == 1 && r[0].says(
            "bios_video"@,
            "system"@,
            (lit > 64, decimal(lit as nat) + " non-black px (peak)"@),
        ),
        Some(t) => r.len() == 2 && r[0].says(
            "disc_toc"@,
            "disc"@,
            (
                t.0 >= 1 && t.1 >= t.0 && t.2 > FAD_OFFSET,
                "tracks "@ + decimal(t.0 as nat) + ".."@ + decimal(t.1 as nat)
                    + ", lead-out FAD "@ + decimal(t.2 as nat),
            ),
        ) && r[1].says(
            "disc_boots"@,
            "disc"@,
            (
                ran,
                "master PC=0x"@ + hex(pc as nat, 8) + " ("@ + (if ran {
                    "reached HWRAM"@
                } else {
                    "never reached HWRAM"@
                }) + ")"@,
            ),
        ),
    }
}

impl FrameSeen {
    /// Whether the master CPU runs in high work RAM.
    pub fn reached(&self) -> (r: bool)
        ensures
            r == self.in_high_ram(),
    {
        0x0600_0000 <= self.pc && self.pc <= 0x060F_FFFF
    }

    /// Pixels that are not black.
    pub fn count_lit(&self) -> (r: usize)
        requires
            self.wf(),
        ensures
            r == self.lit(),
    {
        let total: usize = self.picture.len();
        proof {
            assert(0 <= self.width * self.height) by (nonlinear_arith)
                requires
                    self.width >= 0,
                    self.height >= 0,
            ;
        }
        let n: usize = self.width * self.height;
        let mut c: usize = 0;
        let mut i: usize = 0;
        while i < n
            invariant
                i <= n,
                n * 4 <= total,
                total == self.picture@.len(),
                c <= i,
                c == lit_pixels(self.picture@, i as int),
            decreases n - i,
        {
            if self.picture[i * 4] | self.picture[i * 4 + 1] | self.picture[i * 4 + 2] != 0 {
                c += 1;
            }
            i += 1;
        }
        c
    }
}

/// Reports on a boot: the disc's first track, last track and lead-out, if there is
/// a disc; the most pixels lit; where the master CPU ended up, and whether it came to
/// run the program of the disc.
pub fn report(toc: Option<(u8, u8, u32)>, lit: usize, pc: u32, ran: bool) -> (r: Vec<DiagOutcome>)
    ensures
        reported(r@, toc, lit as int, pc, ran),
{
    let mut out: Vec<DiagOutcome> = Vec::new();
    match toc {
        None => {
            let mut m: String = String::from_str("");
            proof {
                reveal_strlit("");
                assert(m@ =~= Seq::empty());
            }
            push_decimal(&mut m, lit as u128);
            m.append(" non-black px (peak)");
            assert(m@ =~= decimal(lit as nat) + " non-black px (peak)"@);
            out.push(
                DiagOutcome {
                    name: "bios_video",
                    category: "system",
                    passed: lit > 64,
                    detail: m,
                },
            );
        },
        Some(t) => {
            let mut m: String = String::from_str("tracks ");
            push_decimal(&mut m, t.0 as u128);
            m.append("..");
            push_decimal(&mut m, t.1 as u128);
            m.append(", lead-out FAD ");
            push_decimal(&mut m, t.2 as u128);
            out.push(
                DiagOutcome {
                    name: "disc_toc",
                    category: "disc",
                    passed: t.0 >= 1 && t.1 >= t.0 && t.2 > FAD_OFFSET,
                    detail: m,
                },
            );
            let mut m: String = String::from_str("master PC=0x");
            push_hex(&mut m, pc, 8);
            m.append(" (");
            m.append(
                if ran {
                    "reached HWRAM"
                } else {
                    "never reached HWRAM"
                },
            );
            m.append(")");
            out.push(
                DiagOutcome { name: "disc_boots", category: "disc", passed: ran, detail: m },
            );
        },
    }
    out
}

/// The first track, the last track and the lead-out of a disc.
pub open spec fn contents(disc: Option<&Disc>) -> Option<(u8, u8, u32)> {
    match disc {
        Some(d) => Some((d.media().first, d.media().last, d.media().lead_out)),
        None => None,
    }
}

/// A boot that is watched frame by frame.
pub struct Boot {
    has_disc: bool,
    /// Frames so far.
    frames: u32,
    /// The most pixels lit in a frame, without a disc.
    lit: usize,
    /// Where the master CPU was at the end of the last frame.
    pc: u32,
    /// Whether the program of the disc came to run.
    ran: bool,
    seen: Ghost<Seq<FrameSeen>>,
}

impl Boot {
    /// Whether the boot is from a disc.
    pub closed spec fn disc(&self) -> bool {
        self.has_disc
    }

    /// The frames so far.
    pub closed spec fn seen(&self) -> Seq<FrameSeen> {
        self.seen@
    }

    /// What is kept is what the frames show, and none came after the last one of the
    /// boot.
    pub closed spec fn wf(&self) -> bool {
        let s = self.seen@;
        &&& self.frames == s.len()
        &&& s.len() <= if self.has_disc {
            400int
        } else {
            180
        }
        &&& s.len() > 0 ==> self.pc == s.last().pc
        &&& !self.has_disc ==> !self.ran && self.lit == most_lit(s)
        &&& self.has_disc ==> self.ran == (s.len() > 0 && s.last().in_high_ram())
        &&& self.has_disc ==> forall|i: int|
            0 <= i < s.len() - 1 ==> !(#[trigger] s[i]).in_high_ram()
    }

    /// A boot, with or without a disc, before its first frame.
    pub fn new(disc: bool) -> (r: Boot)
        ensures
            r.wf(),
            r.disc() == disc,
            r.seen() == Seq::<FrameSeen>::empty(),
    {
        Boot { has_disc: disc, frames: 0, lit: 0, pc: 0, ran: false, seen: Ghost(Seq::empty()) }
    }

    /// Whether the boot has had all its frames.
    pub fn is_over(&self) -> (r: bool)
        requires
            self.wf(),
        ensures
            r == frames_of_boot(self.disc(), self.seen()),
    {
        if self.has_disc {
            self.ran || self.frames == 400
        } else {
            self.frames == 180
        }
    }

    /// Takes the next frame of a boot that is not over; tells whether one more is
    /// wanted.
    pub fn saw(&mut self, f: &FrameSeen) -> (more: bool)
        requires
            old(self).wf(),
            f.wf(),
            !frames_of_boot(old(self).disc(), old(self).seen()),
        ensures
            final(self).wf(),
            final(self).disc() == old(self).disc(),
            final(self).seen() == old(self).seen().push(*f),
            more == !frames_of_boot(final(self).disc(), final(self).seen()),
    {
        proof {
            let s = self.seen@;
            assert(s.push(*f).drop_last() =~= s);
            if self.has_disc && s.len() > 0 {
                assert(!s.last().in_high_ram());
            }
        }
        self.pc = f.pc;
        if self.has_disc {
            self.ran = f.reached();
        } else {
            let c: usize = f.count_lit();
            if c > self.lit {
                self.lit = c;
            }
        }
        self.frames += 1;
        self.seen = Ghost(self.seen@.push(*f));
        !self.is_over()
    }

    /// Reports on a boot that is over, from a disc with these contents if from one.
    pub fn outcome(&self, toc: Option<(u8, u8, u32)>) -> (r: Vec<DiagOutcome>)
        requires
            self.wf(),
            self.disc() == (toc is Some),
            frames_of_boot(toc is Some, self.seen()),
        ensures
            reported(
                r@,
                toc,
                most_lit(self.seen()),
                self.seen().last().pc,
                self.seen().last().in_high_ram(),
            ),
    {
        report(toc, self.lit, self.pc, self.ran)
    }
}

/// Each frame is one that the host may have shown when asked for it by its number.
pub open spec fn frames_from<F: FnMut(u32) -> FrameSeen>(next: F, seen: Seq<FrameSeen>) -> bool {
    forall|i: int| 0 <= i < seen.len() ==> call_ensures(next, (i as u32,), #[trigger] seen[i])
}

/// A boot of those frames, and what is reported of it.
pub open spec fn boot_of<F: FnMut(u32) -> FrameSeen>(
    next: F,
    toc: Option<(u8, u8, u32)>,
    seen: Seq<FrameSeen>,
    r: Seq<DiagOutcome>,
) -> bool {
    &&& frames_from(next, seen)
    &&& frames_of_boot(toc is Some, seen)
    &&& reported(r, toc, most_lit(seen), seen.last().pc, seen.last().in_high_ram())
}

/// Checks that a machine boots with the media at hand: `next` has it run for the frame
/// of that number, from 0, and tells what it shows. This is about the media, not about
/// the machine.
pub fn run_system<F: FnMut(u32) -> FrameSeen>(disc: Option<&Disc>, next: F) -> (r: Vec<DiagOutcome>)
    requires
        forall|i: u32| i < 400 ==> call_requires(next, (i,)),
        forall|i: u32, s: FrameSeen| #[trigger] call_ensures(next, (i,), s) ==> s.wf(),
    ensures
        exists|seen: Seq<FrameSeen>| #[trigger] boot_of(next, contents(disc), seen, r@),
{
    let ghost given = next;
    let mut host = next;
    let toc: Option<(u8, u8, u32)> = match disc {
        Some(d) => Some(
            (SectorSource::first_track(d), SectorSource::last_track(d), SectorSource::lead_out_fad(d)),
        ),
        None => None,
    };
    let mut boot: Boot = Boot::new(toc.is_some());
    let mut n: u32 = 0;
    let mut more: bool = true;
    while more
        invariant
            boot.wf(),
            boot.disc() == (toc is Some),
            boot.seen().len() == n,
            n <= 400,
            more == !frames_of_boot(toc is Some, boot.seen()),
            host == given,
            given == next,
            forall|i: u32| i < 400 ==> call_requires(given, (i,)),
            forall|i: u32, s: FrameSeen| #[trigger] call_ensures(given, (i,), s) ==> s.wf(),
            frames_from(given, boot.seen()),
        decreases 400 - n,
    {
        assert(n < 400);
        let f: FrameSeen = host(n);
        more = boot.saw(&f);
        n += 1;
    }
    let r: Vec<DiagOutcome> = boot.outcome(toc);
    assert(boot_of(next, contents(disc), boot.seen(), r@));
    r
}

// ---- laws ---------------------------------------------------------------------------

/// Every check is run, and no check twice.
pub proof fn every_check_is_run_once(c: Check)
    ensures
        Check::all().contains(c),
        Check::all().no_duplicates(),
{
    let s = Check::all();
    match c {
        Check::CpuAddImm => {
            assert(s[0] == c);
        },
        Check::CpuSubReg => {
            assert(s[1] == c);
        },
        Check::CpuMullMacl => {
            assert(s[2] == c);
        },
        Check::BranchDelaySlot => {
            assert(s[3] == c);
        },
        Check::MemRoundtripLow => {
            assert(s[4] == c);
        },
        Check::MemRoundtripHigh => {
            assert(s[5] == c);
        },
        Check::DivuDivide => {
            assert(s[6] == c);
        },
        Check::TimerFrcAdvances => {
            assert(s[7] == c);
        },
        Check::CpuLogicOps => {
            assert(s[8] == c);
        },
        Check::CpuShiftOps => {
            assert(s[9] == c);
        },
        Check::ScuDmaCopy => {
            assert(s[10] == c);
        },
        Check::DmacTransfer => {
            assert(s[11] == c);
        },
        Check::CpuMacL => {
            assert(s[12] == c);
        },
        Check::CpuCmpBranch => {
            assert(s[13] == c);
        },
        Check::Vdp2BackScreen => {
            assert(s[14] == c);
        },
        Check::ScspTone => {
            assert(s[15] == c);
        },
        Check::M68kExec => {
            assert(s[16] == c);
        },
        Check::ScuDspExec => {
            assert(s[17] == c);
        },
        Check::Vdp1Polygon => {
            assert(s[18] == c);
        },
        Check::SavestateRoundtrip => {
            assert(s[19] == c);
        },
        Check::CachePurgeCoherency => {
            assert(s[20] == c);
        },
        Check::ScuDmaAliasFold => {
            assert(s[21] == c);
        },
    }
}

/// Every program ends in a spin, so that a machine that runs on does no harm.
pub proof fn programs_park(c: Check)
    ensures
        c.code().len() >= 2,
        c.code()[c.code().len() - 2] == bra_self(),
        c.code()[c.code().len() - 1] == NOP,
{
}

} // verus!
