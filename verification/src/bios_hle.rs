//! The system calls of the BIOS, done natively.
//!
//! Programs call the BIOS through a table of pointers in work RAM. Each pointer is
//! an entry address; a CPU that gets there has its call done here instead. A call
//! takes its arguments from R4 and R5, gives its result in R0, and returns to PR.

use vstd::prelude::*;
use crate::bus::timing::AccessKind;
use crate::bus::{
    offset, rest_kept, work_ram_is_read_back, Machine, Region, SaturnBus, HIGH_WRAM_BASE,
};
use crate::disc::SectorSource;
use crate::memory::{folded, folded32, put32};
use crate::scu::{ScuState, Source, SCU_BASE};

verus! {

/// The entry addresses.
pub const SYS_ADDRS: [u32; 26] = [
    0x0210, 0x026C, 0x0274, 0x0280, 0x029C, 0x02DC, 0x0300, 0x0304, 0x0310, 0x0314, 0x0320, 0x0330,
    0x0334, 0x0340, 0x0344, 0x0358, 0x0384, 0x0388, 0x038C, 0x0390, 0x0394, 0x0398, 0x039C, 0x03A0,
    0x03A4, 0x03A8,
];

/// Handlers of the SCU's interrupts, by vector.
pub const SCU_INT_TABLE: u32 = 0x0600_0900;

/// The handler of interrupts that have none.
pub const BIOS_DEFAULT_HANDLER: u32 = 0x0600_0610;

/// The SCU's interrupt mask, as it was set.
pub const SCU_MASK_VAR: u32 = 0x0600_0348;

/// The clock that was chosen.
pub const CLOCK_VAR: u32 = 0x0600_0324;

/// The semaphores.
pub const SEMAPHORES: u32 = 0x0600_0B00;

/// The table of entry addresses.
pub const CALL_TABLE: u32 = 0x0600_0200;

/// Clocks of a call.
pub const CALL_COST: u32 = 11;

/// Whether a call is done here that is entered at `pc`.
pub fn is_sys_addr(pc: u32) -> (r: bool)
    ensures
        r == SYS_ADDRS@.contains(pc),
{
    let mut i: usize = 0;
    while i < 26
        invariant
            i <= 26,
            forall|j: int| 0 <= j < i ==> #[trigger] SYS_ADDRS@[j] != pc,
        decreases 26 - i,
    {
        if SYS_ADDRS[i] == pc {
            assert(SYS_ADDRS@[i as int] == pc);
            return true;
        }
        i += 1;
    }
    false
}

/// The registers that a call uses.
#[derive(Clone, Copy, Debug)]
pub struct SysRegs {
    pub r: [u32; 16],
    pub pc: u32,
    pub pr: u32,
    pub vbr: u32,
}

/// The values of [`SysRegs`].
pub struct Regs {
    pub r: Seq<u32>,
    pub pc: u32,
    pub pr: u32,
    pub vbr: u32,
}

impl View for SysRegs {
    type V = Regs;

    open spec fn view(&self) -> Regs {
        Regs { r: self.r@, pc: self.pc, pr: self.pr, vbr: self.vbr }
    }
}

impl SysRegs {
    /// The address that a call reads, where it reads one.
    pub fn operand(&self) -> (r: Option<u32>)
        ensures
            r == self@.read_from(),
    {
        let n: u32 = self.pc.wrapping_sub(0x200) >> 2;
        if n == 0x41 {
            Some(SCU_INT_TABLE.wrapping_add(self.r[4] << 2))
        } else if n == 0x45 {
            Some(self.vbr.wrapping_add(self.r[4] << 2))
        } else if n == 0x4C {
            Some(SEMAPHORES.wrapping_add(self.r[4]))
        } else {
            None
        }
    }
}

/// What a call has done: whether it is known, and a write for the SMPC or a graphics
/// chip, as address, value and bytes.
#[derive(Clone, Copy, Debug)]
pub struct SysCall {
    pub implemented: bool,
    pub outside: Option<(u32, u32, u32)>,
}

/// Whether the SMPC or a graphics chip is at an address.
pub open spec fn is_outside(addr: u32) -> bool {
    match Region::of(addr) {
        Region::Smpc | Region::Vdp1 | Region::Vdp2 => true,
        _ => false,
    }
}

impl Machine {
    /// A call writes 32 bits.
    #[verifier::opaque]
    pub open spec fn poked32(self, addr: u32, val: u32, draw: u32) -> Machine {
        self.watched(addr, val).written32(addr, val).done(addr, 4, true, AccessKind::Data, draw)
    }

    /// A call writes 8 bits.
    #[verifier::opaque]
    pub open spec fn poked8(self, addr: u32, val: u8, draw: u32) -> Machine {
        self.watched(addr, val as u32).written8(addr, val).done(
            addr,
            1,
            true,
            AccessKind::Data,
            draw,
        )
    }

    /// A call reads 32 bits.
    #[verifier::opaque]
    pub open spec fn peeked32(self, addr: u32, draw: u32) -> Machine {
        self.read32(addr).done(addr, 4, false, AccessKind::Data, draw)
    }

    /// A call reads 8 bits.
    #[verifier::opaque]
    pub open spec fn peeked8(self, addr: u32, draw: u32) -> Machine {
        self.read8(addr).done(addr, 1, false, AccessKind::Data, draw)
    }

    /// The interrupt of the A-bus is acknowledged, unless it is masked.
    pub open spec fn acknowledged(self, mask: u32) -> Machine {
        if mask & 0x8000 == 0 {
            self.poked32((SCU_BASE + 0xA8) as u32, 1, 0)
        } else {
            self
        }
    }

    /// The first `n` of the 21 DMA registers are cleared: three channels, of which
    /// seven words each, three words apart.
    pub open spec fn dma_cleared(self, n: int) -> Machine
        decreases n,
    {
        if n <= 0 {
            self
        } else {
            self.dma_cleared(n - 1).poked32(
                (SCU_BASE + (n - 1) / 7 * 0xC + (n - 1) % 7 * 4) as u32,
                0,
                0,
            )
        }
    }

    /// The clock is changed: it is noted, and the SCU is set up anew.
    pub open spec fn clock_changed(self, speed: u32) -> Machine {
        let at = |o: u32| (SCU_BASE + o) as u32;
        let m = self.poked32(CLOCK_VAR, speed, 0).poked32(at(0xA8), 0, 0).poked32(
            at(0xB8),
            0,
            0,
        ).dma_cleared(21).poked32(at(0x60), 0, 0).poked32(at(0x80), 0, 0).poked32(
            at(0xB0),
            0x1FF0_1FF0,
            0,
        ).poked32(at(0xB4), 0x1FF0_1FF0, 0).poked32(at(0xB8), 0x1F, 0).poked32(
            at(0xA8),
            1,
            0,
        ).poked32(at(0x90), 0x3FF, 0).poked32(at(0x94), 0x1FF, 0).poked32(at(0x98), 0, 0);
        let mask = m.answer32(SCU_MASK_VAR, 0);
        m.peeked32(SCU_MASK_VAR, 0).poked32(at(0xA0), mask, 0).acknowledged(mask)
    }

    /// The interrupt mask of the SCU is set; a slave's call only acknowledges.
    pub open spec fn mask_set(self, mask: u32, is_slave: bool) -> Machine {
        (if is_slave {
            self
        } else {
            self.poked32(SCU_MASK_VAR, mask, 0).poked32((SCU_BASE + 0xA0) as u32, mask, 0)
        }).acknowledged(mask)
    }

    /// The interrupt mask of the SCU is changed, and pending interrupts with it; a
    /// slave's call only acknowledges.
    pub open spec fn mask_changed(self, and: u32, or: u32, is_slave: bool) -> Machine {
        (if is_slave {
            self
        } else {
            let mask = (self.answer32(SCU_MASK_VAR, 0) & and) | or;
            self.peeked32(SCU_MASK_VAR, 0).poked32(SCU_MASK_VAR, mask, 0).poked32(
                (SCU_BASE + 0xA0) as u32,
                mask,
                0,
            ).poked32((SCU_BASE + 0xA4) as u32, and as i16 as u32, 0)
        }).acknowledged(and)
    }

    /// The first `n` entries of the call table are written.
    pub open spec fn table_installed(self, n: int) -> Machine
        decreases n,
    {
        if n <= 0 {
            self
        } else {
            self.table_installed(n - 1).poked32(
                (CALL_TABLE + SYS_ADDRS@[n - 1] - 0x200) as u32,
                SYS_ADDRS@[n - 1],
                0,
            )
        }
    }
}

impl Regs {
    /// The number of the call.
    pub open spec fn call(self) -> u32 {
        self.pc.wrapping_sub(0x200) >> 2
    }

    /// Where the handler of an SCU interrupt is.
    pub open spec fn scu_slot(self) -> u32 {
        SCU_INT_TABLE.wrapping_add(self.r[4] << 2)
    }

    /// Where the handler of an interrupt of the CPU is.
    pub open spec fn cpu_slot(self) -> u32 {
        self.vbr.wrapping_add(self.r[4] << 2)
    }

    /// Where a semaphore is.
    pub open spec fn semaphore(self) -> u32 {
        SEMAPHORES.wrapping_add(self.r[4])
    }

    /// The handler that is to be installed.
    pub open spec fn handler(self) -> u32 {
        if self.r[5] == 0 {
            BIOS_DEFAULT_HANDLER
        } else {
            self.r[5]
        }
    }

    pub open spec fn with_result(self, v: u32) -> Regs {
        Regs { r: self.r.update(0, v), ..self }
    }

    /// The registers after a call that answers `v`, if it answers.
    pub open spec fn returned(self, v: Option<u32>) -> Regs {
        let s = match v {
            Some(x) => self.with_result(x),
            None => self,
        };
        Regs { pc: s.pr, ..s }
    }

    /// Whether a call reads 32 bits from where the registers say.
    pub open spec fn reads(self) -> Option<u32> {
        if self.call() == 0x41 {
            Some(self.scu_slot())
        } else if self.call() == 0x45 {
            Some(self.cpu_slot())
        } else {
            None
        }
    }

    /// The address that a call reads, at any width.
    pub open spec fn read_from(self) -> Option<u32> {
        if self.call() == 0x4C {
            Some(self.semaphore())
        } else {
            self.reads()
        }
    }

    /// The result of a call. `reply` is what the SMPC or a graphics chip answers,
    /// where the call reads one.
    pub open spec fn result(self, m: Machine, reply: u32) -> Option<u32> {
        let n = self.call();
        if n == 0x41 || n == 0x45 {
            Some(m.answer32(self.reads()->0, reply))
        } else if n == 0x4C {
            Some(
                if m.answer8(self.semaphore(), reply as u8) == 0 {
                    1
                } else {
                    0
                },
            )
        } else if self.is_known() {
            None
        } else {
            Some(0)
        }
    }

    pub open spec fn is_known(self) -> bool {
        let n = self.call();
        n == 0x40 || n == 0x41 || n == 0x44 || n == 0x45 || n == 0x48 || n == 0x4C || n == 0x4D || n
            == 0x50 || n == 0x51
    }

    /// What a call does to the machine.
    pub open spec fn done(self, m: Machine, is_slave: bool, reply: u32, draw: u32) -> Machine {
        let n = self.call();
        if n == 0x40 {
            m.poked32(self.scu_slot(), self.handler(), draw)
        } else if n == 0x41 {
            m.peeked32(self.scu_slot(), draw)
        } else if n == 0x44 {
            if self.r[5] != 0 {
                m.poked32(self.cpu_slot(), self.r[5], draw)
            } else {
                m
            }
        } else if n == 0x45 {
            m.peeked32(self.cpu_slot(), draw)
        } else if n == 0x48 {
            m.clock_changed(self.r[4])
        } else if n == 0x4C {
            m.peeked8(self.semaphore(), draw).poked8(
                self.semaphore(),
                m.answer8(self.semaphore(), reply as u8) | 0x80,
                draw,
            )
        } else if n == 0x4D {
            m.poked8(self.semaphore(), 0, draw)
        } else if n == 0x50 {
            m.mask_set(self.r[4], is_slave)
        } else if n == 0x51 {
            m.mask_changed(self.r[4], self.r[5], is_slave)
        } else {
            m
        }
    }

    /// What a call writes where the registers say: address, value, bytes.
    pub open spec fn writes(self, m: Machine, reply: u32) -> Option<(u32, u32, u32)> {
        let n = self.call();
        if n == 0x40 {
            Some((self.scu_slot(), self.handler(), 4u32))
        } else if n == 0x44 && self.r[5] != 0 {
            Some((self.cpu_slot(), self.r[5], 4u32))
        } else if n == 0x4C {
            Some(
                (
                    self.semaphore(),
                    (m.answer8(self.semaphore(), reply as u8) | 0x80) as u32,
                    1u32,
                ),
            )
        } else if n == 0x4D {
            Some((self.semaphore(), 0u32, 1u32))
        } else {
            None
        }
    }

    /// The write of a call, if it is for the SMPC or a graphics chip.
    pub open spec fn outside(self, m: Machine, reply: u32) -> Option<(u32, u32, u32)> {
        match self.writes(m, reply) {
            Some((a, v, w)) => if is_outside(a) {
                Some((a, v, w))
            } else {
                None
            },
            None => None,
        }
    }
}

fn poke32<S: SectorSource>(bus: &mut SaturnBus<S>, addr: u32, val: u32, draw: u32)
    requires
        old(bus)@.wf(),
    ensures
        final(bus)@ == old(bus)@.poked32(addr, val, draw),
        final(bus)@.wf(),
        rest_kept(*old(bus), *final(bus)),
{
    reveal(Machine::poked32);
    bus.write32(addr, val, AccessKind::Data, draw);
}

fn poke8<S: SectorSource>(bus: &mut SaturnBus<S>, addr: u32, val: u8, draw: u32)
    requires
        old(bus)@.wf(),
    ensures
        final(bus)@ == old(bus)@.poked8(addr, val, draw),
        final(bus)@.wf(),
        rest_kept(*old(bus), *final(bus)),
{
    reveal(Machine::poked8);
    bus.write8(addr, val, AccessKind::Data, draw);
}

fn peek32<S: SectorSource>(bus: &mut SaturnBus<S>, addr: u32, reply: u32, draw: u32) -> (r: u32)
    requires
        old(bus)@.wf(),
        Machine::takes_data(addr) ==> old(bus)@.cd.transfer_ready(),
    ensures
        r == old(bus)@.answer32(addr, reply),
        final(bus)@ == old(bus)@.peeked32(addr, draw),
        final(bus)@.wf(),
        rest_kept(*old(bus), *final(bus)),
{
    reveal(Machine::peeked32);
    bus.read32(addr, AccessKind::Data, reply, draw).0
}

fn peek8<S: SectorSource>(bus: &mut SaturnBus<S>, addr: u32, reply: u8, draw: u32) -> (r: u8)
    requires
        old(bus)@.wf(),
    ensures
        r == old(bus)@.answer8(addr, reply),
        final(bus)@ == old(bus)@.peeked8(addr, draw),
        final(bus)@.wf(),
        rest_kept(*old(bus), *final(bus)),
{
    reveal(Machine::peeked8);
    bus.read8(addr, AccessKind::Data, reply, draw).0
}

fn acknowledge<S: SectorSource>(bus: &mut SaturnBus<S>, mask: u32)
    requires
        old(bus)@.wf(),
    ensures
        final(bus)@ == old(bus)@.acknowledged(mask),
        final(bus)@.wf(),
        rest_kept(*old(bus), *final(bus)),
{
    if mask & 0x8000 == 0 {
        poke32(bus, SCU_BASE + 0xA8, 1, 0);
    }
}

fn clear_dma<S: SectorSource>(bus: &mut SaturnBus<S>)
    requires
        old(bus)@.wf(),
    ensures
        final(bus)@ == old(bus)@.dma_cleared(21),
        final(bus)@.wf(),
        rest_kept(*old(bus), *final(bus)),
{
    let mut n: u32 = 0;
    while n < 21
        invariant
            n <= 21,
            bus@.wf(),
            bus@ == old(bus)@.dma_cleared(n as int),
            rest_kept(*old(bus), *bus),
        decreases 21 - n,
    {
        poke32(bus, SCU_BASE + n / 7 * 0xC + n % 7 * 4, 0, 0);
        n += 1;
    }
}

fn change_system_clock<S: SectorSource>(bus: &mut SaturnBus<S>, speed: u32)
    requires
        old(bus)@.wf(),
    ensures
        final(bus)@ == old(bus)@.clock_changed(speed),
        final(bus)@.wf(),
        rest_kept(*old(bus), *final(bus)),
{
    poke32(bus, CLOCK_VAR, speed, 0);
    poke32(bus, SCU_BASE + 0xA8, 0, 0);
    poke32(bus, SCU_BASE + 0xB8, 0, 0);
    clear_dma(bus);
    poke32(bus, SCU_BASE + 0x60, 0, 0);
    poke32(bus, SCU_BASE + 0x80, 0, 0);
    poke32(bus, SCU_BASE + 0xB0, 0x1FF0_1FF0, 0);
    poke32(bus, SCU_BASE + 0xB4, 0x1FF0_1FF0, 0);
    poke32(bus, SCU_BASE + 0xB8, 0x1F, 0);
    poke32(bus, SCU_BASE + 0xA8, 1, 0);
    poke32(bus, SCU_BASE + 0x90, 0x3FF, 0);
    poke32(bus, SCU_BASE + 0x94, 0x1FF, 0);
    poke32(bus, SCU_BASE + 0x98, 0, 0);
    let mask: u32 = peek32(bus, SCU_MASK_VAR, 0, 0);
    poke32(bus, SCU_BASE + 0xA0, mask, 0);
    acknowledge(bus, mask);
}

fn set_scu_interrupt_mask<S: SectorSource>(bus: &mut SaturnBus<S>, mask: u32, is_slave: bool)
    requires
        old(bus)@.wf(),
    ensures
        final(bus)@ == old(bus)@.mask_set(mask, is_slave),
        final(bus)@.wf(),
        rest_kept(*old(bus), *final(bus)),
{
    if !is_slave {
        poke32(bus, SCU_MASK_VAR, mask, 0);
        poke32(bus, SCU_BASE + 0xA0, mask, 0);
    }
    acknowledge(bus, mask);
}

fn change_scu_interrupt_mask<S: SectorSource>(
    bus: &mut SaturnBus<S>,
    and: u32,
    or: u32,
    is_slave: bool,
)
    requires
        old(bus)@.wf(),
    ensures
        final(bus)@ == old(bus)@.mask_changed(and, or, is_slave),
        final(bus)@.wf(),
        rest_kept(*old(bus), *final(bus)),
{
    if !is_slave {
        let mask: u32 = (peek32(bus, SCU_MASK_VAR, 0, 0) & and) | or;
        poke32(bus, SCU_MASK_VAR, mask, 0);
        poke32(bus, SCU_BASE + 0xA0, mask, 0);
        poke32(bus, SCU_BASE + 0xA4, and as i16 as u32, 0);
    }
    acknowledge(bus, and);
}

fn route(addr: u32, val: u32, bytes: u32) -> (r: Option<(u32, u32, u32)>)
    ensures
        r == (if is_outside(addr) {
            Some((addr, val, bytes))
        } else {
            None
        }),
{
    match Region::at(addr) {
        Region::Smpc | Region::Vdp1 | Region::Vdp2 => Some((addr, val, bytes)),
        _ => None,
    }
}

/// Does the call that is entered at `regs.pc`, and returns from it. It takes
/// [`CALL_COST`] clocks. A call that is not known answers 0. `reply` is what the SMPC
/// or a graphics chip answers, where the call reads one, and `draw` what the sprite
/// engine adds there.
pub fn dispatch<S: SectorSource>(
    regs: &mut SysRegs,
    bus: &mut SaturnBus<S>,
    is_slave: bool,
    reply: u32,
    draw: u32,
) -> (r: SysCall)
    requires
        old(bus)@.wf(),
        old(regs)@.reads() matches Some(a) ==> Machine::takes_data(a) ==> old(
            bus,
        )@.cd.transfer_ready(),
    ensures
        final(bus)@ == old(regs)@.done(old(bus)@, is_slave, reply, draw),
        final(bus)@.wf(),
        rest_kept(*old(bus), *final(bus)),
        final(regs)@ == old(regs)@.returned(old(regs)@.result(old(bus)@, reply)),
        r.implemented == old(regs)@.is_known(),
        r.outside == old(regs)@.outside(old(bus)@, reply),
{
    let n: u32 = regs.pc.wrapping_sub(0x200) >> 2;
    let (r4, r5) = (regs.r[4], regs.r[5]);
    let mut outside: Option<(u32, u32, u32)> = None;
    let mut implemented: bool = true;
    if n == 0x40 {
        let slot: u32 = SCU_INT_TABLE.wrapping_add(r4 << 2);
        let handler: u32 = if r5 == 0 {
            BIOS_DEFAULT_HANDLER
        } else {
            r5
        };
        poke32(bus, slot, handler, draw);
        outside = route(slot, handler, 4);
    } else if n == 0x41 {
        let v: u32 = peek32(bus, SCU_INT_TABLE.wrapping_add(r4 << 2), reply, draw);
        regs.r[0] = v;
    } else if n == 0x44 {
        if r5 != 0 {
            let slot: u32 = regs.vbr.wrapping_add(r4 << 2);
            poke32(bus, slot, r5, draw);
            outside = route(slot, r5, 4);
        }
    } else if n == 0x45 {
        let v: u32 = peek32(bus, regs.vbr.wrapping_add(r4 << 2), reply, draw);
        regs.r[0] = v;
    } else if n == 0x48 {
        change_system_clock(bus, r4);
    } else if n == 0x4C {
        let addr: u32 = SEMAPHORES.wrapping_add(r4);
        let cur: u8 = peek8(bus, addr, reply as u8, draw);
        regs.r[0] = if cur == 0 {
            1
        } else {
            0
        };
        poke8(bus, addr, cur | 0x80, draw);
        outside = route(addr, (cur | 0x80) as u32, 1);
    } else if n == 0x4D {
        let addr: u32 = SEMAPHORES.wrapping_add(r4);
        poke8(bus, addr, 0, draw);
        outside = route(addr, 0, 1);
    } else if n == 0x50 {
        set_scu_interrupt_mask(bus, r4, is_slave);
    } else if n == 0x51 {
        change_scu_interrupt_mask(bus, r4, r5, is_slave);
    } else {
        implemented = false;
        regs.r[0] = 0;
    }
    regs.pc = regs.pr;
    SysCall { implemented, outside }
}

/// Writes the table of entry addresses.
pub fn install_call_table<S: SectorSource>(bus: &mut SaturnBus<S>)
    requires
        old(bus)@.wf(),
    ensures
        final(bus)@ == old(bus)@.table_installed(26),
        final(bus)@.wf(),
        rest_kept(*old(bus), *final(bus)),
{
    let mut i: usize = 0;
    while i < 26
        invariant
            i <= 26,
            bus@.wf(),
            bus@ == old(bus)@.table_installed(i as int),
            rest_kept(*old(bus), *bus),
        decreases 26 - i,
    {
        let entry: u32 = SYS_ADDRS[i];
        assert(0x200 <= SYS_ADDRS@[i as int] <= 0x3FF);
        poke32(bus, CALL_TABLE + entry - 0x200, entry, 0);
        i += 1;
    }
}

/// The name of a call.
pub open spec fn call_name(n: u8) -> Seq<char> {
    if n == 0x04 {
        "PowerOnMemoryClear"@
    } else if n == 0x1B {
        "ExecuteCDPlayer"@
    } else if n == 0x1D {
        "CheckMPEGCard"@
    } else if n == 0x20 {
        "ChangeScuInterruptPriority"@
    } else if n == 0x27 {
        "CDINIT2"@
    } else if n == 0x37 {
        "CDINIT1"@
    } else if n == 0x40 {
        "SetScuInterrupt"@
    } else if n == 0x41 {
        "GetScuInterrupt"@
    } else if n == 0x44 {
        "SetSh2Interrupt"@
    } else if n == 0x45 {
        "GetSh2Interrupt"@
    } else if n == 0x48 {
        "ChangeSystemClock"@
    } else if n == 0x4C {
        "GetSemaphore"@
    } else if n == 0x4D {
        "ClearSemaphore"@
    } else if n == 0x50 {
        "SetScuInterruptMask"@
    } else if n == 0x51 {
        "ChangeScuInterruptMask"@
    } else if n == 0x56 {
        "BUPInit"@
    } else if 0x60 <= n <= 0x6B {
        "BUP*"@
    } else {
        "?"@
    }
}

/// The name of a call.
pub fn sys_name(n: u8) -> (r: &'static str)
    ensures
        r@ == call_name(n),
{
    if n == 0x04 {
        "PowerOnMemoryClear"
    } else if n == 0x1B {
        "ExecuteCDPlayer"
    } else if n == 0x1D {
        "CheckMPEGCard"
    } else if n == 0x20 {
        "ChangeScuInterruptPriority"
    } else if n == 0x27 {
        "CDINIT2"
    } else if n == 0x37 {
        "CDINIT1"
    } else if n == 0x40 {
        "SetScuInterrupt"
    } else if n == 0x41 {
        "GetScuInterrupt"
    } else if n == 0x44 {
        "SetSh2Interrupt"
    } else if n == 0x45 {
        "GetSh2Interrupt"
    } else if n == 0x48 {
        "ChangeSystemClock"
    } else if n == 0x4C {
        "GetSemaphore"
    } else if n == 0x4D {
        "ClearSemaphore"
    } else if n == 0x50 {
        "SetScuInterruptMask"
    } else if n == 0x51 {
        "ChangeScuInterruptMask"
    } else if n == 0x56 {
        "BUPInit"
    } else if 0x60 <= n && n <= 0x6B {
        "BUP*"
    } else {
        "?"
    }
}

// ---- laws -------------------------------------------------------------------------

proof fn poked_long_is_read(m: Machine, addr: u32, v: u32, x: u32)
    requires
        m.wf(),
        Region::of(addr) is HighWram,
    ensures
        m.poked32(addr, v, 0).answer32(addr, x) == v,
{
    reveal(Machine::poked32);
    let n = m.watched(addr, v);
    assert(n.wf());
    work_ram_is_read_back(n, addr, 0, 0, v, x);
    let w = n.written32(addr, v);
    let d = w.done(addr, 4, true, AccessKind::Data, 0);
    assert(d.high == w.high);
    assert(d.answer32(addr, x) == w.answer32(addr, x));
}

/// A handler that is installed for an SCU interrupt is the one that is found, in
/// the work RAM that the table lies in.
pub proof fn installed_handler_is_found(m: Machine, r: Regs, g: Regs, x: u32)
    requires
        m.wf(),
        r.call() == 0x40,
        g.call() == 0x41,
        g.r[4] == r.r[4],
        Region::of(r.scu_slot()) is HighWram,
    ensures
        g.result(r.done(m, false, x, 0), x) == Some(r.handler()),
{
    poked_long_is_read(m, r.scu_slot(), r.handler(), x);
}

/// A semaphore that is free is taken by one caller: the next finds it taken, until
/// it is cleared.
pub proof fn semaphore_is_taken_once(m: Machine, g: Regs, c: Regs, s: bool, x: u32)
    requires
        m.wf(),
        g.call() == 0x4C,
        c.call() == 0x4D,
        c.r[4] == g.r[4],
        Region::of(g.semaphore()) is HighWram,
    ensures
        g.result(g.done(m, s, x, 0), x) == Some(0u32),
        g.result(c.done(m, s, x, 0), x) == Some(1u32),
{
    reveal(Machine::poked8);
    reveal(Machine::peeked8);
    let a = g.semaphore();
    let v = m.answer8(a, x as u8) | 0x80;
    let old_v = m.answer8(a, x as u8);
    mask_bits(0, old_v as u32, 0, 0);
    let n = m.read8(a).done(a, 1, false, AccessKind::Data, 0).watched(a, v as u32);
    work_ram_is_read_back(n, a, v, 0, 0, x);
    work_ram_is_read_back(m.watched(a, 0), a, 0, 0, 0, x);
}

/// A call by the slave CPU leaves the master's interrupt mask alone.
pub proof fn slave_keeps_the_mask(m: Machine, r: Regs, x: u32)
    requires
        r.call() == 0x50 || r.call() == 0x51,
        r.r[4] & 0x8000 != 0,
    ensures
        r.done(m, true, x, 0) == m,
{
}

/// Every call returns to its caller.
pub proof fn calls_return(m: Machine, r: Regs, x: u32)
    requires
        r.r.len() == 16,
    ensures
        r.returned(r.result(m, x)).pc == r.pr,
        forall|i: int| 1 <= i < 16 ==> #[trigger] r.returned(r.result(m, x)).r[i] == r.r[i],
{
}

// ---- laws of the interrupt mask ----------------------------------------------------

/// A call's write to work RAM changes nothing of the SCU, and one to the SCU nothing of
/// work RAM: its register is written.
proof fn poke_reaches_its_device(m: Machine, addr: u32, v: u32)
    requires
        m.wf(),
        Region::of(addr) is HighWram || Region::of(addr) is Scu,
    ensures
        m.poked32(addr, v, 0).wf(),
        Region::of(addr) is HighWram ==> m.poked32(addr, v, 0).scu == m.scu && m.poked32(
            addr,
            v,
            0,
        ).high == put32(m.high, offset(addr, HIGH_WRAM_BASE), v),
        Region::of(addr) is Scu ==> m.poked32(addr, v, 0).high == m.high && m.poked32(addr, v, 0).scu
            == m.scu.written(offset(addr, SCU_BASE), v),
{
    reveal(Machine::poked32);
    reveal(Machine::scu_written32);
}

proof fn mask_bits(f: u32, r: u32, k: u32, i: u32)
    by (bit_vector)
    ensures
        k < 14 ==> ((f & !((((r & 0xBFFF) as i16) as i32) as u32)) & (1u32 << k) != 0 <==> f & (1u32
            << k) != 0 && r & (1u32 << k) == 0),
        (f & !((((r & 0xBFFF) as i16) as i32) as u32)) & (1u32 << 16) != 0 <==> f & (1u32 << 16) != 0
            && r & 0x8000 == 0,
        k < 14 ==> ((i & ((r as i16) as u32)) & (1u32 << k) != 0 <==> i & (1u32 << k) != 0 && r & (
        1u32 << k) != 0),
        1u32 & 1 != 0,
        f < 0x100 ==> f << 2 == 4 * f,
        f < 0x4000_0000 ==> (4 * f) as u32 >> 2 == f,
        (r as u8) | 0x80 != 0,
{
}

/// The bit of a call's mask that is about a source: its own, but for the CD-block's,
/// which bit 15 is about.
pub open spec fn masked_by(s: Source) -> u32 {
    if s is Cd {
        0x8000
    } else {
        s.mask()
    }
}

/// SetScuInterruptMask by the master sets IMS to the argument's implemented bits and
/// keeps the argument in work RAM: a source that pends can be delivered exactly where
/// its bit of the argument is 0.
#[verifier::spinoff_prover]
pub proof fn set_mask_is_the_argument(m: Machine, r: Regs, x: u32, s: Source, imask: u8)
    requires
        m.wf(),
        r.call() == 0x50,
    ensures
        ({
            let n = r.done(m, false, x, 0);
            &&& n.scu.regs.ims == r.r[4] & 0xBFFF
            &&& n.answer32(SCU_MASK_VAR, x) == r.r[4]
            &&& n.scu.fresh == m.scu.fresh && n.scu.regs.ist == m.scu.regs.ist
            &&& n.scu.deliverable(s, imask) <==> m.scu.fresh & s.mask() != 0 && r.r[4] & masked_by(s)
                == 0 && s.spec_priority() > imask
        }),
{
    let v = r.r[4];
    let a = m.poked32(SCU_MASK_VAR, v, 0);
    poke_reaches_its_device(m, SCU_MASK_VAR, v);
    poked_long_is_read(m, SCU_MASK_VAR, v, x);
    let b = a.poked32((SCU_BASE + 0xA0) as u32, v, 0);
    poke_reaches_its_device(a, (SCU_BASE + 0xA0) as u32, v);
    poke_reaches_its_device(b, (SCU_BASE + 0xA8) as u32, 1);
    mask_bits(m.scu.fresh, v, s.spec_bit(), 0);
}

/// ChangeScuInterruptMask by the master keeps the bits of the first argument and sets
/// those of the second, in IMS and in the copy; a pending source stays in IST exactly
/// where its bit of the first argument is 1.
#[verifier::spinoff_prover]
pub proof fn changed_mask_is_both_arguments(m: Machine, r: Regs, x: u32, k: u32)
    requires
        m.wf(),
        r.call() == 0x51,
        k < 14,
    ensures
        ({
            let n = r.done(m, false, x, 0);
            let mask = (m.answer32(SCU_MASK_VAR, x) & r.r[4]) | r.r[5];
            &&& n.scu.regs.ims == mask & 0xBFFF
            &&& n.answer32(SCU_MASK_VAR, x) == mask
            &&& n.scu.fresh == m.scu.fresh
            &&& n.scu.regs.ist & (1u32 << k) != 0 <==> m.scu.regs.ist & (1u32 << k) != 0 && r.r[4] & (
            1u32 << k) != 0
        }),
{
    let mask = (m.answer32(SCU_MASK_VAR, 0) & r.r[4]) | r.r[5];
    let p = m.peeked32(SCU_MASK_VAR, 0);
    assert(p.wf() && p.scu == m.scu && p.high == m.high) by {
        reveal(Machine::peeked32);
    }
    let a = p.poked32(SCU_MASK_VAR, mask, 0);
    poke_reaches_its_device(p, SCU_MASK_VAR, mask);
    poked_long_is_read(p, SCU_MASK_VAR, mask, x);
    let b = a.poked32((SCU_BASE + 0xA0) as u32, mask, 0);
    poke_reaches_its_device(a, (SCU_BASE + 0xA0) as u32, mask);
    let c = b.poked32((SCU_BASE + 0xA4) as u32, r.r[4] as i16 as u32, 0);
    poke_reaches_its_device(b, (SCU_BASE + 0xA4) as u32, r.r[4] as i16 as u32);
    poke_reaches_its_device(c, (SCU_BASE + 0xA8) as u32, 1);
    mask_bits(0, r.r[4], k, m.scu.regs.ist);
}

/// A call that leaves bit 15 of its mask clear acknowledges the interrupt of the A-bus,
/// for either processor; one that sets it does not.
#[verifier::spinoff_prover]
pub proof fn clear_bit_15_acknowledges(m: Machine, r: Regs, slave: bool, x: u32)
    requires
        m.wf(),
        r.call() == 0x50 || r.call() == 0x51,
    ensures
        r.r[4] & 0x8000 == 0 ==> !r.done(m, slave, x, 0).scu.cd_prohibit,
        r.r[4] & 0x8000 != 0 ==> r.done(m, slave, x, 0).scu.cd_prohibit == m.scu.cd_prohibit,
{
    mask_bits(0, 0, 0, 0);
    if slave {
        poke_reaches_its_device(m, (SCU_BASE + 0xA8) as u32, 1);
    } else if r.call() == 0x50 {
        let v = r.r[4];
        let a = m.poked32(SCU_MASK_VAR, v, 0);
        poke_reaches_its_device(m, SCU_MASK_VAR, v);
        let b = a.poked32((SCU_BASE + 0xA0) as u32, v, 0);
        poke_reaches_its_device(a, (SCU_BASE + 0xA0) as u32, v);
        poke_reaches_its_device(b, (SCU_BASE + 0xA8) as u32, 1);
    } else {
        let mask = (m.answer32(SCU_MASK_VAR, 0) & r.r[4]) | r.r[5];
        let p = m.peeked32(SCU_MASK_VAR, 0);
        assert(p.wf() && p.scu == m.scu && p.high == m.high) by {
            reveal(Machine::peeked32);
        }
        let a = p.poked32(SCU_MASK_VAR, mask, 0);
        poke_reaches_its_device(p, SCU_MASK_VAR, mask);
        let b = a.poked32((SCU_BASE + 0xA0) as u32, mask, 0);
        poke_reaches_its_device(a, (SCU_BASE + 0xA0) as u32, mask);
        let c = b.poked32((SCU_BASE + 0xA4) as u32, r.r[4] as i16 as u32, 0);
        poke_reaches_its_device(b, (SCU_BASE + 0xA4) as u32, r.r[4] as i16 as u32);
        poke_reaches_its_device(c, (SCU_BASE + 0xA8) as u32, 1);
    }
}

/// A handler that is installed for an interrupt of the CPU is the one that is found; no
/// handler leaves the old one.
pub proof fn installed_cpu_handler_is_found(m: Machine, r: Regs, g: Regs, slave: bool, x: u32)
    requires
        m.wf(),
        r.call() == 0x44,
        g.call() == 0x45,
        g.r[4] == r.r[4],
        g.vbr == r.vbr,
        Region::of(r.cpu_slot()) is HighWram,
    ensures
        r.r[5] != 0 ==> g.result(r.done(m, slave, x, 0), x) == Some(r.r[5]),
        r.r[5] == 0 ==> r.done(m, slave, x, 0) == m,
{
    poked_long_is_read(m, r.cpu_slot(), r.r[5], x);
}

/// The handlers of the SCU's interrupts are one word each, from the first of their
/// table on, and those of the CPU's from VBR on.
pub proof fn handlers_are_a_word_apart(r: Regs, n: u32)
    requires
        r.r.len() == 16,
        r.r[4] == n,
        n < 0x100,
    ensures
        r.scu_slot() == 0x0600_0900 + 4 * n,
        r.cpu_slot() == (r.vbr + 4 * n) % 0x1_0000_0000,
        r.semaphore() == 0x0600_0B00 + n,
{
    mask_bits(n, 0, 0, 0);
}

#[verifier::spinoff_prover]
proof fn clearing_keeps_registers(m: Machine, n: int)
    requires
        m.wf(),
        0 <= n <= 21,
    ensures
        m.dma_cleared(n).wf(),
        m.dma_cleared(n).high == m.high,
        m.dma_cleared(n).scu.regs == m.scu.regs,
        m.dma_cleared(n).scu.cd_prohibit == m.scu.cd_prohibit,
        m.scu.channels.len() == 3 ==> m.dma_cleared(n).scu.channels.len() == 3,
        m.scu.channels.len() == 3 && n >= 1 ==> m.dma_cleared(n).scu.channels[0].read_addr == 0,
        m.scu.channels.len() == 3 && n >= 2 ==> m.dma_cleared(n).scu.channels[0].write_addr == 0,
        m.scu.channels.len() == 3 && n >= 5 ==> m.dma_cleared(n).scu.channels[0].enable == 0,
        m.scu.channels.len() == 3 && n >= 6 ==> m.dma_cleared(n).scu.channels[0].mode == 0,
    decreases n,
{
    if n > 0 {
        clearing_keeps_registers(m, n - 1);
        let a = (SCU_BASE + (n - 1) / 7 * 0xC + (n - 1) % 7 * 4) as u32;
        poke_reaches_its_device(m.dma_cleared(n - 1), a, 0);
    }
}

/// After a change of the clock the SCU's timers are off and wait for their last line and
/// dot, refresh is on, and the interrupt mask is the one that was kept.
#[verifier::spinoff_prover]
#[verifier::rlimit(60)]
pub proof fn changed_clock_sets_up_the_scu(m: Machine, r: Regs, slave: bool, x: u32)
    requires
        m.wf(),
        r.call() == 0x48,
    ensures
        ({
            let n = r.done(m, slave, x, 0);
            &&& n.answer32(CLOCK_VAR, x) == r.r[4]
            &&& n.answer32(SCU_MASK_VAR, x) == m.answer32(SCU_MASK_VAR, x)
            &&& n.scu.regs.ims == m.answer32(SCU_MASK_VAR, x) & 0xBFFF
            &&& n.scu.regs.t0c == 0x3FF && n.scu.regs.t1s == 0x1FF && n.scu.regs.t1md == 0
            &&& n.scu.regs.dstp == 0
            &&& n.scu.regs.aiack == 1
            &&& n.scu.regs.aref == 0x1F & 0x1F
            &&& !n.scu.cd_prohibit
        }),
{
    let a = m.poked32(CLOCK_VAR, r.r[4], 0);
    poke_reaches_its_device(m, CLOCK_VAR, r.r[4]);
    poked_long_is_read(m, CLOCK_VAR, r.r[4], x);
    longs_apart(
        m.high,
        offset(CLOCK_VAR, HIGH_WRAM_BASE),
        offset(SCU_MASK_VAR, HIGH_WRAM_BASE),
        r.r[4],
    );
    let b = register_poked(a, 0xA8, 0);
    let c = register_poked(b, 0xB8, 0);
    clearing_keeps_registers(c, 21);
    let d = c.dma_cleared(21);
    let e = register_poked(d, 0x60, 0);
    let f = register_poked(e, 0x80, 0);
    let g = register_poked(f, 0xB0, 0x1FF0_1FF0);
    let h = register_poked(g, 0xB4, 0x1FF0_1FF0);
    let i = register_poked(h, 0xB8, 0x1F);
    let j = register_poked(i, 0xA8, 1);
    let k = register_poked(j, 0x90, 0x3FF);
    let l = register_poked(k, 0x94, 0x1FF);
    let n = register_poked(l, 0x98, 0);
    let mask = m.answer32(SCU_MASK_VAR, 0);
    assert(n.high == a.high);
    assert(n.answer32(SCU_MASK_VAR, 0) == mask);
    let o = n.peeked32(SCU_MASK_VAR, 0);
    assert(o.wf() && o.scu == n.scu && o.high == n.high) by {
        reveal(Machine::peeked32);
    }
    let p = register_poked(o, 0xA0, mask);
    let q = register_poked(p, 0xA8, 1);
    assert(m.clock_changed(r.r[4]) == p.acknowledged(mask));
    scu_is_set_up(d.scu, mask);
}

/// A call writes a register of the SCU.
proof fn register_poked(m: Machine, o: u32, v: u32) -> (p: Machine)
    requires
        m.wf(),
        0x60 <= o < 0xD0,
    ensures
        p == m.poked32((SCU_BASE + o) as u32, v, 0),
        p.wf(),
        p.high == m.high,
        p.scu == m.scu.reg_written(o, v),
{
    poke_reaches_its_device(m, (SCU_BASE + o) as u32, v);
    m.poked32((SCU_BASE + o) as u32, v, 0)
}

proof fn scu_is_set_up(u: ScuState, mask: u32)
    ensures
        ({
            let t = u.reg_written(0x60, 0).reg_written(0x80, 0).reg_written(
                0xB0,
                0x1FF0_1FF0,
            ).reg_written(0xB4, 0x1FF0_1FF0).reg_written(0xB8, 0x1F).reg_written(
                0xA8,
                1,
            ).reg_written(0x90, 0x3FF).reg_written(0x94, 0x1FF).reg_written(0x98, 0).reg_written(
                0xA0,
                mask,
            );
            let a = t.reg_written(0xA8, 1);
            &&& t.regs == a.regs && t.cd_prohibit == a.cd_prohibit && t.fresh == a.fresh
            &&& t.regs.ims == mask & 0xBFFF
            &&& t.regs.t0c == 0x3FF && t.regs.t1s == 0x1FF && t.regs.t1md == 0 && t.regs.dstp == 0
            &&& t.regs.aiack == 1 && t.regs.aref == 0x1F & 0x1F && !t.cd_prohibit
        }),
{
    mask_bits(0, 0, 0, 0);
}

// ---- laws of the call table --------------------------------------------------------

/// A long that is written leaves the others alone.
proof fn longs_apart(b: Seq<u8>, o: u32, p: u32, v: u32)
    requires
        b.len() == 0x10_0000,
        o + 4 <= b.len(),
        p + 4 <= b.len(),
        o + 4 <= p || p + 4 <= o,
    ensures
        folded32(put32(b, o, v), p) == folded32(b, p),
{
    let n = b.len() as int;
    assert((o as int % n + 0) % n == o && (o as int % n + 1) % n == o + 1 && (o as int % n + 2) % n
        == o + 2 && (o as int % n + 3) % n == o + 3);
    let c = put32(b, o, v);
    assert(c.len() == n);
    assert(folded(c, p) == folded(b, p));
    assert(folded(c, p.wrapping_add(1)) == folded(b, p.wrapping_add(1)));
    assert(folded(c, p.wrapping_add(2)) == folded(b, p.wrapping_add(2)));
    assert(folded(c, p.wrapping_add(3)) == folded(b, p.wrapping_add(3)));
}

proof fn entries_rise(i: int, j: int)
    requires
        0 <= i < j < 26,
    ensures
        0x200 <= SYS_ADDRS@[i],
        SYS_ADDRS@[i] + 4 <= SYS_ADDRS@[j],
        SYS_ADDRS@[j] <= 0x3A8,
    decreases j - i,
{
    if i + 1 < j {
        entries_rise(i, j - 1);
    }
    next_entry_rises(j - 1);
}

proof fn next_entry_rises(i: int)
    requires
        0 <= i < 25,
    ensures
        0x200 <= SYS_ADDRS@[i],
        SYS_ADDRS@[i] + 4 <= SYS_ADDRS@[i + 1] <= 0x3A8,
{
}

/// A program finds the entry address of each call in the table: the call that the
/// address stands for is the table's place.
pub proof fn table_leads_to_the_calls(m: Machine, n: int, i: int, x: u32)
    requires
        m.wf(),
        0 <= i < n <= 26,
    ensures
        ({
            let entry = m.table_installed(n).answer32((0x0600_0000 + SYS_ADDRS@[i]) as u32, x);
            entry == SYS_ADDRS@[i]
        }),
        m.table_installed(n).scu == m.scu,
    decreases n,
{
    table_keeps_shape(m, n - 1);
    let t = m.table_installed(n - 1);
    let a = (CALL_TABLE + SYS_ADDRS@[n - 1] - 0x200) as u32;
    if n > 1 {
        entries_rise(0, n - 1);
    }
    assert(0x200 <= SYS_ADDRS@[n - 1] <= 0x3A8) by {
        if n - 1 < 25 {
            next_entry_rises(n - 1);
        } else {
            next_entry_rises(24);
        }
    }
    poke_reaches_its_device(t, a, SYS_ADDRS@[n - 1]);
    if i == n - 1 {
        poked_long_is_read(t, a, SYS_ADDRS@[n - 1], x);
    } else {
        table_leads_to_the_calls(m, n - 1, i, x);
        entries_rise(i, n - 1);
        longs_apart(
            t.high,
            offset(a, HIGH_WRAM_BASE),
            offset((0x0600_0000 + SYS_ADDRS@[i]) as u32, HIGH_WRAM_BASE),
            SYS_ADDRS@[n - 1],
        );
    }
}

proof fn table_keeps_shape(m: Machine, n: int)
    requires
        m.wf(),
        0 <= n <= 26,
    ensures
        m.table_installed(n).wf(),
        m.table_installed(n).scu == m.scu,
    decreases n,
{
    if n > 0 {
        table_keeps_shape(m, n - 1);
        if n - 1 < 25 {
            next_entry_rises(n - 1);
        } else {
            next_entry_rises(24);
        }
        poke_reaches_its_device(
            m.table_installed(n - 1),
            (CALL_TABLE + SYS_ADDRS@[n - 1] - 0x200) as u32,
            SYS_ADDRS@[n - 1],
        );
    }
}

// ---- laws of the calls ---------------------------------------------------------------

/// A call has the number of its entry: the addresses from 0x200 on are four bytes apart.
pub proof fn entries_are_numbered(r: Regs, n: u32)
    requires
        n < 0x1000,
        r.pc == 0x200 + 4 * n,
    ensures
        r.call() == n,
{
    mask_bits(n, 0, 0, 0);
}

/// A handler of 0 stands for the default one; a call that is not known answers 0 and does
/// nothing.
pub proof fn defaults_are_in_place(m: Machine, r: Regs, slave: bool, x: u32)
    requires
        r.r.len() == 16,
    ensures
        r.r[5] == 0 ==> r.handler() == 0x0600_0610,
        r.r[5] != 0 ==> r.handler() == r.r[5],
        r.call() < 0x40 ==> r.done(m, slave, x, 0) == m && r.result(m, x) == Some(0u32),
        r.result(m, x) is None ==> r.returned(r.result(m, x)).r == r.r,
        r.result(m, x) matches Some(v) ==> r.returned(r.result(m, x)).r[0] == v,
{
}

} // verus!
