//! What an access of the external bus costs.
//!
//! One bus serves both main CPUs. An access waits until the bus is free, takes the
//! time of its region, and stalls the CPU until its data is there; a store goes
//! through a write buffer and stalls only while the store before it is still on
//! the bus.

use vstd::prelude::*;
use crate::bits::{low_bits, masks_bound, right_shifts};

verus! {

/// What an access is for.
#[derive(Clone, Copy, Debug, PartialEq, Eq, Structural)]
pub enum AccessKind {
    /// An instruction.
    Fetch,
    /// Data.
    Data,
    /// A further word of a cache line.
    LineFill,
    /// A transfer past the CPUs.
    Dma,
}

/// The state of the bus. Times are in clocks since power-on; they saturate.
#[derive(Clone, Copy, Debug, PartialEq, Eq, Structural)]
pub struct BusTiming {
    /// When the bus is free.
    pub mem_ts: u64,
    /// When the last store is done.
    pub write_finish: u64,
    /// When the high work RAM is done with the last write.
    pub sdram_finish: u64,
    /// When the sound and graphics chips are done with the last write.
    pub bbus_write_finish: u64,
    /// The last access: when it was done, where, and whether it read.
    pub last_time: u64,
    pub last_addr: u32,
    pub last_was_read: bool,
    /// The clock of the current instruction, and what it has paid.
    pub cycle_seen: u64,
    pub charged: u64,
}

/// One access.
#[derive(Clone, Copy, Debug, PartialEq, Eq, Structural)]
pub struct Access {
    pub addr: u32,
    /// Bytes: 1, 2 or 4.
    pub width: u32,
    pub write: bool,
    pub kind: AccessKind,
    /// The setting of the cartridge's waits.
    pub asr0: u32,
    /// What a sprite engine that is drawing adds.
    pub draw: u32,
}

// ---- costs ------------------------------------------------------------------------

/// Bus cycles of 16 bits.
pub open spec fn halves(width: u32) -> int {
    if width == 4 {
        2
    } else {
        1
    }
}

/// Clocks of 16 bits of ROM, system registers, backup RAM, low work RAM, or the
/// trigger of the other CPU.
pub open spec fn cs0_half_cost(addr: u32) -> int {
    if addr <= 0x000F_FFFF {
        8
    } else if addr <= 0x0017_FFFF {
        0
    } else if addr <= 0x001F_FFFF {
        8
    } else if addr <= 0x003F_FFFF {
        7
    } else if 0x0100_0000 <= addr <= 0x01FF_FFFF {
        8
    } else {
        4
    }
}

/// Clocks of the sound and graphics chips: to read 16 bits, and to be done with
/// the first and the second 16 bits of a write.
pub open spec fn bbus_cost(addr: u32) -> (int, int, int) {
    if 0x05A0_0000 <= addr <= 0x05BF_FFFF {
        (24, 17, 13)
    } else if 0x05C0_0000 <= addr <= 0x05D7_FFFF {
        (
            14,
            9,
            if addr & 0x10_0000 == 0 {
                1
            } else {
                0
            },
        )
    } else if 0x05E0_0000 <= addr <= 0x05FB_FFFF {
        (20, 3, 1)
    } else {
        (0, 0, 0)
    }
}

/// Clocks of the cartridge, as set, and of the CD-block.
pub open spec fn cs12_cost(addr: u32, width: u32, write: bool, asr0: u32) -> int {
    if 0x0200_0000 <= addr <= 0x04FF_FFFF {
        let cfg = if addr & 0x0400_0000 != 0 {
            asr0 & 0xFFFF
        } else {
            asr0 >> 16
        };
        let strobe = if write {
            (cfg >> 14) & 1
        } else {
            (cfg >> 13) & 1
        };
        (5 + ((cfg >> 4) & 0xF) + strobe) * halves(width)
    } else if 0x0580_0000 <= addr <= 0x058F_FFFF {
        8 * halves(width)
    } else {
        0
    }
}

/// Clocks of a transfer past the CPUs.
pub open spec fn dma_cost(a: Access) -> int {
    if 0x0600_0000 <= a.addr <= 0x07FF_FFFF {
        if a.write {
            3
        } else {
            6
        }
    } else if 0x05A0_0000 <= a.addr <= 0x05BF_FFFF {
        13 * halves(a.width)
    } else if 0x05C0_0000 <= a.addr <= 0x05FB_FFFF {
        halves(a.width)
    } else if a.addr < 0x0200_0000 {
        cs0_half_cost(a.addr) * halves(a.width)
    } else {
        cs12_cost(a.addr, a.width, a.write, a.asr0)
    }
}

fn halves_of(width: u32) -> (r: u64)
    ensures
        r == halves(width),
        1 <= r <= 2,
{
    if width == 4 {
        2
    } else {
        1
    }
}

fn cs0_cost_of(addr: u32) -> (r: u64)
    ensures
        r == cs0_half_cost(addr),
        r <= 8,
{
    if addr <= 0x000F_FFFF {
        8
    } else if addr <= 0x0017_FFFF {
        0
    } else if addr <= 0x001F_FFFF {
        8
    } else if addr <= 0x003F_FFFF {
        7
    } else if 0x0100_0000 <= addr && addr <= 0x01FF_FFFF {
        8
    } else {
        4
    }
}

fn bbus_cost_of(addr: u32) -> (r: (u64, u64, u64))
    ensures
        (r.0 as int, r.1 as int, r.2 as int) == bbus_cost(addr),
        r.0 <= 24,
        r.1 <= 17,
        r.2 <= 13,
{
    if 0x05A0_0000 <= addr && addr <= 0x05BF_FFFF {
        (24, 17, 13)
    } else if 0x05C0_0000 <= addr && addr <= 0x05D7_FFFF {
        (
            14,
            9,
            if addr & 0x10_0000 == 0 {
                1
            } else {
                0
            },
        )
    } else if 0x05E0_0000 <= addr && addr <= 0x05FB_FFFF {
        (20, 3, 1)
    } else {
        (0, 0, 0)
    }
}

fn cs12_cost_of(addr: u32, width: u32, write: bool, asr0: u32) -> (r: u64)
    ensures
        r == cs12_cost(addr, width, write, asr0),
        r <= 42,
{
    let n: u64 = halves_of(width);
    if 0x0200_0000 <= addr && addr <= 0x04FF_FFFF {
        let cfg: u32 = if addr & 0x0400_0000 != 0 {
            asr0 & 0xFFFF
        } else {
            asr0 >> 16
        };
        let strobe: u32 = if write {
            (cfg >> 14) & 1
        } else {
            (cfg >> 13) & 1
        };
        proof {
            masks_bound();
        }
        let waits: u32 = (cfg >> 4) & 0xF;
        let c: u64 = 5 + waits as u64 + strobe as u64;
        assert(c * n <= 42) by (nonlinear_arith)
            requires
                c <= 21,
                1 <= n <= 2,
        ;
        c * n
    } else if 0x0580_0000 <= addr && addr <= 0x058F_FFFF {
        8 * n
    } else {
        0
    }
}

fn dma_cost_of(a: &Access) -> (r: u64)
    ensures
        r == dma_cost(*a),
        r <= 42,
{
    if 0x0600_0000 <= a.addr && a.addr <= 0x07FF_FFFF {
        if a.write {
            3
        } else {
            6
        }
    } else if 0x05A0_0000 <= a.addr && a.addr <= 0x05BF_FFFF {
        13 * halves_of(a.width)
    } else if 0x05C0_0000 <= a.addr && a.addr <= 0x05FB_FFFF {
        halves_of(a.width)
    } else if a.addr < 0x0200_0000 {
        let c: u64 = cs0_cost_of(a.addr);
        let n: u64 = halves_of(a.width);
        assert(0 <= c * n <= 16) by (nonlinear_arith)
            requires
                c <= 8,
                1 <= n <= 2,
        ;
        c * n
    } else {
        cs12_cost_of(a.addr, a.width, a.write, a.asr0)
    }
}

// ---- the bus ----------------------------------------------------------------------

/// `t` and `d` clocks, at most the last clock.
pub open spec fn later(t: u64, d: int) -> u64 {
    if t + d > u64::MAX {
        u64::MAX
    } else {
        (t + d) as u64
    }
}

/// The later of two times.
pub open spec fn latest(a: u64, b: u64) -> u64 {
    if a < b {
        b
    } else {
        a
    }
}

impl BusTiming {
    /// A bus that nothing has used.
    pub open spec fn idle() -> BusTiming {
        BusTiming {
            mem_ts: 0,
            write_finish: 0,
            sdram_finish: 0,
            bbus_write_finish: 0,
            last_time: u64::MAX,
            last_addr: 0,
            last_was_read: false,
            cycle_seen: u64::MAX,
            charged: 0,
        }
    }

    /// The bus is free at `now` at the earliest. It needs a clock to turn around:
    /// between reads of different regions, and from a read to a write. A further
    /// word of a cache line does not turn it.
    pub open spec fn begun(self, now: u64, a: Access) -> BusTiming {
        let t = latest(self.mem_ts, now);
        let turns = !(a.kind is LineFill) && t == self.last_time && if a.write {
            self.last_was_read
        } else {
            (self.last_addr ^ a.addr) & 0x0600_0000 != 0
        };
        BusTiming {
            mem_ts: if turns {
                later(t, 1)
            } else {
                t
            },
            ..self
        }
    }

    /// The access of the high work RAM. The further words of a cache line are
    /// free; a write keeps it busy for two clocks more.
    pub open spec fn sdram_accessed(self, a: Access) -> BusTiming {
        if a.kind is LineFill {
            self
        } else {
            let t = later(
                latest(self.mem_ts, self.sdram_finish),
                if a.write {
                    2
                } else {
                    7
                },
            );
            BusTiming {
                mem_ts: t,
                sdram_finish: if a.write {
                    later(t, 2)
                } else {
                    self.sdram_finish
                },
                ..self
            }
        }
    }

    /// The access of a sound or graphics chip. It waits until the chip is done with
    /// the last write; a write takes two clocks, and keeps the chip busy.
    pub open spec fn bbus_accessed(self, a: Access) -> BusTiming {
        let (read, first, second) = bbus_cost(a.addr);
        let t = latest(self.mem_ts, self.bbus_write_finish);
        if a.write {
            BusTiming {
                mem_ts: later(later(t, 2), a.draw as int),
                bbus_write_finish: later(
                    later(t, 2),
                    first + if a.width == 4 {
                        second
                    } else {
                        0
                    },
                ),
                ..self
            }
        } else {
            BusTiming { mem_ts: later(later(t, read * 2), a.draw as int), ..self }
        }
    }

    /// The access itself.
    pub open spec fn accessed(self, a: Access) -> BusTiming {
        if a.addr < 0x0200_0000 {
            BusTiming {
                mem_ts: later(self.mem_ts, cs0_half_cost(a.addr) * halves(a.width)),
                ..self
            }
        } else if 0x0600_0000 <= a.addr <= 0x07FF_FFFF {
            self.sdram_accessed(a)
        } else if 0x05A0_0000 <= a.addr <= 0x05FB_FFFF {
            self.bbus_accessed(a)
        } else {
            BusTiming {
                mem_ts: later(self.mem_ts, cs12_cost(a.addr, a.width, a.write, a.asr0) + a.draw),
                ..self
            }
        }
    }

    /// The access is the last one.
    pub open spec fn noted(self, a: Access) -> BusTiming {
        if a.kind is LineFill {
            self
        } else {
            BusTiming {
                last_addr: a.addr,
                last_was_read: !a.write,
                last_time: self.mem_ts,
                ..self
            }
        }
    }

    /// What the instruction at `now` has paid so far.
    pub open spec fn paid(self, now: u64) -> u64 {
        if self.cycle_seen == now {
            self.charged
        } else {
            0
        }
    }

    /// What it has to pay to get to `target`: only what it has not paid.
    pub open spec fn due(self, now: u64, target: u64) -> int {
        let d = target - now - self.paid(now);
        if d > 0 {
            d
        } else {
            0
        }
    }

    pub open spec fn settled(self, now: u64, target: u64) -> BusTiming {
        BusTiming {
            cycle_seen: now,
            charged: (self.paid(now) + self.due(now, target)) as u64,
            ..self
        }
    }

    /// The bus after an access, and what the CPU is stalled. A read stalls it until
    /// its data is there, a write until the last store is done. A transfer past the
    /// CPUs has its own time.
    #[verifier::opaque]
    pub open spec fn charge(self, now: u64, a: Access) -> (BusTiming, u32) {
        if a.kind is Dma {
            (self, (dma_cost(a) + a.draw) as u64 as u32)
        } else {
            let t = self.begun(now, a).accessed(a).noted(a);
            if a.write {
                let u = BusTiming { write_finish: t.mem_ts, ..t };
                (u.settled(now, t.write_finish), u.due(now, t.write_finish) as u64 as u32)
            } else {
                (t.settled(now, t.mem_ts), t.due(now, t.mem_ts) as u64 as u32)
            }
        }
    }
}

impl Default for BusTiming {
    fn default() -> (r: BusTiming)
        ensures
            r == BusTiming::idle(),
    {
        BusTiming {
            mem_ts: 0,
            write_finish: 0,
            sdram_finish: 0,
            bbus_write_finish: 0,
            last_time: u64::MAX,
            last_addr: 0,
            last_was_read: false,
            cycle_seen: u64::MAX,
            charged: 0,
        }
    }
}

impl BusTiming {
    fn wait_until(&mut self, t: u64)
        ensures
            *final(self) == (BusTiming { mem_ts: latest(old(self).mem_ts, t), ..*old(self) }),
    {
        if self.mem_ts < t {
            self.mem_ts = t;
        }
    }

    fn begin(&mut self, now: u64, a: &Access)
        ensures
            *final(self) == old(self).begun(now, *a),
    {
        self.wait_until(now);
        if a.kind != AccessKind::LineFill && self.mem_ts == self.last_time {
            let turns: bool = if a.write {
                self.last_was_read
            } else {
                (self.last_addr ^ a.addr) & 0x0600_0000 != 0
            };
            if turns {
                self.mem_ts = self.mem_ts.saturating_add(1);
            }
        }
    }

    fn access_sdram(&mut self, a: &Access)
        ensures
            *final(self) == old(self).sdram_accessed(*a),
    {
        if a.kind != AccessKind::LineFill {
            let t: u64 = self.sdram_finish;
            self.wait_until(t);
            if a.write {
                self.mem_ts = self.mem_ts.saturating_add(2);
                self.sdram_finish = self.mem_ts.saturating_add(2);
            } else {
                self.mem_ts = self.mem_ts.saturating_add(7);
            }
        }
    }

    fn access_bbus(&mut self, a: &Access)
        ensures
            *final(self) == old(self).bbus_accessed(*a),
    {
        let t: u64 = self.bbus_write_finish;
        self.wait_until(t);
        let (read, first, second) = bbus_cost_of(a.addr);
        if a.write {
            self.mem_ts = self.mem_ts.saturating_add(2);
            let more: u64 = if a.width == 4 {
                second
            } else {
                0
            };
            self.bbus_write_finish = self.mem_ts.saturating_add(first + more);
        } else {
            self.mem_ts = self.mem_ts.saturating_add(read * 2);
        }
        self.mem_ts = self.mem_ts.saturating_add(a.draw as u64);
    }

    fn access(&mut self, a: &Access)
        ensures
            *final(self) == old(self).accessed(*a),
    {
        if a.addr < 0x0200_0000 {
            let c: u64 = cs0_cost_of(a.addr);
            let n: u64 = halves_of(a.width);
            assert(0 <= c * n <= 16) by (nonlinear_arith)
                requires
                    c <= 8,
                    1 <= n <= 2,
            ;
            self.mem_ts = self.mem_ts.saturating_add(c * n);
        } else if 0x0600_0000 <= a.addr && a.addr <= 0x07FF_FFFF {
            self.access_sdram(a);
        } else if 0x05A0_0000 <= a.addr && a.addr <= 0x05FB_FFFF {
            self.access_bbus(a);
        } else {
            let c: u64 = cs12_cost_of(a.addr, a.width, a.write, a.asr0);
            self.mem_ts = self.mem_ts.saturating_add(c + a.draw as u64);
        }
    }

    fn pay(&mut self, now: u64, target: u64) -> (r: u32)
        ensures
            *final(self) == old(self).settled(now, target),
            r == old(self).due(now, target) as u64 as u32,
    {
        if self.cycle_seen != now {
            self.cycle_seen = now;
            self.charged = 0;
        }
        let due: u64 = target.saturating_sub(now).saturating_sub(self.charged);
        self.charged = self.charged + due;
        due as u32
    }

    /// Performs an access at clock `now`; gives what the CPU is stalled.
    pub fn perform(&mut self, now: u64, a: &Access) -> (r: u32)
        ensures
            (*final(self), r) == old(self).charge(now, *a),
    {
        reveal(BusTiming::charge);
        if a.kind == AccessKind::Dma {
            return (dma_cost_of(a) + a.draw as u64) as u32;
        }
        self.begin(now, a);
        self.access(a);
        if a.kind != AccessKind::LineFill {
            self.last_addr = a.addr;
            self.last_was_read = !a.write;
            self.last_time = self.mem_ts;
        }
        if a.write {
            let target: u64 = self.write_finish;
            self.write_finish = self.mem_ts;
            self.pay(now, target)
        } else {
            let target: u64 = self.mem_ts;
            self.pay(now, target)
        }
    }
}

// ---- laws -------------------------------------------------------------------------

/// The bus never goes back in time: an access ends no earlier than it is asked for,
/// and no earlier than the one before it.
pub proof fn bus_time_moves_on(t: BusTiming, now: u64, a: Access)
    ensures
        t.charge(now, a).0.mem_ts >= t.mem_ts,
        !(a.kind is Dma) ==> t.charge(now, a).0.mem_ts >= now,
{
    reveal(BusTiming::charge);
    costs_are_not_negative(a);
}

proof fn costs_are_not_negative(a: Access)
    ensures
        cs12_cost(a.addr, a.width, a.write, a.asr0) >= 0,
        cs0_half_cost(a.addr) * halves(a.width) >= 0,
{
    let cfg = if a.addr & 0x0400_0000 != 0 {
        a.asr0 & 0xFFFF
    } else {
        a.asr0 >> 16
    };
    let c = 5 + ((cfg >> 4) & 0xF) + if a.write {
        (cfg >> 14) & 1
    } else {
        (cfg >> 13) & 1
    };
    let n = halves(a.width);
    assert(c * n >= 0) by (nonlinear_arith)
        requires
            c >= 0,
            n >= 1,
    ;
    let d = cs0_half_cost(a.addr);
    assert(d * n >= 0) by (nonlinear_arith)
        requires
            d >= 0,
            n >= 1,
    ;
}

/// The accesses of an instruction add up: whatever came before them, after a read
/// the instruction has paid all the time until the bus is free, and no more.
pub proof fn reads_add_up(t: BusTiming, now: u64, a: Access)
    requires
        !(a.kind is Dma),
        !a.write,
        t.paid(now) <= latest(t.mem_ts, now) - now,
    ensures
        ({
            let (u, stall) = t.charge(now, a);
            u.paid(now) == u.mem_ts - now && u.mem_ts - now <= u32::MAX ==> stall == u.mem_ts - now
                - t.paid(now)
        }),
        t.charge(now, a).0.paid(now) == t.charge(now, a).0.mem_ts - now,
{
    reveal(BusTiming::charge);
    costs_are_not_negative(a);
}

/// A store does not wait for itself: with no store on the bus, it costs the CPU
/// nothing.
pub proof fn lone_store_is_free(t: BusTiming, now: u64, a: Access)
    requires
        !(a.kind is Dma),
        a.write,
        t.write_finish <= now,
    ensures
        t.charge(now, a).1 == 0,
{
    reveal(BusTiming::charge);
}

/// A transfer past the CPUs leaves the bus as it is.
pub proof fn dma_leaves_the_bus(t: BusTiming, now: u64, a: Access)
    requires
        a.kind is Dma,
    ensures
        t.charge(now, a).0 == t,
{
    reveal(BusTiming::charge);
}

/// The bus has nothing to do at `now`, and no instruction has paid for it.
pub open spec fn is_quiet(t: BusTiming, now: u64) -> bool {
    &&& t.mem_ts <= now && t.write_finish <= now && t.sdram_finish <= now && t.bbus_write_finish <= now
    &&& t.last_time != now
    &&& t.cycle_seen != now
    &&& now < 0x1_0000_0000_0000
}

/// A read on a quiet bus takes the time of what it reads: by 16 bits for ROM, system
/// registers, backup RAM, low work RAM, the sound and graphics chips and the CD-block,
/// and seven clocks for the high work RAM at any width.
pub proof fn lone_read_takes_its_time(t: BusTiming, now: u64, a: Access)
    requires
        is_quiet(t, now),
        a.kind is Data || a.kind is Fetch,
        !a.write,
        a.draw == 0,
        a.width == 2 || a.width == 4,
    ensures
        ({
            let n: int = if a.width == 4 {
                2
            } else {
                1
            };
            let stall = t.charge(now, a).1;
            &&& a.addr <= 0x000F_FFFF ==> stall == 8 * n
            &&& 0x0018_0000 <= a.addr <= 0x001F_FFFF ==> stall == 8 * n
            &&& 0x0020_0000 <= a.addr <= 0x003F_FFFF ==> stall == 7 * n
            &&& 0x0580_0000 <= a.addr <= 0x058F_FFFF ==> stall == 8 * n
            &&& 0x05A0_0000 <= a.addr <= 0x05BF_FFFF ==> stall == 48
            &&& 0x05C0_0000 <= a.addr <= 0x05D7_FFFF ==> stall == 28
            &&& 0x05E0_0000 <= a.addr <= 0x05FB_FFFF ==> stall == 40
            &&& 0x0600_0000 <= a.addr <= 0x07FF_FFFF ==> stall == 7
        }),
{
    reveal(BusTiming::charge);
    let c = cs0_half_cost(a.addr);
    if a.width == 4 {
        assert(c * halves(a.width) == 2 * c);
    } else {
        assert(c * halves(a.width) == c);
    }
}

/// A read waits for what is on the bus before it: as long as that takes, and a clock
/// more where the bus turns around to another region.
pub proof fn read_waits_for_the_bus(t: BusTiming, now: u64, a: Access)
    requires
        now <= t.mem_ts < 0x1_0000_0000_0000,
        t.sdram_finish <= t.mem_ts,
        t.cycle_seen != now,
        t.mem_ts - now < 0x1000_0000,
        a.kind is Data,
        !a.write,
        0x0600_0000 <= a.addr <= 0x07FF_FFFF,
    ensures
        ({
            let stall = t.charge(now, a).1;
            &&& t.last_time != t.mem_ts ==> stall == t.mem_ts - now + 7
            &&& t.last_time == t.mem_ts && (t.last_addr ^ a.addr) & 0x0600_0000 != 0 ==> stall
                == t.mem_ts - now + 8
            &&& t.last_time == t.mem_ts && (t.last_addr ^ a.addr) & 0x0600_0000 == 0 ==> stall
                == t.mem_ts - now + 7
        }),
{
    reveal(BusTiming::charge);
}

/// A write is over for the CPU at once, and keeps what it writes to busy: the next read of
/// the high work RAM waits two clocks longer.
pub proof fn write_keeps_the_ram_busy(t: BusTiming, now: u64, a: Access, b: Access)
    requires
        is_quiet(t, now),
        a.kind is Data && b.kind is Data,
        a.write && !b.write,
        0x0600_0000 <= a.addr <= 0x07FF_FFFF,
        b.addr == a.addr,
    ensures
        ({
            let u = t.charge(now, a).0;
            &&& u.mem_ts == now + 2 && u.sdram_finish == now + 4
            &&& u.charge(now, b).0.mem_ts == now + 4 + 7
        }),
{
    reveal(BusTiming::charge);
    same_region(a.addr);
}

proof fn same_region(x: u32)
    by (bit_vector)
    ensures
        (x ^ x) & 0x0600_0000 == 0,
        x <= 0x03FF_FFFF ==> x & 0x0400_0000 == 0,
{
}

/// The cartridge takes five clocks and what its setting adds, for each 16 bits: four bits
/// of waits, and one for the strobe of its direction. The upper half of the setting is
/// that of the lower half of the cartridge.
pub proof fn cartridge_waits_as_set(addr: u32, write: bool, asr0: u32)
    requires
        0x0200_0000 <= addr <= 0x03FF_FFFF,
    ensures
        ({
            let cfg = asr0 as int / 0x1_0000;
            let wait = cfg / 16 % 16;
            let strobe = if write {
                cfg / 0x4000 % 2
            } else {
                cfg / 0x2000 % 2
            };
            &&& cs12_cost(addr, 2, write, asr0) == 5 + wait + strobe
            &&& cs12_cost(addr, 4, write, asr0) == 2 * (5 + wait + strobe)
        }),
{
    same_region(addr);
    let c = asr0 >> 16;
    assert(c == asr0 as int / 0x1_0000 && (c >> 4) & 0xF == c as int / 16 % 16 && (c >> 14) & 1 == c
        as int / 0x4000 % 2 && (c >> 13) & 1 == c as int / 0x2000 % 2) by {
        low_bits();
        right_shifts();
    }
}

} // verus!
