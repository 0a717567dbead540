//! What a debugger records of the sound CPU.

use std::collections::VecDeque;
use vstd::prelude::*;
use crate::bits::masks_bound;
use crate::memory::{folded, folded16, folded32, Ram};

verus! {

/// The registers of the sound CPU.
#[derive(Clone, Copy, Debug)]
pub struct M68kRegs {
    pub pc: u32,
    pub d: [u32; 8],
    pub a: [u32; 8],
    /// Interrupt mask and mode of the status register.
    pub imask: u8,
    pub supervisor: bool,
    /// Clocks so far.
    pub cycles: u64,
}

/// The registers at a breakpoint.
#[derive(Clone, Debug)]
pub struct M68kBpHit {
    pub pc: u32,
    pub d: [u32; 8],
    pub a: [u32; 8],
    pub sr_imask: u8,
    pub sr_super: bool,
}

impl Default for M68kBpHit {
    fn default() -> (r: M68kBpHit)
        ensures
            r.pc == 0,
            r.d@ == Seq::new(8, |i: int| 0u32),
            r.a@ == Seq::new(8, |i: int| 0u32),
            r.sr_imask == 0,
            !r.sr_super,
    {
        let r = M68kBpHit {
            pc: 0,
            d: [0u32; 8],
            a: [0u32; 8],
            sr_imask: 0,
            sr_super: false,
        };
        assert(r.d@ =~= Seq::new(8, |i: int| 0u32));
        assert(r.a@ =~= Seq::new(8, |i: int| 0u32));
        r
    }
}

/// Samples of sound RAM, one row per execution of an instruction. A channel is a
/// name, an address and a width: 1, 2 or 4 bytes, or 0 for the sum of 256 bytes.
#[derive(Clone, Debug)]
pub struct ScopeCap {
    pub trigger_pc: u32,
    pub channels: Vec<(String, u32, u8)>,
    pub rows: Vec<Vec<u32>>,
    pub max: usize,
}

/// A trace that ends at the first command for the music.
#[derive(Clone, Debug)]
pub struct ITrace {
    pub frozen: bool,
    /// Sequence ticks.
    pub seq_ticks: u32,
    /// Output samples at the first tick, and at the end.
    pub first: u64,
    pub trigger: u64,
    /// Address, clock, D4 and D7 of the last instructions.
    pub ring: VecDeque<(u32, u64, u32, u32)>,
}

/// What is recorded; `None` for what is not.
#[derive(Clone, Debug)]
pub struct Probes {
    /// Addresses of the last instructions, repetitions left out.
    pub pc_trace: Option<VecDeque<u32>>,
    /// A breakpoint: an address, and a register with the value it has to have.
    pub bp68: Option<(u32, Option<(u8, u32)>)>,
    pub bp68_hit: Option<M68kBpHit>,
    /// All addresses, in order.
    pub pc_seen: Option<Vec<u32>>,
    /// An address, and D0 to D3 and A6 whenever it is reached.
    pub enq_log: Option<(u32, Vec<[u32; 5]>)>,
    pub itrace: Option<ITrace>,
    pub scope: Option<ScopeCap>,
    /// An address of sound RAM, its byte, and the changes of it.
    pub wwatch68: Option<(u32, u8, Vec<(u32, u8, u8)>)>,
    /// Addresses and clocks of all instructions.
    pub pcstream: Option<Vec<(u32, u64)>>,
}

/// Limits of the recordings.
pub const TRACE_LIMIT: usize = 16384;

pub const LOG_LIMIT: usize = 8192;

pub const ITRACE_LIMIT: usize = 6000;

pub const STREAM_LIMIT: usize = 8_000_000;

pub const WATCH_LIMIT: usize = 4096;

/// The instruction of a sequence tick, that of a command for the music, and the
/// range of the driver.
pub const TICK_PC: u32 = 0x40F2;

pub const COMMAND_PC: u32 = 0x4B9A;

pub const DRIVER_START: u32 = 0x1000;

pub const DRIVER_END: u32 = 0x5200;

// ---- what is recorded ---------------------------------------------------------------

/// A ring with one more item, and without its first if it is too long.
pub open spec fn ring_with<T>(ring: Seq<T>, item: T, limit: int) -> Seq<T> {
    if ring.len() + 1 > limit {
        ring.push(item).subrange(1, ring.len() as int + 1)
    } else {
        ring.push(item)
    }
}

pub open spec fn traced(a: Option<VecDeque<u32>>, b: Option<VecDeque<u32>>, pc: u32) -> bool {
    match (a, b) {
        (Some(x), Some(y)) => y@ == if x@.len() > 0 && x@.last() == pc {
            x@
        } else {
            ring_with(x@, pc, TRACE_LIMIT as int)
        },
        (None, None) => true,
        _ => false,
    }
}

/// A list in order, without repetitions.
pub open spec fn ordered(s: Seq<u32>) -> bool {
    forall|i: int, j: int| 0 <= i < j < s.len() ==> s[i] < s[j]
}

/// The addresses with one more. They stay in order if they were.
pub open spec fn seen(a: Option<Vec<u32>>, b: Option<Vec<u32>>, pc: u32) -> bool {
    match (a, b) {
        (Some(x), Some(y)) => ordered(x@) ==> ordered(y@) && y@.to_set() == x@.to_set().insert(pc),
        (None, None) => true,
        _ => false,
    }
}

pub open spec fn logged(
    a: Option<(u32, Vec<[u32; 5]>)>,
    b: Option<(u32, Vec<[u32; 5]>)>,
    r: M68kRegs,
) -> bool {
    match (a, b) {
        (Some((p, x)), Some((q, y))) => p == q && y@ == if r.pc == p && x@.len() < LOG_LIMIT {
            x@.push([r.d@[0], r.d@[1], r.d@[2], r.d@[3], r.a@[6]])
        } else {
            x@
        },
        (None, None) => true,
        _ => false,
    }
}

/// The trace with an instruction: it counts the ticks and notes the samples, and
/// ends at a command for the music.
pub open spec fn itraced(a: Option<ITrace>, b: Option<ITrace>, r: M68kRegs, samples: u64) -> bool {
    match (a, b) {
        (Some(x), Some(y)) => {
            if x.frozen {
                x == y
            } else {
                let inside = DRIVER_START <= r.pc < DRIVER_END;
                let ends = inside && r.pc == COMMAND_PC;
                &&& y.frozen == ends
                &&& y.seq_ticks == if r.pc == TICK_PC {
                    x.seq_ticks.wrapping_add(1)
                } else {
                    x.seq_ticks
                }
                &&& y.first == if r.pc == TICK_PC && x.seq_ticks == 0 {
                    samples
                } else {
                    x.first
                }
                &&& y.trigger == if ends {
                    samples
                } else {
                    x.trigger
                }
                &&& y.ring@ == if inside {
                    ring_with(x.ring@, (r.pc, r.cycles, r.d@[4], r.d@[7]), ITRACE_LIMIT as int)
                } else {
                    x.ring@
                }
            }
        },
        (None, None) => true,
        _ => false,
    }
}

pub open spec fn streamed(
    a: Option<Vec<(u32, u64)>>,
    b: Option<Vec<(u32, u64)>>,
    r: M68kRegs,
) -> bool {
    match (a, b) {
        (Some(x), Some(y)) => y@ == if x@.len() < STREAM_LIMIT {
            x@.push((r.pc, r.cycles))
        } else {
            x@
        },
        (None, None) => true,
        _ => false,
    }
}

/// The sum of `n` bytes, modulo 2^32.
pub open spec fn byte_sum(ram: Seq<u8>, addr: u32, n: nat) -> u32
    decreases n,
{
    if n == 0 {
        0
    } else {
        byte_sum(ram, addr, (n - 1) as nat).wrapping_add(
            folded(ram, addr.wrapping_add((n - 1) as u32)) as u32,
        )
    }
}

/// The value of a channel.
pub open spec fn channel_value(ram: Seq<u8>, addr: u32, width: u8) -> u32 {
    if width == 0 {
        byte_sum(ram, addr, 0x100)
    } else if width == 1 {
        folded(ram, addr) as u32
    } else if width == 2 {
        folded16(ram, addr) as u32
    } else {
        folded32(ram, addr)
    }
}

/// A row: the clock, and the values of the channels.
pub open spec fn scope_row(c: Seq<(String, u32, u8)>, ram: Seq<u8>, cycles: u64) -> Seq<u32> {
    Seq::new(
        c.len() + 1,
        |i: int|
            if i == 0 {
                cycles as u32
            } else {
                channel_value(ram, c[i - 1].1, c[i - 1].2)
            },
    )
}

pub open spec fn scoped(
    a: Option<ScopeCap>,
    b: Option<ScopeCap>,
    r: M68kRegs,
    ram: Seq<u8>,
) -> bool {
    match (a, b) {
        (Some(x), Some(y)) => {
            &&& y.trigger_pc == x.trigger_pc
            &&& y.channels == x.channels
            &&& y.max == x.max
            &&& if r.pc == x.trigger_pc && x.rows@.len() < x.max {
                &&& y.rows@.len() == x.rows@.len() + 1
                &&& y.rows@.drop_last() == x.rows@
                &&& y.rows@.last()@ == scope_row(x.channels@, ram, r.cycles)
            } else {
                y.rows@ == x.rows@
            }
        },
        (None, None) => true,
        _ => false,
    }
}

/// The register that a guard names: D0 to D7, then A0 to A7.
pub open spec fn guard_register(r: M68kRegs, i: u8) -> u32 {
    if i < 8 {
        r.d@[i as int]
    } else {
        r.a@[(i & 7) as int]
    }
}

/// Whether a breakpoint applies.
pub open spec fn breaks(bp: Option<(u32, Option<(u8, u32)>)>, r: M68kRegs) -> bool {
    match bp {
        Some((pc, guard)) => r.pc == pc && match guard {
            Some((i, v)) => guard_register(r, i) == v,
            None => true,
        },
        None => false,
    }
}

/// The hit of a breakpoint: the first stays.
pub open spec fn hit(
    bp: Option<(u32, Option<(u8, u32)>)>,
    a: Option<M68kBpHit>,
    b: Option<M68kBpHit>,
    r: M68kRegs,
) -> bool {
    if a is None && breaks(bp, r) {
        &&& b matches Some(h)
        &&& h.pc == r.pc
        &&& h.d@ == r.d@
        &&& h.a@ == r.a@
        &&& h.sr_imask == r.imask
        &&& h.sr_super == r.supervisor
    } else {
        a == b
    }
}

pub open spec fn watched(
    a: Option<(u32, u8, Vec<(u32, u8, u8)>)>,
    b: Option<(u32, u8, Vec<(u32, u8, u8)>)>,
    pc: u32,
    ram: Seq<u8>,
) -> bool {
    match (a, b) {
        (Some((p, last, x)), Some((q, now, y))) => {
            &&& p == q
            &&& now == folded(ram, p)
            &&& y@ == if now != last && x@.len() < WATCH_LIMIT {
                x@.push((pc, last, now))
            } else {
                x@
            }
        },
        (None, None) => true,
        _ => false,
    }
}

// ---- recording ------------------------------------------------------------------------

fn trace(t: &mut Option<VecDeque<u32>>, pc: u32)
    ensures
        traced(*old(t), *final(t), pc),
{
    if let Some(mut ring) = t.take() {
        let n: usize = ring.len();
        if n == 0 || ring[n - 1] != pc {
            ring.push_back(pc);
            if ring.len() > TRACE_LIMIT {
                let _ = ring.pop_front();
            }
        }
        *t = Some(ring);
    }
}

fn see(t: &mut Option<Vec<u32>>, pc: u32)
    ensures
        seen(*old(t), *final(t), pc),
{
    if let Some(mut list) = t.take() {
        let ghost before = list@;
        let n: usize = list.len();
        let mut i: usize = 0;
        while i < n && list[i] < pc
            invariant
                i <= n == list@.len(),
                list@ == before,
                forall|k: int| 0 <= k < i ==> #[trigger] list@[k] < pc,
            decreases n - i,
        {
            i += 1;
        }
        if i == n || list[i] != pc {
            list.insert(i, pc);
            proof {
                assert forall|x: u32| list@.to_set().contains(x) implies before.to_set().insert(
                    pc,
                ).contains(x) by {
                    let k = choose|k: int| 0 <= k < list@.len() && list@[k] == x;
                    if k < i {
                        assert(before[k] == x);
                    } else if k > i {
                        assert(before[k - 1] == x);
                    }
                }
                assert forall|x: u32| before.to_set().insert(pc).contains(
                    x,
                ) implies list@.to_set().contains(x) by {
                    if x == pc {
                        assert(list@[i as int] == x);
                    } else {
                        let k = choose|k: int| 0 <= k < before.len() && before[k] == x;
                        if k < i {
                            assert(list@[k] == x);
                        } else {
                            assert(list@[k + 1] == x);
                        }
                    }
                }
                assert(list@.to_set() =~= before.to_set().insert(pc));
            }
        } else {
            proof {
                assert(before[i as int] == pc);
                assert(before.to_set().contains(pc));
                assert(list@.to_set() =~= before.to_set().insert(pc));
            }
        }
        *t = Some(list);
    }
}

fn log(t: &mut Option<(u32, Vec<[u32; 5]>)>, r: &M68kRegs)
    ensures
        logged(*old(t), *final(t), *r),
{
    if let Some((pc, mut list)) = t.take() {
        if r.pc == pc && list.len() < LOG_LIMIT {
            list.push([r.d[0], r.d[1], r.d[2], r.d[3], r.a[6]]);
        }
        *t = Some((pc, list));
    }
}

fn itrace(t: &mut Option<ITrace>, r: &M68kRegs, samples: u64)
    ensures
        itraced(*old(t), *final(t), *r, samples),
{
    if let Some(mut x) = t.take() {
        if !x.frozen {
            if r.pc == TICK_PC {
                if x.seq_ticks == 0 {
                    x.first = samples;
                }
                x.seq_ticks = x.seq_ticks.wrapping_add(1);
            }
            if DRIVER_START <= r.pc && r.pc < DRIVER_END {
                x.ring.push_back((r.pc, r.cycles, r.d[4], r.d[7]));
                if x.ring.len() > ITRACE_LIMIT {
                    let _ = x.ring.pop_front();
                }
                if r.pc == COMMAND_PC {
                    x.trigger = samples;
                    x.frozen = true;
                }
            }
        }
        *t = Some(x);
    }
}

fn stream(t: &mut Option<Vec<(u32, u64)>>, r: &M68kRegs)
    ensures
        streamed(*old(t), *final(t), *r),
{
    if let Some(mut list) = t.take() {
        if list.len() < STREAM_LIMIT {
            list.push((r.pc, r.cycles));
        }
        *t = Some(list);
    }
}

fn read_channel(ram: &Ram, addr: u32, width: u8) -> (r: u32)
    requires
        ram@.len() > 0,
    ensures
        r == channel_value(ram@, addr, width),
{
    if width == 0 {
        let mut sum: u32 = 0;
        let mut k: u32 = 0;
        while k < 0x100
            invariant
                k <= 0x100,
                ram@.len() > 0,
                sum == byte_sum(ram@, addr, k as nat),
            decreases 0x100 - k,
        {
            sum = sum.wrapping_add(ram.read8(addr.wrapping_add(k)) as u32);
            k += 1;
        }
        sum
    } else if width == 1 {
        ram.read8(addr) as u32
    } else if width == 2 {
        ram.read16(addr) as u32
    } else {
        ram.read32(addr)
    }
}

fn scope(t: &mut Option<ScopeCap>, r: &M68kRegs, ram: &Ram)
    requires
        ram@.len() > 0,
    ensures
        scoped(*old(t), *final(t), *r, ram@),
{
    if let Some(mut x) = t.take() {
        if r.pc == x.trigger_pc && x.rows.len() < x.max {
            let ghost before = x.rows@;
            let mut row: Vec<u32> = Vec::new();
            row.push(r.cycles as u32);
            let n: usize = x.channels.len();
            let mut i: usize = 0;
            while i < n
                invariant
                    i <= n == x.channels@.len(),
                    ram@.len() > 0,
                    row@ =~= scope_row(x.channels@, ram@, r.cycles).take(i + 1),
                decreases n - i,
            {
                let value: u32 = read_channel(ram, x.channels[i].1, x.channels[i].2);
                row.push(value);
                i += 1;
            }
            assert(row@ =~= scope_row(x.channels@, ram@, r.cycles));
            x.rows.push(row);
            assert(x.rows@.drop_last() =~= before);
        }
        *t = Some(x);
    }
}

fn break_at(bp: &Option<(u32, Option<(u8, u32)>)>, t: &mut Option<M68kBpHit>, r: &M68kRegs)
    ensures
        hit(*bp, *old(t), *final(t), *r),
{
    if t.is_some() {
        return;
    }
    if let Some((pc, guard)) = bp {
        let pass: bool = match guard {
            Some((i, v)) => {
                proof {
                    masks_bound();
                }
                let value: u32 = if *i < 8 {
                    r.d[*i as usize]
                } else {
                    r.a[(*i & 7) as usize]
                };
                value == *v
            },
            None => true,
        };
        if r.pc == *pc && pass {
            *t = Some(
                M68kBpHit {
                    pc: r.pc,
                    d: r.d,
                    a: r.a,
                    sr_imask: r.imask,
                    sr_super: r.supervisor,
                },
            );
        }
    }
}

fn watch(t: &mut Option<(u32, u8, Vec<(u32, u8, u8)>)>, pc: u32, ram: &Ram)
    requires
        ram@.len() > 0,
    ensures
        watched(*old(t), *final(t), pc, ram@),
{
    if let Some((addr, last, mut list)) = t.take() {
        let now: u8 = ram.read8(addr);
        if now != last && list.len() < WATCH_LIMIT {
            list.push((pc, last, now));
        }
        *t = Some((addr, now, list));
    }
}

impl Probes {
    /// Nothing is recorded.
    pub open spec fn is_off(self) -> bool {
        self.pc_trace is None && self.bp68 is None && self.bp68_hit is None && self.pc_seen is None
            && self.enq_log is None && self.itrace is None && self.scope is None
            && self.wwatch68 is None && self.pcstream is None
    }

    /// What is recorded before an instruction.
    pub open spec fn noted(self, n: Probes, r: M68kRegs, ram: Seq<u8>, samples: u64) -> bool {
        &&& traced(self.pc_trace, n.pc_trace, r.pc)
        &&& seen(self.pc_seen, n.pc_seen, r.pc)
        &&& logged(self.enq_log, n.enq_log, r)
        &&& itraced(self.itrace, n.itrace, r, samples)
        &&& streamed(self.pcstream, n.pcstream, r)
        &&& scoped(self.scope, n.scope, r, ram)
        &&& n.bp68 == self.bp68
        &&& hit(self.bp68, self.bp68_hit, n.bp68_hit, r)
        &&& n.wwatch68 == self.wwatch68
    }

    /// Recording off.
    pub(crate) fn off() -> (r: Probes)
        ensures
            r.is_off(),
    {
        Probes {
            pc_trace: None,
            bp68: None,
            bp68_hit: None,
            pc_seen: None,
            enq_log: None,
            itrace: None,
            scope: None,
            wwatch68: None,
            pcstream: None,
        }
    }

    /// Records what there is to record before an instruction.
    pub(crate) fn note(&mut self, r: &M68kRegs, ram: &Ram, samples: u64)
        requires
            ram@.len() > 0,
        ensures
            old(self).noted(*final(self), *r, ram@, samples),
    {
        trace(&mut self.pc_trace, r.pc);
        see(&mut self.pc_seen, r.pc);
        log(&mut self.enq_log, r);
        itrace(&mut self.itrace, r, samples);
        stream(&mut self.pcstream, r);
        scope(&mut self.scope, r, ram);
        break_at(&self.bp68, &mut self.bp68_hit, r);
    }

    /// Records what an instruction has changed.
    pub(crate) fn note_write(&mut self, pc: u32, ram: &Ram)
        requires
            ram@.len() > 0,
        ensures
            watched(old(self).wwatch68, final(self).wwatch68, pc, ram@),
            *final(self) == (Probes { wwatch68: final(self).wwatch68, ..*old(self) }),
    {
        watch(&mut self.wwatch68, pc, ram);
    }
}

} // verus!
