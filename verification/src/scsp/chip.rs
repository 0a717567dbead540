//! The sound system: sound RAM, generator, clocks and the bus of the sound CPU.

use std::collections::VecDeque;
use vstd::prelude::*;
use crate::memory::{folded, folded16, folded32, put16, put32, Ram};
use super::ctrl::{ScspCtrl, SlotDebug, Sound};
use super::hle::{HleSoundDriver, Sequencer};
use super::probes::{ITrace, M68kBpHit, M68kRegs, Probes, ScopeCap};

verus! {

/// Bytes of sound RAM.
pub const SOUND_RAM_BYTES: usize = 0x8_0000;

/// Clock of the sound CPU.
pub const SCSP_CLOCK_HZ: u64 = 11_289_600;

/// Output samples per second.
pub const SCSP_SAMPLE_HZ: u64 = 44_100;

/// Clock of the main CPU.
pub const SH2_CLOCK_HZ: u64 = 28_636_360;

/// Clocks of the sound CPU per output sample.
pub const CYCLES_PER_SAMPLE: i64 = 256;

/// Limit of the audio that waits to be taken, in samples of one channel.
pub const MAX_AUDIO_SAMPLES: usize = 4096;

/// Clocks that an access to sound RAM or a register takes in addition, per 16
/// bits.
pub const SCSP_ACCESS_WAIT: u32 = 2;

/// The sound system. The sound CPU itself is outside: [`Scsp::run`] says how long
/// it may run, and its bus is here.
#[derive(Clone, Debug)]
pub struct Scsp {
    /// Sound RAM.
    pub ram: Ram,
    /// The sound generator.
    pub ctrl: ScspCtrl,
    /// Whether the sound CPU is released from reset.
    pub running: bool,
    /// Fractions of a clock of the sound CPU and of a sample.
    pub frac: u64,
    pub sample_frac: u64,
    /// What the last batch ran over its budget, as a negative number.
    pub budget_carry: i64,
    /// Clocks since the last sample.
    pub sample_acc: i64,
    /// Audio, left and right in turn.
    pub out: Vec<i16>,
    /// The native driver, if it is in use.
    pub hle: Option<HleSoundDriver>,
    /// What a debugger records.
    pub probes: Probes,
}

/// A stretch of time for the sound CPU: clocks that it may run, and samples that
/// are due meanwhile.
#[derive(Clone, Copy, Debug, PartialEq, Eq, Structural)]
pub struct Batch {
    pub budget: i64,
    pub samples_left: u32,
}

/// The state of a [`Scsp`], without what a debugger records.
pub struct Chip {
    pub ram: Seq<u8>,
    pub sound: Sound,
    pub running: bool,
    pub frac: u64,
    pub sample_frac: u64,
    pub budget_carry: i64,
    pub sample_acc: i64,
    pub out: Seq<i16>,
    pub driver: Option<Sequencer>,
}

impl View for Scsp {
    type V = Chip;

    open spec fn view(&self) -> Chip {
        Chip {
            ram: self.ram@,
            sound: self.ctrl@,
            running: self.running,
            frac: self.frac,
            sample_frac: self.sample_frac,
            budget_carry: self.budget_carry,
            sample_acc: self.sample_acc,
            out: self.out@,
            driver: match self.hle {
                Some(d) => Some(d@),
                None => None,
            },
        }
    }
}

/// Whole units that `cycles` earn at a rate, with a fraction left over from before.
pub open spec fn earned(frac: int, cycles: int, rate: int) -> int {
    (frac + cycles * rate) / SH2_CLOCK_HZ as int
}

/// The fraction that is left then.
pub open spec fn left_over(frac: int, cycles: int, rate: int) -> int {
    (frac + cycles * rate) % SH2_CLOCK_HZ as int
}

/// Whether an address is one of a register.
pub open spec fn is_reg(addr: u32) -> bool {
    0x10_0000 <= addr < 0x10_1000
}

/// Whether anything answers at an address.
pub open spec fn is_scsp(addr: u32) -> bool {
    addr < 0x10_0000 || is_reg(addr)
}

/// The wait of an access of `n` bus cycles.
pub open spec fn wait(addr: u32, n: int) -> int {
    if is_scsp(addr) {
        n * SCSP_ACCESS_WAIT
    } else {
        0
    }
}

impl Chip {
    pub open spec fn wf(self) -> bool {
        &&& self.ram.len() == SOUND_RAM_BYTES
        &&& self.sound.wf()
        &&& self.frac < SH2_CLOCK_HZ
        &&& self.sample_frac < SH2_CLOCK_HZ
        &&& -0x2_0000_0000 < self.budget_carry <= 0
        &&& self.driver matches Some(d) ==> d.wf()
    }

    pub open spec fn reset() -> Chip {
        Chip {
            ram: Seq::new(0x8_0000, |i: int| 0u8),
            sound: Sound::reset(),
            running: false,
            frac: 0,
            sample_frac: 0,
            budget_carry: 0,
            sample_acc: 0,
            out: Seq::empty(),
            driver: None,
        }
    }

    /// The native driver has its turn, if the sound CPU is released.
    pub open spec fn driven(self) -> Chip {
        match self.driver {
            Some(d) => if self.running {
                let (e, s) = d.sampled(self.ram, self.sound);
                Chip { sound: s, driver: Some(e), ..self }
            } else {
                self
            },
            None => self,
        }
    }

    /// An output sample is mixed, unless too much audio waits.
    pub open spec fn heard(self) -> Chip {
        if self.out.len() < MAX_AUDIO_SAMPLES {
            Chip {
                sound: self.sound.mixed(self.ram),
                ram: self.sound.ram_mixed(self.ram),
                out: self.out.push(self.sound.output(self.ram).0).push(
                    self.sound.output(self.ram).1,
                ),
                ..self
            }
        } else {
            self
        }
    }

    /// One sample: the timers, the native driver, the output.
    pub open spec fn sample_made(self) -> Chip {
        Chip { sound: self.sound.ticked(1), ..self }.driven().heard()
    }

    pub open spec fn samples_made(self, n: nat) -> Chip
        decreases n,
    {
        if n == 0 {
            self
        } else {
            self.samples_made((n - 1) as nat).sample_made()
        }
    }

    /// Samples that a stretch of time earns.
    pub open spec fn samples_due(self, cycles: u64) -> int {
        earned(self.sample_frac as int, cycles as int, SCSP_SAMPLE_HZ as int)
    }

    /// The chip with the samples of a stretch of time taken from its clock.
    pub open spec fn clocked(self, cycles: u64) -> Chip {
        Chip {
            sample_frac: left_over(
                self.sample_frac as int,
                cycles as int,
                SCSP_SAMPLE_HZ as int,
            ) as u64,
            ..self
        }
    }

    /// Whether the sound CPU runs.
    pub open spec fn cpu_runs(self) -> bool {
        self.running && self.driver is None
    }

    /// The sound CPU is held in reset, and nothing stands in for it.
    pub open spec fn held(self) -> bool {
        !self.running && self.driver is None
    }

    /// The chip at the start of a stretch of time. With the native driver, all its
    /// samples are made. A chip whose CPU is held rests.
    pub open spec fn begun(self, cycles: u64) -> Chip {
        if self.held() {
            self
        } else if self.cpu_runs() {
            Chip {
                frac: left_over(self.frac as int, cycles as int, SCSP_CLOCK_HZ as int) as u64,
                ..self.clocked(cycles)
            }
        } else {
            self.clocked(cycles).samples_made(self.samples_due(cycles) as nat)
        }
    }

    /// What the sound CPU may run in it.
    pub open spec fn batch(self, cycles: u64) -> Option<Batch> {
        if self.cpu_runs() {
            Some(
                Batch {
                    budget: (earned(self.frac as int, cycles as int, SCSP_CLOCK_HZ as int)
                        + self.budget_carry) as i64,
                    samples_left: self.samples_due(cycles) as u32,
                },
            )
        } else {
            None
        }
    }

    /// The samples that have come due are made, `left` at most; gives what is left
    /// of them.
    pub open spec fn caught_up(self, left: nat) -> (Chip, nat)
        decreases left,
    {
        if self.sample_acc >= CYCLES_PER_SAMPLE && left > 0 {
            Chip { sample_acc: (self.sample_acc - CYCLES_PER_SAMPLE) as i64, ..self }
                .sample_made().caught_up((left - 1) as nat)
        } else {
            (self, left)
        }
    }

    /// The sound CPU has run an instruction of `cost` clocks.
    pub open spec fn stepped(self, cost: int, left: nat) -> (Chip, nat) {
        Chip { sample_acc: self.sample_acc.wrapping_add(cost as i64), ..self }.caught_up(left)
    }

    /// A stretch of time is over: the samples that are left are made, and the budget
    /// is carried on.
    pub open spec fn finished(self, b: Batch) -> Chip {
        Chip { budget_carry: b.budget, ..self.samples_made(b.samples_left as nat) }
    }

    // ---- the bus of the sound CPU --------------------------------------------------

    pub open spec fn bus_at(self, addr: u32) -> u8 {
        if is_reg(addr) {
            self.sound.at((addr - 0x10_0000) as u32)
        } else if addr < 0x10_0000 {
            folded(self.ram, addr)
        } else {
            0
        }
    }

    pub open spec fn bus_at16(self, addr: u32) -> u16 {
        if is_reg(addr) {
            self.sound.at16((addr - 0x10_0000) as u32)
        } else if addr < 0x10_0000 {
            folded16(self.ram, addr)
        } else {
            0
        }
    }

    pub open spec fn bus_at32(self, addr: u32) -> u32 {
        if is_reg(addr) {
            self.sound.at32((addr - 0x10_0000) as u32)
        } else if addr < 0x10_0000 {
            folded32(self.ram, addr)
        } else {
            0
        }
    }

    pub open spec fn bus_written8(self, addr: u32, v: u8) -> Chip {
        if is_reg(addr) {
            Chip { sound: self.sound.written8((addr - 0x10_0000) as u32, v), ..self }
        } else if addr < 0x10_0000 {
            Chip { ram: self.ram.update(addr as int % self.ram.len() as int, v), ..self }
        } else {
            self
        }
    }

    pub open spec fn bus_written16(self, addr: u32, v: u16) -> Chip {
        if is_reg(addr) {
            Chip { sound: self.sound.written16((addr - 0x10_0000) as u32, v), ..self }
        } else if addr < 0x10_0000 {
            Chip { ram: put16(self.ram, addr, v), ..self }
        } else {
            self
        }
    }

    pub open spec fn bus_written32(self, addr: u32, v: u32) -> Chip {
        if is_reg(addr) {
            Chip { sound: self.sound.written32((addr - 0x10_0000) as u32, v), ..self }
        } else if addr < 0x10_0000 {
            Chip { ram: put32(self.ram, addr, v), ..self }
        } else {
            self
        }
    }
}

impl Default for Scsp {
    fn default() -> (r: Scsp)
        ensures
            r@ == Chip::reset(),
            r@.wf(),
            r.probes.is_off(),
    {
        Scsp::new()
    }
}

impl Scsp {
    /// The sound system at power-on, with the sound CPU held in reset.
    pub fn new() -> (r: Scsp)
        ensures
            r@ == Chip::reset(),
            r@.wf(),
            r.probes.is_off(),
    {
        Scsp {
            ram: Ram::new(SOUND_RAM_BYTES),
            ctrl: ScspCtrl::new(),
            running: false,
            frac: 0,
            sample_frac: 0,
            budget_carry: 0,
            sample_acc: 0,
            out: Vec::new(),
            hle: None,
            probes: Probes::off(),
        }
    }

    // ---- native driver -------------------------------------------------------------

    /// Takes the native driver into use, unless it is.
    pub fn enable_hle_driver(&mut self)
        requires
            old(self)@.wf(),
        ensures
            final(self)@ == (Chip {
                driver: Some(
                    match old(self)@.driver {
                        Some(d) => d,
                        None => Sequencer::reset(),
                    },
                ),
                ..old(self)@
            }),
            final(self)@.wf(),
            final(self).probes == old(self).probes,
    {
        if self.hle.is_none() {
            self.hle = Some(HleSoundDriver::default());
        }
    }

    /// Takes the native driver out of use.
    pub fn disable_hle_driver(&mut self)
        requires
            old(self)@.wf(),
        ensures
            final(self)@ == (Chip { driver: None, ..old(self)@ }),
            final(self)@.wf(),
            final(self).probes == old(self).probes,
    {
        self.hle = None;
    }

    /// Whether the native driver is in use.
    pub fn is_hle(&self) -> (r: bool)
        ensures
            r == self@.driver is Some,
    {
        self.hle.is_some()
    }

    // ---- reset ---------------------------------------------------------------------

    /// Releases the sound CPU from reset. Gives the stack pointer and the program
    /// counter that it starts with, from the vectors in sound RAM.
    pub fn start(&mut self) -> (r: (u32, u32))
        requires
            old(self)@.wf(),
        ensures
            final(self)@ == (Chip { running: true, ..old(self)@ }),
            final(self)@.wf(),
            final(self).probes == old(self).probes,
            r == (folded32(old(self)@.ram, 0), folded32(old(self)@.ram, 4)),
    {
        self.running = true;
        (self.ram.read32(0), self.ram.read32(4))
    }

    /// Holds the sound CPU in reset.
    pub fn stop(&mut self)
        requires
            old(self)@.wf(),
        ensures
            final(self)@ == (Chip { running: false, ..old(self)@ }),
            final(self)@.wf(),
            final(self).probes == old(self).probes,
    {
        self.running = false;
    }

    // ---- voices --------------------------------------------------------------------

    /// Whether voice `i` plays.
    pub fn slot_active(&self, i: usize) -> (r: bool)
        requires
            i < 32,
        ensures
            r == self@.sound.slots[i as int].active,
    {
        self.ctrl.slot_active(i)
    }

    /// The settings of voice `i` and where it is.
    pub fn slot_debug(&self, i: usize) -> (r: SlotDebug)
        requires
            self@.wf(),
            i < 32,
        ensures
            r.shows(self@.sound, i as int),
    {
        self.ctrl.slot_debug(i)
    }

    /// Whether the effect processor runs, its outputs, and the largest outputs and
    /// inputs so far.
    pub fn dsp_state(&self) -> (r: (bool, [i16; 16], [i32; 16], [i32; 16]))
        ensures
            r.0 == self@.sound.dsp.is_running(),
            r.1@ == self@.sound.dsp.efreg,
            r.2@ == self@.sound.dsp.efreg_hw,
            r.3@ == self@.sound.dsp.mixs_hw,
    {
        self.ctrl.dsp_state()
    }

    /// The effect outputs that the program writes, in order.
    pub fn dsp_ewt_targets(&self) -> (r: Vec<u8>)
        ensures
            forall|e: u8|
                #![auto]
                r@.contains(e) <==> self@.sound.dsp.writes_output(e as int, 128),
            forall|i: int, j: int| 0 <= i < j < r@.len() ==> r@[i] < r@[j],
    {
        self.ctrl.dsp_ewt_targets()
    }

    /// Plays a sample of voice `i`, before its envelope.
    pub fn slot_sample(&mut self, i: usize) -> (r: i16)
        requires
            old(self)@.wf(),
            i < 32,
        ensures
            final(self)@ == (Chip {
                sound: old(self)@.sound.slot_played(i as int),
                ..old(self)@
            }),
            r == old(self)@.sound.slot_output(i as int, old(self)@.ram),
            final(self)@.wf(),
            final(self).probes == old(self).probes,
    {
        self.ctrl.slot_sample(i, &self.ram)
    }

    /// Advances the envelope of voice `i` by a sample; gives its gain in 1/4096.
    pub fn eg_advance(&mut self, i: usize) -> (r: i32)
        requires
            old(self)@.wf(),
            i < 32,
        ensures
            final(self)@ == (Chip {
                sound: old(self)@.sound.eg_advanced(i as int),
                ..old(self)@
            }),
            r == old(self)@.sound.slot_gain(i as int),
            final(self)@.wf(),
            final(self).probes == old(self).probes,
    {
        self.ctrl.eg_advance(i)
    }

    /// Makes an output sample, left and right.
    pub fn next_sample(&mut self) -> (r: (i16, i16))
        requires
            old(self)@.wf(),
        ensures
            final(self)@ == (Chip {
                sound: old(self)@.sound.mixed(old(self)@.ram),
                ram: old(self)@.sound.ram_mixed(old(self)@.ram),
                ..old(self)@
            }),
            r == old(self)@.sound.output(old(self)@.ram),
            final(self)@.wf(),
            final(self).probes == old(self).probes,
    {
        self.ctrl.mix(&mut self.ram)
    }

    /// Whether the interrupt of the main CPU is asserted.
    pub fn take_main_interrupt(&mut self) -> (r: bool)
        ensures
            r == old(self)@.sound.main_pending,
            *final(self) == *old(self),
    {
        self.ctrl.main_pending
    }

    /// Takes the audio, left and right in turn.
    pub fn take_audio(&mut self) -> (r: Vec<i16>)
        requires
            old(self)@.wf(),
        ensures
            r@ == old(self)@.out,
            final(self)@ == (Chip { out: Seq::empty(), ..old(self)@ }),
            final(self)@.wf(),
            final(self).probes == old(self).probes,
    {
        let mut r: Vec<i16> = Vec::new();
        std::mem::swap(&mut r, &mut self.out);
        r
    }

    /// Drops the audio.
    pub fn clear_output_buffer(&mut self)
        ensures
            final(self)@ == (Chip { out: Seq::empty(), ..old(self)@ }),
            final(self).probes == old(self).probes,
    {
        self.out = Vec::new();
    }

    // ---- time ----------------------------------------------------------------------

    fn make_sample(&mut self)
        requires
            old(self)@.wf(),
        ensures
            final(self)@ == old(self)@.sample_made(),
            final(self)@.wf(),
            final(self).probes == old(self).probes,
    {
        self.ctrl.tick_timers(1);
        if self.running {
            if let Some(mut d) = self.hle.take() {
                d.tick(&self.ram, &mut self.ctrl);
                self.hle = Some(d);
            }
        }
        if self.out.len() < MAX_AUDIO_SAMPLES {
            let (l, r) = self.ctrl.mix(&mut self.ram);
            self.out.push(l);
            self.out.push(r);
        }
    }

    fn make_samples(&mut self, n: u32)
        requires
            old(self)@.wf(),
        ensures
            final(self)@ == old(self)@.samples_made(n as nat),
            final(self)@.wf(),
            final(self).probes == old(self).probes,
    {
        let mut k: u32 = 0;
        while k < n
            invariant
                k <= n,
                self@.wf(),
                self@ == old(self)@.samples_made(k as nat),
                self.probes == old(self).probes,
            decreases n - k,
        {
            self.make_sample();
            k += 1;
        }
    }

    /// Advances by clocks of the main CPU. Nothing happens while the sound CPU is held
    /// in reset. While it runs it has a batch to run, and [`Scsp::finish`] ends it;
    /// with the native driver the samples that are due are made at once.
    pub fn run(&mut self, sh2_cycles: u64) -> (r: Option<Batch>)
        requires
            old(self)@.wf(),
            sh2_cycles * SCSP_CLOCK_HZ + SH2_CLOCK_HZ <= u64::MAX,
        ensures
            final(self)@ == old(self)@.begun(sh2_cycles),
            r == old(self)@.batch(sh2_cycles),
            final(self)@.wf(),
            final(self).probes == old(self).probes,
    {
        if !self.running && self.hle.is_none() {
            return None;
        }
        let total: u64 = self.sample_frac + sh2_cycles * SCSP_SAMPLE_HZ;
        let samples: u32 = (total / SH2_CLOCK_HZ) as u32;
        self.sample_frac = total % SH2_CLOCK_HZ;
        if self.hle.is_some() {
            self.make_samples(samples);
            return None;
        }
        let clocks: u64 = self.frac + sh2_cycles * SCSP_CLOCK_HZ;
        self.frac = clocks % SH2_CLOCK_HZ;
        Some(
            Batch {
                budget: (clocks / SH2_CLOCK_HZ) as i64 + self.budget_carry,
                samples_left: samples,
            },
        )
    }

    /// Before an instruction of the sound CPU: records what is to be recorded, and
    /// gives the interrupt level.
    pub fn before_step(&mut self, regs: &M68kRegs) -> (r: u8)
        requires
            old(self)@.wf(),
        ensures
            r == old(self)@.sound.asserted_level,
            final(self)@ == old(self)@,
            final(self)@.wf(),
            old(self).probes.noted(
                final(self).probes,
                *regs,
                old(self)@.ram,
                old(self)@.sound.sample_counter,
            ),
    {
        self.probes.note(regs, &self.ram, self.ctrl.sample_counter);
        self.ctrl.asserted_level
    }

    /// After an instruction of the sound CPU at `pc` that took `cost` clocks: takes
    /// them from the batch, and makes the samples that have come due.
    pub fn after_step(&mut self, batch: &mut Batch, pc: u32, cost: u32)
        requires
            old(self)@.wf(),
            old(batch).budget > 0,
        ensures
            ({
                let c: int = if cost == 0 {
                    1
                } else {
                    cost as int
                };
                let (s, left) = old(self)@.stepped(c, old(batch).samples_left as nat);
                &&& final(self)@ == s
                &&& final(batch).samples_left == left
                &&& final(batch).budget == old(batch).budget - c
            }),
            final(self)@.wf(),
            watch_kept(old(self).probes, final(self).probes, pc, old(self)@.ram),
    {
        let c: i64 = if cost == 0 {
            1
        } else {
            cost as i64
        };
        batch.budget = batch.budget - c;
        self.probes.note_write(pc, &self.ram);
        self.sample_acc = self.sample_acc.wrapping_add(c);
        let ghost s0 = self@;
        let ghost left0 = batch.samples_left as nat;
        let ghost p0 = self.probes;
        while self.sample_acc >= CYCLES_PER_SAMPLE && batch.samples_left > 0
            invariant
                self@.wf(),
                s0.caught_up(left0) == self@.caught_up(batch.samples_left as nat),
                batch.budget == old(batch).budget - c,
                self.probes == p0,
            decreases batch.samples_left,
        {
            self.sample_acc = self.sample_acc - CYCLES_PER_SAMPLE;
            batch.samples_left = batch.samples_left - 1;
            self.make_sample();
        }
    }

    /// Ends a batch: makes the samples that are left, and carries the budget on.
    pub fn finish(&mut self, batch: Batch)
        requires
            old(self)@.wf(),
            -0x2_0000_0000 < batch.budget <= 0,
        ensures
            final(self)@ == old(self)@.finished(batch),
            final(self)@.wf(),
            final(self).probes == old(self).probes,
    {
        self.make_samples(batch.samples_left);
        self.budget_carry = batch.budget;
    }

    // ---- the bus of the sound CPU ----------------------------------------------------

    /// Reads a byte; gives the wait, too.
    pub fn bus_read8(&self, addr: u32) -> (r: (u8, u32))
        requires
            self@.wf(),
        ensures
            r.0 == self@.bus_at(addr),
            r.1 == wait(addr, 1),
    {
        if 0x10_0000 <= addr && addr < 0x10_1000 {
            (self.ctrl.read8(addr - 0x10_0000), SCSP_ACCESS_WAIT)
        } else if addr < 0x10_0000 {
            (self.ram.read8(addr), SCSP_ACCESS_WAIT)
        } else {
            (0, 0)
        }
    }

    /// Reads 16 bits; gives the wait, too.
    pub fn bus_read16(&self, addr: u32) -> (r: (u16, u32))
        requires
            self@.wf(),
        ensures
            r.0 == self@.bus_at16(addr),
            r.1 == wait(addr, 1),
    {
        if 0x10_0000 <= addr && addr < 0x10_1000 {
            (self.ctrl.read16(addr - 0x10_0000), SCSP_ACCESS_WAIT)
        } else if addr < 0x10_0000 {
            (self.ram.read16(addr), SCSP_ACCESS_WAIT)
        } else {
            (0, 0)
        }
    }

    /// Reads 32 bits; gives the wait, too.
    pub fn bus_read32(&self, addr: u32) -> (r: (u32, u32))
        requires
            self@.wf(),
        ensures
            r.0 == self@.bus_at32(addr),
            r.1 == wait(addr, 2),
    {
        if 0x10_0000 <= addr && addr < 0x10_1000 {
            (self.ctrl.read32(addr - 0x10_0000), 2 * SCSP_ACCESS_WAIT)
        } else if addr < 0x10_0000 {
            (self.ram.read32(addr), 2 * SCSP_ACCESS_WAIT)
        } else {
            (0, 0)
        }
    }

    /// Writes a byte; gives the wait.
    pub fn bus_write8(&mut self, addr: u32, val: u8) -> (r: u32)
        requires
            old(self)@.wf(),
        ensures
            final(self)@ == old(self)@.bus_written8(addr, val),
            r == wait(addr, 1),
            final(self)@.wf(),
            final(self).probes == old(self).probes,
    {
        if 0x10_0000 <= addr && addr < 0x10_1000 {
            self.ctrl.write8(addr - 0x10_0000, val);
            SCSP_ACCESS_WAIT
        } else if addr < 0x10_0000 {
            self.ram.write8(addr, val);
            SCSP_ACCESS_WAIT
        } else {
            0
        }
    }

    /// Writes 16 bits; gives the wait.
    pub fn bus_write16(&mut self, addr: u32, val: u16) -> (r: u32)
        requires
            old(self)@.wf(),
        ensures
            final(self)@ == old(self)@.bus_written16(addr, val),
            r == wait(addr, 1),
            final(self)@.wf(),
            final(self).probes == old(self).probes,
    {
        if 0x10_0000 <= addr && addr < 0x10_1000 {
            self.ctrl.write16(addr - 0x10_0000, val);
            SCSP_ACCESS_WAIT
        } else if addr < 0x10_0000 {
            self.ram.write16(addr, val);
            SCSP_ACCESS_WAIT
        } else {
            0
        }
    }

    /// Writes 32 bits; gives the wait.
    pub fn bus_write32(&mut self, addr: u32, val: u32) -> (r: u32)
        requires
            old(self)@.wf(),
        ensures
            final(self)@ == old(self)@.bus_written32(addr, val),
            r == wait(addr, 2),
            final(self)@.wf(),
            final(self).probes == old(self).probes,
    {
        if 0x10_0000 <= addr && addr < 0x10_1000 {
            self.ctrl.write32(addr - 0x10_0000, val);
            2 * SCSP_ACCESS_WAIT
        } else if addr < 0x10_0000 {
            self.ram.write32(addr, val);
            2 * SCSP_ACCESS_WAIT
        } else {
            0
        }
    }

    // ---- debugging -------------------------------------------------------------------

    /// Begins to record all instructions.
    pub fn enable_pcstream(&mut self)
        ensures
            final(self)@ == old(self)@,
            *final(self) == (Scsp { probes: final(self).probes, ..*old(self) }),
            ({
                let p = final(self).probes;
                p.pcstream matches Some(v) && v@ == Seq::<(u32, u64)>::empty() && p == (Probes {
                    pcstream: p.pcstream,
                    ..old(self).probes
                })
            }),
    {
        self.probes.pcstream = Some(Vec::new());
    }

    /// Takes the recorded instructions, and ends the recording.
    pub fn take_pcstream(&mut self) -> (r: Vec<(u32, u64)>)
        ensures
            r@ == (match old(self).probes.pcstream {
                Some(v) => v@,
                None => Seq::empty(),
            }),
            *final(self) == (Scsp {
                probes: Probes { pcstream: None, ..old(self).probes },
                ..*old(self)
            }),
    {
        match self.probes.pcstream.take() {
            Some(v) => v,
            None => Vec::new(),
        }
    }

    /// Begins to record changes of a byte of sound RAM.
    pub fn enable_wwatch68(&mut self, addr: u32)
        requires
            old(self)@.wf(),
        ensures
            *final(self) == (Scsp { probes: final(self).probes, ..*old(self) }),
            ({
                let p = final(self).probes;
                p.wwatch68 matches Some((a, last, v)) && a == addr && last == folded(
                    old(self)@.ram,
                    addr,
                ) && v@ == Seq::<(u32, u8, u8)>::empty() && p == (Probes {
                    wwatch68: p.wwatch68,
                    ..old(self).probes
                })
            }),
    {
        let last: u8 = self.ram.read8(addr);
        self.probes.wwatch68 = Some((addr, last, Vec::new()));
    }

    /// Takes the recorded changes, and ends the recording.
    pub fn take_wwatch68(&mut self) -> (r: Vec<(u32, u8, u8)>)
        ensures
            r@ == (match old(self).probes.wwatch68 {
                Some((_, _, v)) => v@,
                None => Seq::empty(),
            }),
            *final(self) == (Scsp {
                probes: Probes { wwatch68: None, ..old(self).probes },
                ..*old(self)
            }),
    {
        match self.probes.wwatch68.take() {
            Some((_, _, v)) => v,
            None => Vec::new(),
        }
    }

    /// Begins to sample sound RAM whenever an instruction is reached.
    pub fn enable_scope(&mut self, trigger_pc: u32, channels: Vec<(String, u32, u8)>, max: usize)
        ensures
            *final(self) == (Scsp { probes: final(self).probes, ..*old(self) }),
            ({
                let p = final(self).probes;
                p.scope matches Some(c) && c.trigger_pc == trigger_pc && c.channels == channels
                    && c.max == max && c.rows@ == Seq::<Vec<u32>>::empty() && p == (Probes {
                    scope: p.scope,
                    ..old(self).probes
                })
            }),
    {
        self.probes.scope =
        Some(ScopeCap { trigger_pc, channels, rows: Vec::new(), max });
    }

    /// Takes the samples of sound RAM, and ends the sampling.
    pub fn take_scope(&mut self) -> (r: Option<ScopeCap>)
        ensures
            r == old(self).probes.scope,
            *final(self) == (Scsp {
                probes: Probes { scope: None, ..old(self).probes },
                ..*old(self)
            }),
    {
        self.probes.scope.take()
    }

    /// Sets or clears the breakpoint; forgets a hit.
    pub fn set_bp68(&mut self, bp: Option<(u32, Option<(u8, u32)>)>)
        ensures
            *final(self) == (Scsp {
                probes: Probes { bp68: bp, bp68_hit: None, ..old(self).probes },
                ..*old(self)
            }),
    {
        self.probes.bp68 = bp;
        self.probes.bp68_hit = None;
    }

    /// Takes the hit of the breakpoint.
    pub fn take_bp68_hit(&mut self) -> (r: Option<M68kBpHit>)
        ensures
            r == old(self).probes.bp68_hit,
            *final(self) == (Scsp {
                probes: Probes { bp68_hit: None, ..old(self).probes },
                ..*old(self)
            }),
    {
        self.probes.bp68_hit.take()
    }

    /// Begins to record the last instructions.
    pub fn enable_68k_trace(&mut self)
        ensures
            *final(self) == (Scsp { probes: final(self).probes, ..*old(self) }),
            ({
                let p = final(self).probes;
                p.pc_trace matches Some(v) && v@ == Seq::<u32>::empty() && p == (Probes {
                    pc_trace: p.pc_trace,
                    ..old(self).probes
                })
            }),
    {
        self.probes.pc_trace = Some(VecDeque::new());
    }

    /// Takes the last instructions, the oldest first; the recording goes on.
    pub fn take_68k_trace(&mut self) -> (r: Vec<u32>)
        ensures
            match (old(self).probes.pc_trace, final(self).probes.pc_trace) {
                (Some(x), Some(y)) => r@ == x@ && y@ == Seq::<u32>::empty(),
                (None, None) => r@ == Seq::<u32>::empty(),
                _ => false,
            },
            *final(self) == (Scsp { probes: final(self).probes, ..*old(self) }),
            final(self).probes == (Probes {
                pc_trace: final(self).probes.pc_trace,
                ..old(self).probes
            }),
    {
        let mut r: Vec<u32> = Vec::new();
        if let Some(ring) = self.probes.pc_trace.take() {
            let n: usize = ring.len();
            let mut i: usize = 0;
            while i < n
                invariant
                    i <= n == ring@.len(),
                    r@ =~= ring@.take(i as int),
                decreases n - i,
            {
                r.push(ring[i]);
                i += 1;
            }
            self.probes.pc_trace = Some(VecDeque::new());
        }
        r
    }

    /// Begins to record all addresses of instructions.
    pub fn enable_68k_footprint(&mut self)
        ensures
            *final(self) == (Scsp { probes: final(self).probes, ..*old(self) }),
            ({
                let p = final(self).probes;
                p.pc_seen matches Some(v) && v@ == Seq::<u32>::empty() && p == (Probes {
                    pc_seen: p.pc_seen,
                    ..old(self).probes
                })
            }),
    {
        self.probes.pc_seen = Some(Vec::new());
    }

    /// The addresses of instructions, in order.
    pub fn take_68k_footprint(&mut self) -> (r: Vec<u32>)
        ensures
            r@ == (match old(self).probes.pc_seen {
                Some(v) => v@,
                None => Seq::empty(),
            }),
            *final(self) == *old(self),
    {
        let mut r: Vec<u32> = Vec::new();
        if let Some(list) = &self.probes.pc_seen {
            let n: usize = list.len();
            let mut i: usize = 0;
            while i < n
                invariant
                    i <= n == list@.len(),
                    r@ =~= list@.take(i as int),
                decreases n - i,
            {
                r.push(list[i]);
                i += 1;
            }
        }
        r
    }

    /// Begins to record registers whenever an instruction is reached.
    pub fn enable_enq_log(&mut self, pc: u32)
        ensures
            *final(self) == (Scsp { probes: final(self).probes, ..*old(self) }),
            ({
                let p = final(self).probes;
                p.enq_log matches Some((a, v)) && a == pc && v@ == Seq::<[u32; 5]>::empty() && p
                    == (Probes { enq_log: p.enq_log, ..old(self).probes })
            }),
    {
        self.probes.enq_log = Some((pc, Vec::new()));
    }

    /// The recorded registers, the oldest first.
    pub fn take_enq_log(&mut self) -> (r: Vec<[u32; 5]>)
        ensures
            r@ == (match old(self).probes.enq_log {
                Some((_, v)) => v@,
                None => Seq::empty(),
            }),
            *final(self) == *old(self),
    {
        let mut r: Vec<[u32; 5]> = Vec::new();
        if let Some((_, list)) = &self.probes.enq_log {
            let n: usize = list.len();
            let mut i: usize = 0;
            while i < n
                invariant
                    i <= n == list@.len(),
                    r@ =~= list@.take(i as int),
                decreases n - i,
            {
                r.push(list[i]);
                i += 1;
            }
        }
        r
    }

    /// Begins the trace up to the first command for the music.
    pub fn enable_68k_itrace(&mut self)
        ensures
            *final(self) == (Scsp { probes: final(self).probes, ..*old(self) }),
            ({
                let p = final(self).probes;
                p.itrace matches Some(t) && !t.frozen && t.seq_ticks == 0 && t.first == 0
                    && t.trigger == 0 && t.ring@ == Seq::<(u32, u64, u32, u32)>::empty() && p == (
                Probes { itrace: p.itrace, ..old(self).probes })
            }),
    {
        self.probes.itrace =
        Some(
            ITrace { frozen: false, seq_ticks: 0, first: 0, trigger: 0, ring: VecDeque::new() },
        );
    }

    /// The instructions of the trace, the oldest first.
    pub fn take_68k_itrace(&mut self) -> (r: Vec<(u32, u64, u32, u32)>)
        ensures
            r@ == (match old(self).probes.itrace {
                Some(t) => t.ring@,
                None => Seq::empty(),
            }),
            *final(self) == *old(self),
    {
        let mut r: Vec<(u32, u64, u32, u32)> = Vec::new();
        if let Some(t) = &self.probes.itrace {
            let n: usize = t.ring.len();
            let mut i: usize = 0;
            while i < n
                invariant
                    i <= n == t.ring@.len(),
                    r@ =~= t.ring@.take(i as int),
                decreases n - i,
            {
                r.push(t.ring[i]);
                i += 1;
            }
        }
        r
    }

    /// Sequence ticks of the trace.
    pub fn take_68k_seq_ticks(&self) -> (r: u32)
        ensures
            r == (match self.probes.itrace {
                Some(t) => t.seq_ticks,
                None => 0,
            }),
    {
        match &self.probes.itrace {
            Some(t) => t.seq_ticks,
            None => 0,
        }
    }

    /// Sequence ticks of the trace, and the samples at the first of them and at its
    /// end.
    pub fn take_68k_trigger_timing(&self) -> (r: (u32, u64, u64))
        ensures
            r == (match self.probes.itrace {
                Some(t) => (t.seq_ticks, t.first, t.trigger),
                None => (0u32, 0u64, 0u64),
            }),
    {
        match &self.probes.itrace {
            Some(t) => (t.seq_ticks, t.first, t.trigger),
            None => (0, 0, 0),
        }
    }
}

/// Only the watch of a byte may have recorded something.
pub open spec fn watch_kept(a: Probes, b: Probes, pc: u32, ram: Seq<u8>) -> bool {
    super::probes::watched(a.wwatch68, b.wwatch68, pc, ram) && b == (Probes {
        wwatch68: b.wwatch68,
        ..a
    })
}

} // verus!
