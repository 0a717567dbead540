//! Registers, timers, interrupts, voices and mixer of the sound generator.

use vstd::prelude::*;
use crate::bits::masks_bound;
use crate::memory::{folded, folded16, put16, Ram};
use crate::scsp::dsp::{Dsp, Fx};
use crate::scsp::tables::{
    channel_gain, channel_gain_of, level_gain, level_gain_of, total_gain, total_gain_of,
};
use crate::scsp::timer::Timer;
use crate::scsp::voice::{
    key_envelope, octave, pitch_step, read_octave, step_of_pitch, Eg, EgState, Slot, Wave,
};

verus! {

/// Bytes of registers, mirrored over the register window.
pub const REG_BYTES: usize = 0x1000;

/// Voices.
pub const NUM_SLOTS: usize = 32;

/// Timer registers.
pub const TIMA: u32 = 0x418;

pub const TIMB: u32 = 0x41A;

pub const TIMC: u32 = 0x41C;

/// Interrupts of the sound CPU: enable, pending, reset, and three bits of level.
pub const SCIEB: u32 = 0x41E;

pub const SCIPD: u32 = 0x420;

pub const SCIRE: u32 = 0x422;

pub const SCILV0: u32 = 0x424;

pub const SCILV1: u32 = 0x426;

pub const SCILV2: u32 = 0x428;

/// Interrupts of the main CPU: enable, pending, reset.
pub const MCIEB: u32 = 0x42A;

pub const MCIPD: u32 = 0x42C;

pub const MCIRE: u32 = 0x42E;

/// Interrupt sources.
pub const INT_MIDI: u16 = 0x008;

pub const INT_TIMER_A: u16 = 0x040;

pub const INT_TIMER_B: u16 = 0x080;

pub const INT_TIMER_C: u16 = 0x100;

// ---- state ------------------------------------------------------------------------

/// Counts for debugging.
#[derive(Clone, Copy, Debug, PartialEq, Eq, Structural)]
pub struct Counts {
    /// Key strobes, and voices that they started.
    pub keyon_execs: u32,
    pub slot_starts: u32,
    /// Calls that advanced the timers, and the samples of them.
    pub tt_calls: u32,
    pub tt_samples: u32,
}

/// The sound generator: registers, timers, voices, effect processor and
/// interrupt lines.
#[derive(Clone, Debug)]
pub struct ScspCtrl {
    pub raw: Ram,
    pub timers: [Timer; 3],
    /// Output samples so far.
    pub sample_counter: u64,
    pub slots: [Slot; 32],
    /// The noise generator, 17 bits.
    pub lfsr: u32,
    pub dsp: Dsp,
    /// The interrupt level that the sound CPU sees; 0 for no interrupt.
    pub asserted_level: u8,
    /// The interrupt of the main CPU.
    pub main_pending: bool,
    pub counts: Counts,
    /// How often each timer has fired.
    pub timer_of: [u32; 3],
}

/// The state of a [`ScspCtrl`].
pub struct Sound {
    pub raw: Seq<u8>,
    pub timers: Seq<Timer>,
    pub sample_counter: u64,
    pub slots: Seq<Slot>,
    pub lfsr: u32,
    pub dsp: Fx,
    pub asserted_level: u8,
    pub main_pending: bool,
    pub counts: Counts,
    pub timer_of: Seq<u32>,
}

/// The settings of a voice and where it is, for debugging.
#[derive(Clone, Copy, Debug)]
pub struct SlotDebug {
    pub active: bool,
    /// Where the waveform starts in sound RAM.
    pub sa: u32,
    /// Start and end of the loop, in samples.
    pub lsa: u16,
    pub lea: u16,
    /// 8-bit samples.
    pub pcm8: bool,
    /// Loop: 0 none, 1 forward, 2 reverse, 3 alternating.
    pub lpctl: u8,
    /// Pitch: octave and fraction.
    pub oct: i8,
    pub fns: u16,
    pub step: u32,
    pub cur: u32,
    /// Phase of the envelope, and its level from silence at 0 to 0x3FF.
    pub eg_state: &'static str,
    pub eg_volume: i32,
    /// Direct send: level and pan.
    pub disdl: u8,
    pub dipan: u8,
    /// Total level.
    pub tl: u16,
    /// Input of the effect processor: level and channel.
    pub imxl: u8,
    pub isel: u8,
    /// Effect send: level and pan.
    pub efsdl: u8,
    pub efpan: u8,
}

/// The name of an envelope phase.
pub open spec fn phase_name(state: EgState) -> Seq<char> {
    match state {
        EgState::Attack => "ATK"@,
        EgState::Decay1 => "D1"@,
        EgState::Decay2 => "D2"@,
        EgState::Release => "REL"@,
    }
}

impl SlotDebug {
    /// The settings of voice `i` and where it is.
    pub open spec fn shows(self, s: Sound, i: int) -> bool {
        let v = s.slots[i];
        let send = s.reg(i, 0xB);
        let input = s.reg(i, 0xA);
        &&& self.active == v.active
        &&& self.sa == s.wave(i).start()
        &&& self.lsa == s.reg(i, 2)
        &&& self.lea == s.reg(i, 3)
        &&& self.pcm8 == s.wave(i).is_8_bit()
        &&& self.lpctl == s.wave(i).loop_mode() as u8
        &&& self.oct == octave(s.reg(i, 8))
        &&& self.fns == s.reg(i, 8) & 0x3FF
        &&& self.step == v.step
        &&& self.cur == v.cur
        &&& self.eg_state@ == phase_name(v.eg.state)
        &&& self.eg_volume == v.eg.volume as int / 0x1_0000
        &&& self.disdl == ((send >> 13) & 7) as u8
        &&& self.dipan == ((send >> 8) & 0x1F) as u8
        &&& self.tl == s.reg(i, 6) & 0xFF
        &&& self.imxl == (input & 7) as u8
        &&& self.isel == ((input >> 3) & 0xF) as u8
        &&& self.efsdl == ((send >> 5) & 7) as u8
        &&& self.efpan == (send & 0x1F) as u8
    }
}

impl View for ScspCtrl {
    type V = Sound;

    open spec fn view(&self) -> Sound {
        Sound {
            raw: self.raw@,
            timers: self.timers@,
            sample_counter: self.sample_counter,
            slots: self.slots@,
            lfsr: self.lfsr,
            dsp: self.dsp@,
            asserted_level: self.asserted_level,
            main_pending: self.main_pending,
            counts: self.counts,
            timer_of: self.timer_of@,
        }
    }
}

/// The interrupt source of timer `i`.
pub open spec fn timer_bit(i: int) -> u16 {
    if i == 0 {
        INT_TIMER_A
    } else if i == 1 {
        INT_TIMER_B
    } else {
        INT_TIMER_C
    }
}

impl Sound {
    pub open spec fn wf(self) -> bool {
        &&& self.raw.len() == REG_BYTES
        &&& self.timers.len() == 3
        &&& self.slots.len() == 32
        &&& self.timer_of.len() == 3
        &&& forall|i: int| 0 <= i < 3 ==> (#[trigger] self.timers[i]).control <= 7
        &&& forall|i: int| 0 <= i < 32 ==> (#[trigger] self.slots[i]).wf()
    }

    /// Everything 0, no voice playing.
    pub open spec fn reset() -> Sound {
        Sound {
            raw: Seq::new(0x1000, |i: int| 0u8),
            timers: Seq::new(3, |i: int| Timer::idle()),
            sample_counter: 0,
            slots: Seq::new(32, |i: int| Slot::silent()),
            lfsr: 1,
            dsp: Fx::reset(),
            asserted_level: 0,
            main_pending: false,
            counts: Counts { keyon_execs: 0, slot_starts: 0, tt_calls: 0, tt_samples: 0 },
            timer_of: Seq::new(3, |i: int| 0u32),
        }
    }

    // ---- registers -------------------------------------------------------------

    pub open spec fn at(self, o: u32) -> u8 {
        folded(self.raw, o)
    }

    pub open spec fn at16(self, o: u32) -> u16 {
        folded16(self.raw, o)
    }

    pub open spec fn at32(self, o: u32) -> u32 {
        ((self.at16(o) as u32) << 16) | self.at16(o.wrapping_add(2)) as u32
    }

    /// A register is stored, and nothing else happens.
    pub open spec fn stored(self, o: u32, v: u16) -> Sound {
        Sound { raw: put16(self.raw, o, v), ..self }
    }

    /// Register `k` of voice `i`.
    pub open spec fn reg(self, i: int, k: int) -> u16 {
        self.at16((i * 0x20 + k * 2) as u32)
    }

    // ---- interrupts ------------------------------------------------------------

    /// The level of an interrupt source, by its bit.
    pub open spec fn source_level(self, bit: u32) -> u8 {
        (((self.at16(SCILV0) >> bit) & 1) as u8) | ((((self.at16(SCILV1) >> bit) & 1) as u8) << 1)
            | ((((self.at16(SCILV2) >> bit) & 1) as u8) << 2)
    }

    /// The interrupt level: that of the first source that is pending and enabled,
    /// in the order timer A, B, C, MIDI.
    pub open spec fn interrupt_level(self) -> u8 {
        let active = self.at16(SCIPD) & self.at16(SCIEB);
        if active & INT_TIMER_A != 0 {
            self.source_level(6)
        } else if active & INT_TIMER_B != 0 {
            self.source_level(7)
        } else if active & INT_TIMER_C != 0 {
            self.source_level(8)
        } else if active & INT_MIDI != 0 {
            self.source_level(3)
        } else {
            0
        }
    }

    pub open spec fn line_evaluated(self) -> Sound {
        Sound { asserted_level: self.interrupt_level(), ..self }
    }

    pub open spec fn main_evaluated(self) -> Sound {
        Sound { main_pending: self.at16(MCIPD) & self.at16(MCIEB) != 0, ..self }
    }

    // ---- timers ----------------------------------------------------------------

    /// Timer `i` in the sample `sc`. When it fires, its interrupt pends; timer A
    /// pends that of the main CPU, too.
    pub open spec fn timer_run(self, sc: u64, i: int) -> Sound {
        let t = self.timers[i];
        if !t.is_clocked_by(sc) {
            self
        } else {
            let s = Sound { timers: self.timers.update(i, t.clocked()), ..self };
            if t.clocked().counter != 0xFF {
                s
            } else {
                let p = Sound {
                    timer_of: s.timer_of.update(i, s.timer_of[i].wrapping_add(1)),
                    ..s
                }.stored(SCIPD, s.at16(SCIPD) | timer_bit(i));
                if i == 0 {
                    p.stored(MCIPD, p.at16(MCIPD) | INT_TIMER_A)
                } else {
                    p
                }
            }
        }
    }

    /// The three timers after a sample.
    pub open spec fn timers_run(self) -> Sound {
        let sc = self.sample_counter;
        Sound { sample_counter: sc.wrapping_add(1), ..self }.timer_run(sc, 0).timer_run(
            sc,
            1,
        ).timer_run(sc, 2)
    }

    /// Whether a timer fires in the next sample.
    pub open spec fn timer_fires(self, i: int) -> bool {
        self.timers[i].fires_on(self.sample_counter)
    }

    /// The timers after `n` samples.
    pub open spec fn timers_after(self, n: int) -> Sound
        decreases n,
    {
        if n <= 0 {
            self
        } else {
            self.timers_after(n - 1).timers_run()
        }
    }

    /// Whether a timer fires within `n` samples.
    pub open spec fn fires_within(self, n: int) -> bool {
        exists|k: int|
            0 <= k < n && {
                let s = #[trigger] self.timers_after(k);
                s.timer_fires(0) || s.timer_fires(1) || s.timer_fires(2)
            }
    }

    /// Whether timer A fires within `n` samples.
    pub open spec fn first_fires_within(self, n: int) -> bool {
        exists|k: int| 0 <= k < n && (#[trigger] self.timers_after(k)).timer_fires(0)
    }

    /// The timers run for `n` samples; the interrupt lines follow if one fired.
    pub open spec fn ticked(self, n: u32) -> Sound {
        if n == 0 {
            self
        } else {
            let s = Sound {
                counts: Counts {
                    tt_calls: self.counts.tt_calls.wrapping_add(1),
                    tt_samples: self.counts.tt_samples.wrapping_add(n),
                    ..self.counts
                },
                ..self
            };
            let t = s.timers_after(n as int);
            let u = if s.fires_within(n as int) {
                t.line_evaluated()
            } else {
                t
            };
            if s.first_fires_within(n as int) {
                u.main_evaluated()
            } else {
                u
            }
        }
    }

    // ---- keys ------------------------------------------------------------------

    /// Voice `i` starts to play.
    pub open spec fn slot_started(self, i: int) -> Sound {
        Sound {
            slots: self.slots.update(
                i,
                Slot {
                    active: true,
                    backwards: false,
                    cur: 0,
                    nxt: 0x1000,
                    step: pitch_step(self.reg(i, 8)),
                    eg: Eg::keyed(self.reg(i, 4), self.reg(i, 5), self.reg(i, 8)),
                    lfo_counter: 0,
                    lfo_timer: 1,
                    step_mod: 0,
                    alfo: 0,
                },
            ),
            counts: Counts {
                slot_starts: self.counts.slot_starts.wrapping_add(1),
                ..self.counts
            },
            ..self
        }
    }

    /// Voice `i` goes into its release.
    pub open spec fn slot_released(self, i: int) -> Sound {
        let s = self.slots[i];
        Sound {
            slots: self.slots.update(
                i,
                Slot { eg: Eg { state: EgState::Release, ..s.eg }, ..s },
            ),
            ..self
        }
    }

    /// The strobe reaches voice `i`: a pressed key starts it if it is off, a
    /// released key releases it if it plays. Its own strobe bit is cleared.
    pub open spec fn slot_keyed(self, i: int) -> Sound {
        let key = self.reg(i, 0);
        let s = if key & 0x800 != 0 {
            if self.slots[i].is_off() {
                self.slot_started(i)
            } else {
                self
            }
        } else if !self.slots[i].is_off() {
            self.slot_released(i)
        } else {
            self
        };
        if key & 0x1000 != 0 {
            s.stored((i * 0x20) as u32, key & 0xEFFF)
        } else {
            s
        }
    }

    /// The strobe has reached the first `n` voices.
    pub open spec fn slots_keyed(self, n: int) -> Sound
        decreases n,
    {
        if n <= 0 {
            self
        } else {
            self.slots_keyed(n - 1).slot_keyed(n - 1)
        }
    }

    /// The strobe of the keys.
    pub open spec fn strobed(self) -> Sound {
        Sound {
            counts: Counts {
                keyon_execs: self.counts.keyon_execs.wrapping_add(1),
                ..self.counts
            },
            ..self
        }.slots_keyed(32)
    }

    // ---- register writes -------------------------------------------------------

    /// A register of the effect processor is written.
    pub open spec fn dsp_written(self, o: u32, v: u16) -> Sound {
        let d = self.dsp;
        if 0x700 <= o <= 0x77F {
            Sound { dsp: Fx { coef: d.coef.update((o - 0x700) / 2, v as i16), ..d }, ..self }
        } else if 0x780 <= o <= 0x7BF {
            Sound { dsp: Fx { madrs: d.madrs.update((o - 0x780) / 2, v), ..d }, ..self }
        } else if 0x800 <= o <= 0xBFF {
            Sound { dsp: Fx { mpro: d.mpro.update((o - 0x800) / 2, v), ..d }.started(), ..self }
        } else {
            self
        }
    }

    /// A key register with the strobe set has been written.
    pub open spec fn is_strobe(self, o: u32) -> bool {
        o < 0x400 && o & 0x1F <= 1 && self.at16(o & 0xFFFF_FFE0) & 0x1000 != 0
    }

    /// A control register is written.
    pub open spec fn control_written(self, o: u32, v: u16) -> Sound {
        let a = o & 0xFFFF_FFFE;
        if a == SCIRE {
            self.stored(SCIPD, self.at16(SCIPD) & !v).line_evaluated()
        } else if a == MCIRE {
            self.stored(MCIPD, self.at16(MCIPD) & !v).main_evaluated()
        } else if a == SCIEB || a == SCIPD || a == SCILV0 || a == SCILV1 || a == SCILV2 {
            self.line_evaluated()
        } else if a == MCIEB || a == MCIPD {
            self.main_evaluated()
        } else if a == TIMA {
            self.timer_written(0, v)
        } else if a == TIMB {
            self.timer_written(1, v)
        } else if a == TIMC {
            self.timer_written(2, v)
        } else {
            self
        }
    }

    pub open spec fn timer_written(self, i: int, v: u16) -> Sound {
        Sound {
            timers: self.timers.update(i, Timer::written(v, self.timers[i].counter)),
            ..self
        }
    }

    /// A register is written, with all that this brings about.
    pub open spec fn written16(self, o: u32, v: u16) -> Sound {
        let s = self.stored(o, v).dsp_written(o, v);
        (if s.is_strobe(o) {
            s.strobed()
        } else {
            s
        }).control_written(o, v)
    }

    /// A byte write is a write of its register with the other byte as it is.
    pub open spec fn written8(self, o: u32, v: u8) -> Sound {
        let a = o & 0xFFFF_FFFE;
        self.written16(
            a,
            if o & 1 == 0 {
                (self.at16(a) & 0xFF) | ((v as u16) << 8)
            } else {
                (self.at16(a) & 0xFF00) | v as u16
            },
        )
    }

    pub open spec fn written32(self, o: u32, v: u32) -> Sound {
        self.written16(o, (v >> 16) as u16).written16(o.wrapping_add(2), v as u16)
    }

    // ---- voices ----------------------------------------------------------------

    pub open spec fn with_slot(self, i: int, s: Slot) -> Sound {
        Sound { slots: self.slots.update(i, s), ..self }
    }

    /// The waveform of voice `i`.
    pub open spec fn wave(self, i: int) -> Wave {
        Wave {
            key: self.reg(i, 0),
            low: self.reg(i, 1),
            lsa: self.reg(i, 2),
            lea: self.reg(i, 3),
        }
    }

    pub open spec fn lfo_run(self, i: int) -> Sound {
        self.with_slot(
            i,
            self.slots[i].lfo_run(self.reg(i, 9), self.reg(i, 8), self.lfsr as u8),
        )
    }

    /// Voice `i` after a sample of its waveform.
    pub open spec fn slot_played(self, i: int) -> Sound {
        if self.slots[i].active {
            self.with_slot(i, self.slots[i].played(self.wave(i)))
        } else {
            self
        }
    }

    /// The sample of voice `i`, before its envelope.
    pub open spec fn slot_output(self, i: int, ram: Seq<u8>) -> i16 {
        if self.slots[i].active {
            self.slots[i].interpolated(self.wave(i), ram)
        } else {
            0
        }
    }

    /// Voice `i` after a sample of its envelope. It stops where the release ends.
    pub open spec fn eg_advanced(self, i: int) -> Sound {
        let s = self.slots[i];
        if s.active {
            self.with_slot(i, Slot { eg: s.eg.advanced(), active: !s.eg.fades_out(), ..s })
        } else {
            self
        }
    }

    /// The level of voice `i`: that of its envelope, less what the oscillator takes
    /// off.
    pub open spec fn level(self, i: int) -> int {
        let level = self.slots[i].eg.sounding() - self.slots[i].alfo;
        if level < 0 {
            0
        } else {
            level
        }
    }

    /// The gain of voice `i`, in 1/4096: that of its level, times that of its total
    /// level.
    pub open spec fn slot_gain(self, i: int) -> int {
        if self.slots[i].active {
            level_gain(self.level(i)) * total_gain((self.reg(i, 6) & 0xFF) as int) / 4096
        } else {
            0
        }
    }
}

// ---- mixer ------------------------------------------------------------------------

/// `x` times a gain in 1/4096.
pub open spec fn scaled(x: int, gain: int) -> int {
    ((x * gain) as i32 >> 12) as int
}

/// The gain of a channel, in 1/4096 with two bits of headroom. Bit 4 of the pan
/// says which channel its other bits attenuate.
pub open spec fn send_gain(level: u16, pan: u16, left: bool) -> i32 {
    channel_gain(
        level as int,
        if (pan < 16) == left {
            (pan & 0xF) as int
        } else {
            0
        },
    )
}

/// A sum of voices as an output sample: without the headroom, and clipped.
pub open spec fn clipped(sum: int) -> i16 {
    let x = sum as i32 >> 2;
    if x < -0x8000 {
        (-0x8000) as i16
    } else if x > 0x7FFF {
        0x7FFF
    } else {
        x as i16
    }
}

/// The noise generator a step further.
pub open spec fn noise_step(x: u32) -> u32 {
    (x >> 1) | ((((x >> 5) ^ x) & 1) << 16)
}

/// A mix under way: the state, and the sums of the channels.
pub struct Mix {
    pub sound: Sound,
    pub left: int,
    pub right: int,
}

impl Fx {
    /// The effect processor receives a voice by its input register.
    pub open spec fn fed(self, voice: i32, input: u16) -> Fx {
        if input & 7 != 0 {
            self.sampled(voice << ((input & 7) as u32), ((input >> 3) & 0xF) as usize as int)
        } else {
            self
        }
    }
}

impl Sound {
    /// Voice `i` is mixed: to the channels by its direct send, with the effect
    /// output `ret[i]` by its effect send, and to the effect processor by its input
    /// level. The effects take part if `on`.
    pub open spec fn slot_mixed(self, ram: Seq<u8>, ret: Seq<i16>, on: bool, i: int) -> Mix {
        let n = Sound { lfsr: noise_step(self.lfsr), ..self };
        if !n.slots[i].active {
            Mix { sound: n, left: 0, right: 0 }
        } else {
            let a = n.lfo_run(i);
            let b = a.slot_played(i);
            let c = b.eg_advanced(i);
            let voice = scaled(a.slot_output(i, ram) as int, b.slot_gain(i));
            let send = self.reg(i, 0xB);
            let input = self.reg(i, 0xA);
            Mix {
                sound: if on {
                    Sound { dsp: c.dsp.fed(voice as i32, input), ..c }
                } else {
                    c
                },
                left: voice_part(voice, ret, on, i, send, true),
                right: voice_part(voice, ret, on, i, send, false),
            }
        }
    }

    /// The mix of the first `n` voices.
    pub open spec fn mix_of(self, ram: Seq<u8>, n: int) -> Mix
        decreases n,
    {
        if n <= 0 {
            Mix { sound: self, left: 0, right: 0 }
        } else {
            let m = self.mix_of(ram, n - 1);
            let k = m.sound.slot_mixed(ram, self.dsp.efreg, self.dsp.is_running(), n - 1);
            Mix { sound: k.sound, left: m.left + k.left, right: m.right + k.right }
        }
    }

    /// The effect processor with its ring set from the registers.
    pub open spec fn ring_set(self) -> Fx {
        let r = self.at16(0x402);
        Fx { rbp: (r & 0x3F) as u32, rbl: 0x2000u32 << ((r >> 7) & 3), ..self.dsp }
    }

    /// The state after an output sample.
    pub open spec fn mixed(self, ram: Seq<u8>) -> Sound {
        let s = self.mix_of(ram, 32).sound;
        if self.dsp.is_running() {
            Sound { dsp: s.ring_set().passed(ram), ..s }
        } else {
            s
        }
    }

    /// The sound RAM after an output sample.
    pub open spec fn ram_mixed(self, ram: Seq<u8>) -> Seq<u8> {
        if self.dsp.is_running() {
            self.mix_of(ram, 32).sound.ring_set().ram_passed(ram)
        } else {
            ram
        }
    }

    /// The output sample, left and right.
    pub open spec fn output(self, ram: Seq<u8>) -> (i16, i16) {
        (clipped(self.mix_of(ram, 32).left), clipped(self.mix_of(ram, 32).right))
    }
}

/// What voice `i` adds to a channel.
pub open spec fn voice_part(
    voice: int,
    ret: Seq<i16>,
    on: bool,
    i: int,
    send: u16,
    left: bool,
) -> int {
    scaled(voice, send_gain((send >> 13) & 7, (send >> 8) & 0x1F, left) as int) + if on && i < 16 {
        scaled(ret[i] as int, send_gain((send >> 5) & 7, send & 0x1F, left) as int)
    } else {
        0
    }
}

// ---- code -------------------------------------------------------------------------

proof fn scaled_bounds(x: i32, gain: i32)
    requires
        -0x8000 <= x <= 0x8000,
        0 <= gain <= 16384,
    ensures
        i32::MIN <= x * gain <= i32::MAX,
        gain <= 4096 ==> -0x8000 <= scaled(x as int, gain as int) <= 0x8000,
        -0x2_0000 <= scaled(x as int, gain as int) <= 0x2_0000,
{
    assert(-0x2000_0000 <= x * gain <= 0x2000_0000) by (nonlinear_arith)
        requires
            -0x8000 <= x <= 0x8000,
            0 <= gain <= 16384,
    ;
    assert(gain <= 4096 ==> -0x800_0000 <= x * gain <= 0x800_0000) by (nonlinear_arith)
        requires
            -0x8000 <= x <= 0x8000,
            0 <= gain <= 16384,
    ;
    let p = (x * gain) as i32;
    assert({
        &&& -0x2000_0000 <= p <= 0x2000_0000 ==> -0x2_0000 <= p >> 12 <= 0x2_0000
        &&& -0x800_0000 <= p <= 0x800_0000 ==> -0x8000 <= p >> 12 <= 0x8000
    }) by (bit_vector);
}

fn scale(x: i32, gain: i32) -> (r: i32)
    requires
        -0x8000 <= x <= 0x8000,
        0 <= gain <= 16384,
    ensures
        r == scaled(x as int, gain as int),
        gain <= 4096 ==> -0x8000 <= r <= 0x8000,
        -0x2_0000 <= r <= 0x2_0000,
{
    proof {
        scaled_bounds(x, gain);
    }
    (x * gain) >> 12
}

fn gain_of_send(level: u16, pan: u16, left: bool) -> (r: i32)
    requires
        level <= 7,
    ensures
        r == send_gain(level, pan, left),
        0 <= r <= 16384,
{
    proof {
        masks_bound();
    }
    channel_gain_of(
        level as usize,
        if (pan < 16) == left {
            (pan & 0xF) as usize
        } else {
            0
        },
    )
}

fn part_of_voice(voice: i32, ret: &[i16; 16], on: bool, i: usize, send: u16, left: bool) -> (r: i32)
    requires
        -0x8000 <= voice <= 0x8000,
    ensures
        r == voice_part(voice as int, ret@, on, i as int, send, left),
        -0x4_0000 <= r <= 0x4_0000,
{
    proof {
        masks_bound();
    }
    let direct: i32 = scale(voice, gain_of_send((send >> 13) & 7, (send >> 8) & 0x1F, left));
    let effect: i32 = if on && i < 16 {
        scale(ret[i] as i32, gain_of_send((send >> 5) & 7, send & 0x1F, left))
    } else {
        0
    };
    direct + effect
}

fn clip(sum: i32) -> (r: i16)
    ensures
        r == clipped(sum as int),
{
    let x: i32 = sum >> 2;
    if x < -0x8000 {
        -0x8000
    } else if x > 0x7FFF {
        0x7FFF
    } else {
        x as i16
    }
}

impl Default for ScspCtrl {
    fn default() -> (r: ScspCtrl)
        ensures
            r@ == Sound::reset(),
            r@.wf(),
    {
        ScspCtrl::new()
    }
}

impl ScspCtrl {
    /// A generator at reset.
    pub fn new() -> (r: ScspCtrl)
        ensures
            r@ == Sound::reset(),
            r@.wf(),
    {
        let r = ScspCtrl {
            raw: Ram::new(REG_BYTES),
            timers: Timer::three_idle(),
            sample_counter: 0,
            slots: Slot::all_silent(),
            lfsr: 1,
            dsp: Dsp::new(),
            asserted_level: 0,
            main_pending: false,
            counts: Counts { keyon_execs: 0, slot_starts: 0, tt_calls: 0, tt_samples: 0 },
            timer_of: [0u32; 3],
        };
        proof {
            let e = Sound::reset();
            assert(r@.timer_of =~= e.timer_of);
        }
        r
    }

    /// Key strobes, and voices that they started.
    pub fn dbg_keyon_counts(&self) -> (r: (u32, u32))
        ensures
            r == (self@.counts.keyon_execs, self@.counts.slot_starts),
    {
        (self.counts.keyon_execs, self.counts.slot_starts)
    }

    /// How often the timers fired, calls that advanced them, samples of them.
    pub fn dbg_timer_counts(&self) -> (r: ([u32; 3], u32, u32))
        ensures
            r.0@ == self@.timer_of,
            r.1 == self@.counts.tt_calls,
            r.2 == self@.counts.tt_samples,
    {
        (self.timer_of, self.counts.tt_calls, self.counts.tt_samples)
    }

    /// Reads a byte.
    pub fn read8(&self, o: u32) -> (r: u8)
        requires
            self@.wf(),
        ensures
            r == self@.at(o),
    {
        self.raw.read8(o)
    }

    /// Reads a register.
    pub fn read16(&self, o: u32) -> (r: u16)
        requires
            self@.wf(),
        ensures
            r == self@.at16(o),
    {
        self.raw.read16(o)
    }

    /// Reads two registers.
    pub fn read32(&self, o: u32) -> (r: u32)
        requires
            self@.wf(),
        ensures
            r == self@.at32(o),
    {
        ((self.read16(o) as u32) << 16) | self.read16(o.wrapping_add(2)) as u32
    }

    /// The interrupt level, and the registers of enabled and pending interrupts.
    pub fn irq_state(&self) -> (r: (u8, u16, u16))
        requires
            self@.wf(),
        ensures
            r == (self@.asserted_level, self@.at16(SCIEB), self@.at16(SCIPD)),
    {
        (self.asserted_level, self.read16(SCIEB), self.read16(SCIPD))
    }

    fn store(&mut self, o: u32, v: u16)
        requires
            old(self)@.wf(),
        ensures
            final(self)@ == old(self)@.stored(o, v),
            final(self)@.wf(),
    {
        self.raw.write16(o, v);
    }

    fn slot_reg(&self, i: usize, k: u32) -> (r: u16)
        requires
            self@.wf(),
            i < 32,
            k < 16,
        ensures
            r == self@.reg(i as int, k as int),
    {
        self.read16(i as u32 * 0x20 + k * 2)
    }

    // ---- interrupts --------------------------------------------------------------

    fn level_of_source(&self, bit: u32) -> (r: u8)
        requires
            self@.wf(),
            bit < 16,
        ensures
            r == self@.source_level(bit),
    {
        (((self.read16(SCILV0) >> bit) & 1) as u8) | ((((self.read16(SCILV1) >> bit) & 1) as u8)
            << 1) | ((((self.read16(SCILV2) >> bit) & 1) as u8) << 2)
    }

    fn evaluate_line(&mut self)
        requires
            old(self)@.wf(),
        ensures
            final(self)@ == old(self)@.line_evaluated(),
            final(self)@.wf(),
    {
        let active: u16 = self.read16(SCIPD) & self.read16(SCIEB);
        self.asserted_level = if active & INT_TIMER_A != 0 {
            self.level_of_source(6)
        } else if active & INT_TIMER_B != 0 {
            self.level_of_source(7)
        } else if active & INT_TIMER_C != 0 {
            self.level_of_source(8)
        } else if active & INT_MIDI != 0 {
            self.level_of_source(3)
        } else {
            0
        };
    }

    fn evaluate_main(&mut self)
        requires
            old(self)@.wf(),
        ensures
            final(self)@ == old(self)@.main_evaluated(),
            final(self)@.wf(),
    {
        self.main_pending = self.read16(MCIPD) & self.read16(MCIEB) != 0;
    }

    // ---- timers ------------------------------------------------------------------

    fn run_timer(&mut self, sc: u64, i: usize) -> (r: bool)
        requires
            old(self)@.wf(),
            i < 3,
        ensures
            final(self)@ == old(self)@.timer_run(sc, i as int),
            final(self)@.wf(),
            r == old(self)@.timers[i as int].fires_on(sc),
            final(self)@.sample_counter == old(self)@.sample_counter,
            forall|j: int|
                0 <= j < 3 && j != i ==> #[trigger] final(self)@.timers[j]
                    == old(self)@.timers[j],
    {
        let mut t: Timer = self.timers[i];
        if !t.is_clocked(sc) {
            return false;
        }
        let fired: bool = t.clock();
        self.timers[i] = t;
        if fired {
            self.timer_of[i] = self.timer_of[i].wrapping_add(1);
            let bit: u16 = if i == 0 {
                INT_TIMER_A
            } else if i == 1 {
                INT_TIMER_B
            } else {
                INT_TIMER_C
            };
            self.store(SCIPD, self.read16(SCIPD) | bit);
            if i == 0 {
                self.store(MCIPD, self.read16(MCIPD) | INT_TIMER_A);
            }
        }
        fired
    }

    /// Advances the timers by output samples.
    pub fn tick_timers(&mut self, samples: u32)
        requires
            old(self)@.wf(),
        ensures
            final(self)@ == old(self)@.ticked(samples),
            final(self)@.wf(),
    {
        if samples == 0 {
            return;
        }
        self.counts.tt_calls = self.counts.tt_calls.wrapping_add(1);
        self.counts.tt_samples = self.counts.tt_samples.wrapping_add(samples);
        let ghost s0 = self@;
        let mut any: bool = false;
        let mut first: bool = false;
        let mut n: u32 = 0;
        while n < samples
            invariant
                n <= samples,
                self@ == s0.timers_after(n as int),
                self@.wf(),
                any == s0.fires_within(n as int),
                first == s0.first_fires_within(n as int),
            decreases samples - n,
        {
            let ghost s = self@;
            let sc: u64 = self.sample_counter;
            self.sample_counter = self.sample_counter.wrapping_add(1);
            let a: bool = self.run_timer(sc, 0);
            let b: bool = self.run_timer(sc, 1);
            let c: bool = self.run_timer(sc, 2);
            proof {
                assert(a == s.timer_fires(0) && b == s.timer_fires(1) && c == s.timer_fires(2));
                if a || b || c {
                    assert(s0.timers_after(n as int) == s);
                    assert(s0.fires_within(n as int + 1));
                }
                if a {
                    assert(s0.timers_after(n as int) == s);
                    assert(s0.first_fires_within(n as int + 1));
                }
            }
            any = any || a || b || c;
            first = first || a;
            n += 1;
        }
        if any {
            self.evaluate_line();
        }
        if first {
            self.evaluate_main();
        }
    }

    // ---- keys --------------------------------------------------------------------

    fn start_slot(&mut self, i: usize)
        requires
            old(self)@.wf(),
            i < 32,
        ensures
            final(self)@ == old(self)@.slot_started(i as int),
            final(self)@.wf(),
    {
        self.counts.slot_starts = self.counts.slot_starts.wrapping_add(1);
        let pitch: u16 = self.slot_reg(i, 8);
        let eg: Eg = key_envelope(self.slot_reg(i, 4), self.slot_reg(i, 5), pitch);
        self.slots[i] = Slot {
            active: true,
            backwards: false,
            cur: 0,
            nxt: 0x1000,
            step: step_of_pitch(pitch),
            eg,
            lfo_counter: 0,
            lfo_timer: 1,
            step_mod: 0,
            alfo: 0,
        };
    }

    fn key_slot(&mut self, i: usize)
        requires
            old(self)@.wf(),
            i < 32,
        ensures
            final(self)@ == old(self)@.slot_keyed(i as int),
            final(self)@.wf(),
    {
        let key: u16 = self.slot_reg(i, 0);
        let mut s: Slot = self.slots[i];
        let off: bool = !s.active || s.eg.state == EgState::Release;
        if key & 0x800 != 0 {
            if off {
                self.start_slot(i);
            }
        } else if !off {
            s.eg.state = EgState::Release;
            self.slots[i] = s;
        }
        if key & 0x1000 != 0 {
            self.store(i as u32 * 0x20, key & 0xEFFF);
        }
    }

    fn strobe_keys(&mut self)
        requires
            old(self)@.wf(),
        ensures
            final(self)@ == old(self)@.strobed(),
            final(self)@.wf(),
    {
        self.counts.keyon_execs = self.counts.keyon_execs.wrapping_add(1);
        let ghost s0 = self@;
        let mut i: usize = 0;
        while i < 32
            invariant
                i <= 32,
                self@ == s0.slots_keyed(i as int),
                self@.wf(),
            decreases 32 - i,
        {
            self.key_slot(i);
            i += 1;
        }
    }

    // ---- register writes ---------------------------------------------------------

    fn write_dsp(&mut self, o: u32, v: u16)
        requires
            old(self)@.wf(),
        ensures
            final(self)@ == old(self)@.dsp_written(o, v),
            final(self)@.wf(),
    {
        if 0x700 <= o && o <= 0x77F {
            self.dsp.coef[((o - 0x700) / 2) as usize] = v as i16;
        } else if 0x780 <= o && o <= 0x7BF {
            self.dsp.madrs[((o - 0x780) / 2) as usize] = v;
        } else if 0x800 <= o && o <= 0xBFF {
            self.dsp.mpro[((o - 0x800) / 2) as usize] = v;
            self.dsp.start();
        }
    }

    fn write_timer(&mut self, i: usize, v: u16)
        requires
            old(self)@.wf(),
            i < 3,
        ensures
            final(self)@ == old(self)@.timer_written(i as int, v),
            final(self)@.wf(),
    {
        let mut t: Timer = self.timers[i];
        t.write(v);
        self.timers[i] = t;
    }

    fn write_control(&mut self, o: u32, v: u16)
        requires
            old(self)@.wf(),
        ensures
            final(self)@ == old(self)@.control_written(o, v),
            final(self)@.wf(),
    {
        let a: u32 = o & 0xFFFF_FFFE;
        if a == SCIRE {
            self.store(SCIPD, self.read16(SCIPD) & !v);
            self.evaluate_line();
        } else if a == MCIRE {
            self.store(MCIPD, self.read16(MCIPD) & !v);
            self.evaluate_main();
        } else if a == SCIEB || a == SCIPD || a == SCILV0 || a == SCILV1 || a == SCILV2 {
            self.evaluate_line();
        } else if a == MCIEB || a == MCIPD {
            self.evaluate_main();
        } else if a == TIMA {
            self.write_timer(0, v);
        } else if a == TIMB {
            self.write_timer(1, v);
        } else if a == TIMC {
            self.write_timer(2, v);
        }
    }

    /// Writes a register.
    pub fn write16(&mut self, o: u32, v: u16)
        requires
            old(self)@.wf(),
        ensures
            final(self)@ == old(self)@.written16(o, v),
            final(self)@.wf(),
    {
        self.store(o, v);
        self.write_dsp(o, v);
        if o < 0x400 && o & 0x1F <= 1 && self.read16(o & 0xFFFF_FFE0) & 0x1000 != 0 {
            self.strobe_keys();
        }
        self.write_control(o, v);
    }

    /// Writes a byte.
    pub fn write8(&mut self, o: u32, v: u8)
        requires
            old(self)@.wf(),
        ensures
            final(self)@ == old(self)@.written8(o, v),
            final(self)@.wf(),
    {
        let a: u32 = o & 0xFFFF_FFFE;
        let cur: u16 = self.read16(a);
        let nv: u16 = if o & 1 == 0 {
            (cur & 0xFF) | ((v as u16) << 8)
        } else {
            (cur & 0xFF00) | v as u16
        };
        self.write16(a, nv);
    }

    /// Writes two registers.
    pub fn write32(&mut self, o: u32, v: u32)
        requires
            old(self)@.wf(),
        ensures
            final(self)@ == old(self)@.written32(o, v),
            final(self)@.wf(),
    {
        self.write16(o, (v >> 16) as u16);
        self.write16(o.wrapping_add(2), v as u16);
    }

    // ---- voices ------------------------------------------------------------------

    /// Whether voice `i` plays.
    pub fn slot_active(&self, i: usize) -> (r: bool)
        requires
            i < 32,
        ensures
            r == self@.slots[i as int].active,
    {
        self.slots[i].active
    }

    /// Runs the low-frequency oscillator of voice `i` for a sample.
    pub fn run_lfo(&mut self, i: usize)
        requires
            old(self)@.wf(),
            i < 32,
        ensures
            final(self)@ == old(self)@.lfo_run(i as int),
            final(self)@.wf(),
    {
        let mut s: Slot = self.slots[i];
        s.run_lfo(self.slot_reg(i, 9), self.slot_reg(i, 8), self.lfsr as u8);
        self.slots[i] = s;
    }

    /// Plays a sample of voice `i`, before its envelope.
    pub fn slot_sample(&mut self, i: usize, ram: &Ram) -> (r: i16)
        requires
            old(self)@.wf(),
            i < 32,
            ram@.len() > 0,
        ensures
            final(self)@ == old(self)@.slot_played(i as int),
            r == old(self)@.slot_output(i as int, ram@),
            final(self)@.wf(),
    {
        let mut s: Slot = self.slots[i];
        if !s.active {
            return 0;
        }
        let w = Wave {
            key: self.slot_reg(i, 0),
            low: self.slot_reg(i, 1),
            lsa: self.slot_reg(i, 2),
            lea: self.slot_reg(i, 3),
        };
        let r: i16 = s.play(&w, ram);
        self.slots[i] = s;
        r
    }

    /// Advances the envelope of voice `i` by a sample; gives its gain in 1/4096.
    pub fn eg_advance(&mut self, i: usize) -> (r: i32)
        requires
            old(self)@.wf(),
            i < 32,
        ensures
            final(self)@ == old(self)@.eg_advanced(i as int),
            r == old(self)@.slot_gain(i as int),
            final(self)@.wf(),
            0 <= r <= 4096,
    {
        let mut s: Slot = self.slots[i];
        if !s.active {
            return 0;
        }
        let tl: usize = (self.slot_reg(i, 6) & 0xFF) as usize;
        let fades: bool = s.eg.state == EgState::Release && s.eg.volume - s.eg.rr <= 0;
        let rest: i32 = s.eg.advance() - s.alfo;
        let level: usize = if rest < 0 {
            0
        } else {
            rest as usize
        };
        s.active = !fades;
        self.slots[i] = s;
        proof {
            masks_bound();
        }
        let a: i32 = level_gain_of(level);
        let b: i32 = total_gain_of(tl);
        assert(0 <= a * b <= 0x100_0000) by (nonlinear_arith)
            requires
                0 <= a <= 4096,
                0 <= b <= 4096,
        ;
        (a * b) / 4096
    }

    // ---- debugging ---------------------------------------------------------------

    /// The settings of voice `i` and where it is.
    pub fn slot_debug(&self, i: usize) -> (r: SlotDebug)
        requires
            self@.wf(),
            i < 32,
        ensures
            r.shows(self@, i as int),
    {
        let key: u16 = self.slot_reg(i, 0);
        let pitch: u16 = self.slot_reg(i, 8);
        let input: u16 = self.slot_reg(i, 0xA);
        let send: u16 = self.slot_reg(i, 0xB);
        let s: Slot = self.slots[i];
        SlotDebug {
            active: s.active,
            sa: (((key & 0xF) as u32) << 16) | self.slot_reg(i, 1) as u32,
            lsa: self.slot_reg(i, 2),
            lea: self.slot_reg(i, 3),
            pcm8: key & 0x10 != 0,
            lpctl: ((key >> 5) & 3) as u8,
            oct: read_octave(pitch) as i8,
            fns: pitch & 0x3FF,
            step: s.step,
            cur: s.cur,
            eg_state: match s.eg.state {
                EgState::Attack => "ATK",
                EgState::Decay1 => "D1",
                EgState::Decay2 => "D2",
                EgState::Release => "REL",
            },
            eg_volume: s.eg.volume / 0x1_0000,
            disdl: ((send >> 13) & 7) as u8,
            dipan: ((send >> 8) & 0x1F) as u8,
            tl: self.slot_reg(i, 6) & 0xFF,
            imxl: (input & 7) as u8,
            isel: ((input >> 3) & 0xF) as u8,
            efsdl: ((send >> 5) & 7) as u8,
            efpan: (send & 0x1F) as u8,
        }
    }

    /// Whether the effect processor runs, its outputs, and the largest outputs and
    /// inputs so far.
    pub fn dsp_state(&self) -> (r: (bool, [i16; 16], [i32; 16], [i32; 16]))
        ensures
            r.0 == self@.dsp.is_running(),
            r.1@ == self@.dsp.efreg,
            r.2@ == self@.dsp.efreg_hw,
            r.3@ == self@.dsp.mixs_hw,
    {
        (self.dsp.running(), self.dsp.efreg, self.dsp.efreg_hw, self.dsp.mixs_hw)
    }

    /// The effect outputs that the program writes, in order.
    pub fn dsp_ewt_targets(&self) -> (r: Vec<u8>)
        ensures
            forall|e: u8| #![auto] r@.contains(e) <==> self@.dsp.writes_output(e as int, 128),
            forall|i: int, j: int| 0 <= i < j < r@.len() ==> r@[i] < r@[j],
    {
        let mut hit: [bool; 16] = [false; 16];
        let mut k: usize = 0;
        while k < 128
            invariant
                k <= 128,
                forall|e: int|
                    0 <= e < 16 ==> #[trigger] hit@[e] == self@.dsp.writes_output(e, k as int),
            decreases 128 - k,
        {
            let word: u16 = self.dsp.mpro[k * 4 + 2];
            proof {
                masks_bound();
            }
            assert(self@.dsp.micro(k as int).ewa == (word >> 8) & 0xF);
            if (word >> 12) & 1 != 0 {
                hit[((word >> 8) & 0xF) as usize] = true;
            }
            k += 1;
        }
        let mut r: Vec<u8> = Vec::new();
        let mut e: u8 = 0;
        while e < 16
            invariant
                e <= 16,
                forall|x: int|
                    0 <= x < 16 ==> #[trigger] hit@[x] == self@.dsp.writes_output(x, 128),
                forall|x: u8| #![auto] r@.contains(x) <==> x < e && hit@[x as int],
                forall|i: int, j: int| 0 <= i < j < r@.len() ==> r@[i] < r@[j],
                forall|i: int| 0 <= i < r@.len() ==> #[trigger] r@[i] < e,
            decreases 16 - e,
        {
            if hit[e as usize] {
                let ghost before = r@;
                r.push(e);
                proof {
                    assert(r@[r@.len() - 1] == e);
                    assert forall|x: u8| #![auto] r@.contains(x) implies before.contains(x) || x
                        == e by {
                        let n = choose|n: int| 0 <= n < r@.len() && r@[n] == x;
                        if n < before.len() {
                            assert(before[n] == x);
                        }
                    }
                    assert forall|x: u8| #![auto] before.contains(x) implies r@.contains(x) by {
                        let n = choose|n: int| 0 <= n < before.len() && before[n] == x;
                        assert(r@[n] == x);
                    }
                }
            }
            e += 1;
        }
        proof {
            assert forall|x: u8| #![auto] self@.dsp.writes_output(x as int, 128) implies x < 16 by {
                self.dsp.output_within(x as int);
            }
        }
        r
    }

    // ---- mixer -------------------------------------------------------------------

    fn mix_slot(&mut self, ram: &Ram, ret: &[i16; 16], on: bool, i: usize) -> (r: (i32, i32))
        requires
            old(self)@.wf(),
            i < 32,
            ram@.len() > 0,
        ensures
            ({
                let m = old(self)@.slot_mixed(ram@, ret@, on, i as int);
                final(self)@ == m.sound && r.0 == m.left && r.1 == m.right
            }),
            final(self)@.wf(),
            -0x4_0000 <= r.0 <= 0x4_0000,
            -0x4_0000 <= r.1 <= 0x4_0000,
    {
        self.lfsr = (self.lfsr >> 1) | ((((self.lfsr >> 5) ^ self.lfsr) & 1) << 16);
        if !self.slots[i].active {
            return (0, 0);
        }
        self.run_lfo(i);
        let pcm: i32 = self.slot_sample(i, ram) as i32;
        let gain: i32 = self.eg_advance(i);
        let voice: i32 = scale(pcm, gain);
        let send: u16 = self.slot_reg(i, 0xB);
        let left: i32 = part_of_voice(voice, ret, on, i, send, true);
        let right: i32 = part_of_voice(voice, ret, on, i, send, false);
        if on {
            let input: u16 = self.slot_reg(i, 0xA);
            proof {
                masks_bound();
            }
            if input & 7 != 0 {
                let sel: usize = ((input >> 3) & 0xF) as usize;
                assert(sel <= 15 ==> sel & 0xF == sel) by (bit_vector);
                self.dsp.set_sample(voice << ((input & 7) as u32), sel);
            }
        }
        (left, right)
    }

    /// Makes an output sample, left and right.
    pub fn mix(&mut self, ram: &mut Ram) -> (r: (i16, i16))
        requires
            old(self)@.wf(),
            old(ram)@.len() > 0,
        ensures
            final(self)@ == old(self)@.mixed(old(ram)@),
            final(ram)@ == old(self)@.ram_mixed(old(ram)@),
            r == old(self)@.output(old(ram)@),
            final(self)@.wf(),
            final(ram)@.len() == old(ram)@.len(),
    {
        let on: bool = self.dsp.running();
        let ret: [i16; 16] = self.dsp.efreg;
        let mut left: i32 = 0;
        let mut right: i32 = 0;
        let mut i: usize = 0;
        let ghost s0 = self@;
        while i < 32
            invariant
                i <= 32,
                self@.wf(),
                ram@ == old(ram)@,
                ram@.len() > 0,
                s0 == old(self)@,
                on == s0.dsp.is_running(),
                ret@ == s0.dsp.efreg,
                self@ == s0.mix_of(ram@, i as int).sound,
                left == s0.mix_of(ram@, i as int).left,
                right == s0.mix_of(ram@, i as int).right,
                -0x4_0000 * i <= left <= 0x4_0000 * i,
                -0x4_0000 * i <= right <= 0x4_0000 * i,
            decreases 32 - i,
        {
            let (l, r) = self.mix_slot(&*ram, &ret, on, i);
            left = left + l;
            right = right + r;
            i += 1;
        }
        if on {
            let ring: u16 = self.read16(0x402);
            proof {
                masks_bound();
            }
            self.dsp.rbp = (ring & 0x3F) as u32;
            self.dsp.rbl = 0x2000u32 << ((ring >> 7) & 3);
            self.dsp.step(ram);
        }
        (clip(left), clip(right))
    }
}

} // verus!
