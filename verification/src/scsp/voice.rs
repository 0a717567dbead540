//! Voices of the sound generator: pitch, envelope, low-frequency oscillator and
//! waveform.

use vstd::prelude::*;
use vstd::arithmetic::div_mod::{lemma_div_denominator, lemma_div_is_ordered_by_denominator};
use crate::bits::{casts, low_bits, masks_bound, right_shifts};
use crate::memory::{folded, folded16, Ram};
use crate::scsp::tables::{ATTACK_STEPS, DECAY_STEPS};

verus! {

// ---- envelopes ------------------------------------------------------------------

/// Phases of an envelope.
#[derive(Clone, Copy, Debug, PartialEq, Eq, Structural)]
pub enum EgState {
    Attack,
    Decay1,
    Decay2,
    Release,
}

/// An envelope. Its rates are set when the key is pressed.
#[derive(Clone, Copy, Debug, PartialEq, Eq, Structural)]
pub struct Eg {
    pub state: EgState,
    /// Level, in 1/65536: 0 is silent, 1023 full.
    pub volume: i32,
    /// The attack rises by `2^-ar_shift` of what is left.
    pub ar_shift: u32,
    /// Steps of the decays and of the release.
    pub d1r: i32,
    pub d2r: i32,
    pub rr: i32,
    /// Level, in 32nds, at which the second decay begins.
    pub dl: i32,
    /// The attack sounds at full level.
    pub eghold: bool,
}

/// The highest level of an envelope.
pub const FULL_VOLUME: i32 = 0x3FF_0000;

/// Where an attack begins.
pub const ATTACK_VOLUME: i32 = 0x17F_0000;

/// A first decay as steep as this is left out.
pub const INSTANT_DECAY: i32 = 0x400_0000;

impl Eg {
    pub open spec fn silent() -> Eg {
        Eg {
            state: EgState::Release,
            volume: 0,
            ar_shift: 0,
            d1r: 0,
            d2r: 0,
            rr: 0,
            dl: 0,
            eghold: false,
        }
    }

    pub open spec fn wf(self) -> bool {
        0 <= self.volume <= FULL_VOLUME && self.ar_shift < 32 && 0 <= self.d1r <= INSTANT_DECAY && 0
            <= self.d2r <= INSTANT_DECAY && 0 <= self.rr <= INSTANT_DECAY
    }

    /// The level less `step`, not below 0.
    pub open spec fn fallen(self, step: i32) -> i32 {
        if self.volume - step > 0 {
            (self.volume - step) as i32
        } else {
            0
        }
    }

    /// The level after a sample of attack: it approaches the full level by a
    /// fraction of what is left, and takes the rest when that fraction is 0.
    pub open spec fn risen(self) -> i32 {
        let remaining = (FULL_VOLUME - self.volume) as i32;
        let inc = remaining >> self.ar_shift;
        (self.volume + if inc > 0 {
            inc
        } else {
            remaining
        }) as i32
    }

    /// The envelope after a sample.
    pub open spec fn advanced(self) -> Eg {
        match self.state {
            EgState::Attack => {
                if self.risen() >= FULL_VOLUME {
                    Eg {
                        volume: FULL_VOLUME,
                        state: if self.d1r >= INSTANT_DECAY {
                            EgState::Decay2
                        } else {
                            EgState::Decay1
                        },
                        ..self
                    }
                } else {
                    Eg { volume: self.risen(), ..self }
                }
            },
            EgState::Decay1 => {
                let volume = self.fallen(self.d1r);
                Eg {
                    volume,
                    state: if volume / 0x20_0000 <= self.dl {
                        EgState::Decay2
                    } else {
                        EgState::Decay1
                    },
                    ..self
                }
            },
            EgState::Decay2 => Eg { volume: self.fallen(self.d2r), ..self },
            EgState::Release => Eg { volume: self.fallen(self.rr), ..self },
        }
    }

    /// The level that sounds in a sample.
    pub open spec fn sounding(self) -> int {
        if self.state is Attack && self.eghold {
            1023
        } else {
            self.advanced().volume as int / 0x1_0000
        }
    }

    /// Whether the release ends in this sample.
    pub open spec fn fades_out(self) -> bool {
        self.state is Release && self.volume - self.rr <= 0
    }

    /// Advances the envelope; gives the level that sounds.
    pub(crate) fn advance(&mut self) -> (r: i32)
        requires
            old(self).wf(),
        ensures
            *final(self) == old(self).advanced(),
            r == old(self).sounding(),
            final(self).wf(),
            0 <= r <= 1023,
    {
        let held: bool = self.eghold;
        match self.state {
            EgState::Attack => {
                let remaining: i32 = FULL_VOLUME - self.volume;
                let inc: i32 = remaining >> self.ar_shift;
                proof {
                    shift_shrinks(remaining, 0, self.ar_shift);
                }
                self.volume = self.volume + if inc > 0 {
                    inc
                } else {
                    remaining
                };
                if self.volume >= FULL_VOLUME {
                    self.volume = FULL_VOLUME;
                    self.state = if self.d1r >= INSTANT_DECAY {
                        EgState::Decay2
                    } else {
                        EgState::Decay1
                    };
                }
                if held {
                    1023
                } else {
                    self.volume / 0x1_0000
                }
            },
            EgState::Decay1 => {
                self.fall(self.d1r);
                if self.volume / 0x20_0000 <= self.dl {
                    self.state = EgState::Decay2;
                }
                self.volume / 0x1_0000
            },
            EgState::Decay2 => {
                self.fall(self.d2r);
                self.volume / 0x1_0000
            },
            EgState::Release => {
                self.fall(self.rr);
                self.volume / 0x1_0000
            },
        }
    }

    fn fall(&mut self, step: i32)
        requires
            old(self).wf(),
            0 <= step <= INSTANT_DECAY,
        ensures
            *final(self) == (Eg { volume: old(self).fallen(step), ..*old(self) }),
    {
        self.volume = if self.volume - step > 0 {
            self.volume - step
        } else {
            0
        };
    }
}

/// A right shift takes a number towards 0.
pub(crate) proof fn shift_shrinks(x: i32, y: u32, k: u32)
    by (bit_vector)
    requires
        k < 32,
    ensures
        0 <= x ==> 0 <= x >> k <= x,
        -128 <= x <= 127 ==> -128 <= x >> k <= 127,
        y >> k <= y,
{
}

// ---- voices ---------------------------------------------------------------------

/// What a voice plays. Its settings are in the registers.
#[derive(Clone, Copy, Debug, PartialEq, Eq, Structural)]
pub struct Slot {
    pub active: bool,
    pub backwards: bool,
    /// Position in the waveform and the position behind it, in 1/4096 of a
    /// sample.
    pub cur: u32,
    pub nxt: u32,
    /// Step per output sample, from the pitch.
    pub step: u32,
    pub eg: Eg,
    /// Phase of the low-frequency oscillator, and samples until it moves on.
    pub lfo_counter: u8,
    pub lfo_timer: i32,
    /// What the oscillator adds to the step, and takes off the level.
    pub step_mod: i32,
    pub alfo: i32,
}

impl Slot {
    pub open spec fn silent() -> Slot {
        Slot {
            active: false,
            backwards: false,
            cur: 0,
            nxt: 0,
            step: 0,
            eg: Eg::silent(),
            lfo_counter: 0,
            lfo_timer: 0,
            step_mod: 0,
            alfo: 0,
        }
    }

    pub open spec fn wf(self) -> bool {
        self.eg.wf() && 0 <= self.lfo_timer <= 1020 && 0 <= self.alfo <= 255
    }

    pub(crate) fn all_silent() -> (r: [Slot; 32])
        ensures
            r@ == Seq::new(32, |i: int| Slot::silent()),
    {
        let slot = Slot {
            active: false,
            backwards: false,
            cur: 0,
            nxt: 0,
            step: 0,
            eg: Eg {
                state: EgState::Release,
                volume: 0,
                ar_shift: 0,
                d1r: 0,
                d2r: 0,
                rr: 0,
                dl: 0,
                eghold: false,
            },
            lfo_counter: 0,
            lfo_timer: 0,
            step_mod: 0,
            alfo: 0,
        };
        let mut r: [Slot; 32] = [slot; 32];
        let mut i: usize = 0;
        while i < 32
            invariant
                i <= 32,
                slot == Slot::silent(),
                forall|j: int| 0 <= j < i ==> #[trigger] r@[j] == Slot::silent(),
            decreases 32 - i,
        {
            r[i] = slot;
            i += 1;
        }
        assert(r@ =~= Seq::new(32, |i: int| Slot::silent()));
        r
    }

    pub open spec fn is_off(self) -> bool {
        !self.active || self.eg.state is Release
    }
}

/// The signed octave of a pitch register.
pub open spec fn octave(pitch: u16) -> int {
    (((pitch >> 11) & 0xF) ^ 8) as int - 8
}

/// The octave of a pitch register moves a step by two bits less.
pub open spec fn octave_shifted(x: u32, pitch: u16) -> u32 {
    if octave(pitch) + 2 >= 0 {
        x << ((octave(pitch) + 2) as u32)
    } else {
        x >> ((-(octave(pitch) + 2)) as u32)
    }
}

/// [`octave_shifted`] of a signed number.
pub open spec fn octave_shifted_signed(x: i32, pitch: u16) -> i32 {
    if octave(pitch) + 2 >= 0 {
        x << ((octave(pitch) + 2) as u32)
    } else {
        x >> ((-(octave(pitch) + 2)) as u32)
    }
}

/// The step of a pitch: 1024 plus the fraction, moved by the octave.
pub open spec fn pitch_step(pitch: u16) -> u32 {
    octave_shifted(((pitch & 0x3FF) as u32 + 1024) as u32, pitch)
}

pub(crate) proof fn octave_bounds(pitch: u16)
    ensures
        -8 <= octave(pitch) <= 7,
{
    lfo_bounds(0, pitch);
}

pub(crate) fn read_octave(pitch: u16) -> (r: i32)
    ensures
        r == octave(pitch),
        -8 <= r <= 7,
{
    proof {
        octave_bounds(pitch);
    }
    (((pitch >> 11) & 0xF) ^ 8) as i32 - 8
}

pub(crate) fn step_of_pitch(pitch: u16) -> (r: u32)
    ensures
        r == pitch_step(pitch),
{
    let o: i32 = read_octave(pitch) + 2;
    proof {
        masks_bound();
    }
    let f: u32 = (pitch & 0x3FF) as u32 + 1024;
    if o >= 0 {
        f << (o as u32)
    } else {
        f >> ((-o) as u32)
    }
}

// ---- low-frequency oscillator -----------------------------------------------------

/// The waveform of the pitch oscillator: saw, square, triangle, noise.
pub open spec fn pitch_wave(wave: u16, counter: u8, noise: u8) -> i32 {
    if wave == 0 {
        (counter & 0xFE) as i8 as i32
    } else if wave == 1 {
        (if counter & 0x80 != 0 {
            0x80u8
        } else {
            0x7E
        }) as i8 as i32
    } else if wave == 2 {
        (((counter & 0x3F) ^ (if counter & 0x40 != 0 {
            0x3Fu8
        } else {
            0
        }) ^ (if counter & 0x80 != 0 {
            0x7Fu8
        } else {
            0
        })) << 1) as i8 as i32
    } else {
        (noise & 0xFE) as i8 as i32
    }
}

/// What the pitch oscillator adds to the fraction of the pitch.
pub open spec fn pitch_lfo(lfo: u16, pitch: u16, counter: u8, noise: u8) -> i32 {
    let level = (lfo >> 5) & 7;
    if level == 0 {
        0
    } else {
        let scaled = pitch_wave((lfo >> 8) & 3, counter, noise) >> ((7 - level) as u32);
        ((((0x40u32 ^ ((pitch & 0x3FF) as u32 >> 4)) as i32) * scaled) as i32) >> 6
    }
}

/// The waveform of the amplitude oscillator: saw, square, triangle, noise.
pub open spec fn level_wave(wave: u16, counter: u8, noise: u8) -> u32 {
    if wave == 0 {
        (counter & 0xFE) as u32
    } else if wave == 1 {
        (((counter as i8) >> 7) as u8 & 0xFE) as u32
    } else if wave == 2 {
        ((counter ^ ((counter as i8) >> 7) as u8) << 1) as u32
    } else {
        (noise & 0xFE) as u32
    }
}

/// What the amplitude oscillator adds to the level.
pub open spec fn level_lfo(lfo: u16, counter: u8, noise: u8) -> i32 {
    let level = lfo & 7;
    if level == 0 {
        0
    } else {
        (level_wave((lfo >> 3) & 3, counter, noise) >> ((7 - level) as u32)) as i32
    }
}

/// Samples between two steps of the oscillator.
pub open spec fn lfo_period(lfo: u16) -> u32 {
    let f = ((lfo >> 10) & 0x1F) as u32;
    (((8 - (f & 3)) as u32) << 7) >> (f >> 2)
}

impl Slot {
    /// The voice after its oscillator has run for a sample. The pitch follows the
    /// phase before the step, the level the phase after it.
    pub open spec fn lfo_run(self, lfo: u16, pitch: u16, noise: u8) -> Slot {
        let moves = self.lfo_timer - 1 <= 0;
        let counter = if lfo >> 15 & 1 != 0 {
            0
        } else if moves {
            self.lfo_counter.wrapping_add(1)
        } else {
            self.lfo_counter
        };
        Slot {
            step_mod: octave_shifted_signed(pitch_lfo(lfo, pitch, self.lfo_counter, noise), pitch),
            lfo_timer: (if moves {
                lfo_period(lfo) - 4
            } else {
                self.lfo_timer - 1
            }) as i32,
            lfo_counter: counter,
            alfo: level_lfo(lfo, counter, noise),
            ..self
        }
    }
}

proof fn lfo_bounds(lfo: u16, pitch: u16)
    by (bit_vector)
    ensures
        ((pitch >> 11) & 0xF) ^ 8 <= 15,
        (lfo >> 5) & 7 <= 7,
        lfo & 7 <= 7,
        0x40u32 ^ ((pitch & 0x3FF) as u32 >> 4) <= 127,
        ({
            let f = ((lfo >> 10) & 0x1F) as u32;
            f & 3 <= 3 && f >> 2 <= 7 && 5 <= (((8 - (f & 3)) as u32) << 7) >> (f >> 2) <= 1024
        }),
{
}

fn run_pitch_lfo(lfo: u16, pitch: u16, counter: u8, noise: u8) -> (r: i32)
    ensures
        r == pitch_lfo(lfo, pitch, counter, noise),
{
    let level: u16 = (lfo >> 5) & 7;
    if level == 0 {
        return 0;
    }
    let wave: u16 = (lfo >> 8) & 3;
    let raw: i32 = if wave == 0 {
        (counter & 0xFE) as i8 as i32
    } else if wave == 1 {
        (if counter & 0x80 != 0 {
            0x80u8
        } else {
            0x7E
        }) as i8 as i32
    } else if wave == 2 {
        (((counter & 0x3F) ^ (if counter & 0x40 != 0 {
            0x3Fu8
        } else {
            0
        }) ^ (if counter & 0x80 != 0 {
            0x7Fu8
        } else {
            0
        })) << 1) as i8 as i32
    } else {
        (noise & 0xFE) as i8 as i32
    };
    proof {
        lfo_bounds(lfo, pitch);
        shift_shrinks(raw, 0, (7 - level) as u32);
    }
    let scaled: i32 = raw >> ((7 - level) as u32);
    let depth: i32 = (0x40u32 ^ ((pitch & 0x3FF) as u32 >> 4)) as i32;
    assert(-0x8000 <= depth * scaled <= 0x8000) by (nonlinear_arith)
        requires
            0 <= depth <= 127,
            -128 <= scaled <= 127,
    ;
    (depth * scaled) >> 6
}

fn run_level_lfo(lfo: u16, counter: u8, noise: u8) -> (r: i32)
    ensures
        r == level_lfo(lfo, counter, noise),
        0 <= r <= 255,
{
    let level: u16 = lfo & 7;
    if level == 0 {
        return 0;
    }
    let wave: u16 = (lfo >> 3) & 3;
    let raw: u32 = if wave == 0 {
        (counter & 0xFE) as u32
    } else if wave == 1 {
        (((counter as i8) >> 7) as u8 & 0xFE) as u32
    } else if wave == 2 {
        ((counter ^ ((counter as i8) >> 7) as u8) << 1) as u32
    } else {
        (noise & 0xFE) as u32
    };
    proof {
        lfo_bounds(lfo, 0);
        shift_shrinks(0, raw, (7 - level) as u32);
    }
    (raw >> ((7 - level) as u32)) as i32
}

impl Slot {
    pub(crate) fn run_lfo(&mut self, lfo: u16, pitch: u16, noise: u8)
        requires
            old(self).wf(),
        ensures
            *final(self) == old(self).lfo_run(lfo, pitch, noise),
            final(self).wf(),
    {
        let plfo: i32 = run_pitch_lfo(lfo, pitch, self.lfo_counter, noise);
        let o: i32 = read_octave(pitch) + 2;
        self.step_mod = if o >= 0 {
            plfo << (o as u32)
        } else {
            plfo >> ((-o) as u32)
        };
        proof {
            lfo_bounds(lfo, pitch);
        }
        let f: u32 = ((lfo >> 10) & 0x1F) as u32;
        self.lfo_timer = self.lfo_timer - 1;
        if self.lfo_timer <= 0 {
            self.lfo_counter = self.lfo_counter.wrapping_add(1);
            self.lfo_timer = (((8 - (f & 3)) << 7) >> (f >> 2)) as i32 - 4;
        }
        if lfo >> 15 & 1 != 0 {
            self.lfo_counter = 0;
        }
        self.alfo = run_level_lfo(lfo, self.lfo_counter, noise);
    }
}

// ---- rates ------------------------------------------------------------------------

/// Binary digits of a number.
pub open spec fn digits(n: nat) -> nat
    decreases n,
{
    if n == 0 {
        0
    } else {
        1 + digits(n / 2)
    }
}

/// How much key scaling adds to the rates of a voice.
pub open spec fn rate_scaling(eg2: u16, pitch: u16) -> int {
    let krs = (eg2 >> 10) & 0xF;
    if krs != 0xF {
        octave(pitch) + 2 * krs + (((pitch & 0x3FF) >> 9) & 1)
    } else {
        0
    }
}

/// The entry of a rate table: twice the rate plus the scaling, within the table.
pub open spec fn rate_entry(scaling: int, rate: u16) -> int {
    let r = scaling + 2 * rate;
    if r < 0 {
        0
    } else if r > 63 {
        63
    } else {
        r
    }
}

/// Samples in which a linear attack with the given step would rise from its
/// beginning.
pub open spec fn linear_attack(step: int) -> int {
    let n = 0x280_0000int / (if step > 1 {
        step
    } else {
        1
    });
    if n > 1 {
        n
    } else {
        1
    }
}

/// The attack shift whose exponential takes about as long as a linear attack.
pub open spec fn attack_shift(step: int) -> int {
    let d = digits(linear_attack(step) as nat);
    if d < 2 {
        2
    } else if d > 15 {
        15
    } else {
        d as int
    }
}

impl Eg {
    /// The envelope of a key that is pressed, from the two envelope registers and
    /// the pitch.
    pub open spec fn keyed(eg1: u16, eg2: u16, pitch: u16) -> Eg {
        let k = rate_scaling(eg2, pitch);
        Eg {
            state: EgState::Attack,
            volume: ATTACK_VOLUME,
            ar_shift: attack_shift(ATTACK_STEPS@[rate_entry(k, eg1 & 0x1F)] as int) as u32,
            d1r: DECAY_STEPS@[rate_entry(k, (eg1 >> 6) & 0x1F)],
            d2r: DECAY_STEPS@[rate_entry(k, (eg1 >> 11) & 0x1F)],
            rr: DECAY_STEPS@[rate_entry(k, eg2 & 0x1F)],
            dl: (0x1F - ((eg2 >> 5) & 0x1F)) as i32,
            eghold: eg1 & 0x20 != 0,
        }
    }
}

/// Every step of the rate tables is between 0 and an instant one.
proof fn step_bounds(i: int)
    requires
        0 <= i < 64,
    ensures
        0 <= ATTACK_STEPS@[i] <= INSTANT_DECAY,
        0 <= DECAY_STEPS@[i] <= INSTANT_DECAY,
{
}

fn entry_of(scaling: i32, rate: u16) -> (r: usize)
    requires
        -8 <= scaling <= 64,
        rate <= 31,
    ensures
        r == rate_entry(scaling as int, rate),
        r < 64,
{
    let r: i32 = scaling + 2 * rate as i32;
    if r < 0 {
        0
    } else if r > 63 {
        63
    } else {
        r as usize
    }
}

fn shift_of_attack(step: i32) -> (r: u32)
    requires
        0 <= step,
    ensures
        r == attack_shift(step as int),
        2 <= r <= 15,
{
    let mut n: i32 = 0x280_0000 / (if step > 1 {
        step
    } else {
        1
    });
    if n < 1 {
        n = 1;
    }
    let ghost n0 = n as nat;
    let mut d: u32 = 0;
    while n > 0
        invariant
            0 <= n,
            d + digits(n as nat) == digits(n0),
            n0 == linear_attack(step as int),
            d + n <= 0x7FFF_FFFF,
        decreases n,
    {
        n = n / 2;
        d = d + 1;
    }
    if d < 2 {
        2
    } else if d > 15 {
        15
    } else {
        d
    }
}

/// The envelope of a key that is pressed.
pub(crate) fn key_envelope(eg1: u16, eg2: u16, pitch: u16) -> (r: Eg)
    ensures
        r == Eg::keyed(eg1, eg2, pitch),
        r.wf(),
{
    proof {
        masks_bound();
        octave_bounds(pitch);
    }
    let krs: u16 = (eg2 >> 10) & 0xF;
    let k: i32 = if krs != 0xF {
        read_octave(pitch) + 2 * krs as i32 + (((pitch & 0x3FF) >> 9) & 1) as i32
    } else {
        0
    };
    let attack: usize = entry_of(k, eg1 & 0x1F);
    let first: usize = entry_of(k, (eg1 >> 6) & 0x1F);
    let second: usize = entry_of(k, (eg1 >> 11) & 0x1F);
    let release: usize = entry_of(k, eg2 & 0x1F);
    proof {
        step_bounds(attack as int);
        step_bounds(first as int);
        step_bounds(second as int);
        step_bounds(release as int);
    }
    Eg {
        state: EgState::Attack,
        volume: ATTACK_VOLUME,
        ar_shift: shift_of_attack(ATTACK_STEPS[attack]),
        d1r: DECAY_STEPS[first],
        d2r: DECAY_STEPS[second],
        rr: DECAY_STEPS[release],
        dl: 0x1F - ((eg2 >> 5) & 0x1F) as i32,
        eghold: eg1 & 0x20 != 0,
    }
}

// ---- waveforms ----------------------------------------------------------------------

/// Where a waveform is, and how it loops.
#[derive(Clone, Copy, Debug, PartialEq, Eq, Structural)]
pub struct Wave {
    /// The key register: 8-bit samples, loop mode, high bits of the address.
    pub key: u16,
    /// Low bits of the address.
    pub low: u16,
    /// Start and end of the loop, in samples.
    pub lsa: u16,
    pub lea: u16,
}

impl Wave {
    pub open spec fn start(self) -> u32 {
        (((self.key & 0xF) as u32) << 16) | self.low as u32
    }

    pub open spec fn is_8_bit(self) -> bool {
        self.key & 0x10 != 0
    }

    /// 0 none, 1 forward, 2 reverse, 3 alternating.
    pub open spec fn loop_mode(self) -> u16 {
        (self.key >> 5) & 3
    }

    /// The sample at a position.
    pub open spec fn sample(self, ram: Seq<u8>, pos: u32) -> i32 {
        if self.is_8_bit() {
            (folded(ram, (self.start() + (pos >> 12)) as u32 & 0x7_FFFF) as i8 as i32) << 8
        } else {
            folded16(ram, (self.start() + ((pos >> 11) & 0xFFFF_FFFE)) as u32 & 0x7_FFFF) as i16
                as i32
        }
    }
}

impl Slot {
    /// The sample of a voice: the two samples around its position, weighted.
    pub open spec fn interpolated(self, w: Wave, ram: Seq<u8>) -> i16 {
        let frac = (self.cur & 0xFFF) as i32;
        (((w.sample(ram, self.cur) * (4096 - frac) + w.sample(ram, self.nxt) * frac) as i32) >> 12)
            as i16
    }

    /// The step of this sample.
    pub open spec fn modulated_step(self) -> u32 {
        self.step.wrapping_add(self.step_mod as u32)
    }

    /// The position a step further.
    pub open spec fn moved(self) -> u32 {
        if self.backwards {
            self.cur.wrapping_sub(self.modulated_step())
        } else {
            self.cur.wrapping_add(self.modulated_step())
        }
    }

    /// The voice at position `cur`, brought back into its loop. A reverse loop is
    /// entered at its start and runs from the end to the start; an alternating
    /// one turns at both ends; without a loop the voice stops.
    pub open spec fn looped(self, w: Wave, cur: u32) -> Slot {
        let addr = cur >> 12;
        let start = (w.lsa as u32) << 12;
        let end = (w.lea as u32) << 12;
        let before = addr < w.lsa || cur & 0x8000_0000 != 0;
        if w.loop_mode() == 0 {
            Slot { cur, active: !(addr >= w.lsa && addr >= w.lea), ..self }
        } else if w.loop_mode() == 1 {
            Slot {
                cur: if addr >= w.lea {
                    start.wrapping_add(cur.wrapping_sub(end))
                } else {
                    cur
                },
                ..self
            }
        } else if w.loop_mode() == 2 {
            if addr >= w.lsa && !self.backwards {
                Slot {
                    cur: end.wrapping_sub(cur.wrapping_sub(start)),
                    backwards: true,
                    ..self
                }
            } else if self.backwards && before {
                Slot { cur: end.wrapping_sub(start.wrapping_sub(cur)), ..self }
            } else {
                Slot { cur, ..self }
            }
        } else {
            if addr >= w.lea && !self.backwards {
                Slot {
                    cur: end.wrapping_sub(cur.wrapping_sub(end)),
                    backwards: true,
                    ..self
                }
            } else if self.backwards && before {
                Slot {
                    cur: start.wrapping_add(start.wrapping_sub(cur)),
                    backwards: false,
                    ..self
                }
            } else {
                Slot { cur, ..self }
            }
        }
    }

    /// The voice after a sample.
    pub open spec fn played(self, w: Wave) -> Slot {
        let s = self.looped(w, self.moved());
        Slot { nxt: s.cur.wrapping_add(0x1000), ..s }
    }
}

proof fn wave_bounds(key: u16, low: u16, pos: u32, b: i32)
    by (bit_vector)
    ensures
        ((((key & 0xF) as u32) << 16) | low as u32) <= 0xF_FFFF,
        pos >> 12 <= 0xF_FFFF,
        (pos >> 11) & 0xFFFF_FFFE <= 0x1F_FFFF,
        pos & 0xFFF <= 0xFFF,
        -128 <= b <= 127 ==> -0x8000 <= b << 8 <= 0x7FFF,
{
}

fn read_sample(w: &Wave, ram: &Ram, pos: u32) -> (r: i32)
    requires
        ram@.len() > 0,
    ensures
        r == w.sample(ram@, pos),
        -0x8000 <= r <= 0x7FFF,
{
    let start: u32 = (((w.key & 0xF) as u32) << 16) | w.low as u32;
    proof {
        wave_bounds(w.key, w.low, pos, 0);
    }
    if w.key & 0x10 != 0 {
        let b: i32 = ram.read8((start + (pos >> 12)) & 0x7_FFFF) as i8 as i32;
        proof {
            wave_bounds(w.key, w.low, pos, b);
        }
        b << 8
    } else {
        ram.read16((start + ((pos >> 11) & 0xFFFF_FFFE)) & 0x7_FFFF) as i16 as i32
    }
}

impl Slot {
    fn interpolate(&self, w: &Wave, ram: &Ram) -> (r: i16)
        requires
            ram@.len() > 0,
        ensures
            r == self.interpolated(*w, ram@),
    {
        proof {
            wave_bounds(0, 0, self.cur, 0);
        }
        let frac: i32 = (self.cur & 0xFFF) as i32;
        let p1: i32 = read_sample(w, ram, self.cur);
        let p2: i32 = read_sample(w, ram, self.nxt);
        let rest: i32 = 4096 - frac;
        assert(-0x800_0000 <= p1 * rest <= 0x800_0000 && -0x800_0000 <= p2 * frac <= 0x800_0000)
            by (nonlinear_arith)
            requires
                -0x8000 <= p1 <= 0x7FFF,
                -0x8000 <= p2 <= 0x7FFF,
                0 <= frac <= 4096,
                0 <= rest <= 4096,
        ;
        ((p1 * rest + p2 * frac) >> 12) as i16
    }

    fn enter_loop(&mut self, w: &Wave, cur: u32)
        ensures
            *final(self) == old(self).looped(*w, cur),
    {
        let addr: u32 = cur >> 12;
        let lsa: u32 = w.lsa as u32;
        let lea: u32 = w.lea as u32;
        let start: u32 = lsa << 12;
        let end: u32 = lea << 12;
        let before: bool = addr < lsa || cur & 0x8000_0000 != 0;
        let mode: u16 = (w.key >> 5) & 3;
        self.cur = cur;
        if mode == 0 {
            self.active = !(addr >= lsa && addr >= lea);
        } else if mode == 1 {
            if addr >= lea {
                self.cur = start.wrapping_add(cur.wrapping_sub(end));
            }
        } else if mode == 2 {
            if addr >= lsa && !self.backwards {
                self.cur = end.wrapping_sub(cur.wrapping_sub(start));
                self.backwards = true;
            } else if self.backwards && before {
                self.cur = end.wrapping_sub(start.wrapping_sub(cur));
            }
        } else {
            if addr >= lea && !self.backwards {
                self.cur = end.wrapping_sub(cur.wrapping_sub(end));
                self.backwards = true;
            } else if self.backwards && before {
                self.cur = start.wrapping_add(start.wrapping_sub(cur));
                self.backwards = false;
            }
        }
    }

    /// Plays one sample.
    pub(crate) fn play(&mut self, w: &Wave, ram: &Ram) -> (r: i16)
        requires
            ram@.len() > 0,
        ensures
            *final(self) == old(self).played(*w),
            r == old(self).interpolated(*w, ram@),
    {
        let r: i16 = self.interpolate(w, ram);
        let step: u32 = self.step.wrapping_add(self.step_mod as u32);
        let cur: u32 = if self.backwards {
            self.cur.wrapping_sub(step)
        } else {
            self.cur.wrapping_add(step)
        };
        self.enter_loop(w, cur);
        self.nxt = self.cur.wrapping_add(0x1000);
        r
    }
}

// ---- laws -----------------------------------------------------------------------

/// The sample of a voice lies between the two samples around its position, as far from
/// each as the position is; it is rounded down.
#[verifier::spinoff_prover]
pub proof fn sample_lies_between(s: Slot, w: Wave, ram: Seq<u8>)
    requires
        ram.len() > 0,
    ensures
        ({
            let p = w.sample(ram, s.cur) as int;
            let q = w.sample(ram, s.nxt) as int;
            let frac = s.cur as int % 4096;
            let r = s.interpolated(w, ram) as int;
            &&& 4096 * r <= p * (4096 - frac) + q * frac < 4096 * (r + 1)
            &&& p <= r <= q || q <= r <= p
            &&& p == q ==> r == p
            &&& frac == 0 ==> r == p
        }),
{
    sample_bounds(w, ram, s.cur);
    sample_bounds(w, ram, s.nxt);
    let p = w.sample(ram, s.cur);
    let q = w.sample(ram, s.nxt);
    let frac = (s.cur & 0xFFF) as i32;
    assert(0 <= frac <= 4095 && frac == s.cur as int % 4096) by {
        low_bits();
    }
    let a = p * (4096 - frac);
    let b = q * frac;
    assert(-0x800_0000 <= a + b <= 0x7FF_FFFF && (p <= q ==> 4096 * p <= a + b <= 4096 * q) && (q <= p
        ==> 4096 * q <= a + b <= 4096 * p) && (frac == 0 ==> a + b == 4096 * p)) by (nonlinear_arith)
        requires
            a == p * (4096 - frac),
            b == q * frac,
            -0x8000 <= p <= 0x7FFF,
            -0x8000 <= q <= 0x7FFF,
            0 <= frac <= 4095,
    ;
    let t = (a + b) as i32;
    assert(t == a + b);
    assert((t >> 12) * 0x1000 <= t < (t >> 12) * 0x1000 + 0x1000) by {
        right_shifts();
    }
    let h = t >> 12;
    wave_bits(0, 0, h, 0, 0, 0);
}

proof fn sample_bounds(w: Wave, ram: Seq<u8>, pos: u32)
    ensures
        -0x8000 <= w.sample(ram, pos) <= 0x7FFF,
{
    let b = folded(ram, (w.start() + (pos >> 12)) as u32 & 0x7_FFFF) as i8 as i32;
    wave_bounds(w.key, w.low, pos, b);
}

proof fn wave_bits(key: u16, low: u16, b: i32, cur: u32, hi: u8, lo: u8)
    by (bit_vector)
    ensures
        key & 0x10 != 0 <==> (key >> 4) & 1 == 1,
        ((hi as u16) << 8) | lo as u16 == 256 * hi + lo,
        cur & 0x8000_0000 != 0 <==> cur >= 0x8000_0000,
        -0x8000 <= b <= 0x7FFF ==> b as i16 == b,
        (((key & 0xF) as u32) << 16) | low as u32 == 0x1_0000 * (key & 0xF) + low,
        -128 <= b <= 127 ==> b << 8 == 256 * b,
        forall|x: u32| #[trigger] ((x >> 11) & 0xFFFF_FFFE) == 2 * (x >> 12),
        forall|x: u32| x <= 0xFFFF ==> #[trigger] (x << 12) == 4096 * x,
{
}

/// A waveform is samples one behind the other from its start: sample `n` of 16 bits is
/// the `n`-th big-endian word, one of 8 bits the `n`-th byte, 256 times as loud. All
/// positions within a sample read that sample.
#[verifier::spinoff_prover]
pub proof fn waveform_is_read_in_order(w: Wave, ram: Seq<u8>, pos: u32)
    requires
        ram.len() == 0x8_0000,
        w.start() + 2 * (pos as int / 4096) + 1 < 0x8_0000,
    ensures
        ({
            let n = pos as int / 4096;
            let start = 0x1_0000 * (w.key as int % 16) + w.low;
            let r = w.sample(ram, pos) as int;
            if w.key as int / 16 % 2 == 1 {
                r == 256 * (if ram[start + n] < 128 {
                    ram[start + n] as int
                } else {
                    ram[start + n] - 256
                })
            } else {
                let word = 256 * ram[start + 2 * n] + ram[start + 2 * n + 1];
                r == (if word < 0x8000 {
                    word
                } else {
                    word - 0x1_0000
                })
            }
        }),
{
    let b = folded(ram, (w.start() + (pos >> 12)) as u32 & 0x7_FFFF);
    let e = (w.start() + 2 * (pos >> 12)) as u32;
    wave_bits(
        w.key,
        w.low,
        b as i8 as i32,
        0,
        folded(ram, e),
        folded(ram, e.wrapping_add(1)),
    );
    assert(w.key & 0xF == w.key as int % 16 && (w.is_8_bit() <==> w.key as int / 16 % 2 == 1)) by {
        low_bits();
        right_shifts();
        let k = w.key >> 4;
        assert((k >> 1) * 2 + (k & 1) == k);
    }
    assert(pos >> 12 == pos as int / 4096) by {
        right_shifts();
    }
    let o = (w.start() + (pos >> 12)) as u32;
    assert(o & 0x7_FFFF == o && e & 0x7_FFFF == e) by {
        low_bits();
    }
    casts();
}

/// A forward loop repeats: behind its end a voice goes on as far behind its start, and
/// before its end nothing moves it.
pub proof fn forward_loop_repeats(s: Slot, w: Wave, cur: u32)
    requires
        w.loop_mode() == 1,
        w.lsa <= w.lea,
    ensures
        cur < 4096 * w.lea ==> s.looped(w, cur) == (Slot { cur, ..s }),
        cur >= 4096 * w.lea ==> s.looped(w, cur).cur == cur - 4096 * (w.lea - w.lsa),
        s.looped(w, cur).active == s.active,
        s.looped(w, cur).backwards == s.backwards,
{
    loop_bounds(w, cur);
}

proof fn loop_bounds(w: Wave, cur: u32)
    ensures
        (w.lsa as u32) << 12 == 4096 * w.lsa,
        (w.lea as u32) << 12 == 4096 * w.lea,
        cur >> 12 == cur as int / 4096,
        cur & 0x8000_0000 != 0 <==> cur >= 0x8000_0000,
{
    wave_bits(0, 0, 0, cur, 0, 0);
    right_shifts();
}

/// A reverse loop runs from its end to its start: a voice that comes to the start from
/// below goes on as far below the end, and one that passes the start backwards as well.
pub proof fn reverse_loop_runs_backwards(s: Slot, w: Wave, cur: u32)
    requires
        w.loop_mode() == 2,
        w.lsa < w.lea,
    ensures
        !s.backwards && cur >= 4096 * w.lsa && cur <= 4096 * (w.lsa + w.lea) ==> s.looped(w, cur)
            == (Slot { cur: (4096 * (w.lea + w.lsa) - cur) as u32, backwards: true, ..s }),
        !s.backwards && cur < 4096 * w.lsa ==> s.looped(w, cur) == (Slot { cur, ..s }),
        s.backwards && cur < 4096 * w.lsa ==> s.looped(w, cur) == (Slot {
            cur: (cur + 4096 * (w.lea - w.lsa)) as u32,
            ..s
        }),
        s.backwards && 4096 * w.lsa <= cur < 0x8000_0000 ==> s.looped(w, cur) == (Slot { cur, ..s }),
        s.looped(w, cur).active == s.active,
{
    loop_bounds(w, cur);
}

/// An alternating loop is a mirror at both ends: a voice turns, and is as far from the
/// end on its way back as it would have been behind it.
pub proof fn alternating_loop_reflects(s: Slot, w: Wave, cur: u32)
    requires
        w.loop_mode() == 3,
        w.lsa < w.lea,
    ensures
        !s.backwards && 4096 * w.lea <= cur <= 8192 * w.lea ==> s.looped(w, cur).backwards
            && s.looped(w, cur).cur + cur == 2 * (4096 * w.lea),
        s.backwards && cur < 4096 * w.lsa ==> !s.looped(w, cur).backwards && s.looped(w, cur).cur
            + cur == 2 * (4096 * w.lsa),
        !s.backwards && cur < 4096 * w.lea ==> s.looped(w, cur) == (Slot { cur, ..s }),
        s.backwards && 4096 * w.lsa <= cur < 0x8000_0000 ==> s.looped(w, cur) == (Slot { cur, ..s }),
        s.looped(w, cur).active == s.active,
{
    loop_bounds(w, cur);
}

/// Without a loop a voice plays to its end, and stops there.
pub proof fn one_shot_stops_at_its_end(s: Slot, w: Wave, cur: u32)
    requires
        w.loop_mode() == 0,
        w.lsa <= w.lea,
    ensures
        s.looped(w, cur).cur == cur,
        s.looped(w, cur).active <==> cur < 4096 * w.lea,
        s.looped(w, cur).backwards == s.backwards,
{
    loop_bounds(w, cur);
}

/// A voice moves by its step and what the oscillator adds to it, forwards or backwards;
/// the second of its two samples is always one behind the first.
pub proof fn voice_moves_by_its_step(s: Slot, w: Wave)
    ensures
        ({
            let step = s.step + s.step_mod;
            &&& !s.backwards ==> (s.moved() - s.cur - step) % 0x1_0000_0000 == 0
            &&& s.backwards ==> (s.moved() - s.cur + step) % 0x1_0000_0000 == 0
            &&& (s.played(w).nxt - s.played(w).cur) % 0x1_0000_0000 == 4096
            &&& s.played(w).step == s.step
            &&& s.played(w).eg == s.eg
        }),
{
    casts();
}

proof fn pitch_bits(pitch: u16, x: u32, k: u32)
    by (bit_vector)
    ensures
        pitch & 0x20 != 0 <==> (pitch >> 5) & 1 == 1,
        x < 0x800 && 1 <= k <= 6 ==> 2 * (x >> k) <= x >> ((k - 1) as u32) <= 2 * (x >> k) + 1,
        ((pitch >> 11) & 0xF) ^ 8 == ((pitch >> 11) & 0xF) + 8 || (((pitch >> 11) & 0xF) ^ 8) + 8 == (
        pitch >> 11) & 0xF,
        ((pitch >> 11) & 0xF) ^ 8 <= 15,
        x >> 0 == x,
        x < 0x800 ==> x << 0 == x,
        x < 0x800 ==> x << 1 == 2 * x,
        x < 0x800 ==> x << 2 == 4 * x,
        x < 0x800 ==> x << 3 == 8 * x,
        x < 0x800 ==> x << 4 == 16 * x,
        x < 0x800 ==> x << 5 == 32 * x,
        x < 0x800 ==> x << 6 == 64 * x,
        x < 0x800 ==> x << 7 == 128 * x,
        x < 0x800 ==> x << 8 == 256 * x,
        x < 0x800 ==> x << 9 == 512 * x,
{
}

/// The octave of a pitch is four bits with a sign.
#[verifier::spinoff_prover]
pub proof fn octave_is_signed(pitch: u16)
    ensures
        -8 <= octave(pitch) <= 7,
        (octave(pitch) - pitch as int / 2048) % 16 == 0,
{
    pitch_bits(pitch, 0, 0);
    low_bits();
    right_shifts();
    let o = pitch >> 11;
    assert((o >> 4) * 16 + (o & 0xF) == o);
}

/// In octave 0 a step is one sample, and up to two; each octave up doubles it, and the
/// lowest octaves round it down.
#[verifier::spinoff_prover]
pub proof fn octaves_double_the_step(p: u16, q: u16)
    requires
        p as int % 1024 == q as int % 1024,
        octave(q) == octave(p) + 1,
    ensures
        octave(p) == 0 ==> pitch_step(p) == 4096 + 4 * (p as int % 1024),
        octave(p) >= -2 ==> pitch_step(q) == 2 * pitch_step(p),
        octave(p) < -2 ==> 2 * pitch_step(p) <= pitch_step(q) <= 2 * pitch_step(p) + 1,
{
    let x = ((p & 0x3FF) as u32 + 1024) as u32;
    assert(p & 0x3FF == p as int % 1024 && q & 0x3FF == q as int % 1024) by {
        low_bits();
    }
    octave_bounds(p);
    octave_bounds(q);
    pitch_bits(p, x, (-(octave(p) + 2)) as u32);
}

proof fn oscillator_bits(c: u8, n: u8)
    by (bit_vector)
    ensures
        c & 0xFE == c - c % 2,
        n & 0xFE == n - n % 2,
        (c & 0xFE) as i8 as i32 == (if c < 128 { c - c % 2 } else { c - c % 2 - 256 }),
        (n & 0xFE) as i8 as i32 == (if n < 128 { n - n % 2 } else { n - n % 2 - 256 }),
        c & 0x80 != 0 <==> c >= 128,
        0x80u8 as i8 as i32 == -128,
        0x7Eu8 as i8 as i32 == 126,
        (((counter_fold(c)) << 1) as i8 as i32) == (if c < 64 { 2 * c - 0 } else if c < 128 { 2 * (127 - c) } else if c < 192 { 2 * (127 - c) } else { 2 * (c - 256) }),
        ((c as i8) >> 7) as u8 & 0xFE == (if c >= 128 { 254u8 } else { 0 }),
        (c ^ (((c as i8) >> 7) as u8)) << 1 == (if c >= 128 { 2 * (255 - c) } else { 2 * c - 0 }),
{
}

/// The counter, folded at its quarters.
spec fn counter_fold(c: u8) -> u8 {
    (c & 0x3F) ^ (if c & 0x40 != 0 {
        0x3Fu8
    } else {
        0
    }) ^ (if c & 0x80 != 0 {
        0x7Fu8
    } else {
        0
    })
}

/// The waves of the oscillator: a saw rises and falls back; a square is low and high for
/// half a period each, a triangle rises and falls, and noise is the generator's. The
/// pitch goes to both sides, the level to one.
pub proof fn oscillator_waves(c: u8, n: u8)
    ensures
        pitch_wave(0, c, n) == (if c < 128 {
            c - c % 2
        } else {
            c - c % 2 - 256
        }),
        pitch_wave(1, c, n) == (if c < 128 {
            126int
        } else {
            -128
        }),
        pitch_wave(2, c, n) == (if c < 64 {
            2 * c
        } else if c < 192 {
            2 * (127 - c)
        } else {
            2 * (c - 256)
        }),
        pitch_wave(3, c, n) == (if n < 128 {
            n - n % 2
        } else {
            n - n % 2 - 256
        }),
        level_wave(0, c, n) == c - c % 2,
        level_wave(1, c, n) == (if c < 128 {
            0int
        } else {
            254
        }),
        level_wave(2, c, n) == (if c < 128 {
            2 * c
        } else {
            2 * (255 - c)
        }),
        level_wave(3, c, n) == n - n % 2,
{
    oscillator_bits(c, n);
}

/// What the depth of the oscillator divides its wave by: 1 at the greatest depth, twice
/// as much with each level below.
pub open spec fn depth_divisor(level: int) -> int
    decreases 7 - level,
{
    if level >= 7 {
        1
    } else {
        2 * depth_divisor(level + 1)
    }
}

#[verifier::spinoff_prover]
proof fn depth_shifts(a: u32, p: i32, level: u16)
    requires
        1 <= level <= 7,
        -128 <= p <= 127,
    ensures
        a >> ((7 - level) as u32) == a as int / depth_divisor(level as int),
        p >> ((7 - level) as u32) == p as int / depth_divisor(level as int),
        -128 <= p as int / depth_divisor(level as int) <= 127,
{
    depth_bits(a, p, 0, 0);
    right_shifts();
    assert(depth_divisor(7) == 1);
    assert(depth_divisor(6) == 2);
    assert(depth_divisor(5) == 4);
    assert(depth_divisor(4) == 8);
    assert(depth_divisor(3) == 16);
    assert(depth_divisor(2) == 32);
    assert(depth_divisor(1) == 64);
    if level == 6 {
        assert(a >> 1 == a as int / 2 && p >> 1 == p as int / 2);
    } else if level == 5 {
        assert(a >> 2 == a as int / 4 && p >> 2 == p as int / 4);
    } else if level == 4 {
        assert(a >> 3 == a as int / 8 && p >> 3 == p as int / 8);
    } else if level == 3 {
        assert(a >> 4 == a as int / 16 && p >> 4 == p as int / 16);
    } else if level == 2 {
        assert(a >> 5 == a as int / 32 && p >> 5 == p as int / 32);
    } else if level == 1 {
        assert(a >> 6 == a as int / 64 && p >> 6 == p as int / 64);
    }
}

/// The oscillator adds its wave, divided by its depth, to the level, and the same part
/// of the pitch to the pitch: a wave of 64 at the greatest depth adds 1024 and the
/// fraction, less its low bits, to the fraction in 1/16.
#[verifier::spinoff_prover]
pub proof fn oscillator_depth_divides(lfo: u16, pitch: u16, c: u8, n: u8)
    ensures
        ({
            let level = lfo as int % 8;
            let depth = lfo as int / 32 % 8;
            let a = level_wave((lfo as int / 8 % 4) as u16, c, n) as int;
            let p = pitch_wave((lfo as int / 256 % 4) as u16, c, n) as int;
            &&& level_lfo(lfo, c, n) == (if level == 0 {
                0
            } else {
                a / depth_divisor(level)
            })
            &&& pitch_lfo(lfo, pitch, c, n) == (if depth == 0 {
                0
            } else {
                (64 + pitch as int % 1024 / 16) * (p / depth_divisor(depth)) / 64
            })
        }),
{
    oscillator_waves(c, n);
    let wave = (lfo >> 3) & 3;
    let pwave = (lfo >> 8) & 3;
    let fns = (pitch & 0x3FF) as u32 >> 4;
    assert(lfo & 7 == lfo as int % 8 && (lfo >> 5) & 7 == lfo as int / 32 % 8 && wave == lfo as int
        / 8 % 4 && pwave == lfo as int / 256 % 4 && fns == pitch as int % 1024 / 16) by {
        low_bits();
        right_shifts();
    }
    depth_bits(fns, 0, 0, 0);
    let a = level_wave(wave, c, n);
    let p = pitch_wave(pwave, c, n);
    let level = lfo & 7;
    let depth = (lfo >> 5) & 7;
    if level > 0 {
        depth_shifts(a, 0, level);
    }
    let x = p >> ((7 - depth) as u32);
    if depth > 0 {
        depth_shifts(0, p, depth);
        let m = 64 + fns;
        assert(-0x8000 <= m * x <= 0x8000) by (nonlinear_arith)
            requires
                0 <= m <= 127,
                -128 <= x <= 127,
        ;
        let y = (m * x) as i32;
        assert(y >> 6 == y as int / 64) by {
            right_shifts();
        }
    }
}

/// The period of the oscillator in samples: four rates to an octave, from 1024 down by
/// 128, and half of it four rates on.
pub proof fn oscillator_period_halves(p: u16, q: u16)
    ensures
        p as int / 1024 % 32 < 4 ==> lfo_period(p) == 1024 - 128 * (p as int / 1024 % 32),
        q as int / 1024 % 32 == p as int / 1024 % 32 + 4 ==> 2 * lfo_period(q) <= lfo_period(p) <= 2
            * lfo_period(q) + 1,
{
    let f = ((p >> 10) & 0x1F) as u32;
    let g = ((q >> 10) & 0x1F) as u32;
    assert(f == p as int / 1024 % 32 && g == q as int / 1024 % 32) by {
        low_bits();
        right_shifts();
    }
    depth_bits(0, 0, f, g);
}

/// The oscillator moves on by one when its timer runs out, which its period sets again;
/// a voice whose oscillator is reset stays at phase 0.
pub proof fn oscillator_counts(s: Slot, lfo: u16, pitch: u16, noise: u8)
    requires
        s.wf(),
    ensures
        ({
            let t = s.lfo_run(lfo, pitch, noise);
            &&& s.lfo_timer > 1 ==> t.lfo_timer == s.lfo_timer - 1
            &&& s.lfo_timer <= 1 ==> t.lfo_timer + 4 == lfo_period(lfo)
            &&& lfo < 0x8000 && s.lfo_timer > 1 ==> t.lfo_counter == s.lfo_counter
            &&& lfo < 0x8000 && s.lfo_timer <= 1 ==> t.lfo_counter == (s.lfo_counter + 1) % 256
            &&& lfo >= 0x8000 ==> t.lfo_counter == 0
            &&& t.alfo == level_lfo(lfo, t.lfo_counter, noise)
            &&& t.cur == s.cur && t.step == s.step && t.eg == s.eg && t.active == s.active
        }),
{
    lfo_bounds(lfo, pitch);
    assert((lfo >> 15) & 1 != 0 <==> lfo >= 0x8000) by {
        low_bits();
        right_shifts();
    }
}

/// An octave up, the oscillator adds twice as much to the step.
#[verifier::spinoff_prover]
pub proof fn octaves_double_the_vibrato(s: Slot, lfo: u16, p: u16, q: u16, noise: u8)
    requires
        p as int % 1024 == q as int % 1024,
        octave(q) == octave(p) + 1,
    ensures
        ({
            let a = s.lfo_run(lfo, p, noise).step_mod;
            let b = s.lfo_run(lfo, q, noise).step_mod;
            &&& octave(p) == -2 ==> a == pitch_lfo(lfo, p, s.lfo_counter, noise)
            &&& octave(p) >= -2 ==> b == 2 * a
            &&& octave(p) < -2 ==> 2 * a <= b <= 2 * a + 1
        }),
{
    let x = pitch_lfo(lfo, p, s.lfo_counter, noise);
    oscillator_depth_divides(lfo, p, s.lfo_counter, noise);
    oscillator_depth_divides(lfo, q, s.lfo_counter, noise);
    oscillator_waves(s.lfo_counter, noise);
    octave_bounds(p);
    octave_bounds(q);
    let wave = pitch_wave((lfo as int / 256 % 4) as u16, s.lfo_counter, noise) as int;
    let depth = lfo as int / 32 % 8;
    if depth != 0 {
        depth_shifts(0, wave as i32, depth as u16);
        let y = wave / depth_divisor(depth);
        let m = 64 + p as int % 1024 / 16;
        assert(-0x4000 <= m * y <= 0x4000) by (nonlinear_arith)
            requires
                0 <= m <= 127,
                -128 <= y <= 127,
        ;
    }
    depth_bits(0, x, 0, 0);
    let k = (-(octave(p) + 2)) as u32;
    if octave(p) < -2 {
        depth_bits(k, x, 0, 0);
    }
}

proof fn depth_bits(u: u32, v: i32, f: u32, g: u32)
    by (bit_vector)
    ensures
        0 <= v && 1 <= u < 32 ==> 2 * (v >> u) <= v >> ((u - 1) as u32) <= 2 * (v >> u) + 1,
        u < 64 ==> 0x40u32 ^ u == 64 + u,
        u >> 0 == u,
        v >> 0 == v,
        1 <= u <= 6 ==> 2 * (v >> u) <= v >> ((u - 1) as u32) <= 2 * (v >> u) + 1,
        -0x200 <= v <= 0x200 ==> v << 0 == v && v << 1 == 2 * v && v << 2 == 4 * v && v << 3 == 8 * v
            && v << 4 == 16 * v && v << 5 == 32 * v && v << 6 == 64 * v && v << 7 == 128 * v && v << 8
            == 256 * v && v << 9 == 512 * v,
        f < 4 ==> (((8 - (f & 3)) as u32) << 7) >> (f >> 2) == 1024 - 128 * f,
        f < 28 && g == f + 4 ==> 2 * ((((8 - (g & 3)) as u32) << 7) >> (g >> 2)) <= (((8 - (f & 3)) as u32)
            << 7) >> (f >> 2) <= 2 * ((((8 - (g & 3)) as u32) << 7) >> (g >> 2)) + 1,
{
}

// ---- envelopes --------------------------------------------------------------------

/// A decay and a release take their step off the level, until it is 0; the first decay
/// ends at the decay level.
pub proof fn decays_take_their_step(e: Eg)
    requires
        e.wf(),
    ensures
        ({
            let a = e.advanced();
            let step = match e.state {
                EgState::Decay1 => e.d1r,
                EgState::Decay2 => e.d2r,
                _ => e.rr,
            };
            &&& !(e.state is Attack) && e.volume >= step ==> a.volume == e.volume - step
            &&& !(e.state is Attack) && e.volume < step ==> a.volume == 0
            &&& e.state is Decay1 ==> (a.state is Decay2 <==> a.volume < 0x20_0000 * (e.dl + 1))
            &&& e.state is Decay1 ==> (a.state is Decay1 || a.state is Decay2)
            &&& e.state is Decay2 ==> a.state is Decay2
            &&& e.fades_out() <==> e.state is Release && e.volume <= e.rr
            &&& a.d1r == e.d1r && a.d2r == e.d2r && a.rr == e.rr && a.dl == e.dl && a.ar_shift
                == e.ar_shift && a.eghold == e.eghold
        }),
{
}

/// The powers of two.
pub open spec fn doubled(n: nat) -> int
    decreases n,
{
    if n == 0 {
        1
    } else {
        2 * doubled((n - 1) as nat)
    }
}

/// An attack takes the same part of what is left with every sample, rounded down, and
/// all of it when that part is less than 1; full, it goes over to a decay.
pub proof fn attack_takes_a_part(e: Eg)
    requires
        e.wf(),
        e.state is Attack,
    ensures
        ({
            let left = FULL_VOLUME - e.volume;
            let part = left / doubled(e.ar_shift as nat);
            let a = e.advanced();
            &&& part > 0 ==> a.volume == e.volume + part
            &&& part == 0 ==> a.volume == FULL_VOLUME
            &&& a.volume < FULL_VOLUME ==> a.state is Attack
            &&& a.volume == FULL_VOLUME ==> !(a.state is Attack)
            &&& a.volume == FULL_VOLUME ==> (a.state is Decay2 <==> e.d1r >= INSTANT_DECAY)
            &&& e.sounding() == (if e.eghold {
                1023
            } else {
                a.volume / 0x1_0000
            })
        }),
{
    let left = (FULL_VOLUME - e.volume) as i32;
    shift_divides(left, e.ar_shift);
}

proof fn shift_divides(x: i32, k: u32)
    requires
        0 <= x,
        k < 32,
    ensures
        x >> k == x as int / doubled(k as nat),
        doubled(k as nat) > 0,
    decreases k,
{
    if k == 0 {
        depth_bits(0, x, 0, 0);
    } else {
        shift_divides(x, (k - 1) as u32);
        depth_bits(k, x, 0, 0);
        let d = doubled((k - 1) as nat);
        lemma_div_denominator(x as int, d, 2);
        assert(d * 2 == 2 * d);
    }
}

// ---- rates ------------------------------------------------------------------------

/// The rate tables never fall.
proof fn steps_never_fall(i: int, j: int)
    requires
        0 <= i <= j < 64,
    ensures
        DECAY_STEPS@[i] <= DECAY_STEPS@[j],
        ATTACK_STEPS@[i] <= ATTACK_STEPS@[j],
    decreases j - i,
{
    if i < j {
        steps_never_fall(i, j - 1);
        step_rises(j);
    }
}

proof fn step_rises(j: int)
    requires
        1 <= j < 64,
    ensures
        DECAY_STEPS@[j - 1] <= DECAY_STEPS@[j],
        ATTACK_STEPS@[j - 1] <= ATTACK_STEPS@[j],
{
}

/// A rate is worth two entries of its table, the scaling one; the table ends at both
/// sides.
pub proof fn rates_are_two_entries(scaling: int, rate: u16)
    ensures
        0 <= rate_entry(scaling, rate) <= 63,
        rate_entry(scaling + 2, rate) == rate_entry(scaling, (rate + 1) as u16) || rate == 0xFFFF,
        0 < rate_entry(scaling, rate) < 63 ==> rate_entry(scaling + 1, rate) == rate_entry(
            scaling,
            rate,
        ) + 1,
        rate_entry(0, 0) == 0,
        rate <= 31 ==> rate_entry(0, rate) == 2 * rate,
{
}

/// Key scaling goes by the pitch: an octave up adds one, the upper half of an octave one
/// more, a step of the scaling register two; the highest register turns it off.
#[verifier::spinoff_prover]
pub proof fn scaling_goes_by_the_pitch(eg2: u16, more: u16, p: u16, q: u16)
    ensures
        eg2 as int / 1024 % 16 == 15 ==> rate_scaling(eg2, p) == 0,
        eg2 as int / 1024 % 16 != 15 && p as int % 1024 == q as int % 1024 ==> rate_scaling(eg2, p)
            - rate_scaling(eg2, q) == octave(p) - octave(q),
        eg2 as int / 1024 % 16 != 15 && octave(p) == octave(q) && q as int % 1024 < 512 <= p as int
            % 1024 ==> rate_scaling(eg2, p) == rate_scaling(eg2, q) + 1,
        more as int / 1024 % 16 == eg2 as int / 1024 % 16 + 1 < 15 ==> rate_scaling(more, p)
            == rate_scaling(eg2, p) + 2,
        eg2 as int / 1024 % 16 == 0 && octave(p) == 0 && p as int % 1024 < 512 ==> rate_scaling(
            eg2,
            p,
        ) == 0,
{
    low_bits();
    right_shifts();
    let (a, b) = (p & 0x3FF, q & 0x3FF);
    assert((a >> 9) & 1 == a as int / 512 % 2);
    assert((b >> 9) & 1 == b as int / 512 % 2);
    let (k, l) = (eg2 >> 10, more >> 10);
    assert(k & 0xF == k as int % 16 && l & 0xF == l as int % 16);
}

proof fn digits_rise(a: nat, b: nat)
    requires
        a <= b,
    ensures
        digits(a) <= digits(b),
    decreases b,
{
    if a > 0 {
        digits_rise(a / 2, b / 2);
    }
}

/// A steeper step never makes an attack slower.
proof fn attacks_speed_up(a: int, b: int)
    requires
        0 <= a <= b,
    ensures
        2 <= attack_shift(b) <= attack_shift(a) <= 15,
{
    let x = if a > 1 {
        a
    } else {
        1
    };
    let y = if b > 1 {
        b
    } else {
        1
    };
    lemma_div_is_ordered_by_denominator(0x280_0000, x, y);
    digits_rise(linear_attack(b) as nat, linear_attack(a) as nat);
}

/// The rates of a voice come from their fields: a greater field never gives a slower
/// envelope, whatever the other fields hold. The decay level is what the field leaves of
/// 31, and an attack begins at its level.
#[verifier::spinoff_prover]
pub proof fn rates_go_by_their_fields(a: u16, b: u16, c: u16, d: u16, pitch: u16)
    requires
        c as int / 1024 % 16 == d as int / 1024 % 16,
    ensures
        ({
            let e = Eg::keyed(a, c, pitch);
            let f = Eg::keyed(b, d, pitch);
            &&& a as int % 32 <= b as int % 32 ==> e.ar_shift >= f.ar_shift
            &&& a as int / 64 % 32 <= b as int / 64 % 32 ==> e.d1r <= f.d1r
            &&& a as int / 2048 <= b as int / 2048 ==> e.d2r <= f.d2r
            &&& c as int % 32 <= d as int % 32 ==> e.rr <= f.rr
            &&& e.dl == 31 - c as int / 32 % 32
            &&& e.eghold <==> a as int / 32 % 2 == 1
            &&& e.state is Attack && e.volume == ATTACK_VOLUME
        }),
{
    let k = rate_scaling(c, pitch);
    envelope_fields(a);
    envelope_fields(b);
    envelope_fields(c);
    envelope_fields(d);
    assert(k == rate_scaling(d, pitch));
    ordered_entries(k, a & 0x1F, b & 0x1F);
    ordered_entries(k, (a >> 6) & 0x1F, (b >> 6) & 0x1F);
    ordered_entries(k, (a >> 11) & 0x1F, (b >> 11) & 0x1F);
    ordered_entries(k, c & 0x1F, d & 0x1F);
}

/// The fields of an envelope register.
#[verifier::spinoff_prover]
proof fn envelope_fields(a: u16)
    ensures
        a & 0x1F == a as int % 32,
        (a >> 5) & 0x1F == a as int / 32 % 32,
        (a >> 6) & 0x1F == a as int / 64 % 32,
        (a >> 10) & 0xF == a as int / 1024 % 16,
        (a >> 11) & 0x1F == a as int / 2048,
        a & 0x20 != 0 <==> a as int / 32 % 2 == 1,
{
    pitch_bits(a, 0, 0);
    low_bits();
    right_shifts();
}

proof fn ordered_entries(k: int, x: u16, y: u16)
    ensures
        x <= y ==> DECAY_STEPS@[rate_entry(k, x)] <= DECAY_STEPS@[rate_entry(k, y)],
        x <= y ==> attack_shift(ATTACK_STEPS@[rate_entry(k, x)] as int) as u32 >= attack_shift(
            ATTACK_STEPS@[rate_entry(k, y)] as int,
        ) as u32,
{
    let (i, j) = (rate_entry(k, x), rate_entry(k, y));
    if x <= y {
        steps_never_fall(i, j);
        step_bounds(i);
        step_bounds(j);
        attacks_speed_up(ATTACK_STEPS@[i] as int, ATTACK_STEPS@[j] as int);
    }
}

} // verus!
