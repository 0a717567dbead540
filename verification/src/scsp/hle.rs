//! A native sound driver, in place of the program of the sound CPU.
//!
//! It plays the music of the CD player: a sequence of events in sound RAM, on a
//! timer's cadence. A note sounds on four voices, of which three modulate the
//! fourth.

use vstd::prelude::*;
use vstd::arithmetic::power2::{lemma2_to64, pow2};
use crate::bits::masks_bound;
use crate::memory::{folded, Ram};
use super::ctrl::{ScspCtrl, Sound};

verus! {

/// Samples of a sequence tick.
pub const TIMER_B_PERIOD: u32 = 88;

/// Where the events of the sequence begin.
pub const SEQ_START: u32 = 0x1_8226;

/// The waveform of the voices, and its loop.
pub const BGM_SAMPLE_SA: u32 = 0x1_0740;

pub const BGM_LSA: u16 = 0x00A9;

pub const BGM_LEA: u16 = 0x0152;

/// The note that plays the waveform at its own pitch.
pub const SAMPLE_BASE_NOTE: i32 = 55;

/// Pitch fractions of the twelve semitones of an octave.
pub const SEMITONES: [u16; 12] = [0, 61, 125, 194, 266, 343, 424, 510, 601, 698, 801, 909];

/// One voice of an instrument.
#[derive(Clone, Copy, Debug, PartialEq, Eq, Structural)]
pub struct Operator {
    /// Semitones from the note.
    pub note_off: i32,
    /// Total level.
    pub tl: u16,
    /// Modulation: level and sources.
    pub mdl: u16,
    pub mdx: u16,
    pub mdy: u16,
    /// Rates of the envelope.
    pub ar: u16,
    pub d1r: u16,
    pub d2r: u16,
    pub rr: u16,
    /// Whether it is heard, rather than modulating another.
    pub direct: bool,
}

impl Operator {
    /// Voice `i` of the instrument.
    pub open spec fn of(i: int) -> Operator {
        if i == 0 {
            Operator {
                note_off: (-5) as i32,
                tl: 0x04,
                mdl: 0x7,
                mdx: 0x00,
                mdy: 0x00,
                ar: 0x00,
                d1r: 0x00,
                d2r: 0x00,
                rr: 0x14,
                direct: false,
            }
        } else if i == 1 {
            Operator {
                note_off: 7,
                tl: 0x04,
                mdl: 0x9,
                mdx: 0x18,
                mdy: 0x18,
                ar: 0x1F,
                d1r: 0x00,
                d2r: 0x05,
                rr: 0x14,
                direct: false,
            }
        } else if i == 2 {
            Operator {
                note_off: (-17) as i32,
                tl: 0x52,
                mdl: 0x7,
                mdx: 0x18,
                mdy: 0x18,
                ar: 0x04,
                d1r: 0x11,
                d2r: 0x05,
                rr: 0x14,
                direct: false,
            }
        } else {
            Operator {
                note_off: 0,
                tl: 0x15,
                mdl: 0xA,
                mdx: 0x08,
                mdy: 0x38,
                ar: 0x08,
                d1r: 0x00,
                d2r: 0x00,
                rr: 0x16,
                direct: true,
            }
        }
    }

    fn get(i: u32) -> (r: Operator)
        ensures
            r == Operator::of(i as int),
            -17 <= r.note_off <= 7,
    {
        if i == 0 {
            Operator {
                note_off: -5,
                tl: 0x04,
                mdl: 0x7,
                mdx: 0x00,
                mdy: 0x00,
                ar: 0x00,
                d1r: 0x00,
                d2r: 0x00,
                rr: 0x14,
                direct: false,
            }
        } else if i == 1 {
            Operator {
                note_off: 7,
                tl: 0x04,
                mdl: 0x9,
                mdx: 0x18,
                mdy: 0x18,
                ar: 0x1F,
                d1r: 0x00,
                d2r: 0x05,
                rr: 0x14,
                direct: false,
            }
        } else if i == 2 {
            Operator {
                note_off: -17,
                tl: 0x52,
                mdl: 0x7,
                mdx: 0x18,
                mdy: 0x18,
                ar: 0x04,
                d1r: 0x11,
                d2r: 0x05,
                rr: 0x14,
                direct: false,
            }
        } else {
            Operator {
                note_off: 0,
                tl: 0x15,
                mdl: 0xA,
                mdx: 0x08,
                mdy: 0x38,
                ar: 0x08,
                d1r: 0x00,
                d2r: 0x00,
                rr: 0x16,
                direct: true,
            }
        }
    }
}

// ---- pitch ------------------------------------------------------------------------

/// The octave of a note, within what a pitch register holds.
pub open spec fn note_octave(note: int) -> int {
    let o = (note - SAMPLE_BASE_NOTE) / 12;
    if o < -8 {
        -8
    } else if o > 7 {
        7
    } else {
        o
    }
}

/// The pitch register of a note.
pub open spec fn note_pitch(note: int) -> u16 {
    (((note_octave(note) as i32 & 0xF) as u16) << 11) | SEMITONES@[(note - SAMPLE_BASE_NOTE) % 12]
}

/// The pitch register of a note: octave, and fraction of the semitone.
pub fn note_to_octfns(note: i32) -> (r: u16)
    ensures
        r == note_pitch(note as int),
{
    let s: i64 = note as i64 - SAMPLE_BASE_NOTE as i64;
    let q: i64 = if s >= 0 {
        s / 12
    } else {
        -((11 - s) / 12)
    };
    let frac: i64 = s - 12 * q;
    let oct: i32 = if q < -8 {
        -8
    } else if q > 7 {
        7
    } else {
        q as i32
    };
    (((oct & 0xF) as u16) << 11) | SEMITONES[frac as usize]
}

/// The twelfth power.
pub open spec fn twelfth(x: int) -> int {
    let c = x * x * x;
    c * c * c * c
}

/// Whether the pitch with fraction `f` is the twelfth root of `p`, to the nearest
/// 1024th.
pub open spec fn is_tempered(f: int, p: int) -> bool {
    twelfth(2 * (1024 + f) - 1) <= p * twelfth(2048) < twelfth(2 * (1024 + f) + 1)
}

/// Twelve semitones of equal ratio make an octave: semitone `k` has the pitch
/// `2^(k/12)`.
pub proof fn tuning_is_equal_tempered(k: int)
    requires
        0 <= k < 12,
    ensures
        is_tempered(SEMITONES@[k] as int, pow2(k as nat) as int),
{
    lemma2_to64();
    assert(is_tempered(0, 1)) by (nonlinear_arith);
    assert(is_tempered(61, 2)) by (nonlinear_arith);
    assert(is_tempered(125, 4)) by (nonlinear_arith);
    assert(is_tempered(194, 8)) by (nonlinear_arith);
    assert(is_tempered(266, 16)) by (nonlinear_arith);
    assert(is_tempered(343, 32)) by (nonlinear_arith);
    assert(is_tempered(424, 64)) by (nonlinear_arith);
    assert(is_tempered(510, 128)) by (nonlinear_arith);
    assert(is_tempered(601, 256)) by (nonlinear_arith);
    assert(is_tempered(698, 512)) by (nonlinear_arith);
    assert(is_tempered(801, 1024)) by (nonlinear_arith);
    assert(is_tempered(909, 2048)) by (nonlinear_arith);
}

// ---- voices -----------------------------------------------------------------------

impl Sound {
    /// Voice `slot` is set up for an operator that plays a note, with its key
    /// pressed but not strobed.
    #[verifier::opaque]
    pub open spec fn operator_set(self, slot: u32, note: int, op: Operator) -> Sound {
        let base = (slot * 0x20) as u32;
        let at = |o: u32| (base + o) as u32;
        self.written16(at(0x02), BGM_SAMPLE_SA as u16).written16(at(0x04), BGM_LSA).written16(
            at(0x06),
            BGM_LEA,
        ).written16(at(0x08), op.ar | (op.d1r << 6) | (op.d2r << 11)).written16(
            at(0x0A),
            op.rr,
        ).written16(at(0x0C), op.tl).written16(
            at(0x0E),
            (op.mdl << 12) | (op.mdx << 6) | op.mdy,
        ).written16(at(0x10), note_pitch(note + op.note_off)).written16(at(0x12), 0).written16(
            at(0x14),
            0,
        ).written16(
            at(0x16),
            if op.direct {
                0xE000
            } else {
                0
            },
        ).written16(base, 0x0821)
    }

    /// The first `n` voices of a note are set up.
    pub open spec fn operators_set(self, voice: u32, note: int, n: int) -> Sound
        decreases n,
    {
        if n <= 0 {
            self
        } else {
            self.operators_set(voice, note, n - 1).operator_set(
                (voice + (n - 1) * 8) as u32,
                note,
                Operator::of(n - 1),
            )
        }
    }

    /// The four voices of a note are set up, and their keys strobed.
    pub open spec fn note_keyed(self, voice: u32, note: int) -> Sound {
        self.operators_set(voice, note, 4).written16(((voice + 24) * 0x20) as u32, 0x1821)
    }
}

fn set_operator(ctrl: &mut ScspCtrl, slot: u32, note: i32, op: &Operator)
    requires
        old(ctrl)@.wf(),
        slot < 32,
        -0x8000 <= note <= 0x7FFF,
        -0x8000 <= op.note_off <= 0x7FFF,
    ensures
        final(ctrl)@ == old(ctrl)@.operator_set(slot, note as int, *op),
        final(ctrl)@.wf(),
{
    reveal(Sound::operator_set);
    let base: u32 = slot * 0x20;
    ctrl.write16(base + 0x02, BGM_SAMPLE_SA as u16);
    ctrl.write16(base + 0x04, BGM_LSA);
    ctrl.write16(base + 0x06, BGM_LEA);
    ctrl.write16(base + 0x08, op.ar | (op.d1r << 6) | (op.d2r << 11));
    ctrl.write16(base + 0x0A, op.rr);
    ctrl.write16(base + 0x0C, op.tl);
    ctrl.write16(base + 0x0E, (op.mdl << 12) | (op.mdx << 6) | op.mdy);
    ctrl.write16(base + 0x10, note_to_octfns(note + op.note_off));
    ctrl.write16(base + 0x12, 0);
    ctrl.write16(base + 0x14, 0);
    ctrl.write16(
        base + 0x16,
        if op.direct {
            0xE000
        } else {
            0
        },
    );
    ctrl.write16(base, 0x0821);
}

// ---- sequencer --------------------------------------------------------------------

/// The sound driver.
#[derive(Clone, Debug)]
pub struct HleSoundDriver {
    /// Samples since the last sequence tick.
    pub tick_acc: u32,
    /// The sequence has been found.
    pub started: bool,
    /// Where the sequence is.
    pub seq_pos: u32,
    /// Ticks until the next event.
    pub delta: u32,
    /// An unknown event has been met.
    pub stopped: bool,
    /// Instruments of the channels.
    pub program: [u8; 16],
    /// The voice of the next note, 0 to 7.
    pub next_voice: u8,
}

/// The state of a [`HleSoundDriver`].
pub struct Sequencer {
    pub tick_acc: u32,
    pub started: bool,
    pub seq_pos: u32,
    pub delta: u32,
    pub stopped: bool,
    pub program: Seq<u8>,
    pub next_voice: u8,
}

impl View for HleSoundDriver {
    type V = Sequencer;

    open spec fn view(&self) -> Sequencer {
        Sequencer {
            tick_acc: self.tick_acc,
            started: self.started,
            seq_pos: self.seq_pos,
            delta: self.delta,
            stopped: self.stopped,
            program: self.program@,
            next_voice: self.next_voice,
        }
    }
}

/// What an event leaves: the driver, the generator, and whether the tick goes on.
pub struct Step {
    pub driver: Sequencer,
    pub sound: Sound,
    pub more: bool,
}

impl Sequencer {
    pub open spec fn wf(self) -> bool {
        self.tick_acc < TIMER_B_PERIOD && self.next_voice < 8 && self.program.len() == 16
    }

    pub open spec fn reset() -> Sequencer {
        Sequencer {
            tick_acc: 0,
            started: false,
            seq_pos: 0,
            delta: 0,
            stopped: false,
            program: Seq::new(16, |i: int| 0u8),
            next_voice: 0,
        }
    }

    /// Byte `k` of the next event.
    pub open spec fn byte(self, ram: Seq<u8>, k: u32) -> u8 {
        folded(ram, self.seq_pos.wrapping_add(k))
    }

    /// The driver behind an event of `n` bytes, the last of which is the time to
    /// the next event.
    pub open spec fn past(self, ram: Seq<u8>, n: u32) -> Sequencer {
        let d = self.byte(ram, (n - 1) as u32) as u32;
        Sequencer {
            seq_pos: self.seq_pos.wrapping_add(n),
            delta: if d > 0 {
                d
            } else {
                self.delta
            },
            ..self
        }
    }

    /// The next event: a note, a control change, a program change, a pitch bend, or
    /// the end of the tick. Anything else stops the driver.
    pub open spec fn event(self, ram: Seq<u8>, sound: Sound) -> Step {
        let status = self.byte(ram, 0);
        if status < 0x80 {
            Step {
                driver: Sequencer {
                    next_voice: (self.next_voice + 1) as u8 & 7,
                    ..self.past(ram, 5)
                },
                sound: sound.note_keyed(self.next_voice as u32, self.byte(ram, 1) as int),
                more: self.byte(ram, 4) == 0,
            }
        } else if status & 0xF0 == 0xB0 {
            Step { driver: self.past(ram, 4), sound, more: self.byte(ram, 3) == 0 }
        } else if status & 0xF0 == 0xC0 {
            Step {
                driver: Sequencer {
                    program: self.program.update((status & 0xF) as int, self.byte(ram, 1)),
                    ..self.past(ram, 3)
                },
                sound,
                more: self.byte(ram, 2) == 0,
            }
        } else if status & 0xF0 == 0xE0 {
            Step { driver: self.past(ram, 3), sound, more: self.byte(ram, 2) == 0 }
        } else if status == 0x83 {
            Step {
                driver: Sequencer { seq_pos: self.seq_pos.wrapping_add(1), ..self },
                sound,
                more: false,
            }
        } else {
            Step { driver: Sequencer { stopped: true, ..self }, sound, more: false }
        }
    }

    /// Up to `n` events of a tick.
    pub open spec fn events(self, ram: Seq<u8>, sound: Sound, n: nat) -> (Sequencer, Sound)
        decreases n,
    {
        if n == 0 {
            (self, sound)
        } else {
            let e = self.event(ram, sound);
            if e.more {
                e.driver.events(ram, e.sound, (n - 1) as nat)
            } else {
                (e.driver, e.sound)
            }
        }
    }

    /// The driver once the sequence has been put into sound RAM.
    pub open spec fn awake(self) -> Sequencer {
        if self.started {
            self
        } else {
            Sequencer { started: true, seq_pos: SEQ_START, ..self }
        }
    }

    /// A tick: it waits for the sequence to appear and for the time of the next
    /// event, and plays the events that are due.
    pub open spec fn ticked(self, ram: Seq<u8>, sound: Sound) -> (Sequencer, Sound) {
        if self.stopped || (!self.started && folded(ram, SEQ_START) == 0 && folded(
            ram,
            (SEQ_START + 1) as u32,
        ) == 0) {
            (self, sound)
        } else if self.delta > 0 {
            (Sequencer { delta: (self.delta - 1) as u32, ..self.awake() }, sound)
        } else {
            self.awake().events(ram, sound, 64)
        }
    }

    /// An output sample: every 88th is a tick.
    pub open spec fn sampled(self, ram: Seq<u8>, sound: Sound) -> (Sequencer, Sound) {
        if self.tick_acc + 1 < TIMER_B_PERIOD {
            (Sequencer { tick_acc: (self.tick_acc + 1) as u32, ..self }, sound)
        } else {
            Sequencer { tick_acc: 0, ..self }.ticked(ram, sound)
        }
    }
}

impl Default for HleSoundDriver {
    fn default() -> (r: HleSoundDriver)
        ensures
            r@ == Sequencer::reset(),
            r@.wf(),
    {
        let r = HleSoundDriver {
            tick_acc: 0,
            started: false,
            seq_pos: 0,
            delta: 0,
            stopped: false,
            program: [0u8; 16],
            next_voice: 0,
        };
        assert(r@.program =~= Sequencer::reset().program);
        r
    }
}

impl HleSoundDriver {
    fn read(&self, ram: &Ram, k: u32) -> (r: u8)
        requires
            ram@.len() > 0,
        ensures
            r == self@.byte(ram@, k),
    {
        ram.read8(self.seq_pos.wrapping_add(k))
    }

    fn pass(&mut self, ram: &Ram, n: u32) -> (more: bool)
        requires
            ram@.len() > 0,
            0 < n,
        ensures
            final(self)@ == old(self)@.past(ram@, n),
            more == (old(self)@.byte(ram@, (n - 1) as u32) == 0),
    {
        let d: u8 = self.read(ram, n - 1);
        self.seq_pos = self.seq_pos.wrapping_add(n);
        if d > 0 {
            self.delta = d as u32;
        }
        d == 0
    }

    fn key_note(&mut self, ctrl: &mut ScspCtrl, note: u8)
        requires
            old(self)@.wf(),
            old(ctrl)@.wf(),
        ensures
            final(self)@ == (Sequencer {
                next_voice: (old(self)@.next_voice + 1) as u8 & 7,
                ..old(self)@
            }),
            final(self)@.wf(),
            final(ctrl)@ == old(ctrl)@.note_keyed(old(self)@.next_voice as u32, note as int),
            final(ctrl)@.wf(),
    {
        let v: u32 = self.next_voice as u32;
        proof {
            masks_bound();
        }
        self.next_voice = (self.next_voice + 1) & 7;
        let mut i: u32 = 0;
        while i < 4
            invariant
                i <= 4,
                v < 8,
                ctrl@.wf(),
                ctrl@ == old(ctrl)@.operators_set(v, note as int, i as int),
            decreases 4 - i,
        {
            let op = Operator::get(i);
            set_operator(ctrl, v + i * 8, note as i32, &op);
            i += 1;
        }
        ctrl.write16((v + 24) * 0x20, 0x1821);
    }

    fn play_event(&mut self, ram: &Ram, ctrl: &mut ScspCtrl) -> (more: bool)
        requires
            old(self)@.wf(),
            old(ctrl)@.wf(),
            ram@.len() > 0,
        ensures
            ({
                let e = old(self)@.event(ram@, old(ctrl)@);
                final(self)@ == e.driver && final(ctrl)@ == e.sound && more == e.more
            }),
            final(self)@.wf(),
            final(ctrl)@.wf(),
    {
        let status: u8 = self.read(ram, 0);
        if status < 0x80 {
            let note: u8 = self.read(ram, 1);
            let more: bool = self.pass(ram, 5);
            self.key_note(ctrl, note);
            more
        } else if status & 0xF0 == 0xB0 {
            self.pass(ram, 4)
        } else if status & 0xF0 == 0xC0 {
            let program: u8 = self.read(ram, 1);
            proof {
                masks_bound();
            }
            self.program[(status & 0xF) as usize] = program;
            self.pass(ram, 3)
        } else if status & 0xF0 == 0xE0 {
            self.pass(ram, 3)
        } else if status == 0x83 {
            self.seq_pos = self.seq_pos.wrapping_add(1);
            false
        } else {
            self.stopped = true;
            false
        }
    }

    fn seq_tick(&mut self, ram: &Ram, ctrl: &mut ScspCtrl)
        requires
            old(self)@.wf(),
            old(ctrl)@.wf(),
            ram@.len() > 0,
        ensures
            (final(self)@, final(ctrl)@) == old(self)@.ticked(ram@, old(ctrl)@),
            final(self)@.wf(),
            final(ctrl)@.wf(),
    {
        if self.stopped {
            return;
        }
        if !self.started {
            if ram.read8(SEQ_START) == 0 && ram.read8(SEQ_START + 1) == 0 {
                return;
            }
            self.started = true;
            self.seq_pos = SEQ_START;
        }
        if self.delta > 0 {
            self.delta = self.delta - 1;
            return;
        }
        let ghost start = self@;
        let ghost first = ctrl@;
        let mut n: u32 = 64;
        let mut more: bool = true;
        while more && n > 0
            invariant
                n <= 64,
                self@.wf(),
                ctrl@.wf(),
                ram@.len() > 0,
                more ==> start.events(ram@, first, 64) == self@.events(ram@, ctrl@, n as nat),
                !more ==> start.events(ram@, first, 64) == (self@, ctrl@),
            decreases n,
        {
            more = self.play_event(ram, ctrl);
            n -= 1;
        }
    }

    /// Advances by an output sample.
    pub fn tick(&mut self, ram: &Ram, ctrl: &mut ScspCtrl)
        requires
            old(self)@.wf(),
            old(ctrl)@.wf(),
            ram@.len() > 0,
        ensures
            (final(self)@, final(ctrl)@) == old(self)@.sampled(ram@, old(ctrl)@),
            final(self)@.wf(),
            final(ctrl)@.wf(),
    {
        self.tick_acc = self.tick_acc + 1;
        if self.tick_acc < TIMER_B_PERIOD {
            return;
        }
        self.tick_acc = 0;
        self.seq_tick(ram, ctrl);
    }
}

} // verus!
