//! What the registers of the sound generator mean: levels, sends, keys, interrupts and
//! the effect processor's memory.

use vstd::prelude::*;
use crate::bits::{casts, low_bits, right_shifts};
use crate::memory::{folded, word_is_read_back};
use super::chip::{Chip, MAX_AUDIO_SAMPLES};
use super::ctrl::{
    clipped, noise_step, scaled, send_gain, voice_part, Sound, INT_MIDI, INT_TIMER_A, INT_TIMER_B, INT_TIMER_C, SCIEB,
    SCILV0, SCILV1, SCILV2, SCIPD,
};
use super::dsp::{is_ring, signed, Fx};
use super::hle::{note_octave, note_pitch, Sequencer, SAMPLE_BASE_NOTE};
use super::tables::{channel_gain, level_gain, total_gain};
use super::timer::Timer;
use super::voice::{octave, pitch_step};

verus! {

proof fn mixer_bits(r: u16, a: u8, b: u8, c: u8, v: i32, k: u32, s: u16)
    by (bit_vector)
    ensures
        a <= 1 && b <= 1 && c <= 1 ==> (a | (b << 1)) | (c << 2) == a + 2 * b + 4 * c,
        (r >> 13) & 7 == r >> 13,
        r < 256 ==> (r as i32) as u8 == r,
        0x2000u32 << 0 == 0x2000 && 0x2000u32 << 1 == 0x4000 && 0x2000u32 << 2 == 0x8000 && 0x2000u32
            << 3 == 0x1_0000,
        -0x8000 <= v <= 0x7FFF && 1 <= k <= 7 ==> v << k == 2 * (v << ((k - 1) as u32)),
        v << 0 == v,
        k < 0x2_0000 && (k >> 5) & 1 == k & 1 ==> (k >> 1) | ((((k >> 5) ^ k) & 1) << 16) == k >> 1,
        k < 0x2_0000 && (k >> 5) & 1 != k & 1 ==> (k >> 1) | ((((k >> 5) ^ k) & 1) << 16) == (k >> 1)
            + 0x1_0000,
        0u16 & 0xF == 0,
        a & 0xF0 == 16 * (a >> 4),
        r <= 0x7FFF ==> r as i16 == r,
        r > 0x7FFF ==> r as i16 == r - 0x1_0000,
        s < 0x800 && r < 16 ==> ((((r << 11) | s) >> 11) & 0xF) == r && ((r << 11) | s) & 0x3FF == s
            & 0x3FF,
        s < 0x400 ==> s & 0x3FF == s,
        v == -8 || v == -7 || v == -6 || v == -5 || v == -4 || v == -3 || v == -2 || v == -1 ==> (v
            & 0xF) == v + 16,
        0 <= v <= 7 ==> (v & 0xF) == v,
        r < 16 ==> (r ^ 8 == r + 8 || (r ^ 8) + 8 == r) && (r < 8 ==> r ^ 8 == r + 8) && (r >= 8 ==> (r ^ 8) + 8 == r),
{
}

// ---- interrupts -------------------------------------------------------------------

/// The level of an interrupt source is three bits, one of each level register.
pub proof fn level_is_three_bits(s: Sound)
    ensures
        s.source_level(6) == s.at16(SCILV0) as int / 64 % 2 + 2 * (s.at16(SCILV1) as int / 64 % 2) + 4
            * (s.at16(SCILV2) as int / 64 % 2),
        s.source_level(7) == s.at16(SCILV0) as int / 128 % 2 + 2 * (s.at16(SCILV1) as int / 128 % 2)
            + 4 * (s.at16(SCILV2) as int / 128 % 2),
        s.source_level(8) == s.at16(SCILV0) as int / 256 % 2 + 2 * (s.at16(SCILV1) as int / 256 % 2)
            + 4 * (s.at16(SCILV2) as int / 256 % 2),
        s.source_level(3) == s.at16(SCILV0) as int / 8 % 2 + 2 * (s.at16(SCILV1) as int / 8 % 2) + 4
            * (s.at16(SCILV2) as int / 8 % 2),
{
    let (x, y, z) = (s.at16(SCILV0), s.at16(SCILV1), s.at16(SCILV2));
    level_digits(x, y, z, 6, 64);
    level_digits(x, y, z, 7, 128);
    level_digits(x, y, z, 8, 256);
    level_digits(x, y, z, 3, 8);
}

proof fn level_digits(x: u16, y: u16, z: u16, k: u32, m: int)
    requires
        (k == 3 && m == 8) || (k == 6 && m == 64) || (k == 7 && m == 128) || (k == 8 && m == 256),
    ensures
        (((x >> k) & 1) as u8) | ((((y >> k) & 1) as u8) << 1) | ((((z >> k) & 1) as u8) << 2)
            == x as int / m % 2 + 2 * (y as int / m % 2) + 4 * (z as int / m % 2),
{
    digit_of(x, k, m);
    digit_of(y, k, m);
    digit_of(z, k, m);
    mixer_bits(0, ((x >> k) & 1) as u8, ((y >> k) & 1) as u8, ((z >> k) & 1) as u8, 0, 0, 0);
}

proof fn digit_of(x: u16, k: u32, m: int)
    requires
        (k == 3 && m == 8) || (k == 6 && m == 64) || (k == 7 && m == 128) || (k == 8 && m == 256),
    ensures
        (x >> k) & 1 == x as int / m % 2,
        0 <= (x >> k) & 1 <= 1,
{
    low_bits();
    right_shifts();
    let w = x >> k;
    assert((w >> 1) * 2 + (w & 1) == w);
    assert(w == x as int / m);
}

/// The sound CPU is interrupted at the level of the first source that pends and is
/// enabled: timer A before B, B before C, and C before MIDI.
pub proof fn first_source_sets_the_level(s: Sound)
    ensures
        ({
            let a = s.at16(SCIPD) & s.at16(SCIEB);
            &&& a & INT_TIMER_A != 0 ==> s.interrupt_level() == s.source_level(6)
            &&& a & INT_TIMER_A == 0 && a & INT_TIMER_B != 0 ==> s.interrupt_level()
                == s.source_level(7)
            &&& a & INT_TIMER_A == 0 && a & INT_TIMER_B == 0 && a & INT_TIMER_C != 0
                ==> s.interrupt_level() == s.source_level(8)
            &&& a & INT_TIMER_A == 0 && a & INT_TIMER_B == 0 && a & INT_TIMER_C == 0 && a & INT_MIDI
                != 0 ==> s.interrupt_level() == s.source_level(3)
            &&& a & INT_TIMER_A == 0 && a & INT_TIMER_B == 0 && a & INT_TIMER_C == 0 && a & INT_MIDI
                == 0 ==> s.interrupt_level() == 0
        }),
{
}

// ---- keys -------------------------------------------------------------------------

/// A voice that starts begins at the first sample of its waveform, moves by the step of
/// its pitch register, and attacks.
pub proof fn started_voice_begins_its_waveform(s: Sound, i: int)
    requires
        s.wf(),
        0 <= i < 32,
    ensures
        ({
            let v = s.slot_started(i).slots[i];
            &&& v.active && !v.backwards && v.cur == 0 && v.nxt == 4096
            &&& v.step == pitch_step(s.at16((32 * i + 16) as u32))
            &&& v.eg.state is Attack
            &&& v.lfo_counter == 0 && v.step_mod == 0 && v.alfo == 0
            &&& s.slot_released(i).slots[i].eg.state is Release
            &&& s.slot_released(i).slots[i].eg.volume == s.slots[i].eg.volume
            &&& s.slot_released(i).slots[i].cur == s.slots[i].cur
        }),
        forall|k: int|
            0 <= k < 32 && k != i ==> #[trigger] s.slot_started(i).slots[k] == s.slots[k],
        forall|k: int|
            0 <= k < 32 && k != i ==> #[trigger] s.slot_released(i).slots[k] == s.slots[k],
{
}

/// Where a voice's waveform is and how it loops is in its first four registers.
pub proof fn waveform_is_in_the_registers(s: Sound, i: int)
    requires
        0 <= i < 32,
    ensures
        ({
            let w = s.wave(i);
            let o = 32 * i;
            &&& w.key == s.at16(o as u32) && w.low == s.at16((o + 2) as u32)
            &&& w.lsa == s.at16((o + 4) as u32) && w.lea == s.at16((o + 6) as u32)
        }),
{
}

// ---- mixer ------------------------------------------------------------------------

/// A gain scales a sample, rounding down: 4096 leaves it as it is.
pub proof fn gain_scales(x: int, gain: int)
    requires
        -0x8000 <= x <= 0x8000,
        0 <= gain <= 16384,
    ensures
        4096 * scaled(x, gain) <= x * gain < 4096 * scaled(x, gain) + 4096,
        gain == 4096 ==> scaled(x, gain) == x,
        gain == 0 ==> scaled(x, gain) == 0,
{
    assert(-0x2000_0000 <= x * gain <= 0x2000_0000 && (gain == 0 ==> x * gain == 0)) by (nonlinear_arith)
        requires
            -0x8000 <= x <= 0x8000,
            0 <= gain <= 16384,
    ;
    let p = (x * gain) as i32;
    assert((p >> 12) * 0x1000 <= p < (p >> 12) * 0x1000 + 0x1000) by {
        right_shifts();
    }
}

/// The output is a quarter of the sum of the voices, and clipped to 16 bits.
pub proof fn output_is_a_clipped_quarter(sum: int)
    requires
        -0x8000_0000 <= sum <= 0x7FFF_FFFF,
    ensures
        -0x2_0000 <= sum <= 0x1_FFFF ==> 4 * clipped(sum) <= sum < 4 * clipped(sum) + 4,
        sum > 0x1_FFFF ==> clipped(sum) == 0x7FFF,
        sum < -0x2_0000 ==> clipped(sum) == -0x8000,
{
    let x = sum as i32;
    assert((x >> 2) * 4 <= x < (x >> 2) * 4 + 4) by {
        right_shifts();
    }
}

/// A voice goes to a channel by the level and the pan of its direct send, which are the
/// upper byte of its send register; the effect output of its number by those of the
/// lower byte, while effects are on.
pub proof fn sends_go_by_their_bytes(voice: int, ret: Seq<i16>, i: int, send: u16, left: bool)
    requires
        0 <= i < 32,
    ensures
        ({
            let direct = scaled(
                voice,
                send_gain((send as int / 8192) as u16, (send as int / 256 % 32) as u16, left) as int,
            );
            let effect = scaled(
                ret[i] as int,
                send_gain((send as int / 32 % 8) as u16, (send as int % 32) as u16, left) as int,
            );
            &&& voice_part(voice, ret, false, i, send, left) == direct
            &&& i < 16 ==> voice_part(voice, ret, true, i, send, left) == direct + effect
            &&& i >= 16 ==> voice_part(voice, ret, true, i, send, left) == direct
        }),
{
    mixer_bits(send, 0, 0, 0, 0, 0, 0);
    assert(send >> 13 == send as int / 8192 && (send >> 8) & 0x1F == send as int / 256 % 32 && (send
        >> 5) & 7 == send as int / 32 % 8 && send & 0x1F == send as int % 32) by {
        low_bits();
        right_shifts();
    }
}

/// A pan attenuates one channel and leaves the other at the gain of the send level.
pub proof fn pan_attenuates_one_side(level: u16, pan: u16)
    requires
        level < 8,
        pan < 32,
    ensures
        pan < 16 ==> send_gain(level, pan, false) == send_gain(level, 0, false),
        pan >= 16 ==> send_gain(level, pan, true) == send_gain(level, 0, true),
        send_gain(level, pan, true) <= send_gain(level, 0, true),
        send_gain(level, pan, false) <= send_gain(level, 0, false),
{
    crate::bits::masks_bound();
    mixer_bits(0, 0, 0, 0, 0, 0, 0);
    pans_fall(level as int, (pan & 0xF) as int);
}

proof fn pans_fall(level: int, pan: int)
    requires
        0 <= level < 8,
        0 <= pan < 16,
    ensures
        channel_gain(level, pan) <= channel_gain(level, 0),
        level > 0 ==> channel_gain(level - 1, 0) <= channel_gain(level, 0),
{
    reveal(channel_gain);
}

/// A higher total level is never louder, and total level 0 leaves a voice as it is.
pub proof fn total_level_attenuates(a: int, b: int)
    requires
        0 <= a <= b < 256,
    ensures
        total_gain(b) <= total_gain(a),
        total_gain(0) == 4096,
    decreases b - a,
{
    if a < b {
        total_level_attenuates(a, b - 1);
        next_total_is_softer(b - 1);
    }
    first_total();
}

proof fn first_total()
    ensures
        total_gain(0) == 4096,
{
    reveal(total_gain);
}

proof fn next_total_is_softer(i: int)
    requires
        0 <= i < 255,
    ensures
        total_gain(i + 1) <= total_gain(i),
{
    reveal(total_gain);
}

/// Powers of two, up to the greatest input level.
pub open spec fn level_factor(level: int) -> int
    decreases level,
{
    if level <= 0 {
        1
    } else {
        2 * level_factor(level - 1)
    }
}

/// A voice is sent to the effect processor by its input register: to the channel in bits
/// 3 to 6, twice as strong with every level of bits 0 to 2, and not at all at level 0.
pub proof fn effect_input_goes_by_its_register(f: Fx, voice: i32, input: u16)
    requires
        -0x8000 <= voice <= 0x7FFF,
        f.mixs.len() == 16,
        forall|c: int| 0 <= c < 16 ==> 0 <= #[trigger] f.mixs[c] <= 0xF_FFFF,
    ensures
        ({
            let m = f.fed(voice, input).mixs;
            let c = input as int / 8 % 16;
            let level = input as int % 8;
            &&& level == 0 ==> m == f.mixs
            &&& level > 0 ==> m[c] == (f.mixs[c] + voice * level_factor(level)) % 0x10_0000
            &&& forall|k: int| 0 <= k < 16 && k != c ==> #[trigger] m[k] == f.mixs[k]
        }),
{
    assert(input & 7 == input as int % 8 && (input >> 3) & 0xF == input as int / 8 % 16) by {
        low_bits();
        right_shifts();
    }
    let c = ((input >> 3) & 0xF) as int;
    sent_voice_adds_up(f, voice, (input & 7) as u32, c);
    assert(((input >> 3) & 0xF) as usize as int == c);
}

proof fn sent_voice_adds_up(f: Fx, v: i32, level: u32, c: int)
    requires
        -0x8000 <= v <= 0x7FFF,
        level <= 7,
        0 <= c < 16,
        f.mixs.len() == 16,
        0 <= f.mixs[c] <= 0xF_FFFF,
    ensures
        f.sampled(v << level, c).mixs[c] == (f.mixs[c] + v * level_factor(level as int)) % 0x10_0000,
{
    level_shifts(v, level);
    let x = f.mixs[c].wrapping_add(v << level);
    assert((x & 0xF_FFFF) == x as int % 0x10_0000) by {
        low_bits();
        assert((x >> 20) * 0x10_0000 + (x & 0xF_FFFF) == x);
    }
}

proof fn level_shifts(v: i32, k: u32)
    requires
        -0x8000 <= v <= 0x7FFF,
        k <= 7,
    ensures
        v << k == v * level_factor(k as int),
        1 <= level_factor(k as int) <= 128,
        -0x40_0000 <= v << k <= 0x40_0000,
    decreases k,
{
    mixer_bits(0, 0, 0, 0, v, k, 0);
    assert(level_factor(0) == 1);
    assert(level_factor(1) == 2);
    assert(level_factor(2) == 4);
    assert(level_factor(3) == 8);
    assert(level_factor(4) == 16);
    assert(level_factor(5) == 32);
    assert(level_factor(6) == 64);
    assert(level_factor(7) == 128);
    if k > 0 {
        level_shifts(v, (k - 1) as u32);
        let f = level_factor(k - 1);
        assert(v * (2 * f) == 2 * (v * f)) by (nonlinear_arith);
        assert(-0x40_0000 <= v * (2 * f) <= 0x40_0000) by (nonlinear_arith)
            requires
                -0x8000 <= v <= 0x7FFF,
                1 <= 2 * f <= 128,
        ;
    }
}

// ---- the effect processor's registers ----------------------------------------------

/// The ring of the effect processor starts at a multiple of 4096 words and has one of
/// four lengths, each twice the one before.
pub proof fn ring_is_set_from_its_register(s: Sound)
    ensures
        ({
            let r = s.at16(0x402) as int;
            let f = s.ring_set();
            &&& is_ring(f.rbl)
            &&& f.rbp == r % 64
            &&& r / 128 % 4 == 0 ==> f.rbl == 8192
            &&& r / 128 % 4 == 1 ==> f.rbl == 16384
            &&& r / 128 % 4 == 2 ==> f.rbl == 32768
            &&& r / 128 % 4 == 3 ==> f.rbl == 65536
            &&& f.dec == s.dsp.dec && f.mpro == s.dsp.mpro && f.temp == s.dsp.temp
        }),
{
    let r = s.at16(0x402);
    mixer_bits(0, 0, 0, 0, 0, 0, 0);
    assert(r & 0x3F == r as int % 64 && (r >> 7) & 3 == r as int / 128 % 4) by {
        low_bits();
        right_shifts();
    }
}

/// Coefficients, addresses and the program are written through registers of their own,
/// one word each; writing the program starts it.
pub proof fn effect_memory_is_written(s: Sound, i: int, v: u16)
    requires
        s.wf(),
        s.dsp.coef.len() == 64,
        s.dsp.madrs.len() == 32,
        s.dsp.mpro.len() == 512,
        0 <= i,
    ensures
        i < 64 ==> s.dsp_written((0x700 + 2 * i) as u32, v).dsp.coef[i] == signed(
            v as int,
            0x1_0000,
        ),
        i < 32 ==> s.dsp_written((0x780 + 2 * i) as u32, v).dsp.madrs[i] == v,
        i < 512 ==> s.dsp_written((0x800 + 2 * i) as u32, v).dsp.mpro[i] == v,
        i < 512 ==> !s.dsp_written((0x800 + 2 * i) as u32, v).dsp.stopped,
        i < 64 ==> s.dsp_written((0x700 + 2 * i) as u32, v).dsp.madrs == s.dsp.madrs,
        i < 32 ==> s.dsp_written((0x780 + 2 * i) as u32, v).dsp.coef == s.dsp.coef,
{
    mixer_bits(v, 0, 0, 0, 0, 0, 0);
}

// ---- notes ------------------------------------------------------------------------

/// The pitch of a note has the note's octave and its semitone: twelve notes up is an
/// octave up, which doubles the step.
pub proof fn twelve_notes_are_an_octave(note: int)
    requires
        -96 <= note - SAMPLE_BASE_NOTE < 84,
    ensures
        octave(note_pitch(note)) == (note - SAMPLE_BASE_NOTE) / 12,
        octave(note_pitch(note + 12)) == octave(note_pitch(note)) + 1,
        note_pitch(note) as int % 1024 == note_pitch(note + 12) as int % 1024,
        note_pitch(SAMPLE_BASE_NOTE as int) as int % 1024 == 0,
{
    pitch_parts(note);
    pitch_parts(note + 12);
    pitch_parts(SAMPLE_BASE_NOTE as int);
}

proof fn pitch_parts(note: int)
    requires
        -96 <= note - SAMPLE_BASE_NOTE < 96,
    ensures
        octave(note_pitch(note)) == (note - SAMPLE_BASE_NOTE) / 12,
        note_pitch(note) as int % 1024 == super::hle::SEMITONES@[(note - SAMPLE_BASE_NOTE) % 12],
{
    let o = note_octave(note) as i32;
    let k = (o & 0xF) as u16;
    let f = super::hle::SEMITONES@[(note - SAMPLE_BASE_NOTE) % 12];
    semitone_bound((note - SAMPLE_BASE_NOTE) % 12);
    mixer_bits(k, 0, 0, 0, o, 0, f);
    let p = note_pitch(note);
    assert(p & 0x3FF == p as int % 1024) by {
        low_bits();
    }
}

proof fn semitone_bound(i: int)
    requires
        0 <= i < 12,
    ensures
        super::hle::SEMITONES@[i] < 0x400,
{
}

// ---- the native driver --------------------------------------------------------------

/// An event has a length of its own: a note five bytes, a control change four, a program
/// change and a pitch bend three; its last byte is the time to the next event, and the
/// events of a tick go on until one says that there is a time to wait.
pub proof fn events_have_their_length(q: Sequencer, ram: Seq<u8>, s: Sound)
    requires
        q.wf(),
        q.seq_pos < 0x10_0000,
    ensures
        ({
            let status = q.byte(ram, 0) as int;
            let e = q.event(ram, s);
            let n: int = if status < 0x80 {
                5
            } else if status / 16 == 0xB {
                4
            } else {
                3
            };
            let timed = status < 0x80 || status / 16 == 0xB || status / 16 == 0xC || status / 16
                == 0xE;
            let wait = folded(ram, (q.seq_pos + n - 1) as u32);
            &&& timed ==> e.driver.seq_pos == q.seq_pos + n
            &&& timed ==> (e.more <==> wait == 0)
            &&& timed && wait > 0 ==> e.driver.delta == wait
            &&& status < 0x80 ==> e.driver.next_voice == (q.next_voice + 1) % 8
            &&& status < 0x80 ==> e.sound == s.note_keyed(
                q.next_voice as u32,
                folded(ram, (q.seq_pos + 1) as u32) as int,
            )
            &&& status >= 0x80 ==> e.sound == s
            &&& status / 16 == 0xC ==> e.driver.program[status % 16] == folded(
                ram,
                (q.seq_pos + 1) as u32,
            )
            &&& status == 0x83 ==> e.driver.seq_pos == q.seq_pos + 1 && !e.more && !e.driver.stopped
                == !q.stopped
            &&& !timed && status != 0x83 ==> e.driver.stopped && !e.more
        }),
{
    let status = q.byte(ram, 0);
    event_bits(status, (q.next_voice + 1) as u8);
}

proof fn event_bits(b: u8, n: u8)
    ensures
        b & 0xF0 == 16 * (b as int / 16),
        b & 0xF == b as int % 16,
        n & 7 == n as int % 8,
{
    mixer_bits(0, b, 0, 0, 0, 0, 0);
    assert(b >> 4 == b as int / 16 && b & 0xF == b as int % 16 && n & 7 == n as int % 8) by {
        low_bits();
        right_shifts();
    }
}

/// A time to wait is counted down by the ticks, and nothing is played meanwhile; a driver
/// that has stopped stays as it is.
pub proof fn driver_waits_its_time(q: Sequencer, ram: Seq<u8>, s: Sound)
    requires
        q.started,
    ensures
        q.delta > 0 && !q.stopped ==> q.ticked(ram, s).0.delta == q.delta - 1 && q.ticked(
            ram,
            s,
        ).0.seq_pos == q.seq_pos && q.ticked(ram, s).1 == s,
        q.stopped ==> q.ticked(ram, s) == (q, s),
{
}

/// Every 88th sample is a tick of the native driver.
pub proof fn ticks_come_every_88_samples(q: Sequencer, ram: Seq<u8>, s: Sound)
    requires
        q.wf(),
    ensures
        q.tick_acc < 87 ==> q.sampled(ram, s).0.tick_acc == q.tick_acc + 1 && q.sampled(ram, s).1 == s
            && q.sampled(ram, s).0.seq_pos == q.seq_pos,
        q.tick_acc == 87 && q.delta > 0 && q.started && !q.stopped ==> q.sampled(ram, s).0.tick_acc
            == 0 && q.sampled(ram, s).0.delta == q.delta - 1,
{
}

// ---- the sound CPU's bus ------------------------------------------------------------

/// The sound CPU finds sound RAM at the bottom of its address space, and the registers a
/// mebibyte up; what the main CPUs write there it reads, and the other way round.
pub proof fn sound_cpu_shares_memory(c: Chip, o: u32, v: u16)
    requires
        c.wf(),
    ensures
        o < 0x8_0000 ==> c.bus_at(o) == c.ram[o as int],
        o < 0x7_FFFF ==> c.bus_written16(o, v).bus_at16(o) == v,
        o < 0x8_0000 ==> c.bus_written16(o, v).sound == c.sound,
        o < 0x1000 ==> c.bus_at16((0x10_0000 + o) as u32) == c.sound.at16(o),
        o < 0x1000 ==> c.bus_written16((0x10_0000 + o) as u32, v).sound == c.sound.written16(o, v),
        o < 0x1000 ==> c.bus_written16((0x10_0000 + o) as u32, v).ram == c.ram,
        o >= 0x10_1000 ==> c.bus_at16(o) == 0 && c.bus_written16(o, v) == c,
{
    if o < 0x7_FFFF {
        word_is_read_back(c.ram, o, v);
    }
}

/// A write to a timer's register sets its clock and what it is loaded with at its next
/// clock.
pub proof fn timer_register_is_its_clock_and_load(reg: u16, counter: u8)
    ensures
        ({
            let t = Timer::written(reg, counter);
            &&& t.control == reg as int / 256 % 8
            &&& t.clocked().counter == reg as int % 256
            &&& t.counter == counter
            &&& t.clocked().clocked().counter == (reg as int % 256 + 1) % 256
        }),
{
    let c = (reg >> 8) & 7;
    assert(reg & 0xFF == reg as int % 256 && c == reg as int / 256 % 8) by {
        low_bits();
        right_shifts();
    }
    assert(c as u8 == c) by {
        casts();
        low_bits();
    }
    let r = (reg & 0xFF) as i32;
    assert(r as u8 == r) by {
        small_byte(reg & 0xFF);
    }
}

proof fn small_byte(x: u16)
    requires
        x < 256,
    ensures
        (x as i32) as u8 == x,
{
    mixer_bits(x, 0, 0, 0, 0, 0, 0);
}

/// The output of a sample joins what waits to be heard, left before right.
pub proof fn sample_is_heard_left_first(c: Chip)
    requires
        c.out.len() < MAX_AUDIO_SAMPLES,
    ensures
        ({
            let h = c.heard();
            let n = c.out.len() as int;
            &&& h.out.len() == n + 2
            &&& h.out.take(n) == c.out
            &&& h.out[n] == clipped(c.sound.mix_of(c.ram, 32).left)
            &&& h.out[n + 1] == clipped(c.sound.mix_of(c.ram, 32).right)
        }),
{
    assert(c.heard().out.take(c.out.len() as int) =~= c.out);
}

/// A voice sounds at the level of its envelope less that of its oscillator, and by its
/// total level, which is the low byte of its seventh register.
pub proof fn voice_sounds_at_its_level(s: Sound, i: int)
    requires
        s.wf(),
        0 <= i < 32,
        s.slots[i].active,
    ensures
        ({
            let level = s.slots[i].eg.sounding() - s.slots[i].alfo;
            let total = s.at16((32 * i + 12) as u32) as int % 256;
            &&& level > 0 ==> s.slot_gain(i) == level_gain(level) * total_gain(total) / 4096
            &&& level <= 0 ==> s.slot_gain(i) == level_gain(0) * total_gain(total) / 4096
        }),
{
    let t = s.reg(i, 6);
    assert(t & 0xFF == t as int % 256) by {
        low_bits();
    }
}

/// The noise generator shifts, and feeds back the sum of two of its bits.
pub proof fn noise_shifts_and_feeds_back(x: u32)
    requires
        x < 0x2_0000,
    ensures
        noise_step(x) == x as int / 2 + 0x1_0000 * ((x as int / 32 + x) % 2),
{
    let b = x >> 5;
    assert(b == x as int / 32 && x >> 1 == x as int / 2 && b & 1 == b as int % 2 && x & 1 == x as int
        % 2) by {
        low_bits();
        right_shifts();
    }
    mixer_bits(0, 0, 0, 0, 0, x, 0);
}

} // verus!
