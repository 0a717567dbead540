//! What holds of the sound generator as a whole.

use vstd::prelude::*;
use crate::bits::masks_bound;
use crate::memory::{byte16, folded16, put, put16, word_is_read_back};
use super::ctrl::{
    noise_step, send_gain, Sound, INT_TIMER_A, MCIPD, MCIRE, SCIEB,
    SCIPD, SCIRE,
};
use super::chip::{
    earned, left_over, Chip, CYCLES_PER_SAMPLE, MAX_AUDIO_SAMPLES, SCSP_CLOCK_HZ, SCSP_SAMPLE_HZ,
    SH2_CLOCK_HZ,
};
use super::hle::{note_pitch, Operator, Sequencer, BGM_LEA, BGM_LSA, BGM_SAMPLE_SA};
use super::tables::{channel_gain, level_gain, levels_rise, total_gain, total_is_bounded};
use super::timer::Timer;
use super::voice::{Eg, EgState, Slot, FULL_VOLUME};

verus! {

// ---- registers --------------------------------------------------------------------

/// A word does not change where another is written.
proof fn words_apart(b: Seq<u8>, o: u32, p: u32, v: u16)
    requires
        b.len() == 0x1000,
        o < 0xFFF,
        p < 0xFFF,
        o + 1 < p || p + 1 < o,
    ensures
        folded16(put16(b, o, v), p) == folded16(b, p),
{
    let n = b.len() as int;
    assert(o as int % n == o && (o as int + 0) % n == o && (o as int + 1) % n == o + 1);
    assert(p as int % n == p && (p + 1) as int % n == p + 1);
    let c = put(b, o, 0, byte16(v, 0));
    assert(c.len() == n);
    assert(put16(b, o, v) == b.update(o as int, byte16(v, 0)).update(
        o as int + 1,
        byte16(v, 1),
    ));
}

/// A register reads back what was written to it, unless the write strobes the
/// keys.
pub proof fn register_is_read_back(s: Sound, o: u32, v: u16)
    requires
        s.wf(),
        o < 0xFFF,
        !s.stored(o, v).dsp_written(o, v).is_strobe(o),
    ensures
        s.written16(o, v).at16(o) == v,
{
    let t = s.stored(o, v).dsp_written(o, v);
    word_is_read_back(s.raw, o, v);
    assert(o & 0xFFFF_FFFE == 0x422 || o & 0xFFFF_FFFE == 0x42E ==> o == 0x422 || o == 0x423 || o
        == 0x42E || o == 0x42F) by (bit_vector);
    if o & 0xFFFF_FFFE == SCIRE {
        words_apart(t.raw, SCIPD, o, t.at16(SCIPD) & !v);
    } else if o & 0xFFFF_FFFE == MCIRE {
        words_apart(t.raw, MCIPD, o, t.at16(MCIPD) & !v);
    }
}

// ---- interrupts -------------------------------------------------------------------

/// No interrupt that is not both pending and enabled reaches the sound CPU.
pub proof fn masked_interrupts_are_silent(s: Sound)
    requires
        s.at16(SCIPD) & s.at16(SCIEB) == 0,
    ensures
        s.line_evaluated().asserted_level == 0,
{
    no_bits();
}

proof fn no_bits()
    by (bit_vector)
    ensures
        forall|m: u16| #[trigger] (0u16 & m) == 0,
        0xFFFF_FFFEu32 & 0x422 == 0x422,
        forall|p: u16, v: u16| #[trigger] (p | v) & v == v,
        forall|k: u16| #[trigger] (k & 0xEFFF) & 0x1000 == 0,
        0x422u32 & 0xFFFF_FFFE == 0x422,
        forall|k: u32| k < 32 ==> #[trigger] (0i32 << k) == 0,
        forall|k: u32| k < 32 ==> #[trigger] (0i32 >> k) == 0,
        0i32 >> 2u32 == 0,
        forall|p: u16|
            p < 32 ==> #[trigger] (p ^ 16) & 0xF == p & 0xF && (p ^ 16 < 16 <==> p >= 16),
        0x1Fu16 & 0xF == 15 && 0x0Fu16 & 0xF == 15,
        forall|x: u32|
            0 < x < 0x2_0000 ==> 0 < (#[trigger] (x >> 1) | ((((x >> 5) ^ x) & 1) << 16)) < 0x2_0000,
{
}

/// Acknowledging interrupts takes them off the pending ones, and the line of the
/// sound CPU drops when no enabled one is left.
pub proof fn acknowledged_interrupts_drop(s: Sound, v: u16)
    requires
        s.wf(),
    ensures
        s.written16(SCIRE, v).at16(SCIPD) == s.at16(SCIPD) & !v,
        (s.at16(SCIPD) & !v) & s.at16(SCIEB) == 0 ==> s.written16(SCIRE, v).asserted_level == 0,
{
    no_bits();
    let t = s.stored(SCIRE, v);
    words_apart(s.raw, SCIRE, SCIPD, v);
    words_apart(s.raw, SCIRE, SCIEB, v);
    word_is_read_back(t.raw, SCIPD, t.at16(SCIPD) & !v);
    words_apart(t.raw, SCIPD, SCIEB, t.at16(SCIPD) & !v);
}

/// A timer that fires pends its interrupt; timer A pends that of the main CPU,
/// too.
pub proof fn fired_timer_pends(s: Sound, i: int)
    requires
        s.wf(),
        0 <= i < 3,
        s.timers[i].fires_on(s.sample_counter),
    ensures
        ({
            let n = s.timer_run(s.sample_counter, i);
            let bit = super::ctrl::timer_bit(i);
            n.at16(SCIPD) & bit == bit && (i == 0 ==> n.at16(MCIPD) & INT_TIMER_A == INT_TIMER_A)
        }),
{
    no_bits();
    let p = s.at16(SCIPD) | super::ctrl::timer_bit(i);
    word_is_read_back(s.raw, SCIPD, p);
    let t = put16(s.raw, SCIPD, p);
    let m = folded16(t, MCIPD) | INT_TIMER_A;
    word_is_read_back(t, MCIPD, m);
    words_apart(t, MCIPD, SCIPD, m);
}

// ---- timers -----------------------------------------------------------------------

impl Timer {
    /// The timer after `n` clocks.
    pub open spec fn after(self, n: nat) -> Timer
        decreases n,
    {
        if n == 0 {
            self
        } else {
            self.after((n - 1) as nat).clocked()
        }
    }
}

/// A timer counts on from what was loaded, modulo 256, and loads nothing by
/// itself: it fires every 256 clocks.
pub proof fn timer_runs_free(t: Timer, n: nat)
    requires
        n > 0,
    ensures
        t.after(n).counter == (if t.reload >= 0 {
            t.reload as u8 + n - 1
        } else {
            t.counter + n
        }) % 256,
        t.after(n).reload < 0,
        t.after(n).control == t.control,
        t.after(n + 256).counter == t.after(n).counter,
    decreases n,
{
    timer_counts(t, n);
    timer_counts(t, n + 256);
}

proof fn timer_counts(t: Timer, n: nat)
    requires
        n > 0,
    ensures
        t.after(n).counter == (if t.reload >= 0 {
            t.reload as u8 + n - 1
        } else {
            t.counter + n
        }) % 256,
        t.after(n).reload < 0,
        t.after(n).control == t.control,
    decreases n,
{
    reveal_with_fuel(Timer::after, 2);
    if n > 1 {
        timer_counts(t, (n - 1) as nat);
    }
}

/// A timer is clocked on every `2^control`th sample since reset, whenever it was
/// written.
pub proof fn timer_keeps_to_the_sample_grid(t: Timer, sc: u64)
    requires
        t.control <= 7,
    ensures
        t.is_clocked_by(sc) <==> sc % (1u64 << t.control) == 0,
{
    let c = t.control;
    assert({
        &&& c == 0 ==> (sc & (((1u64 << c) - 1) as u64) == 0 <==> sc % (1u64 << c) == 0)
        &&& c == 1 ==> (sc & (((1u64 << c) - 1) as u64) == 0 <==> sc % (1u64 << c) == 0)
        &&& c == 2 ==> (sc & (((1u64 << c) - 1) as u64) == 0 <==> sc % (1u64 << c) == 0)
        &&& c == 3 ==> (sc & (((1u64 << c) - 1) as u64) == 0 <==> sc % (1u64 << c) == 0)
        &&& c == 4 ==> (sc & (((1u64 << c) - 1) as u64) == 0 <==> sc % (1u64 << c) == 0)
        &&& c == 5 ==> (sc & (((1u64 << c) - 1) as u64) == 0 <==> sc % (1u64 << c) == 0)
        &&& c == 6 ==> (sc & (((1u64 << c) - 1) as u64) == 0 <==> sc % (1u64 << c) == 0)
        &&& c == 7 ==> (sc & (((1u64 << c) - 1) as u64) == 0 <==> sc % (1u64 << c) == 0)
    }) by (bit_vector);
}

// ---- keys -------------------------------------------------------------------------

/// A strobe does not restart a voice that plays with its key pressed, and
/// releases it with its key up.
pub proof fn strobe_acts_on_edges(s: Sound, i: int)
    requires
        s.wf(),
        0 <= i < 32,
        !s.slots[i].is_off(),
    ensures
        s.reg(i, 0) & 0x800 != 0 ==> s.slot_keyed(i).slots == s.slots,
        s.reg(i, 0) & 0x800 == 0 ==> s.slot_keyed(i).slots[i] == (Slot {
            eg: Eg { state: EgState::Release, ..s.slots[i].eg },
            ..s.slots[i]
        }),
{
}

/// A strobe starts a voice that is off with its key pressed, and leaves it off
/// otherwise.
pub proof fn strobe_starts_idle_voices(s: Sound, i: int)
    requires
        s.wf(),
        0 <= i < 32,
        s.slots[i].is_off(),
    ensures
        s.reg(i, 0) & 0x800 != 0 ==> s.slot_keyed(i).slots[i].active && s.slot_keyed(
            i,
        ).slots[i].eg.state is Attack,
        s.reg(i, 0) & 0x800 == 0 ==> s.slot_keyed(i).slots == s.slots,
{
}

proof fn strobe_cleared_in(s: Sound, n: int, i: int)
    requires
        s.wf(),
        0 <= n <= 32,
        0 <= i < n,
    ensures
        s.slots_keyed(n).raw.len() == 0x1000,
        s.slots_keyed(n).reg(i, 0) & 0x1000 == 0,
    decreases n,
{
    no_bits();
    keyed_length(s, n);
    keyed_length(s, n - 1);
    let t = s.slots_keyed(n - 1);
    let key = t.reg(n - 1, 0);
    let o = ((n - 1) * 0x20) as u32;
    if i < n - 1 {
        strobe_cleared_in(s, n - 1, i);
        words_apart(t.raw, o, (i * 0x20) as u32, key & 0xEFFF);
    } else {
        word_is_read_back(t.raw, o, key & 0xEFFF);
    }
}

proof fn keyed_length(s: Sound, n: int)
    requires
        s.wf(),
    ensures
        s.slots_keyed(n).raw.len() == 0x1000,
    decreases n,
{
    if n > 0 {
        keyed_length(s, n - 1);
    }
}

/// A strobe happens once: it leaves no strobe bit set.
pub proof fn strobe_is_cleared(s: Sound, i: int)
    requires
        s.wf(),
        0 <= i < 32,
    ensures
        s.strobed().reg(i, 0) & 0x1000 == 0,
{
    let t = Sound {
        counts: super::ctrl::Counts {
            keyon_execs: s.counts.keyon_execs.wrapping_add(1),
            ..s.counts
        },
        ..s
    };
    strobe_cleared_in(t, 32, i);
}

proof fn keyed_so_far(s: Sound, n: int, i: int)
    requires
        s.wf(),
        0 <= n <= 32,
        0 <= i < 32,
    ensures
        s.slots_keyed(n).raw.len() == 0x1000,
        s.slots_keyed(n).slots.len() == 32,
        i >= n ==> s.slots_keyed(n).slots[i] == s.slots[i],
        i >= n ==> s.slots_keyed(n).reg(i, 0) == s.reg(i, 0),
        i < n && s.reg(i, 0) & 0x800 != 0 ==> s.slots_keyed(n).slots[i].active,
    decreases n,
{
    if n > 0 {
        keyed_so_far(s, n - 1, i);
        keyed_so_far(s, n - 1, n - 1);
        let t = s.slots_keyed(n - 1);
        let key = t.reg(n - 1, 0);
        let o = ((n - 1) * 0x20) as u32;
        if i != n - 1 {
            words_apart(t.raw, o, (i * 0x20) as u32, key & 0xEFFF);
        }
    }
}

/// After a strobe, every voice whose key is pressed plays.
pub proof fn strobe_sounds_pressed_keys(s: Sound, i: int)
    requires
        s.wf(),
        0 <= i < 32,
        s.reg(i, 0) & 0x800 != 0,
    ensures
        s.strobed().slots[i].active,
{
    let t = Sound {
        counts: super::ctrl::Counts {
            keyon_execs: s.counts.keyon_execs.wrapping_add(1),
            ..s.counts
        },
        ..s
    };
    keyed_so_far(t, 32, i);
}

// ---- native driver ----------------------------------------------------------------

proof fn voice_addresses(i: u32, c: u32)
    by (bit_vector)
    requires
        i < 32,
        c < 32,
    ensures
        (i * 0x20 + c) as u32 & 0x1F == c,
        (i * 0x20 + c) as u32 & 0xFFFF_FFFE <= i * 0x20 + c,
        (i * 0x20) as u32 & 0xFFFF_FFE0 == i * 0x20,
        0x0821u16 & 0x1000 == 0,
        0x0821u16 & 0x800 != 0,
        0x1821u16 & 0x1000 != 0,
        0x1821u16 & 0x800 != 0,
{
}

/// Writing a register of a voice only stores it, unless it strobes the keys.
proof fn voice_write(s: Sound, i: u32, c: u32, v: u16)
    requires
        s.wf(),
        i < 32,
        c < 0x1F,
        c >= 2 || (c == 0 && v == 0x0821),
    ensures
        s.written16((i * 0x20 + c) as u32, v) == s.stored((i * 0x20 + c) as u32, v),
        s.stored((i * 0x20 + c) as u32, v).wf(),
        forall|k: int|
            0 <= k < 32 && (c >= 2 || k != i) ==> #[trigger] s.stored(
                (i * 0x20 + c) as u32,
                v,
            ).reg(k, 0) == s.reg(k, 0),
        c == 0 ==> s.stored((i * 0x20 + c) as u32, v).reg(i as int, 0) == v,
{
    let o = (i * 0x20 + c) as u32;
    voice_addresses(i, c);
    word_is_read_back(s.raw, o, v);
    assert forall|k: int| 0 <= k < 32 && (c >= 2 || k != i) implies #[trigger] s.stored(
        o,
        v,
    ).reg(k, 0) == s.reg(k, 0) by {
        words_apart(s.raw, o, (k * 0x20) as u32, v);
    }
}

proof fn operator_is_set(s: Sound, i: u32, note: int, op: Operator)
    requires
        s.wf(),
        i < 32,
    ensures
        s.operator_set(i, note, op).wf(),
        s.operator_set(i, note, op).slots == s.slots,
        s.operator_set(i, note, op).reg(i as int, 0) == 0x0821,
        forall|k: int|
            0 <= k < 32 && k != i ==> #[trigger] s.operator_set(i, note, op).reg(k, 0) == s.reg(
                k,
                0,
            ),
{
    reveal(Sound::operator_set);
    let b = (i * 0x20) as u32;
    let v4 = op.ar | (op.d1r << 6) | (op.d2r << 11);
    let v7 = (op.mdl << 12) | (op.mdx << 6) | op.mdy;
    let v8 = note_pitch(note + op.note_off);
    let vb: u16 = if op.direct {
        0xE000
    } else {
        0
    };
    voice_write(s, i, 0x02, BGM_SAMPLE_SA as u16);
    let s1 = s.stored((b + 0x02) as u32, BGM_SAMPLE_SA as u16);
    voice_write(s1, i, 0x04, BGM_LSA);
    let s2 = s1.stored((b + 0x04) as u32, BGM_LSA);
    voice_write(s2, i, 0x06, BGM_LEA);
    let s3 = s2.stored((b + 0x06) as u32, BGM_LEA);
    voice_write(s3, i, 0x08, v4);
    let s4 = s3.stored((b + 0x08) as u32, v4);
    voice_write(s4, i, 0x0A, op.rr);
    let s5 = s4.stored((b + 0x0A) as u32, op.rr);
    voice_write(s5, i, 0x0C, op.tl);
    let s6 = s5.stored((b + 0x0C) as u32, op.tl);
    voice_write(s6, i, 0x0E, v7);
    let s7 = s6.stored((b + 0x0E) as u32, v7);
    voice_write(s7, i, 0x10, v8);
    let s8 = s7.stored((b + 0x10) as u32, v8);
    voice_write(s8, i, 0x12, 0);
    let s9 = s8.stored((b + 0x12) as u32, 0);
    voice_write(s9, i, 0x14, 0);
    let sa = s9.stored((b + 0x14) as u32, 0);
    voice_write(sa, i, 0x16, vb);
    let sb = sa.stored((b + 0x16) as u32, vb);
    voice_write(sb, i, 0, 0x0821);
    let sc = sb.stored(b, 0x0821);
    assert(s.operator_set(i, note, op) == sc);
    assert forall|k: int| 0 <= k < 32 && k != i implies #[trigger] sc.reg(k, 0) == s.reg(k, 0) by {
        assert(sb.reg(k, 0) == sa.reg(k, 0));
        assert(sa.reg(k, 0) == s9.reg(k, 0));
        assert(s9.reg(k, 0) == s8.reg(k, 0));
        assert(s8.reg(k, 0) == s7.reg(k, 0));
        assert(s7.reg(k, 0) == s6.reg(k, 0));
        assert(s6.reg(k, 0) == s5.reg(k, 0));
        assert(s5.reg(k, 0) == s4.reg(k, 0));
        assert(s4.reg(k, 0) == s3.reg(k, 0));
        assert(s3.reg(k, 0) == s2.reg(k, 0));
        assert(s2.reg(k, 0) == s1.reg(k, 0));
        assert(s1.reg(k, 0) == s.reg(k, 0));
    }
}

proof fn operators_are_set(s: Sound, voice: u32, note: int, n: int)
    requires
        s.wf(),
        voice < 8,
        0 <= n <= 4,
    ensures
        s.operators_set(voice, note, n).wf(),
        forall|j: int|
            0 <= j < n ==> #[trigger] s.operators_set(voice, note, n).reg(voice + 8 * j, 0)
                == 0x0821,
    decreases n,
{
    if n > 0 {
        operators_are_set(s, voice, note, n - 1);
        let t = s.operators_set(voice, note, n - 1);
        let i = (voice + (n - 1) * 8) as u32;
        operator_is_set(t, i, note, Operator::of(n - 1));
        assert forall|j: int| 0 <= j < n implies #[trigger] s.operators_set(voice, note, n).reg(
            voice + 8 * j,
            0,
        ) == 0x0821 by {
            if j < n - 1 {
                assert(t.reg(voice + 8 * j, 0) == 0x0821);
            }
        }
    }
}

/// A note of the native driver sounds on its four voices.
pub proof fn note_sounds_on_four_voices(s: Sound, voice: u32, note: int, j: int)
    requires
        s.wf(),
        voice < 8,
        0 <= j < 4,
    ensures
        s.note_keyed(voice, note).slots[voice + 8 * j].active,
{
    operators_are_set(s, voice, note, 4);
    let d = s.operators_set(voice, note, 4);
    let carrier = (voice + 24) as u32;
    let o = (carrier * 0x20) as u32;
    voice_addresses(carrier, 0);
    let e = d.stored(o, 0x1821);
    word_is_read_back(d.raw, o, 0x1821);
    let i = voice + 8 * j;
    assert(d.reg(i, 0) == 0x0821);
    if i != carrier {
        words_apart(d.raw, o, (i * 0x20) as u32, 0x1821);
    }
    assert(e.reg(i, 0) & 0x800 != 0);
    strobe_sounds_pressed_keys(e, i);
    assert(d.written16(o, 0x1821).slots == e.strobed().slots);
}

// ---- envelopes --------------------------------------------------------------------

/// An envelope stays within its levels; an attack rises until it is full, the
/// other phases never rise, and a release that is over is silent.
pub proof fn envelope_goes_one_way(e: Eg)
    requires
        e.wf(),
    ensures
        0 <= e.advanced().volume <= FULL_VOLUME,
        0 <= e.sounding() <= 1023,
        e.state is Attack ==> e.advanced().volume > e.volume || e.volume == FULL_VOLUME,
        e.state is Attack && e.advanced().volume < FULL_VOLUME ==> e.advanced().state is Attack,
        !(e.state is Attack) ==> e.advanced().volume <= e.volume,
        e.fades_out() ==> e.advanced().volume == 0,
        !(e.state is Attack) ==> !(e.advanced().state is Attack),
        e.state is Release ==> e.advanced().state is Release,
{
    let r = (FULL_VOLUME - e.volume) as i32;
    let k = e.ar_shift;
    super::voice::shift_shrinks(r, 0, k);
}

/// A voice that is off has no gain, and stays as it is.
pub proof fn idle_voice_is_silent(s: Sound, i: int, ram: Seq<u8>)
    requires
        !s.slots[i].active,
    ensures
        s.slot_gain(i) == 0,
        s.slot_output(i, ram) == 0,
        s.eg_advanced(i) == s,
        s.slot_played(i) == s,
{
}

/// The level oscillator attenuates: the more it takes off, the softer the voice, and
/// never louder than without it.
pub proof fn oscillator_never_brightens(s: Sound, t: Sound, i: int)
    requires
        0 <= i < 32,
        s.wf(),
        t.wf(),
        s.slots[i].alfo >= t.slots[i].alfo,
        s == (Sound { slots: s.slots, ..t }),
        s.slots[i] == (Slot { alfo: s.slots[i].alfo, ..t.slots[i] }),
    ensures
        0 <= s.slot_gain(i) <= t.slot_gain(i) <= 4096,
{
    if s.slots[i].active {
        let (a, b) = (s.level(i), t.level(i));
        envelope_goes_one_way(s.slots[i].eg);
        levels_rise(a, b);
        masks_bound();
        let g = total_gain((s.reg(i, 6) & 0xFF) as int) as int;
        total_is_bounded((s.reg(i, 6) & 0xFF) as int);
        let (x, y) = (level_gain(a) as int, level_gain(b) as int);
        assert(0 <= x * g <= y * g <= 4096 * 4096) by (nonlinear_arith)
            requires
                0 <= x <= y <= 4096,
                0 <= g <= 4096,
        ;
    }
}

/// With a depth of 0, the low-frequency oscillator changes neither pitch nor
/// level.
pub proof fn oscillator_can_be_off(s: Slot, lfo: u16, pitch: u16, noise: u8)
    ensures
        (lfo >> 5) & 7 == 0 ==> s.lfo_run(lfo, pitch, noise).step_mod == 0,
        lfo & 7 == 0 ==> s.lfo_run(lfo, pitch, noise).alfo == 0,
{
    no_bits();
    super::voice::octave_bounds(pitch);
}

// ---- mixer ------------------------------------------------------------------------

/// Send level 0 is silent at every pan.
pub proof fn level_zero_is_silent(pan: u16, left: bool)
    ensures
        send_gain(0, pan, left) == 0,
{
    reveal(channel_gain);
    crate::bits::masks_bound();
}

/// A pan and the pan with its highest bit turned are mirror images.
pub proof fn pans_mirror(level: u16, pan: u16, left: bool)
    requires
        pan < 32,
    ensures
        send_gain(level, pan, left) == send_gain(level, pan ^ 16, !left),
{
    no_bits();
    assert((pan ^ 16) & 0xF == pan & 0xF);
}

/// The centre gives both channels the same, and the outermost pans silence one.
pub proof fn pans_reach_the_sides(level: u16)
    requires
        level < 8,
    ensures
        send_gain(level, 0, true) == send_gain(level, 0, false),
        send_gain(level, 0x1F, false) == 0,
        send_gain(level, 0x0F, true) == 0,
{
    reveal(channel_gain);
    no_bits();
}

proof fn no_voice_mixes(s: Sound, ram: Seq<u8>, n: int)
    requires
        forall|i: int| 0 <= i < 32 ==> !(#[trigger] s.slots[i]).active,
        0 <= n <= 32,
    ensures
        s.mix_of(ram, n).left == 0,
        s.mix_of(ram, n).right == 0,
        s.mix_of(ram, n).sound.slots == s.slots,
        s.mix_of(ram, n).sound.raw == s.raw,
        s.mix_of(ram, n).sound.dsp == s.dsp,
    decreases n,
{
    if n > 0 {
        no_voice_mixes(s, ram, n - 1);
        assert(!s.slots[n - 1].active);
    }
}

/// With no voice playing the output is silence.
pub proof fn no_voice_is_silence(s: Sound, ram: Seq<u8>)
    requires
        forall|i: int| 0 <= i < 32 ==> !(#[trigger] s.slots[i]).active,
    ensures
        s.output(ram) == (0i16, 0i16),
        s.mixed(ram).slots == s.slots,
{
    no_voice_mixes(s, ram, 32);
    no_bits();
}

/// The noise generator keeps to its 17 bits, and never runs dry.
pub proof fn noise_never_ends(x: u32)
    requires
        0 < x < 0x2_0000,
    ensures
        0 < noise_step(x) < 0x2_0000,
{
    no_bits();
}

// ---- clocks -----------------------------------------------------------------------

/// Time that is passed in two pieces earns what it earns in one.
pub proof fn clocks_are_sliceable(frac: int, a: int, b: int, rate: int)
    requires
        0 <= frac,
        0 <= a,
        0 <= b,
        0 <= rate,
    ensures
        earned(frac, a, rate) + earned(left_over(frac, a, rate), b, rate) == earned(
            frac,
            a + b,
            rate,
        ),
        left_over(left_over(frac, a, rate), b, rate) == left_over(frac, a + b, rate),
{
    let d = SH2_CLOCK_HZ as int;
    let x = frac + a * rate;
    let y = b * rate;
    assert((a + b) * rate == a * rate + b * rate) by (nonlinear_arith);
    assert(x == d * (x / d) + x % d);
    assert((x % d + y) / d + x / d == (x + y) / d && (x % d + y) % d == (x + y) % d);
}

/// The sound CPU has exactly 256 clocks for each sample: with fractions in that
/// ratio, it earns them while the sample is earned.
pub proof fn cpu_keeps_step_with_samples(sample_frac: int, cycles: int)
    requires
        0 <= sample_frac < SH2_CLOCK_HZ,
        0 <= cycles,
    ensures
        ({
            let frac = 256 * sample_frac;
            let n = earned(sample_frac, cycles, SCSP_SAMPLE_HZ as int);
            256 * n <= earned(frac, cycles, SCSP_CLOCK_HZ as int) < 256 * (n + 1)
        }),
{
    let x = sample_frac + cycles * SCSP_SAMPLE_HZ;
    assert(256 * sample_frac + cycles * SCSP_CLOCK_HZ == 256 * x);
}

/// Keying voices does not move the sample clock.
proof fn keying_keeps_clock(s: Sound, n: int)
    ensures
        s.slots_keyed(n).sample_counter == s.sample_counter,
    decreases n,
{
    if n > 0 {
        keying_keeps_clock(s, n - 1);
    }
}

proof fn writing_keeps_clock(s: Sound, o: u32, v: u16)
    ensures
        s.written16(o, v).sample_counter == s.sample_counter,
{
    let t = s.stored(o, v).dsp_written(o, v);
    let u = Sound {
        counts: super::ctrl::Counts {
            keyon_execs: t.counts.keyon_execs.wrapping_add(1),
            ..t.counts
        },
        ..t
    };
    keying_keeps_clock(u, 32);
}

proof fn operator_keeps_clock(s: Sound, i: u32, note: int, op: Operator)
    ensures
        s.operator_set(i, note, op).sample_counter == s.sample_counter,
{
    reveal(Sound::operator_set);
    assert forall|t: Sound, o: u32, v: u16|
        (#[trigger] t.written16(o, v)).sample_counter == t.sample_counter by {
        writing_keeps_clock(t, o, v);
    }
}

proof fn note_keeps_clock(s: Sound, voice: u32, note: int)
    ensures
        s.note_keyed(voice, note).sample_counter == s.sample_counter,
{
    reveal_with_fuel(Sound::operators_set, 5);
    let (i1, i2, i3) = ((voice + 8) as u32, (voice + 16) as u32, (voice + 24) as u32);
    let a = s.operators_set(voice, note, 1);
    let b = s.operators_set(voice, note, 2);
    let c = s.operators_set(voice, note, 3);
    let d = s.operators_set(voice, note, 4);
    operator_keeps_clock(s, (voice + 0) as u32, note, Operator::of(0));
    operator_keeps_clock(a, i1, note, Operator::of(1));
    operator_keeps_clock(b, i2, note, Operator::of(2));
    operator_keeps_clock(c, i3, note, Operator::of(3));
    writing_keeps_clock(d, ((voice + 24) * 0x20) as u32, 0x1821);
}

proof fn events_keep_clock(q: Sequencer, ram: Seq<u8>, s: Sound, n: nat)
    ensures
        q.events(ram, s, n).1.sample_counter == s.sample_counter,
    decreases n,
{
    if n > 0 {
        note_keeps_clock(s, q.next_voice as u32, q.byte(ram, 1) as int);
        let e = q.event(ram, s);
        if e.more {
            events_keep_clock(e.driver, ram, e.sound, (n - 1) as nat);
        }
    }
}

proof fn mixing_keeps_clock(s: Sound, ram: Seq<u8>, n: int)
    ensures
        s.mix_of(ram, n).sound.sample_counter == s.sample_counter,
    decreases n,
{
    if n > 0 {
        mixing_keeps_clock(s, ram, n - 1);
    }
}

proof fn timers_move_clock(s: Sound)
    ensures
        s.ticked(1).sample_counter == s.sample_counter.wrapping_add(1),
{
    reveal_with_fuel(Sound::timers_after, 2);
}

proof fn sample_moves_clock(c: Chip)
    ensures
        c.sample_made().sound.sample_counter == c.sound.sample_counter.wrapping_add(1),
        c.sample_made().running == c.running,
        c.sample_made().driver is Some == c.driver is Some,
        c.sample_made().sample_acc == c.sample_acc,
{
    timers_move_clock(c.sound);
    let t = Chip { sound: c.sound.ticked(1), ..c };
    if let Some(d) = t.driver {
        if t.running {
            let z = Sequencer { tick_acc: 0, ..d };
            events_keep_clock(z.awake(), t.ram, t.sound, 64);
        }
    }
    let u = t.driven();
    mixing_keeps_clock(u.sound, u.ram, 32);
}

/// The sample clock counts every sample that is made.
pub proof fn sample_clock_counts_samples(c: Chip, n: nat)
    requires
        n <= u32::MAX,
    ensures
        c.samples_made(n).sound.sample_counter as int == (c.sound.sample_counter + n)
            % 0x1_0000_0000_0000_0000,
    decreases n,
{
    if n > 0 {
        sample_clock_counts_samples(c, (n - 1) as nat);
        sample_moves_clock(c.samples_made((n - 1) as nat));
    }
}

/// A batch makes all of its samples: those that an instruction makes are taken from
/// those that are left.
pub proof fn batch_makes_its_samples(c: Chip, left: nat)
    requires
        left <= u32::MAX,
    ensures
        ({
            let (d, rest) = c.caught_up(left);
            rest <= left && (d.sound.sample_counter + rest) % 0x1_0000_0000_0000_0000 == (
            c.sound.sample_counter + left) % 0x1_0000_0000_0000_0000
        }),
    decreases left,
{
    if c.sample_acc >= CYCLES_PER_SAMPLE && left > 0 {
        let e = Chip { sample_acc: (c.sample_acc - CYCLES_PER_SAMPLE) as i64, ..c };
        sample_moves_clock(e);
        batch_makes_its_samples(e.sample_made(), (left - 1) as nat);
    }
}

/// Audio that is not taken stays bounded, and holds whole pairs of samples.
pub proof fn audio_is_bounded(c: Chip)
    requires
        c.out.len() <= MAX_AUDIO_SAMPLES,
        c.out.len() % 2 == 0,
    ensures
        c.sample_made().out.len() <= MAX_AUDIO_SAMPLES,
        c.sample_made().out.len() % 2 == 0,
{
}

} // verus!
