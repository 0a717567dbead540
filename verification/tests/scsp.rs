//! The sound system.

use std::collections::HashSet;

use saturn::scsp::chip::Batch;
use saturn::scsp::ctrl::{
    INT_MIDI, INT_TIMER_A, INT_TIMER_B, MCIEB, MCIPD, MCIRE, SCIEB, SCILV0, SCILV1, SCILV2, SCIPD,
    SCIRE, TIMA, TIMB,
};
use saturn::scsp::hle::{note_to_octfns, SEQ_START};
use saturn::scsp::probes::M68kRegs;
use saturn::scsp::voice::EgState;
use saturn::scsp::{Scsp, ScspCtrl};

/// A sound CPU that knows the few instructions of the programs below.
struct Cpu {
    d: [u32; 8],
    a: [u32; 8],
    pc: u32,
    imask: u8,
    cycles: u64,
}

impl Cpu {
    fn new() -> Cpu {
        Cpu { d: [0; 8], a: [0; 8], pc: 0, imask: 7, cycles: 0 }
    }

    fn reset(&mut self, (ssp, pc): (u32, u32)) {
        self.a[7] = ssp;
        self.pc = pc;
    }

    fn regs(&self) -> M68kRegs {
        M68kRegs {
            pc: self.pc,
            d: self.d,
            a: self.a,
            imask: self.imask,
            supervisor: true,
            cycles: self.cycles,
        }
    }

    fn step(&mut self, s: &mut Scsp, irq: u8) -> u32 {
        if irq > self.imask {
            self.a[7] -= 4;
            s.bus_write32(self.a[7], self.pc);
            self.a[7] -= 2;
            s.bus_write16(self.a[7], 0x2000 | (self.imask as u16) << 8);
            self.imask = irq;
            self.pc = s.bus_read32((24 + irq as u32) * 4).0;
            return 44;
        }
        let (op, wait) = s.bus_read16(self.pc);
        match op {
            0x60FE => {}
            0x46FC => {
                let (sr, _) = s.bus_read16(self.pc + 2);
                self.imask = ((sr >> 8) & 7) as u8;
                self.pc += 4;
            }
            0x4E73 => {
                let (sr, _) = s.bus_read16(self.a[7]);
                self.imask = ((sr >> 8) & 7) as u8;
                self.pc = s.bus_read32(self.a[7] + 2).0;
                self.a[7] += 6;
            }
            _ if op & 0xF100 == 0x7000 => {
                self.d[((op >> 9) & 7) as usize] = op as u8 as i8 as i32 as u32;
                self.pc += 2;
            }
            _ => panic!("unknown instruction {op:04X}"),
        }
        10 + wait
    }
}

/// Runs the sound system together with a sound CPU.
fn run(s: &mut Scsp, cpu: &mut Cpu, cycles: u64) {
    if let Some(mut batch) = s.run(cycles) {
        while batch.budget > 0 {
            let irq = s.before_step(&cpu.regs());
            let pc = cpu.pc;
            let cost = cpu.step(s, irq);
            cpu.cycles += cost as u64;
            s.after_step(&mut batch, pc, cost);
        }
        s.finish(batch);
    }
}

#[test]
fn held_in_reset_until_started() {
    let mut s = Scsp::new();
    let mut cpu = Cpu::new();
    assert!(!s.running);
    run(&mut s, &mut cpu, 10_000);
    assert_eq!(cpu.pc, 0);
}

#[test]
fn start_loads_vectors_and_runs_a_program() {
    let mut s = Scsp::new();
    let mut cpu = Cpu::new();
    s.ram.write32(0, 0x0001_0000);
    s.ram.write32(4, 0x0000_2000);
    s.ram.write16(0x2000, 0x7007);
    s.ram.write16(0x2002, 0x60FE);
    cpu.reset(s.start());
    assert_eq!(cpu.a[7], 0x0001_0000);
    assert_eq!(cpu.pc, 0x2000);
    run(&mut s, &mut cpu, 2_000);
    assert_eq!(cpu.d[0], 7, "68k ran from sound RAM");
}

#[test]
fn run_generates_audio_for_an_active_slot() {
    let mut s = Scsp::new();
    let mut cpu = Cpu::new();
    s.ram.write32(4, 0x2000);
    s.ram.write16(0x2000, 0x60FE);
    keyon_panned(&mut s, 0, 0x2000, 7, 0x00);
    cpu.reset(s.start());
    run(&mut s, &mut cpu, 2_000_000);
    let audio = s.take_audio();
    assert!(!audio.is_empty(), "audio was generated");
    assert!(audio.iter().any(|&x| x != 0), "output is non-silent");
    assert!(s.take_audio().is_empty(), "buffer drained");
}

#[test]
fn hle_enable_then_disable_is_a_noop_on_the_lle_path() {
    let setup = |s: &mut Scsp| {
        s.ram.write32(4, 0x2000);
        s.ram.write16(0x2000, 0x60FE);
        keyon_panned(s, 0, 0x2000, 7, 0x00);
    };
    let mut a = Scsp::new();
    let mut cpu_a = Cpu::new();
    setup(&mut a);
    cpu_a.reset(a.start());
    run(&mut a, &mut cpu_a, 2_000_000);

    let mut b = Scsp::new();
    let mut cpu_b = Cpu::new();
    setup(&mut b);
    b.enable_hle_driver();
    b.disable_hle_driver();
    assert!(!b.is_hle(), "HLE disabled → back to the LLE oracle");
    cpu_b.reset(b.start());
    run(&mut b, &mut cpu_b, 2_000_000);

    assert_eq!(
        a.take_audio(),
        b.take_audio(),
        "enable→disable HLE leaves the LLE output byte-identical"
    );
}

#[test]
fn running_68k_takes_a_timer_interrupt() {
    let mut s = Scsp::new();
    let mut cpu = Cpu::new();
    s.ram.write32(0, 0x0001_0000);
    s.ram.write32(4, 0x0000_2000);
    s.ram.write32(28 * 4, 0x0000_3000);
    s.ram.write16(0x2000, 0x46FC);
    s.ram.write16(0x2002, 0x2000);
    s.ram.write16(0x2004, 0x60FE);
    s.ram.write16(0x3000, 0x7A55);
    s.ram.write16(0x3002, 0x4E73);
    s.ctrl.write16(SCILV2, INT_TIMER_A);
    s.ctrl.write16(SCIEB, INT_TIMER_A);
    s.ctrl.write16(TIMA, 0x00FF);
    cpu.reset(s.start());
    run(&mut s, &mut cpu, 200_000);
    assert_eq!(cpu.d[5], 0x55, "68k serviced the timer interrupt");
}
#[test]
fn registers_round_trip_and_mirror() {
    let mut s = Scsp::new();
    s.ctrl.write16(0x010, 0xBEEF);
    assert_eq!(s.ctrl.read16(0x010), 0xBEEF);
    assert_eq!(s.ctrl.read16(0x010 + 0x1000), 0xBEEF, "1000-byte mirror");
}


#[test]
fn timer_a_overflow_raises_the_68k_interrupt_line() {
    let mut ctrl = ScspCtrl::new();
    ctrl.write16(SCILV2, INT_TIMER_A);
    ctrl.write16(SCIEB, INT_TIMER_A);
    ctrl.write16(TIMA, 0x00FF);
    ctrl.tick_timers(2);
    assert_eq!(ctrl.read16(SCIPD) & INT_TIMER_A, INT_TIMER_A, "pending set");
    assert_eq!(
        ctrl.asserted_level, 4,
        "IRQ line at the SCILV-encoded level"
    );
}

#[test]
fn disabled_timer_interrupt_does_not_assert() {
    let mut ctrl = ScspCtrl::new();
    ctrl.write16(SCILV0, INT_TIMER_A);
    ctrl.write16(TIMA, 0x00FF);
    ctrl.tick_timers(2);
    assert_eq!(ctrl.asserted_level, 0, "masked source does not assert");
}

#[test]
fn scire_clears_pending_and_drops_the_line() {
    let mut ctrl = ScspCtrl::new();
    ctrl.write16(SCILV0, INT_TIMER_A);
    ctrl.write16(SCIEB, INT_TIMER_A);
    ctrl.write16(TIMA, 0x00FF);
    ctrl.tick_timers(2);
    assert_ne!(ctrl.asserted_level, 0);
    ctrl.write16(SCIRE, INT_TIMER_A);
    assert_eq!(ctrl.read16(SCIPD) & INT_TIMER_A, 0, "pending cleared");
    assert_eq!(ctrl.asserted_level, 0, "line dropped");
}

#[test]
fn timer_a_pends_the_main_cpu_sound_interrupt() {
    let mut ctrl = ScspCtrl::new();
    ctrl.write16(MCIEB, INT_TIMER_A);
    ctrl.write16(TIMA, 0x00FF);
    assert!(!ctrl.main_pending);
    ctrl.tick_timers(2);
    assert!(ctrl.main_pending, "MCIPD & MCIEB → main interrupt");
}

#[test]
fn timer_free_runs_at_period_256_not_auto_reload() {
    let mut ctrl = ScspCtrl::new();
    ctrl.write16(SCILV0, INT_TIMER_A);
    ctrl.write16(SCIEB, INT_TIMER_A);
    ctrl.write16(TIMA, 0x00F0);
    ctrl.tick_timers(15);
    assert_eq!(ctrl.read16(SCIPD) & INT_TIMER_A, 0, "not yet at 15 clocks");
    ctrl.tick_timers(1);
    assert_ne!(
        ctrl.read16(SCIPD) & INT_TIMER_A,
        0,
        "first overflow at clock 16"
    );
    ctrl.write16(SCIRE, INT_TIMER_A);
    ctrl.tick_timers(255);
    assert_eq!(
        ctrl.read16(SCIPD) & INT_TIMER_A,
        0,
        "free-run: not yet at 255"
    );
    ctrl.tick_timers(1);
    assert_ne!(
        ctrl.read16(SCIPD) & INT_TIMER_A,
        0,
        "second overflow at period 256"
    );
}

#[test]
fn timer_prescale_is_phase_locked_to_the_global_sample_clock() {
    let mut ctrl = ScspCtrl::new();
    ctrl.write16(SCILV0, INT_TIMER_A);
    ctrl.write16(SCIEB, INT_TIMER_A);
    ctrl.tick_timers(3);
    ctrl.write16(TIMA, 0x02FF);
    ctrl.tick_timers(1);
    assert_eq!(
        ctrl.read16(SCIPD) & INT_TIMER_A,
        0,
        "sample 3 is not a ÷4 edge"
    );
    ctrl.tick_timers(1);
    assert_ne!(
        ctrl.read16(SCIPD) & INT_TIMER_A,
        0,
        "clocks on the global ÷4 edge"
    );
}

fn keyon_slot0(s: &mut Scsp, data0_flags: u16, sa: u32, lsa: u16, lea: u16, octfns: u16) {
    s.ctrl.write16(0x02, sa as u16);
    s.ctrl.write16(0x04, lsa);
    s.ctrl.write16(0x06, lea);
    s.ctrl.write16(0x10, octfns);
    let hi = ((sa >> 16) & 0xF) as u16;
    s.ctrl.write16(0x00, 0x1800 | data0_flags | hi);
}

#[test]
fn key_on_activates_the_slot() {
    let mut s = Scsp::new();
    assert!(!s.slot_active(0));
    keyon_slot0(&mut s, 0, 0x100, 0, 0x100, 0);
    assert!(s.slot_active(0), "KYONEX with KYONB started the slot");
}

#[test]
fn slot_plays_16bit_pcm_at_native_rate() {
    let mut s = Scsp::new();
    s.ram.write16(0x100, 0x1111);
    s.ram.write16(0x102, 0x2222);
    s.ram.write16(0x104, 0x3333);
    keyon_slot0(&mut s, 0, 0x100, 0, 0x100, 0);
    assert_eq!(s.slot_sample(0), 0x1111);
    assert_eq!(s.slot_sample(0), 0x2222);
    assert_eq!(s.slot_sample(0), 0x3333);
}

#[test]
fn slot_plays_8bit_pcm_scaled_to_16() {
    let mut s = Scsp::new();
    s.ram.write8(0x200, 0x40);
    s.ram.write8(0x201, 0xC0);
    keyon_slot0(&mut s, 0x0010, 0x200, 0, 0x100, 0);
    assert_eq!(s.slot_sample(0), 0x4000);
    assert_eq!(s.slot_sample(0), (0xC000u16) as i16);
}

#[test]
fn pitch_octave_doubles_the_playback_rate() {
    let mut s = Scsp::new();
    for n in 0..4u32 {
        s.ram.write16(0x100 + n * 2, (n as u16) * 0x1000);
    }
    keyon_slot0(&mut s, 0, 0x100, 0, 0x100, 1 << 11);
    assert_eq!(s.slot_sample(0), 0x0000);
    assert_eq!(s.slot_sample(0), 0x2000);
}

#[test]
fn lfo_modulates_pitch_and_amplitude() {
    let mut s = Scsp::new();
    keyon_slot0(&mut s, 0, 0x100, 0, 0xFFFF, 0x0300);
    let reg9 = 0x12;
    let lfof_fast = 31u16 << 10;

    s.ctrl.write16(reg9, lfof_fast | (7 << 5));
    let mut mods = Vec::new();
    for _ in 0..32 {
        s.ctrl.run_lfo(0);
        mods.push(s.ctrl.slots[0].step_mod);
    }
    assert!(
        mods.iter().any(|&m| m != 0),
        "PLFO produces a non-zero pitch delta"
    );
    assert!(
        mods.iter().collect::<HashSet<_>>().len() > 1,
        "PLFO modulates the pitch over the LFO phase"
    );

    keyon_slot0(&mut s, 0, 0x100, 0, 0xFFFF, 0x0300);
    s.ctrl.write16(reg9, lfof_fast | 7);
    let mut alfos = Vec::new();
    for _ in 0..32 {
        s.ctrl.run_lfo(0);
        alfos.push(s.ctrl.slots[0].alfo);
    }
    assert!(
        alfos.iter().any(|&a| a > 0),
        "ALFO produces a non-zero attenuation"
    );
    assert!(
        alfos.iter().all(|&a| a >= 0),
        "ALFO attenuation is never negative (it darkens, never brightens)"
    );
    assert!(
        alfos.iter().collect::<HashSet<_>>().len() > 1,
        "ALFO modulates the amplitude over the LFO phase"
    );

    s.ctrl.write16(reg9, 0);
    s.ctrl.run_lfo(0);
    assert_eq!(s.ctrl.slots[0].step_mod, 0, "no PLFO → no pitch delta");
    assert_eq!(s.ctrl.slots[0].alfo, 0, "no ALFO → no attenuation offset");
}

#[test]
fn normal_loop_wraps_at_lea_back_to_lsa() {
    let mut s = Scsp::new();
    s.ram.write16(0x100, 0x0A0A);
    s.ram.write16(0x102, 0x0B0B);
    s.ram.write16(0x104, 0x0C0C);
    keyon_slot0(&mut s, 0x0020, 0x100, 1, 3, 0);
    assert_eq!(s.slot_sample(0), 0x0A0A);
    assert_eq!(s.slot_sample(0), 0x0B0B);
    assert_eq!(s.slot_sample(0), 0x0C0C);
    assert_eq!(s.slot_sample(0), 0x0B0B, "looped back to LSA");
}

#[test]
fn no_loop_stops_at_lea() {
    let mut s = Scsp::new();
    s.ram.write16(0x100, 0x7777);
    keyon_slot0(&mut s, 0, 0x100, 0, 2, 0);
    s.slot_sample(0);
    s.slot_sample(0);
    assert!(!s.slot_active(0), "no-loop slot stops at LEA");
}

#[test]
fn envelope_ramps_up_during_attack() {
    let mut s = Scsp::new();
    s.ctrl.write16(0x08, 20);
    keyon_slot0(&mut s, 0, 0x100, 0, 0x100, 0);
    let early = s.eg_advance(0);
    let mut later = early;
    for _ in 0..100 {
        later = s.eg_advance(0);
    }
    assert!(later > early, "attack envelope rises ({early} → {later})");
}

#[test]
fn total_level_attenuates_the_output() {
    let mut loud = Scsp::new();
    loud.ctrl.write16(0x08, 0x20);
    loud.ctrl.write16(0x0C, 0x0000);
    keyon_slot0(&mut loud, 0, 0x100, 0, 0x100, 0);
    let full = loud.eg_advance(0);

    let mut quiet = Scsp::new();
    quiet.ctrl.write16(0x08, 0x20);
    quiet.ctrl.write16(0x0C, 0x0080);
    keyon_slot0(&mut quiet, 0, 0x100, 0, 0x100, 0);
    let attenuated = quiet.eg_advance(0);

    assert!(full > 0xF00, "TL 0 → near full scale");
    assert!(attenuated < full / 4, "TL 0x80 sharply attenuates");
}

#[test]
fn key_off_enters_release_then_silences() {
    let mut s = Scsp::new();
    s.ctrl.write16(0x0A, 0x001F);
    keyon_slot0(&mut s, 0, 0x100, 0, 0x100, 0);
    assert!(s.slot_active(0));
    s.ctrl.write16(0x00, 0x1000);
    assert!(s.slot_active(0), "key-off enters release, still playing");
    for _ in 0..100_000 {
        if !s.slot_active(0) {
            break;
        }
        s.eg_advance(0);
    }
    assert!(!s.slot_active(0), "release decays to silence → slot off");
}

fn keyon_panned(s: &mut Scsp, idx: usize, value: u16, disdl: u16, dipan: u16) {
    let base = idx as u32 * 0x20;
    let sa = 0x1000 + idx as u32 * 0x40;
    for n in 0..8u32 {
        s.ram.write16(sa + n * 2, value);
    }
    s.ctrl.write16(base + 0x02, sa as u16);
    s.ctrl.write16(base + 0x06, 0x100);
    s.ctrl.write16(base + 0x08, 0x20);
    s.ctrl.write16(base + 0x16, (disdl << 13) | (dipan << 8));
    s.ctrl.write16(base + 0x10, 0);
    s.ctrl.write16(base, 0x1800);
}

#[test]
fn mixer_centers_a_single_slot_on_both_channels() {
    let mut s = Scsp::new();
    keyon_panned(&mut s, 0, 0x2000, 7, 0x00);
    let (l, r) = s.next_sample();
    assert!(l > 0 && r > 0, "centre slot audible on both channels");
    assert_eq!(l, r, "centre pan is symmetric");
}

#[test]
fn mixer_pans_hard_left_and_right() {
    let mut s = Scsp::new();
    keyon_panned(&mut s, 0, 0x2000, 7, 0x1F);
    keyon_panned(&mut s, 1, 0x2000, 7, 0x0F);
    let (l, r) = s.next_sample();
    assert!(l > 0 && r > 0, "both sides driven by one slot each");
    assert_eq!(l, r);
    let mut s2 = Scsp::new();
    keyon_panned(&mut s2, 0, 0x2000, 7, 0x1F);
    let (l2, r2) = s2.next_sample();
    assert!(l2 > 0, "left channel driven");
    assert_eq!(r2, 0, "nothing panned right");
}

#[test]
fn disdl_zero_mutes_the_direct_output() {
    let mut s = Scsp::new();
    keyon_panned(&mut s, 0, 0x2000, 0, 0x00);
    let (l, r) = s.next_sample();
    assert_eq!((l, r), (0, 0), "DISDL 0 sends nothing to the DAC");
}

#[test]
fn silence_when_no_slot_is_active() {
    let mut s = Scsp::new();
    assert_eq!(s.next_sample(), (0, 0));
}


#[test]
fn keyon_is_edge_triggered_no_restart_of_a_playing_slot() {
    let mut s = Scsp::new();
    keyon_panned(&mut s, 0, 0x4000, 7, 0x00);
    assert!(s.ctrl.slots[0].active, "slot 0 keyed on");
    let (_, starts1) = s.ctrl.dbg_keyon_counts();
    assert_eq!(starts1, 1, "exactly one slot start so far");
    s.ctrl.write16(0, 0x1800);
    let (_, starts2) = s.ctrl.dbg_keyon_counts();
    assert_eq!(
        starts2, 1,
        "re-strobe must not restart the already-playing slot"
    );
    s.ctrl.write16(0, 0x1000);
    assert_eq!(
        s.ctrl.slots[0].eg.state,
        EgState::Release,
        "key-off releases the playing slot"
    );
}


// ---- more cases ----

#[test]
fn native_driver_sounds_a_note_on_four_voices() {
    let mut s = Scsp::new();
    for i in 0..0x200u32 {
        s.ram.write16(0x10740 + i * 2, if i % 32 < 16 { 0x4000 } else { 0xC000 });
    }
    s.ram.write8(SEQ_START, 0x40);
    s.ram.write8(SEQ_START + 1, 0x37);
    s.ram.write8(SEQ_START + 2, 0x64);
    s.ram.write8(SEQ_START + 4, 0xFF);
    s.enable_hle_driver();
    assert!(s.run(200_000).is_none(), "no sound CPU to run");
    assert_eq!(s.ctrl.dbg_keyon_counts(), (0, 0), "nothing plays before the release");
    s.take_audio();
    s.start();
    assert!(s.run(200_000).is_none());
    assert_eq!(s.ctrl.dbg_keyon_counts(), (1, 4));
    for i in [0, 8, 16, 24] {
        assert!(s.slot_active(i));
    }
    assert!(!s.slot_active(1));
    assert!(s.take_audio().iter().any(|&x| x != 0));
    assert_eq!(s.ctrl.read16(24 * 0x20 + 0x10), note_to_octfns(0x37));
    assert_eq!(s.ctrl.read16(0x10), note_to_octfns(0x37 - 5));
}

#[test]
fn native_driver_follows_the_sequence() {
    let mut s = Scsp::new();
    let events = [
        0xB0, 7, 0x7F, 0, 0xC3, 9, 0, 0xE0, 0x40, 0, 0x00, 0x30, 0x50, 1, 2, 0x83, 0x05, 0x32, 1, 1, 0,
        0xF0,
    ];
    for (i, b) in events.iter().enumerate() {
        s.ram.write8(SEQ_START + i as u32, *b);
    }
    s.enable_hle_driver();
    s.start();
    // 88 samples a tick, at 649.35 clocks a sample.
    s.run(57_200);
    assert_eq!(s.hle.as_ref().unwrap().program[3], 9);
    assert_eq!(s.hle.as_ref().unwrap().next_voice, 1);
    assert_eq!(s.hle.as_ref().unwrap().delta, 2);
    for _ in 0..3 {
        s.run(57_200);
    }
    assert_eq!(s.hle.as_ref().unwrap().seq_pos, SEQ_START + 16, "the tick ends");
    s.run(57_200);
    assert_eq!(s.hle.as_ref().unwrap().next_voice, 2);
    assert!(s.hle.as_ref().unwrap().stopped, "an unknown event stops the driver");
}

#[test]
fn notes_are_tuned() {
    assert_eq!(note_to_octfns(55), 0);
    assert_eq!(note_to_octfns(67), 1 << 11);
    assert_eq!(note_to_octfns(43), 0xF << 11);
    assert_eq!(note_to_octfns(56), 61);
    assert_eq!(note_to_octfns(54), (0xF << 11) | 909);
    assert_eq!(note_to_octfns(-1000), (8 << 11) | [0, 61, 125, 194, 266, 343, 424, 510, 601, 698, 801, 909][(-1055i32).rem_euclid(12) as usize]);
    assert_eq!(note_to_octfns(1000), (7 << 11) | [0, 61, 125, 194, 266, 343, 424, 510, 601, 698, 801, 909][945 % 12]);
}

#[test]
fn interrupt_sources_have_an_order() {
    let mut ctrl = ScspCtrl::new();
    ctrl.write16(SCILV0, INT_TIMER_A | INT_MIDI);
    ctrl.write16(SCILV1, INT_TIMER_B | INT_MIDI);
    ctrl.write16(SCIEB, INT_TIMER_A | INT_TIMER_B | INT_MIDI);
    ctrl.write16(SCIPD, INT_TIMER_A | INT_TIMER_B | INT_MIDI);
    assert_eq!(ctrl.irq_state(), (1, 0xC8, 0xC8));
    ctrl.write16(SCIRE, INT_TIMER_A);
    assert_eq!(ctrl.asserted_level, 2);
    ctrl.write8(SCIRE + 1, INT_TIMER_B as u8);
    assert_eq!(ctrl.asserted_level, 3);
    ctrl.write16(MCIEB, 0x20);
    ctrl.write16(MCIPD, 0x20);
    assert!(ctrl.main_pending);
    ctrl.write16(MCIRE, 0x20);
    assert!(!ctrl.main_pending);
}

#[test]
fn timers_count_separately() {
    let mut ctrl = ScspCtrl::new();
    ctrl.write16(TIMA, 0x01FE);
    ctrl.write16(TIMB, 0x00FE);
    ctrl.tick_timers(3);
    let (fired, calls, samples) = ctrl.dbg_timer_counts();
    assert_eq!((fired[0], fired[1], fired[2]), (1, 1, 0));
    assert_eq!((calls, samples), (1, 3));
    assert_eq!(ctrl.read16(SCIPD), 0xC0);
    ctrl.tick_timers(0);
    assert_eq!(ctrl.dbg_timer_counts().1, 1);
}

#[test]
fn registers_are_read_by_bytes_and_longs() {
    let mut ctrl = ScspCtrl::new();
    ctrl.write32(0x12, 0x1234_5678);
    assert_eq!(ctrl.read32(0x12), 0x1234_5678);
    assert_eq!(ctrl.read8(0x13), 0x34);
    ctrl.write8(0x13, 0xAB);
    assert_eq!(ctrl.read16(0x12), 0x12AB);
}

#[test]
fn effect_registers_reach_the_processor() {
    let mut ctrl = ScspCtrl::new();
    ctrl.write16(0x702, 0x7FF8);
    ctrl.write16(0x782, 0x1234);
    assert!(!ctrl.dsp.running());
    ctrl.write16(0x800 + 2 * 6, 0x1300);
    ctrl.write16(0x800 + 2 * 10, 0x1100);
    assert_eq!(ctrl.dsp.coef[1], 0x7FF8);
    assert_eq!(ctrl.dsp.madrs[1], 0x1234);
    assert!(ctrl.dsp.running());
    assert_eq!(ctrl.dsp.last_step, 3);
    assert_eq!(ctrl.dsp_ewt_targets(), vec![1, 3]);
    assert!(ctrl.dsp_state().0);
}

#[test]
fn reverse_and_alternating_loops_turn() {
    for (mode, expected) in [(2u16, [0, 1, 3, 2, 1, 3]), (3, [0, 1, 2, 3, 2, 1])] {
        let mut s = Scsp::new();
        for n in 0..8u32 {
            s.ram.write16(0x100 + n * 2, n as u16 * 0x100);
        }
        keyon_slot0(&mut s, mode << 5, 0x100, if mode == 2 { 2 } else { 1 }, 4, 0);
        let lsa = if mode == 2 { 2 } else { 1 };
        let heard: Vec<i16> = (0..6).map(|_| s.slot_sample(0) / 0x100).collect();
        assert_eq!(heard[..2], expected[..2], "mode {mode}, loop from {lsa}");
        assert!(s.ctrl.slots[0].backwards || mode == 3);
        assert!(s.slot_active(0));
    }
}

#[test]
fn slot_debug_shows_registers_and_phase() {
    let mut s = Scsp::new();
    s.ctrl.write16(0x0C, 0x55);
    s.ctrl.write16(0x14, 0x0D);
    s.ctrl.write16(0x16, 0xA5F3);
    keyon_slot0(&mut s, 0x0050, 0x2_3456, 7, 9, (0xE << 11) | 0x155);
    let d = s.slot_debug(0);
    assert!(d.active);
    assert_eq!((d.sa, d.lsa, d.lea), (0x2_3456, 7, 9));
    assert_eq!((d.pcm8, d.lpctl, d.oct, d.fns), (true, 2, -2, 0x155));
    assert_eq!((d.eg_state, d.eg_volume), ("ATK", 0x17F));
    assert_eq!((d.disdl, d.dipan, d.tl), (5, 5, 0x55));
    assert_eq!((d.imxl, d.isel, d.efsdl, d.efpan), (5, 1, 7, 0x13));
    assert_eq!((d.step, d.cur), (1024 + 0x155, 0));
}

#[test]
fn gains_have_exact_values() {
    let mut s = Scsp::new();
    s.ctrl.write16(0x08, 0x20);
    s.ctrl.write16(0x0C, 0x10);
    keyon_slot0(&mut s, 0, 0x100, 0, 0x100, 0);
    // 6 dB below the full level.
    assert_eq!(s.eg_advance(0), 2052);
    let mut c = Scsp::new();
    keyon_panned(&mut c, 0, 0x2000, 7, 0x00);
    assert_eq!(c.next_sample(), (0x2000, 0x2000));
    let mut h = Scsp::new();
    keyon_panned(&mut h, 0, 0x2000, 6, 0x02);
    assert_eq!(h.next_sample(), (2057, 4105));
}

#[test]
fn decays_follow_their_rates() {
    let mut s = Scsp::new();
    // The fastest attack, first decay at rate 31 down to level 16/32, no second.
    s.ctrl.write16(0x08, 0x1F | (0x1F << 6));
    s.ctrl.write16(0x0A, 0x0F << 5);
    keyon_slot0(&mut s, 0, 0x100, 0, 0x100, 0);
    let mut n = 0;
    while s.ctrl.slots[0].eg.state == EgState::Attack {
        s.eg_advance(0);
        n += 1;
    }
    assert_eq!(n, 60);
    s.eg_advance(0);
    assert_eq!(s.ctrl.slots[0].eg.volume, 0x3FF_0000 - 422_293);
    while s.ctrl.slots[0].eg.state == EgState::Decay1 {
        s.eg_advance(0);
    }
    assert_eq!(s.ctrl.slots[0].eg.state, EgState::Decay2);
    let held = s.ctrl.slots[0].eg.volume;
    assert!(held >> 21 <= 16);
    s.eg_advance(0);
    assert_eq!(s.ctrl.slots[0].eg.volume, held);
}

#[test]
fn sound_cpu_bus_has_waits() {
    let mut s = Scsp::new();
    assert_eq!(s.bus_write32(0x1234, 0xDEAD_BEEF), 4);
    assert_eq!(s.bus_read16(0x1236), (0xBEEF, 2));
    assert_eq!(s.bus_read8(0x8_1234), (0xDE, 2), "sound RAM mirrors");
    assert_eq!(s.bus_write16(0x10_0012, 0x4321), 2);
    assert_eq!(s.bus_read32(0x10_0010), (0x4321, 4));
    assert_eq!(s.bus_write8(0x10_0013, 0x99), 2);
    assert_eq!(s.bus_read8(0x10_0013), (0x99, 2));
    assert_eq!(s.bus_read16(0x10_1000), (0, 0), "nothing answers");
    assert_eq!(s.bus_write8(0x20_0000, 1), 0);
}

#[test]
fn batches_carry_fractions_and_overrun() {
    let mut s = Scsp::new();
    s.start();
    assert_eq!(s.run(1000), Some(Batch { budget: 394, samples_left: 1 }));
    let mut b = Batch { budget: 394, samples_left: 1 };
    s.after_step(&mut b, 0, 400);
    assert_eq!(b, Batch { budget: -6, samples_left: 0 });
    s.finish(b);
    assert_eq!(s.sample_acc, 144);
    assert_eq!(s.ctrl.sample_counter, 1);
    assert_eq!(s.run(1000), Some(Batch { budget: 388, samples_left: 2 }));
}

#[test]
fn nothing_runs_while_the_sound_cpu_is_held() {
    let mut s = Scsp::new();
    s.ctrl.write16(TIMA, 0xFF);
    assert_eq!(s.run(28_636_360), None);
    assert_eq!(s.ctrl.sample_counter, 0);
    assert_eq!(s.sample_acc, 0);
    assert!(s.take_audio().is_empty());
    assert_eq!(s.ctrl.irq_state(), (0, 0, 0), "the timer stands still");
    s.start();
    let b = s.run(28_636_360).unwrap();
    assert_eq!(b, Batch { budget: 11_289_600, samples_left: 44_100 });
    s.finish(Batch { budget: 0, ..b });
    assert_eq!(s.ctrl.sample_counter, 44_100);
    s.clear_output_buffer();
    assert!(s.take_audio().is_empty());
    s.stop();
    assert!(!s.running);
}

#[test]
fn debugger_records_the_sound_cpu() {
    let mut s = Scsp::new();
    let mut r = Cpu::new().regs();
    s.enable_68k_trace();
    s.enable_68k_footprint();
    s.enable_enq_log(0x4B9A);
    s.enable_68k_itrace();
    s.enable_pcstream();
    s.enable_wwatch68(0x10);
    s.enable_scope(0x40F2, vec![("w".to_string(), 0x10, 2), ("sum".to_string(), 0, 0)], 1);
    s.set_bp68(Some((0x40F2, Some((9, 5)))));
    s.ram.write16(0x10, 0x0102);
    for (pc, a1) in [(0x40F2, 4), (0x1000, 0), (0x1000, 0), (0x40F2, 5), (0x4B9A, 0), (0x1002, 0)] {
        r.pc = pc;
        r.a[1] = a1;
        r.d[4] += 1;
        s.before_step(&r);
        r.cycles += 10;
    }
    assert_eq!(s.take_68k_trace(), vec![0x40F2, 0x1000, 0x40F2, 0x4B9A, 0x1002]);
    assert!(s.take_68k_trace().is_empty(), "it was drained");
    assert_eq!(s.take_68k_footprint(), vec![0x1000, 0x1002, 0x40F2, 0x4B9A]);
    assert_eq!(s.take_enq_log(), vec![[0, 0, 0, 0, 0]]);
    assert_eq!(s.take_68k_seq_ticks(), 2);
    assert_eq!(s.take_68k_trigger_timing(), (2, 0, 0));
    let trace = s.take_68k_itrace();
    assert_eq!(trace.len(), 5, "it ends at the command");
    assert_eq!(trace[4], (0x4B9A, 40, 5, 0));
    assert_eq!(s.take_pcstream().len(), 6);
    assert_eq!(s.take_scope().unwrap().rows, vec![vec![0, 0x0102, 3]]);
    let hit = s.take_bp68_hit().unwrap();
    assert_eq!((hit.pc, hit.a[1], hit.d[4]), (0x40F2, 5, 4));
    assert!(s.take_bp68_hit().is_none());
    let mut b = Batch { budget: 10, samples_left: 0 };
    s.after_step(&mut b, 0x77, 0);
    assert_eq!(b.budget, 9, "an instruction takes a clock at least");
    assert_eq!(s.take_wwatch68(), vec![(0x77, 0, 1)]);
    assert!(s.take_wwatch68().is_empty());
}

#[test]
fn effects_are_sent_and_returned() {
    let mut s = Scsp::new();
    s.ctrl.write16(0x700, 0x7FF8);
    // Two steps: input mix 0 times the coefficient, then out to effect 0.
    s.ctrl.write16(0x802, 0x8000 | 0x2000 | (0x20 << 6));
    s.ctrl.write16(0x804, 0x32);
    s.ctrl.write16(0x80C, 0x1032);
    keyon_panned(&mut s, 0, 0x2000, 0, 0x00);
    s.ctrl.write16(0x14, 0x0004);
    s.ctrl.write16(0x16, 0x00E0);
    assert_eq!(s.next_sample(), (0, 0), "the effect comes a sample later");
    let (l, r) = s.next_sample();
    assert!(l != 0 && l == r);
    assert_eq!(l, 0x1FFE);
}

#[test]
fn noise_source_keeps_its_width() {
    let mut s = Scsp::new();
    for _ in 0..1000 {
        s.next_sample();
        assert!(s.ctrl.lfsr > 0 && s.ctrl.lfsr < 0x2_0000);
    }
}

#[test]
fn amplitude_oscillator_darkens() {
    let gain = |alfo: i32| {
        let mut s = Scsp::new();
        s.ctrl.write16(0x08, 0x20);
        keyon_slot0(&mut s, 0, 0x100, 0, 0x100, 0);
        s.ctrl.slots[0].alfo = alfo;
        s.eg_advance(0)
    };
    assert_eq!(gain(0), 4096);
    let mut last = gain(0);
    for alfo in 1..1024 {
        let g = gain(alfo);
        assert!((0..=last).contains(&g));
        last = g;
    }
    assert!(last < 8, "the deepest swing is near silence");
}
