//! The self-diagnostics, on a host with just the CPUs and chips that they need.

use std::collections::HashMap;

use saturn::bus::timing::AccessKind;
use saturn::bus::SaturnBus;
use saturn::diagnostics::assembler::{
    add, add_imm, and_, asm_bra, assemble, bra_self, bt, cmp_eq, mac_l, mov_imm, movl_load,
    movl_store, movw_load, movw_store, mul_l, or_, shll, shll16, shll8, shlr, sts_macl, sub, xor_,
    CLRMAC, CODE_BASE, NOP, STACK,
};
use saturn::diagnostics::programs::{build_low_scratch_addr, sentinel_r0};
use saturn::diagnostics::{
    peak_of, read_low, report, run_all, run_system, verdict, Boot, Check, DiagOutcome, Finished,
    FrameSeen, Span, CORNER_DOT, INSIDE_DOT, LOW_SCRATCH, RUN_CYCLES, SENTINEL,
};
use saturn::disc::Disc;
use saturn::savestate::Header;
use saturn::scsp::probes::M68kRegs;

const DATA: AccessKind = AccessKind::Data;

/// The instructions that the programs use.
#[derive(Clone, Copy, Debug, PartialEq)]
enum Op {
    MovImm { rn: usize, imm: u32 },
    AddImm { rn: usize, imm: u32 },
    Add { rn: usize, rm: usize },
    Sub { rn: usize, rm: usize },
    MulL { rn: usize, rm: usize },
    MacL { rn: usize, rm: usize },
    CmpEq { rn: usize, rm: usize },
    MovLS { rn: usize, rm: usize },
    MovLL { rn: usize, rm: usize },
    MovWS { rn: usize, rm: usize },
    MovWL { rn: usize, rm: usize },
    And { rn: usize, rm: usize },
    Or { rn: usize, rm: usize },
    Xor { rn: usize, rm: usize },
    StsMacl { rn: usize },
    Shll { rn: usize },
    Shlr { rn: usize },
    Shll8 { rn: usize },
    Shll16 { rn: usize },
    Bt { disp: i32 },
    Bra { disp: i32 },
    Nop,
    Clrmac,
    Illegal,
}

fn decode(w: u16) -> Op {
    let rn = (w >> 8 & 15) as usize;
    let rm = (w >> 4 & 15) as usize;
    let imm = w as u8 as i8 as i32 as u32;
    match (w >> 12, w & 15) {
        (0xE, _) => Op::MovImm { rn, imm },
        (0x7, _) => Op::AddImm { rn, imm },
        (0xA, _) => Op::Bra { disp: ((w << 4) as i16 >> 4) as i32 },
        (0x8, _) if rn == 9 => Op::Bt { disp: imm as i32 },
        (0x3, 0xC) => Op::Add { rn, rm },
        (0x3, 0x8) => Op::Sub { rn, rm },
        (0x3, 0x0) => Op::CmpEq { rn, rm },
        (0x0, 0x7) => Op::MulL { rn, rm },
        (0x0, 0xF) => Op::MacL { rn, rm },
        (0x0, 0xA) if rm == 1 => Op::StsMacl { rn },
        (0x0, 0x9) if w == 9 => Op::Nop,
        (0x0, 0x8) if w == 0x28 => Op::Clrmac,
        (0x2, 0x2) => Op::MovLS { rn, rm },
        (0x2, 0x1) => Op::MovWS { rn, rm },
        (0x2, 0x9) => Op::And { rn, rm },
        (0x2, 0xA) => Op::Xor { rn, rm },
        (0x2, 0xB) => Op::Or { rn, rm },
        (0x6, 0x2) => Op::MovLL { rn, rm },
        (0x6, 0x1) => Op::MovWL { rn, rm },
        (0x4, _) => match w & 0xFF {
            0x00 => Op::Shll { rn },
            0x01 => Op::Shlr { rn },
            0x18 => Op::Shll8 { rn },
            0x28 => Op::Shll16 { rn },
            _ => Op::Illegal,
        },
        _ => Op::Illegal,
    }
}

/// A main CPU with its divider, timer, DMA controller and cache.
struct Sh2 {
    r: [u32; 16],
    pc: u32,
    macl: u32,
    t: bool,
    cycles: u64,
    chip: HashMap<u32, u32>,
    cache: Option<HashMap<u32, u32>>,
}

impl Sh2 {
    fn reset(bus: &mut SaturnBus) -> Sh2 {
        let mut r = [0; 16];
        r[15] = bus.read32(4, DATA, 0, 0).0;
        let pc = bus.read32(0, DATA, 0, 0).0;
        Sh2 { r, pc, macl: 0, t: false, cycles: 0, chip: HashMap::new(), cache: None }
    }

    fn load(&mut self, bus: &mut SaturnBus, a: u32) -> u32 {
        if a >= 0xFFFF_FE00 {
            return if a == 0xFFFF_FE12 {
                (self.cycles / 8) as u32
            } else {
                *self.chip.get(&a).unwrap_or(&0)
            };
        }
        let phys = a & 0x07FF_FFFF;
        match (a >> 29, &mut self.cache) {
            (2, Some(lines)) => lines.remove(&phys).unwrap_or(0),
            (0, Some(lines)) => {
                *lines.entry(phys).or_insert_with(|| bus.read32(phys, DATA, 0, 0).0)
            }
            _ => bus.read32(phys, DATA, 0, 0).0,
        }
    }

    fn store(&mut self, bus: &mut SaturnBus, a: u32, v: u32) {
        if a < 0xFFFF_FE00 {
            let phys = a & 0x07FF_FFFF;
            if let (0, Some(lines)) = (a >> 29, &mut self.cache) {
                if let Some(line) = lines.get_mut(&phys) {
                    *line = v;
                }
            }
            bus.write32(phys, v, DATA, 0);
            return;
        }
        self.chip.insert(a, v);
        match a {
            0xFFFF_FE92 if v & 1 != 0 => self.cache = Some(HashMap::new()),
            0xFFFF_FF04 => {
                self.chip.insert(a, v / self.chip[&0xFFFF_FF00]);
            }
            0xFFFF_FFB0 if v & 1 != 0 && self.chip[&0xFFFF_FF8C] & 1 != 0 => {
                let word = bus.read32(self.chip[&0xFFFF_FF80], AccessKind::Dma, 0, 0).0;
                bus.write32(self.chip[&0xFFFF_FF84], word, AccessKind::Dma, 0);
            }
            _ => {}
        }
    }

    fn step(&mut self, bus: &mut SaturnBus) {
        let op = decode(bus.read16(self.pc, AccessKind::Fetch, 0, 0).0);
        self.cycles += 1;
        let pc = self.pc;
        self.pc += 2;
        match op {
            Op::MovImm { rn, imm } => self.r[rn] = imm,
            Op::AddImm { rn, imm } => self.r[rn] = self.r[rn].wrapping_add(imm),
            Op::Add { rn, rm } => self.r[rn] = self.r[rn].wrapping_add(self.r[rm]),
            Op::Sub { rn, rm } => self.r[rn] = self.r[rn].wrapping_sub(self.r[rm]),
            Op::MulL { rn, rm } => self.macl = self.r[rn].wrapping_mul(self.r[rm]),
            Op::MacL { rn, rm } => {
                let (x, y) = (self.load(bus, self.r[rn]), self.load(bus, self.r[rm]));
                self.r[rn] += 4;
                self.r[rm] += 4;
                self.macl = self.macl.wrapping_add(x.wrapping_mul(y));
            }
            Op::CmpEq { rn, rm } => self.t = self.r[rn] == self.r[rm],
            Op::MovLS { rn, rm } | Op::MovWS { rn, rm } => self.store(bus, self.r[rn], self.r[rm]),
            Op::MovLL { rn, rm } | Op::MovWL { rn, rm } => self.r[rn] = self.load(bus, self.r[rm]),
            Op::And { rn, rm } => self.r[rn] &= self.r[rm],
            Op::Or { rn, rm } => self.r[rn] |= self.r[rm],
            Op::Xor { rn, rm } => self.r[rn] ^= self.r[rm],
            Op::StsMacl { rn } => self.r[rn] = self.macl,
            Op::Shll { rn } => self.r[rn] <<= 1,
            Op::Shlr { rn } => self.r[rn] >>= 1,
            Op::Shll8 { rn } => self.r[rn] <<= 8,
            Op::Shll16 { rn } => self.r[rn] <<= 16,
            Op::Bt { disp } => {
                if self.t {
                    self.pc = pc.wrapping_add(4).wrapping_add((disp * 2) as u32);
                }
            }
            Op::Bra { disp } => {
                self.step(bus);
                self.pc = pc.wrapping_add(4).wrapping_add((disp * 2) as u32);
            }
            Op::Nop => {}
            Op::Clrmac => self.macl = 0,
            Op::Illegal => panic!("illegal instruction at {pc:08X}"),
        }
    }
}

/// Copies what the SCU has to copy.
fn scu_dma(bus: &mut SaturnBus) {
    while let Some(q) = bus.scu.take_pending_dma() {
        for k in 0..q.bytes {
            let b = bus.read8((q.src + k) & 0x07FF_FFFF, AccessKind::Dma, 0, 0).0;
            bus.write8((q.dst + k) & 0x07FF_FFFF, b, AccessKind::Dma, 0);
        }
        bus.scu.finish_dma(q.channel, q.src + q.bytes, q.dst + q.bytes);
    }
}

/// Runs a program of the DSP: loads of RA0, transfers from the bus, and the end.
fn scu_dsp(bus: &mut SaturnBus) {
    if !bus.scu.take_dsp_run() {
        return;
    }
    let (mut pc, mut ra0) = (bus.scu.dsp.regs.pc as usize, 0);
    loop {
        let w = bus.scu.dsp.program[pc];
        pc += 1;
        match w >> 28 {
            0x8 | 0x9 => ra0 = w & 0x01FF_FFFF,
            0xC => {
                for k in 0..(w & 0xFF) {
                    let v = bus.read32((ra0 + k) << 2, AccessKind::Dma, 0, 0).0;
                    bus.scu.dsp.data_ram[0][k as usize] = v;
                }
            }
            0xF => {
                bus.scu.dsp.regs.flags.running = false;
                return;
            }
            _ => panic!("unknown DSP instruction {w:08X}"),
        }
    }
}

fn run_cycles(cpu: &mut Sh2, bus: &mut SaturnBus, n: u64) {
    for _ in 0..n {
        cpu.step(bus);
        scu_dma(bus);
        scu_dsp(bus);
    }
}

/// Runs the sound system with a sound CPU that can move a constant, and spin.
fn run_sound(bus: &mut SaturnBus, pc: &mut u32, cycles: u64) {
    let s = &mut bus.scsp;
    if let Some(mut batch) = s.run(cycles) {
        while batch.budget > 0 {
            let at = *pc;
            s.before_step(&M68kRegs {
                pc: at,
                d: [0; 8],
                a: [0; 8],
                imask: 7,
                supervisor: true,
                cycles: 0,
            });
            match s.bus_read16(at).0 {
                0x60FE => {}
                0x21FC => {
                    let v = s.bus_read32(at + 2).0;
                    let to = s.bus_read16(at + 6).0 as u32;
                    s.bus_write32(to, v);
                    *pc += 8;
                }
                op => panic!("unknown instruction {op:04X}"),
            }
            s.after_step(&mut batch, at, 10);
        }
        s.finish(batch);
    }
}

/// The memory of a machine, as a save state.
fn saved(bus: &mut SaturnBus) -> Vec<u8> {
    let mut ram = Vec::new();
    for a in (0x0020_0000u32..0x0020_1000).step_by(4) {
        ram.extend(bus.read32(a, DATA, 0, 0).0.to_be_bytes());
    }
    bus.save_state(&ram)
}

fn loaded(bus: &mut SaturnBus, bytes: &[u8]) -> Result<(), String> {
    let (h, at) = Header::read(bytes).map_err(|e| e.message())?;
    let mut m = SaturnBus::new(vec![0xFF]);
    for (k, b) in bytes[at..].iter().enumerate() {
        m.write8(0x0020_0000 + k as u32, *b, DATA, 0);
    }
    bus.load_state(&h, Ok(m)).map_err(|e| e.message())
}

/// Does a check.
fn run(check: Check) -> Finished {
    let mut bus = check.boot();
    let mut cpu = Sh2::reset(&mut bus);
    run_cycles(&mut cpu, &mut bus, check.lead());
    check.poke(&mut bus);
    let mut f = Finished::new(bus);
    let graphics: HashMap<u32, u16> =
        check.writes().iter().map(|p| (p.addr, p.val as u16)).collect();
    match check.span() {
        Span::Cycles(n) if check == Check::SavestateRoundtrip => {
            let snap = saved(&mut f.bus);
            let mut other = check.boot();
            let mut cpu2 = Sh2::reset(&mut other);
            f.snapshots = loaded(&mut other, &snap).map(|()| {
                run_cycles(&mut cpu, &mut f.bus, n / 100);
                run_cycles(&mut cpu2, &mut other, n / 100);
                (saved(&mut f.bus), saved(&mut other))
            });
        }
        Span::Cycles(n) => run_cycles(&mut cpu, &mut f.bus, n),
        Span::Frames(n) => {
            let mut pc = f.bus.scsp.ram.read32(4);
            for _ in 0..n {
                run_sound(&mut f.bus, &mut pc, 476_000);
                f.audio.extend(f.bus.scsp.take_audio());
            }
        }
    }
    if check == Check::Vdp2BackScreen && graphics[&0x05F8_0000] & 0x8000 != 0 {
        let table = graphics[&0x05F8_00AE] as u32 * 2;
        let color = check.vram().iter().find(|w| w.0 == table).unwrap().1;
        let full = |shift: u16| ((color >> shift & 31) as u32 * 255 / 31) as u8;
        (f.width, f.height) = (320, 224);
        for _ in 0..320 * 224 {
            f.frame.extend([full(0), full(5), full(10), 0xFF]);
        }
    }
    if check == Check::Vdp1Polygon && graphics[&0x05D0_0004] & 3 == 1 {
        let at = |o: u32| graphics[&(0x05C0_0000 + o)] as u32;
        let dot = |addr: u32| {
            let n = (addr - 0x05C8_0000) / 2;
            let (x, y) = (n % 512, n / 512);
            if (at(0x0C)..=at(0x14)).contains(&x) && (at(0x0E)..=at(0x16)).contains(&y) {
                at(6) as u16
            } else {
                0
            }
        };
        f.inside = dot(INSIDE_DOT);
        f.corner = dot(CORNER_DOT);
    }
    f
}

fn run_program(code: &[u16]) -> SaturnBus {
    let mut bus = SaturnBus::new(assemble(code));
    let mut cpu = Sh2::reset(&mut bus);
    run_cycles(&mut cpu, &mut bus, RUN_CYCLES);
    bus
}

#[test]
fn all_diagnostics_pass() {
    let all = run_all(run);
    assert_eq!(all.len(), 22);
    for o in all {
        assert!(
            o.passed,
            "diagnostic {}/{} failed: {}",
            o.category, o.name, o.detail
        );
    }
}

#[test]
fn a_wrong_result_is_detected_as_failure() {
    let mut code = vec![mov_imm(0, 0), add_imm(0, 10), add_imm(0, 32)];
    code.extend(build_low_scratch_addr());
    code.extend([movl_store(1, 0), bra_self(), NOP]);
    let (passed, detail) = verdict(read_low(&run_program(&code), LOW_SCRATCH), 99);
    assert!(
        !passed,
        "a wrong expectation must be reported as failure (detail: {detail})"
    );
    assert!(
        detail.contains("0000002A") && detail.contains("00000063"),
        "detail should show got 0x2A vs want 0x63: {detail}"
    );
    let outcomes = [DiagOutcome { name: "neg_control", category: "test", passed, detail }];
    assert!(
        !outcomes.iter().all(|o| o.passed),
        "the all-pass predicate must reject a failing outcome"
    );
}

#[test]
fn sentinel_r0_builds_the_sentinel() {
    let mut code = sentinel_r0().to_vec();
    code.extend(build_low_scratch_addr());
    code.extend([movl_store(1, 0), bra_self(), NOP]);
    assert_eq!(read_low(&run_program(&code), LOW_SCRATCH), SENTINEL);
}

#[test]
fn encoder_opcodes_decode_as_expected() {
    assert!(matches!(decode(mul_l(4, 5)), Op::MulL { rn: 4, rm: 5 }));
    assert!(matches!(decode(sts_macl(0)), Op::StsMacl { rn: 0 }));
    assert!(matches!(decode(movl_store(1, 0)), Op::MovLS { rn: 1, rm: 0 }));
    assert!(matches!(decode(movl_load(0, 1)), Op::MovLL { rn: 0, rm: 1 }));
    assert!(matches!(decode(shll16(1)), Op::Shll16 { rn: 1 }));
    assert!(matches!(decode(shll8(2)), Op::Shll8 { rn: 2 }));
    assert!(matches!(decode(add(1, 2)), Op::Add { rn: 1, rm: 2 }));
    assert!(matches!(decode(sub(0, 5)), Op::Sub { rn: 0, rm: 5 }));
    assert!(matches!(decode(asm_bra(1)), Op::Bra { disp: 1 }));
    assert!(matches!(decode(movw_load(3, 1)), Op::MovWL { rn: 3, rm: 1 }));
    assert!(matches!(decode(movw_store(1, 3)), Op::MovWS { rn: 1, rm: 3 }));
    assert!(matches!(decode(and_(0, 2)), Op::And { rn: 0, rm: 2 }));
    assert!(matches!(decode(or_(0, 2)), Op::Or { rn: 0, rm: 2 }));
    assert!(matches!(decode(xor_(0, 2)), Op::Xor { rn: 0, rm: 2 }));
    assert!(matches!(decode(shll(0)), Op::Shll { rn: 0 }));
    assert!(matches!(decode(shlr(0)), Op::Shlr { rn: 0 }));
    assert!(matches!(decode(mac_l(2, 3)), Op::MacL { rn: 2, rm: 3 }));
    assert!(matches!(decode(cmp_eq(2, 1)), Op::CmpEq { rn: 2, rm: 1 }));
    assert!(matches!(decode(bt(0)), Op::Bt { disp: 0 }));
    assert!(matches!(decode(CLRMAC), Op::Clrmac));
    for c in Check::registry() {
        for w in c.program() {
            assert_ne!(decode(w), Op::Illegal, "{}", c.name());
        }
    }
}

#[test]
fn opcodes_have_their_words() {
    assert_eq!(mov_imm(3, -1), 0xE3FF);
    assert_eq!(add_imm(15, 0x2A), 0x7F2A);
    assert_eq!(bra_self(), 0xAFFE);
    assert_eq!(decode(bra_self()), Op::Bra { disp: -2 });
}

#[test]
fn program_starts_behind_the_vectors() {
    let rom = assemble(&[0x1234, NOP]);
    assert_eq!(rom.len(), CODE_BASE as usize + 4);
    assert_eq!(&rom[0..4], &CODE_BASE.to_be_bytes());
    assert_eq!(&rom[4..8], &STACK.to_be_bytes());
    assert_eq!(&rom[0x20..], &[0x12, 0x34, 0x00, 0x09]);
}

#[test]
fn tone_is_a_sine() {
    let bus = Check::ScspTone.boot();
    for i in 0..64u32 {
        let phase = i as f64 / 64.0 * std::f64::consts::TAU;
        let s = (phase.sin() * 0x4000 as f64).round() as i16;
        assert_eq!(bus.scsp.ram.read16(0x4000 + i * 2), s as u16);
    }
    assert_eq!(peak_of(&vec![3, -32768, 7]), 32768);
}

#[test]
fn details_tell_what_was_found() {
    let f = || Finished::new(SaturnBus::with_blank_bios());
    let o = Check::CpuAddImm.judge(&f());
    assert_eq!((o.name, o.category, o.passed), ("cpu_add_imm", "cpu", false));
    assert_eq!(o.detail, "got 0x00000000, want 0x0000002A");
    assert_eq!(Check::TimerFrcAdvances.judge(&f()).detail, "advanced 0 -> 0");
    assert_eq!(Check::ScspTone.judge(&f()).detail, "peak 0, want >= 4096");
    assert_eq!(
        Check::ScuDspExec.judge(&f()).detail,
        "data_ram[0][0]=0x00000000, want 0x2A2A2A2A"
    );
    assert_eq!(
        Check::Vdp1Polygon.judge(&f()).detail,
        "interior=0x0000 (want !=0), corner=0x0000 (want 0)"
    );
    let mut frame = f();
    frame.frame = vec![1, 2, 3, 0xFF];
    (frame.width, frame.height) = (1, 1);
    assert_eq!(
        Check::Vdp2BackScreen.judge(&frame).detail,
        "centre pixel [01, 02, 03, FF], want [00, FF, 00, FF]"
    );
    let mut snaps = f();
    snaps.snapshots = Ok((vec![1, 2], vec![1, 3]));
    let o = Check::SavestateRoundtrip.judge(&snaps);
    assert!(!o.passed);
    assert_eq!(o.detail, "post-run snapshots DIVERGED (2 vs 2 bytes)");
    snaps.snapshots = Err(String::from("no"));
    assert_eq!(
        Check::SavestateRoundtrip.judge(&snaps).detail,
        "load_state rejected the snapshot: no"
    );
    assert_eq!(
        Check::CachePurgeCoherency.judge(&f()).detail,
        "stale-hit 0x00000000 (want 0x2A2A2A2A), post-purge 0x00000000 (want 0x00000055)"
    );
}

fn frame(pc: u32, lit: usize) -> FrameSeen {
    let mut picture = vec![0u8; 16 * 16 * 4];
    for k in 0..lit {
        picture[k * 4 + 1] = 1;
    }
    FrameSeen { pc, picture, width: 16, height: 16 }
}

#[test]
fn boot_without_a_disc_is_judged_by_its_picture() {
    let mut n = 0;
    let r = run_system(None, |i| {
        assert_eq!(i, n);
        n += 1;
        frame(0, if n == 7 { 65 } else { 3 })
    });
    assert_eq!(n, 180);
    assert_eq!(r.len(), 1);
    assert_eq!((r[0].name, r[0].category, r[0].passed), ("bios_video", "system", true));
    assert_eq!(r[0].detail, "65 non-black px (peak)");
    assert!(!report(None, 64, 0, false)[0].passed);
}

#[test]
fn boot_with_a_disc_ends_when_its_program_runs() {
    let disc = Disc::from_iso(vec![0; 2048 * 10]);
    let mut n = 0;
    let r = run_system(Some(&disc), |i| {
        assert_eq!(i, n);
        n += 1;
        frame(if n == 5 { 0x0600_4000 } else { 0x100 }, 0)
    });
    assert_eq!(n, 5);
    assert_eq!(r.len(), 2);
    assert_eq!((r[0].name, r[0].passed), ("disc_toc", true));
    assert_eq!(r[0].detail, "tracks 1..1, lead-out FAD 160");
    assert_eq!((r[1].name, r[1].passed), ("disc_boots", true));
    assert_eq!(r[1].detail, "master PC=0x06004000 (reached HWRAM)");
    let mut n = 0;
    let r = run_system(Some(&disc), |i| {
        assert_eq!(i, n);
        n += 1;
        frame(0x0610_0000, 0)
    });
    assert_eq!(n, 400);
    assert!(!r[1].passed);
    assert_eq!(r[1].detail, "master PC=0x06100000 (never reached HWRAM)");
}

#[test]
fn boot_is_watched_frame_by_frame() {
    let mut b = Boot::new(true);
    for _ in 0..6 {
        assert!(b.saw(&frame(0x100, 200)));
    }
    assert!(!b.is_over());
    assert!(!b.saw(&frame(0x0600_4000, 0)), "the program runs");
    assert!(b.is_over());
    let r = b.outcome(Some((1, 2, 500)));
    assert_eq!(r[0].detail, "tracks 1..2, lead-out FAD 500");
    assert!(r[1].passed);
    let mut b = Boot::new(false);
    for k in 0..179 {
        assert!(b.saw(&frame(0x0600_4000, if k == 90 { 64 } else { 2 })));
    }
    assert!(!b.saw(&frame(0, 1)));
    let r = b.outcome(None);
    assert_eq!((r.len(), r[0].passed), (1, false));
    assert_eq!(r[0].detail, "64 non-black px (peak)");
}
