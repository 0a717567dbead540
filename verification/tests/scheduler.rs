//! The scheduler.

use saturn::bus::timing::AccessKind;
use saturn::bus::SaturnBus;
use saturn::disc::Disc;
use saturn::scheduler::{CdBlockEntity, EntityId, SchedEntity, Scheduler, Sh2Entity};

fn timers(intervals: &[u64]) -> Scheduler<CdBlockEntity> {
    let mut s = Scheduler::new();
    for (k, &i) in intervals.iter().enumerate() {
        assert_eq!(s.add(CdBlockEntity::new(i)), EntityId(k));
    }
    s
}

#[test]
fn empty_scheduler_has_nothing_to_do() {
    let mut s: Scheduler<CdBlockEntity> = Scheduler::default();
    let mut bus = SaturnBus::with_blank_bios();
    s.run_for(100, &mut bus);
    assert_eq!(s.now(), 0);
    assert!(s.entities().is_empty());
}

#[test]
fn most_behind_entity_runs_first() {
    let mut s = timers(&[30, 20]);
    let mut bus = SaturnBus::with_blank_bios();
    assert_eq!(s.now(), 20);
    let mut order: Vec<usize> = Vec::new();
    s.run_for_traced(41, &mut bus, |_: &CdBlockEntity, id: EntityId| order.push(id.0));
    assert_eq!(order, vec![1, 0, 1, 0, 1]);
    assert_eq!(s.now(), 80);
}

#[test]
fn ties_go_to_the_one_added_first() {
    let mut s = timers(&[10, 10]);
    let mut bus = SaturnBus::with_blank_bios();
    let mut order: Vec<usize> = Vec::new();
    s.run_for_traced(11, &mut bus, |_: &CdBlockEntity, id: EntityId| order.push(id.0));
    assert_eq!(order, vec![0, 1, 0, 1]);
}

#[test]
fn runs_are_the_same_every_time() {
    let trace = || {
        let mut s = timers(&[7, 11, 13]);
        let mut bus = SaturnBus::with_blank_bios();
        let mut order: Vec<usize> = Vec::new();
        s.run_for_traced(5000, &mut bus, |_: &CdBlockEntity, id: EntityId| order.push(id.0));
        (order, s.now())
    };
    assert_eq!(trace(), trace());
}

#[test]
fn traced_and_plain_runs_end_at_one_state() {
    let start = || {
        let mut bus = SaturnBus::with_blank_bios();
        bus.cd_block.insert_disc(Disc::from_iso(vec![0; 2048 * 4]));
        (timers(&[700, 1100]), bus)
    };
    let (mut a, mut x) = start();
    let (mut b, mut y) = start();
    let mut steps = 0;
    a.run_for(40_000_000, &mut x);
    b.run_for_traced(40_000_000, &mut y, |_: &CdBlockEntity, _: EntityId| steps += 1);
    assert_eq!((a.entities()[0].next, a.entities()[1].next), (b.entities()[0].next, b.entities()[1].next));
    assert_eq!(steps, a.entities()[0].next / 700 - 1 + a.entities()[1].next / 1100 - 1);
    assert_eq!(x.cd_block.drive, y.cd_block.drive);
    assert_eq!(x.cd_block.hirq, y.cd_block.hirq);
}

#[test]
fn cd_block_timer_ticks_the_drive() {
    let mut s = timers(&[1000]);
    let mut bus = SaturnBus::with_blank_bios();
    bus.cd_block.insert_disc(Disc::from_iso(vec![0; 2048 * 4]));
    let before = bus.cd_block.drive.counter;
    s.run_for(1000, &mut bus);
    assert!(bus.cd_block.drive.counter < before);
    assert_eq!(s.entity(EntityId(0)).next_deadline(), 2000);
    s.entity_mut(EntityId(0)).next = 5000;
    assert_eq!(s.now(), 5000);
}

#[test]
fn held_cpu_never_wants_to_run() {
    let mut e = Sh2Entity::new();
    assert_eq!(e.deadline_at(77), 77);
    e.set_halted(true);
    assert_eq!(e.deadline_at(77), u64::MAX);
    assert!(Sh2Entity::new_halted().is_halted());
}

#[test]
fn system_calls_are_intercepted_when_asked_for() {
    let mut e = Sh2Entity::new();
    assert!(!e.intercepts(0x0300, false));
    e.set_hle_sys(true);
    assert!(e.intercepts(0x0300, false));
    assert!(!e.intercepts(0x0300, true));
    assert!(!e.intercepts(0x0302, false));
}

#[test]
fn trace_leaves_out_repetitions_and_the_idle_loop() {
    let mut e = Sh2Entity::new();
    let mut bus = SaturnBus::with_blank_bios();
    e.enable_pc_trace();
    for pc in [0x100u32, 0x100, 0x2B2, 0x102, 0x0602_0000, 0x104] {
        e.after_step(pc, &[0; 16], &mut bus, &[0; 48], 0);
    }
    assert_eq!(e.take_pc_trace(), vec![0x100, 0x102, 0x0602_0000]);
}

#[test]
fn breakpoint_captures_registers_and_code_once() {
    let mut e = Sh2Entity::new();
    let mut bus = SaturnBus::with_blank_bios();
    bus.write16(0x0600_0004, 0xABCD, AccessKind::Data, 0);
    e.set_bp(0x0600_0004);
    let mut r = [0u32; 16];
    r[3] = 33;
    e.after_step(0x0600_0002, &r, &mut bus, &[0; 48], 0);
    assert!(e.take_bp_hit().is_none());
    e.after_step(0x0600_0004, &r, &mut bus, &[0; 48], 0);
    let (regs, code) = e.take_bp_hit().unwrap();
    assert_eq!(regs[3], 33);
    assert_eq!(code.len(), 48);
    assert_eq!(code[0], 0xABCD);
}
