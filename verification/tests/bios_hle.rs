//! The native system calls of the BIOS.

use saturn::bios_hle::{
    dispatch, install_call_table, is_sys_addr, sys_name, SysCall, SysRegs, BIOS_DEFAULT_HANDLER,
    CALL_COST, SCU_INT_TABLE, SCU_MASK_VAR,
};
use saturn::bus::timing::AccessKind;
use saturn::bus::SaturnBus;

fn regs(pc: u32, r4: u32, r5: u32) -> SysRegs {
    let mut r = SysRegs { r: [0; 16], pc, pr: 0x0600_1000, vbr: 0 };
    r.r[4] = r4;
    r.r[5] = r5;
    r
}

fn call(r: &mut SysRegs, bus: &mut SaturnBus) -> SysCall {
    dispatch(r, bus, false, 0, 0)
}

fn read(bus: &mut SaturnBus, addr: u32) -> u32 {
    bus.read32(addr, AccessKind::Data, 0, 0).0
}

fn run_sys(addr: u32, r4: u32, r5: u32) -> (SysRegs, SaturnBus) {
    let mut bus = SaturnBus::with_blank_bios();
    let mut r = regs(addr, r4, r5);
    assert!(is_sys_addr(addr), "{addr:#06X} is a SYS entry");
    call(&mut r, &mut bus);
    (r, bus)
}

#[test]
fn set_scu_interrupt_installs_handler_and_returns() {
    let (cpu, mut bus) = run_sys(0x0300, 0x40, 0x0601_2345);
    assert_eq!(read(&mut bus, SCU_INT_TABLE + 0x100), 0x0601_2345);
    assert_eq!(cpu.pc, cpu.pr, "SYS call returns via PR");
}

#[test]
fn set_scu_interrupt_zero_handler_uses_bios_default() {
    let (_cpu, mut bus) = run_sys(0x0304 - 4, 0x41, 0);
    assert_eq!(read(&mut bus, SCU_INT_TABLE + 0x41 * 4), BIOS_DEFAULT_HANDLER);
}

#[test]
fn get_scu_interrupt_reads_back_installed_handler() {
    let mut bus = SaturnBus::with_blank_bios();
    bus.write32(SCU_INT_TABLE + 0x47 * 4, 0x0609_ABCD, AccessKind::Data, 0);
    let mut r = regs(0x0304, 0x47, 0);
    call(&mut r, &mut bus);
    assert_eq!(r.r[0], 0x0609_ABCD);
}

#[test]
fn change_scu_interrupt_mask_applies_and_then_or() {
    let mut bus = SaturnBus::with_blank_bios();
    bus.write32(SCU_MASK_VAR, 0xFFFF_FFFF, AccessKind::Data, 0);
    let mut r = regs(0x0344, 0xFFFF_FFFE, 0x0000_0004);
    call(&mut r, &mut bus);
    assert_eq!(read(&mut bus, SCU_MASK_VAR), 0xFFFF_FFFE);
}

#[test]
fn set_sh2_interrupt_writes_vbr_vector() {
    let mut bus = SaturnBus::with_blank_bios();
    let mut r = regs(0x0310, 0x4A, 0x0604_2222);
    r.vbr = 0x0600_0000;
    call(&mut r, &mut bus);
    assert_eq!(read(&mut bus, 0x0600_0000 + 0x4A * 4), 0x0604_2222);
}

#[test]
fn slave_leaves_the_mask_alone() {
    let mut bus = SaturnBus::with_blank_bios();
    bus.write32(SCU_MASK_VAR, 0x1234, AccessKind::Data, 0);
    let mut r = regs(0x0344, 0, 0);
    dispatch(&mut r, &mut bus, true, 0, 0);
    assert_eq!(read(&mut bus, SCU_MASK_VAR), 0x1234);
}

#[test]
fn semaphore_is_given_to_the_first_who_asks() {
    let mut bus = SaturnBus::with_blank_bios();
    let mut first = regs(0x0330, 5, 0);
    assert!(call(&mut first, &mut bus).implemented);
    assert_eq!(first.r[0], 1);
    let mut second = regs(0x0330, 5, 0);
    call(&mut second, &mut bus);
    assert_eq!(second.r[0], 0);
    let mut release = regs(0x0334, 5, 0);
    call(&mut release, &mut bus);
    let mut third = regs(0x0330, 5, 0);
    call(&mut third, &mut bus);
    assert_eq!(third.r[0], 1);
}

#[test]
fn unknown_call_answers_zero_and_returns() {
    let mut bus = SaturnBus::with_blank_bios();
    let mut r = regs(0x0200, 0, 0);
    r.r[0] = 99;
    let done = call(&mut r, &mut bus);
    assert!(!done.implemented);
    assert_eq!(r.r[0], 0);
    assert_eq!(r.pc, 0x0600_1000);
    assert_eq!(CALL_COST, 11);
}

#[test]
fn a_write_for_a_graphics_chip_is_handed_out() {
    let mut bus = SaturnBus::with_blank_bios();
    let mut r = regs(0x0310, 0, 0x77);
    r.vbr = 0x05F8_0000;
    assert_eq!(call(&mut r, &mut bus).outside, Some((0x05F8_0000, 0x77, 4)));
}

#[test]
fn call_table_holds_the_entries() {
    let mut bus = SaturnBus::with_blank_bios();
    install_call_table(&mut bus);
    let mut found = 0;
    for a in (0x0600_0000u32..0x0600_1000).step_by(4) {
        let v = read(&mut bus, a);
        if v == 0x0300 {
            found += 1;
            assert_eq!(a, 0x0600_0300);
        }
    }
    assert_eq!(found, 1);
}

#[test]
fn calls_have_names() {
    assert_ne!(sys_name(0x40), sys_name(0x41));
    assert!(!is_sys_addr(0x0301));
}
