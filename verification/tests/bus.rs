//! The memory map, and the time that accesses take.

use saturn::bus::timing::{Access, AccessKind, BusTiming};
use saturn::bus::{read_is_watched, write_is_watched, Region, SaturnBus};
use saturn::cartridge::Cartridge;
use saturn::cd_block::CdBlock;
use saturn::disc::Disc;

const DATA: AccessKind = AccessKind::Data;

fn cmd(c: &mut CdBlock, cr1: u16, cr2: u16, cr3: u16, cr4: u16) {
    c.write16(0x0018, cr1);
    c.write16(0x001C, cr2);
    c.write16(0x0020, cr3);
    c.write16(0x0024, cr4);
}

fn data_disc() -> Disc {
    let mut img = vec![0u8; 2048 * 4];
    img[0..4].copy_from_slice(&[0xDE, 0xAD, 0xBE, 0xEF]);
    img[2048..2052].copy_from_slice(&[0x12, 0x34, 0x56, 0x78]);
    Disc::from_iso(img)
}

fn play(c: &mut CdBlock, fad: u32, count: u32) {
    cmd(c, 0x3000, 0, 0x0000, 0);
    let start = 0x80_0000 | fad;
    let end = 0x80_0000 | count;
    cmd(
        c,
        0x1000 | ((start >> 16) & 0xFF) as u16,
        (start & 0xFFFF) as u16,
        ((end >> 16) & 0xFF) as u16,
        (end & 0xFFFF) as u16,
    );
}

fn pump(c: &mut CdBlock) {
    c.tick(12_000_000);
}

#[test]
fn data_port_alias_routes_through_the_bus() {
    let mut bus = SaturnBus::with_blank_bios();
    bus.cd_block.insert_disc(data_disc());
    let cd = &mut bus.cd_block;
    play(cd, 150, 1);
    pump(cd);
    cmd(cd, 0x6100, 0x0000, 0x0000, 0x0001);
    let (w, _) = bus.read32(0x0581_8000, DATA, 0, 0);
    assert_eq!(w, 0xDEAD_BEEF);
}

#[test]
fn work_ram_is_read_back_at_every_width() {
    let mut bus = SaturnBus::with_blank_bios();
    for base in [0x0020_0000u32, 0x0600_0000] {
        bus.write32(base + 0x40, 0x1234_5678, DATA, 0);
        assert_eq!(bus.read32(base + 0x40, DATA, 0, 0).0, 0x1234_5678);
        assert_eq!(bus.read16(base + 0x42, DATA, 0, 0).0, 0x5678);
        assert_eq!(bus.read8(base + 0x41, DATA, 0, 0).0, 0x34);
        bus.write8(base + 0x41, 0xAB, DATA, 0);
        bus.write16(base + 0x42, 0xCDEF, DATA, 0);
        assert_eq!(bus.read32(base + 0x40, DATA, 0, 0).0, 0x12AB_CDEF);
    }
}

#[test]
fn high_work_ram_mirrors_every_megabyte() {
    let mut bus = SaturnBus::with_blank_bios();
    bus.write8(0x0610_0010, 0x5A, DATA, 0);
    assert_eq!(bus.read8(0x0600_0010, DATA, 0, 0).0, 0x5A);
    assert_eq!(bus.read8(0x06F0_0010, DATA, 0, 0).0, 0x5A);
}

#[test]
fn open_addresses_read_zero() {
    let mut bus = SaturnBus::with_blank_bios();
    bus.write32(0x0700_0000, 0xFFFF_FFFF, DATA, 0);
    assert_eq!(bus.read32(0x0700_0000, DATA, 0x55, 0).0, 0);
    assert_eq!(Region::at(0x0700_0000), Region::Open);
    assert_eq!(Region::at(0x0581_8000), Region::CdPort);
    assert_eq!(Region::at(0x05FE_0000), Region::Scu);
}

#[test]
fn bios_cannot_be_written() {
    let mut bus = SaturnBus::new(vec![0xA5; 16]);
    bus.write32(0, 0, DATA, 0);
    assert_eq!(bus.read32(0, DATA, 0, 0).0, 0xA5A5_A5A5);
    assert_eq!(bus.read8(0x000F_FFFF, DATA, 0, 0).0, 0xA5);
}

#[test]
fn outside_chips_answer_through_the_reply() {
    let mut bus = SaturnBus::with_blank_bios();
    assert_eq!(bus.read8(0x0010_0061, DATA, 0x9C, 0).0, 0x9C);
    assert_eq!(bus.read16(0x05F8_0004, DATA, 0x1234, 0).0, 0x1234);
    assert_eq!(bus.read32(0x05C0_0000, DATA, 0x8765_4321, 0).0, 0x8765_4321);
}

#[test]
fn empty_slot_reads_ones_and_a_cartridge_answers() {
    let mut bus = SaturnBus::with_blank_bios();
    assert_eq!(bus.read16(0x0240_0000, DATA, 0, 0).0, 0xFFFF);
    bus.cartridge = Cartridge::ext_ram_1mb();
    bus.write16(0x0240_0000, 0xBEEF, DATA, 0);
    assert_eq!(bus.read16(0x0240_0000, DATA, 0, 0).0, 0xBEEF);
    assert_eq!(bus.read8(0x04FF_FFFF, DATA, 0, 0).0, 0x5A);
}

#[test]
fn capture_triggers_pend() {
    let mut bus = SaturnBus::with_blank_bios();
    bus.write16(0x0100_0000, 0xFFFF, DATA, 0);
    assert!(bus.slave_input_capture && !bus.master_input_capture);
    bus.write8(0x0180_0000, 0, DATA, 0);
    assert!(bus.master_input_capture);
}

#[test]
fn first_watched_write_is_kept() {
    let mut bus = SaturnBus::with_blank_bios();
    bus.watch = Some((0x0020_0010, Some(7)));
    bus.step_pc = 0x0600_4000;
    bus.write32(0x0020_0010, 6, DATA, 0);
    assert_eq!(bus.watch_hit, None);
    bus.write32(0x0020_0010, 7, DATA, 0);
    assert_eq!(bus.watch_hit, Some((0x0020_0010, 7, 0x0600_4000)));
    bus.step_pc = 0;
    bus.write32(0x0020_0010, 7, DATA, 0);
    assert_eq!(bus.watch_hit, Some((0x0020_0010, 7, 0x0600_4000)));
}

#[test]
fn raster_reads_are_noted_once_asked_for() {
    let mut bus = SaturnBus::with_blank_bios();
    bus.read16(0x05F8_000A, DATA, 0x55, 0);
    assert_eq!(bus.take_raster_read(), None);
    bus.raster_probe_on = true;
    bus.cycle = 9;
    bus.step_pc = 0x100;
    bus.read16(0x05F8_000A, DATA, 0x55, 0);
    assert_eq!(bus.take_raster_read(), Some((0x0A, 0x55, 0x100, 9)));
    assert_eq!(bus.take_raster_read(), None);
}

#[test]
fn peek_sees_memory_without_a_trace() {
    let mut bus = SaturnBus::with_blank_bios();
    bus.write16(0x0600_0100, 0xCAFE, DATA, 0);
    assert_eq!(bus.peek16(0x0600_0100), Some(0xCAFE));
    assert_eq!(bus.peek16(0x05FE_0000), None);
}

#[test]
fn reads_wait_for_the_bus() {
    let mut bus = SaturnBus::with_blank_bios();
    let (_, first) = bus.read32(0x0020_0000, DATA, 0, 0);
    let (_, second) = bus.read32(0x0020_0000, DATA, 0, 0);
    assert!(first > 0);
    assert!(second >= first, "the second read at one clock queues behind the first");
}

#[test]
fn watch_windows_cover_the_mirrors() {
    assert!(write_is_watched(0x0600_0100, 4, 0x0610_0102, 1));
    assert!(!write_is_watched(0x0600_0100, 4, 0x0600_0110, 4));
    assert!(read_is_watched(0x0600_0100, 4, 0x0600_00FE, 4));
    assert!(!read_is_watched(0x0600_0100, 4, 0x0600_0104, 4));
}

#[test]
fn transfers_cost_the_same_at_any_time() {
    let mut t = BusTiming::default();
    let before = (t.mem_ts, t.write_finish, t.sdram_finish, t.bbus_write_finish);
    let mut cost = |addr: u32, write: bool| {
        let a = Access { addr, width: 4, write, kind: AccessKind::Dma, asr0: 0, draw: 0 };
        t.perform(1000, &a)
    };
    assert_eq!(cost(0x0600_0000, true), 3);
    assert_eq!(cost(0x0600_0000, false), 6);
    assert_eq!(cost(0x05A0_0000, true), 26);
    assert_eq!(before, (t.mem_ts, t.write_finish, t.sdram_finish, t.bbus_write_finish));
}
