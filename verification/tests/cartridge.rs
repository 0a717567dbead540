//! The cartridge slot.

use saturn::cartridge::Cartridge;

#[test]
fn empty_slot_floats_high() {
    let mut c = Cartridge::default();
    assert_eq!(c.cart_id(), 0xFF);
    c.write32(0x0240_0000, 0);
    assert_eq!(c.read32(0x0240_0000), 0xFFFF_FFFF);
    assert_eq!(c.read16(0x0200_0000), 0xFFFF);
    assert_eq!(c.read8(0x04FF_FFFF), 0xFF);
}

#[test]
fn slot_owns_its_window() {
    assert!(Cartridge::owns(0x0200_0000) && Cartridge::owns(0x04FF_FFFF));
    assert!(!Cartridge::owns(0x01FF_FFFF) && !Cartridge::owns(0x0500_0000));
}

#[test]
fn dram_banks_are_apart_and_mirror() {
    let mut c = Cartridge::ext_ram_1mb();
    assert_eq!(c.read8(0x04FF_FFFF), 0x5A);
    c.write32(0x0240_0000, 0x1234_5678);
    c.write16(0x0260_0000, 0xABCD);
    assert_eq!(c.read32(0x0248_0000), 0x1234_5678, "512 KiB mirror");
    assert_eq!(c.read16(0x0260_0000), 0xABCD);
    assert_eq!(c.read16(0x0240_0000), 0x1234);
    assert_eq!(Cartridge::ext_ram_4mb().cart_id(), 0x5C);
}

#[test]
fn backup_cartridges_have_the_id_of_their_size() {
    for (size, id) in [(0x8_0000, 0x21), (0x10_0000, 0x22), (0x20_0000, 0x23), (0x40_0000, 0x24)] {
        assert_eq!(Cartridge::backup_ram(size).cart_id(), id);
    }
}

#[test]
fn backup_bytes_sit_at_odd_addresses() {
    let mut c = Cartridge::backup_ram(0x8_0000);
    c.write8(0x0400_1001, 0x5A);
    assert_eq!(c.read8(0x0400_1001), 0x5A);
    c.write8(0x0400_1000, 0x77);
    assert_eq!(c.read8(0x0400_1000), 0);
}

#[test]
fn rom_is_read_only_and_mirrors() {
    let mut c = Cartridge::rom(vec![1, 2, 3, 4]);
    c.write32(0x0200_0000, 0);
    assert_eq!(c.read32(0x0200_0000), 0x0102_0304);
    assert_eq!(c.read8(0x0200_0006), 3);
    assert_eq!(c.cart_id(), 0xFF);
}
