//! Memory.

use saturn::memory::{
    join16, join32, BackupRam, BiosRom, Ram, StubRegisterBank, INTERNAL_BACKUP_BYTES,
};

#[test]
fn ram_starts_zeroed() {
    let r = Ram::new(16);
    assert_eq!(r.read32(0), 0);
}

#[test]
fn words_have_their_highest_byte_first() {
    assert_eq!(join16(0x12, 0x34), 0x1234);
    assert_eq!(join32(0x12, 0x34, 0x56, 0x78), 0x1234_5678);
    let mut r = Ram::new(16);
    r.write32(4, 0x1234_5678);
    assert_eq!(r.read8(4), 0x12);
    assert_eq!(r.read16(6), 0x5678);
    r.write16(5, 0xABCD);
    assert_eq!(r.read32(4), 0x12AB_CD78);
    assert_eq!(&r.as_slice()[4..8], &[0x12, 0xAB, 0xCD, 0x78]);
}

#[test]
fn ram_mirrors_and_wraps() {
    let mut r = Ram::new(16);
    r.write8(16 + 3, 0x5A);
    assert_eq!(r.read8(3), 0x5A);
    assert_eq!(r.idx(35), 3);
    r.write32(14, 0x1122_3344);
    assert_eq!(r.read16(0), 0x3344);
    assert_eq!(r.read32(14), 0x1122_3344);
    r.as_mut_slice()[0] = 9;
    assert_eq!(r.read8(32), 9);
    assert_eq!((r.len(), r.is_empty()), (16, false));
}

#[test]
fn bios_mirrors() {
    let b = BiosRom::new(vec![1, 2, 3, 4]);
    assert_eq!(b.read32(0), 0x0102_0304);
    assert_eq!(b.read16(7), 0x0401);
    assert_eq!(b.read8(9), 2);
    b.write_ignored();
    assert_eq!((b.len(), b.is_empty(), b.image()), (4, false, &[1u8, 2, 3, 4][..]));
}

#[test]
fn backup_ram_is_formatted_and_packed() {
    let mut b = BackupRam::new();
    assert_eq!(b.bytes().len(), INTERNAL_BACKUP_BYTES);
    assert_eq!(&b.bytes()[0..16], b"BackUpRam Format");
    assert_eq!(b.read8(0), 0, "even addresses are not wired");
    assert_eq!(b.read8(1), b'B');
    b.write8(0x201, 0x77);
    assert_eq!(b.read8(0x201), 0x77);
    b.write8(0x200, 0x11);
    assert_eq!(b.read8(0x200), 0);
    b.load(&[1, 2, 3]);
    assert_eq!(&b.bytes()[0..3], &[1, 2, 3]);
}

#[test]
fn stub_registers_read_zero() {
    let mut s = StubRegisterBank::new("SOUND");
    s.write32(0, 0xFFFF_FFFF);
    s.write16(0, 1);
    s.write8(0, 1);
    assert_eq!((s.read8(0), s.read16(0), s.read32(0)), (0, 0, 0));
    assert_eq!(s.name(), "SOUND");
}
