//! Save states.

use saturn::bus::timing::AccessKind;
use saturn::bus::SaturnBus;
use saturn::cartridge::Cartridge;
use saturn::disc::{fnv1a, Disc};
use saturn::savestate::{Header, SaveStateError, MAGIC, VERSION};

fn disc(fill: u8) -> Disc {
    Disc::from_iso(vec![fill; 2048 * 2])
}

fn machine() -> SaturnBus {
    SaturnBus::new(vec![1, 2, 3, 4])
}

#[test]
fn state_starts_with_its_header() {
    let m = machine();
    let bytes = m.save_state(&[0xAA, 0xBB]);
    assert_eq!(&bytes[0..4], b"5PSS");
    assert_eq!(bytes[4], 16);
    assert_eq!(bytes[5], 253);
    assert_eq!(&bytes[6..14], &fnv1a(&[1, 2, 3, 4]).to_le_bytes());
    assert_eq!(&bytes[14..], &[0, 0xAA, 0xBB]);
}

#[test]
fn header_is_read_back() {
    let mut m = machine();
    m.cd_block.insert_disc(disc(7));
    let bytes = m.save_state(&[9, 9, 9]);
    let (h, at) = Header::read(&bytes).unwrap();
    assert_eq!(h.magic, MAGIC);
    assert_eq!(h.version, VERSION);
    assert_eq!(h.bios_fp, fnv1a(&[1, 2, 3, 4]));
    assert_eq!(h.disc_fp, Some(fnv1a(&vec![7u8; 4096])));
    assert_eq!(&bytes[at..], &[9, 9, 9]);
}

#[test]
fn short_numbers_take_few_bytes() {
    let mut bytes = b"5PSS".to_vec();
    bytes.extend([251, 0x2C, 0x01, 252, 1, 2, 3, 4, 1, 250]);
    let (h, at) = Header::read(&bytes).unwrap();
    assert_eq!(h.version, 300);
    assert_eq!(h.bios_fp, 0x0403_0201);
    assert_eq!(h.disc_fp, Some(250));
    assert_eq!(at, bytes.len());
}

#[test]
fn truncated_state_is_corrupt() {
    let bytes = machine().save_state(&[]);
    match Header::read(&bytes[..8]) {
        Err(SaveStateError::Decode(e)) => assert_eq!(e, "UnexpectedEnd { additional: 6 }"),
        other => panic!("{other:?}"),
    }
}

#[test]
fn state_comes_back_with_the_live_media() {
    let mut a = machine();
    a.cd_block.insert_disc(disc(7));
    a.cartridge = Cartridge::Rom { bytes: vec![5; 8] };
    a.write32(0x0600_0000, 0x1234_5678, AccessKind::Data, 0);
    let h = a.header();

    let mut stripped = SaturnBus::new(vec![0xFF]);
    stripped.cartridge = Cartridge::Rom { bytes: Vec::new() };
    stripped.write32(0x0600_0000, 0x1234_5678, AccessKind::Data, 0);
    stripped.cd_block.audio.fifo.push_back(3);
    stripped.cd_block.audio.primed = true;
    stripped.scsp.out.push(4);

    a.write32(0x0600_0000, 0, AccessKind::Data, 0);
    assert_eq!(a.load_state(&h, Ok(stripped)), Ok(()));
    assert_eq!(a.read32(0x0600_0000, AccessKind::Data, 0, 0).0, 0x1234_5678);
    assert_eq!(a.bios.image(), &[1, 2, 3, 4]);
    assert_eq!(a.cd_block.disc().unwrap().fingerprint(), disc(7).fingerprint());
    match &a.cartridge {
        Cartridge::Rom { bytes } => assert_eq!(bytes, &vec![5; 8]),
        _ => panic!("the game ROM is gone"),
    }
    assert!(a.cd_block.audio.fifo.is_empty() && !a.cd_block.audio.primed);
    assert!(a.scsp.take_audio().is_empty());
}

#[test]
fn foreign_bytes_are_no_state() {
    for bytes in [&b"garbage"[..], b"", b"5PS", b"5PSX\x10\x00\x00"] {
        match Header::read(bytes) {
            Err(e) => assert_eq!(e, SaveStateError::BadMagic),
            Ok(_) => panic!("{bytes:?} was taken for a state"),
        }
    }
}

fn refused(a: &mut SaturnBus, h: &Header, m: Result<SaturnBus, String>) -> SaveStateError {
    a.write32(0x0600_0000, 0x55AA, AccessKind::Data, 0);
    let e = a.load_state(h, m).unwrap_err();
    assert_eq!(a.read32(0x0600_0000, AccessKind::Data, 0, 0).0, 0x55AA, "nothing changed");
    e
}

#[test]
fn what_does_not_fit_is_refused() {
    let mut a = machine();
    let h = a.header();
    let e = refused(&mut a, &Header { magic: *b"NOPE", ..h }, Ok(machine()));
    assert_eq!(e, SaveStateError::BadMagic);
    assert_eq!(e.message(), "not a 5thPlanet save state");
    let e = refused(&mut a, &Header { version: 15, ..h }, Ok(machine()));
    assert_eq!(e, SaveStateError::VersionMismatch { found: 15, expected: 16 });
    assert_eq!(e.message(), "save-state version 15 != supported 16");
    let e = refused(&mut a, &SaturnBus::new(vec![9]).header(), Ok(machine()));
    assert_eq!(e, SaveStateError::BiosMismatch);
    assert_eq!(e.message(), "save state was taken with a different BIOS");
    let mut with_disc = machine();
    with_disc.cd_block.insert_disc(disc(1));
    let e = refused(&mut a, &with_disc.header(), Ok(machine()));
    assert_eq!(e, SaveStateError::DiscMismatch);
    assert_eq!(e.message(), "save state was taken with a different disc");
    let e = refused(&mut with_disc, &h, Ok(machine()));
    assert_eq!(e, SaveStateError::DiscMismatch);
    let short = || Err(String::from("short"));
    let e = refused(&mut a, &Header { magic: *b"NOPE", ..h }, short());
    assert_eq!(e, SaveStateError::BadMagic, "a foreign file fails as such");
    let e = refused(&mut a, &Header { version: 15, ..h }, short());
    assert_eq!(e, SaveStateError::VersionMismatch { found: 15, expected: 16 });
    let e = refused(&mut a, &h, short());
    assert_eq!(e, SaveStateError::Decode(String::from("short")));
    assert_eq!(e.message(), "corrupt save state: short");
}
