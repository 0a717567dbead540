use saturn::disc::{Disc, TrackMode, SECTOR_USER};
use saturn::sheet::{mmss_ff_to_frames, parse_int};

#[test]
fn iso_is_one_mode1_track_from_fad_150() {
    let img = vec![0u8; SECTOR_USER * 4];
    let d = Disc::from_iso(img);
    assert_eq!(d.tracks().len(), 1);
    assert_eq!(d.first_track(), 1);
    assert_eq!(d.last_track(), 1);
    assert_eq!(d.tracks()[0].start_fad, 150);
    assert_eq!(d.tracks()[0].length, 4);
    assert_eq!(d.lead_out_fad(), 154);
}

#[test]
fn iso_read_sector_returns_2048_user_bytes_by_fad() {
    let mut img = vec![0u8; SECTOR_USER * 3];
    img[SECTOR_USER] = 0xAB;
    let d = Disc::from_iso(img);
    assert_eq!(d.read_sector(150).unwrap().len(), 2048);
    assert_eq!(d.read_sector(151).unwrap()[0], 0xAB);
    assert!(d.read_sector(149).is_none(), "lead-in is not a sector");
    assert!(d.read_sector(153).is_none(), "lead-out is not a sector");
}

#[test]
fn mode1_2352_user_payload_skips_the_16_byte_header() {
    let mut bin = vec![0u8; 2352 * 2];
    bin[16] = 0x5A;
    bin[2352 + 16] = 0x6B;
    let cue = "FILE \"game.bin\" BINARY\n  TRACK 01 MODE1/2352\n    INDEX 01 00:00:00\n";
    let d = Disc::from_cue(cue, |n| (n == "game.bin").then(|| bin.clone())).unwrap();
    assert_eq!(d.read_sector(150).unwrap()[0], 0x5A);
    assert_eq!(d.read_sector(151).unwrap()[0], 0x6B);
}

#[test]
fn cue_multitrack_data_plus_audio_geometry() {
    let bin = vec![0u8; 2352 * 5];
    let cue = "\
FILE \"g.bin\" BINARY
  TRACK 01 MODE1/2352
INDEX 01 00:00:00
  TRACK 02 AUDIO
INDEX 00 00:00:02
INDEX 01 00:00:02
";
    let d = Disc::from_cue(cue, |_| Some(bin.clone())).unwrap();
    assert_eq!(d.tracks().len(), 2);
    assert_eq!(d.tracks()[0].mode, TrackMode::Mode1);
    assert_eq!(d.tracks()[0].start_fad, 150);
    assert_eq!(d.tracks()[0].length, 2);
    assert_eq!(d.tracks()[1].mode, TrackMode::Audio);
    assert_eq!(d.tracks()[1].start_fad, 152);
    assert_eq!(d.tracks()[1].length, 3);
    assert_eq!(d.tracks()[1].ctrl_addr(), 0x01);
    assert_eq!(d.lead_out_fad(), 155);
}

#[test]
fn toc_matches_the_saturn_layout() {
    let bin = vec![0u8; 2352 * 5];
    let cue = "\
FILE \"g.bin\" BINARY
  TRACK 01 MODE1/2352
INDEX 01 00:00:00
  TRACK 02 AUDIO
INDEX 01 00:00:02
";
    let d = Disc::from_cue(cue, |_| Some(bin.clone())).unwrap();
    let toc = d.toc();
    assert_eq!(&toc[0..4], &[0x41, 0x00, 0x00, 0x96]);
    assert_eq!(&toc[4..8], &[0x01, 0x00, 0x00, 0x98]);
    assert_eq!(&toc[8..12], &[0xFF, 0xFF, 0xFF, 0xFF]);
    assert_eq!(&toc[396..400], &[0x41, 0x01, 0x00, 0x00]);
    assert_eq!(&toc[400..404], &[0x01, 0x02, 0x00, 0x00]);
    assert_eq!(&toc[404..408], &[0x41, 0x00, 0x00, 0x9B]);
}

#[test]
fn ccd_img_parses_toc_and_lead_out() {
    let ccd = "\
[Entry 0]
Point=0xa1
Control=0x04
PMin=1
PLBA=44850
[Entry 1]
Point=0xa2
Control=0x04
PLBA=4
[Entry 2]
Point=0x01
Control=0x04
PLBA=0
";
    let img = vec![0u8; 2352 * 4];
    let d = Disc::from_ccd(ccd, img).unwrap();
    assert_eq!(d.first_track(), 1);
    assert_eq!(d.last_track(), 1);
    assert_eq!(d.tracks()[0].start_fad, 150);
    assert_eq!(d.lead_out_fad(), 154);
    assert_eq!(d.tracks()[0].ctrl_addr(), 0x41);
}

#[test]
fn time_and_int_parsers() {
    assert_eq!(mmss_ff_to_frames("00:02:00"), Some(150));
    assert_eq!(mmss_ff_to_frames("01:00:00"), Some(4500));
    assert_eq!(parse_int("0xa1"), Some(0xA1));
    assert_eq!(parse_int("4350"), Some(4350));
    assert_eq!(parse_int("-150"), Some(-150));
}

#[test]
fn tracks_with_sectors_of_different_sizes_follow_each_other() {
    let cue = "\
FILE \"a\" BINARY
  TRACK 01 MODE1/2048
INDEX 01 00:00:00
FILE \"b\" BINARY
  TRACK 02 AUDIO
INDEX 01 00:00:00
";
    let d = Disc::from_cue(cue, |name| {
        Some(if name == "a" {
            vec![1u8; 4096]
        } else {
            vec![2u8; 4704]
        })
    })
    .unwrap();
    assert_eq!((d.tracks()[0].start_fad, d.tracks()[0].length), (150, 2));
    assert_eq!((d.tracks()[1].start_fad, d.tracks()[1].length), (152, 2));
    assert_eq!(d.lead_out_fad(), 154);
}

#[test]
fn mode2_2336_user_payload_skips_the_subheader() {
    let mut bin = vec![0u8; 2336 * 2];
    bin[8] = 0x5A;
    bin[2336 + 8] = 0x6B;
    let cue = "FILE \"m.bin\" BINARY\n  TRACK 01 MODE2/2336\n    INDEX 01 00:00:00\n";
    let d = Disc::from_cue(cue, |_| Some(bin.clone())).unwrap();
    assert_eq!(d.read_sector(150).unwrap()[0], 0x5A);
    assert_eq!(d.read_sector(151).unwrap()[0], 0x6B);
}
