//! Disc images: sheets, and the metadata of compressed images.

use saturn::chd_image::{tracks_from_metadata, track_type_to_mode, TAG_TRACK, TAG_TRACK2};
use saturn::disc::{Disc, TrackMode};
use saturn::sheet::{cue_quoted, mmss_ff_to_frames, parse_int, parse_track_type};
use saturn::text::{chars_of, push_decimal, push_hex, read_number, split_lines, string_of, trim};

const CHCD: u32 = 0x4348_4344;
const CHGD: u32 = 0x4348_4744;
const GDDD: u32 = 0x4744_4444;

fn meta(tag: u32, text: &str) -> (u32, Vec<u8>) {
    (tag, text.as_bytes().to_vec())
}

#[test]
fn tracks_are_sorted_by_number() {
    let tracks = tracks_from_metadata(&vec![
        meta(TAG_TRACK2, "TRACK:2 TYPE:AUDIO SUBTYPE:NONE FRAMES:20 PREGAP:0 PGTYPE:V PGSUB:V POSTGAP:0"),
        meta(GDDD, "ignored"),
        meta(TAG_TRACK, "TRACK:1 TYPE:MODE1 SUBTYPE:NONE FRAMES:10"),
    ])
    .unwrap();
    assert_eq!(tracks.len(), 2);
    assert_eq!((tracks[0].number, tracks[0].frames), (1, 10));
    assert_eq!((tracks[1].number, tracks[1].frames), (2, 20));
}

#[test]
fn tags_are_the_characters_of_their_names() {
    assert_eq!(TAG_TRACK.to_be_bytes(), *b"CHTR");
    assert_eq!(TAG_TRACK2.to_be_bytes(), *b"CHT2");
}

#[test]
fn metadata_that_cannot_be_used_is_refused() {
    assert_eq!(
        tracks_from_metadata(&vec![meta(CHCD, ""), meta(GDDD, "")]).unwrap_err(),
        "CHD uses a legacy/GD-ROM CD format this build doesn't decode \
         (re-create it with a current chdman `createcd`)"
    );
    assert!(tracks_from_metadata(&vec![meta(CHGD, "")]).unwrap_err().contains("GD-ROM"));
    assert_eq!(
        tracks_from_metadata(&vec![meta(GDDD, "")]).unwrap_err(),
        "CHD has no CD tracks (is it a hard-disk or A/V CHD?)"
    );
    assert_eq!(
        tracks_from_metadata(&vec![(TAG_TRACK, vec![0xFF, 0xFE])]).unwrap_err(),
        "CHD track metadata is not UTF-8"
    );
    assert_eq!(
        tracks_from_metadata(&vec![meta(TAG_TRACK, "a \"b\"\n")]).unwrap_err(),
        "unrecognised CHD track metadata: \"a \\\"b\\\"\\n\""
    );
}

#[test]
fn track_types_have_their_modes() {
    assert_eq!(track_type_to_mode("AUDIO"), Some(TrackMode::Audio));
    assert_eq!(track_type_to_mode("MODE1_RAW"), Some(TrackMode::Mode1));
    assert_eq!(track_type_to_mode("MODE2_FORM1"), Some(TrackMode::Mode2));
    assert_eq!(track_type_to_mode("CDG"), None);
    assert_eq!(parse_track_type("MODE1/2048"), Ok((TrackMode::Mode1, 2048)));
    assert_eq!(parse_track_type("MODE2/2352"), Ok((TrackMode::Mode2, 2352)));
    assert_eq!(parse_track_type("AUDIO"), Ok((TrackMode::Audio, 2352)));
    assert_eq!(parse_track_type("CDG").unwrap_err(), "unsupported TRACK type CDG");
}

fn cue(text: &str) -> Result<Disc, String> {
    Disc::from_cue(text, |name| if name == "a.bin" { Some(vec![0; 2352 * 4]) } else { None })
}

#[test]
fn sheets_that_are_wrong_say_why() {
    assert_eq!(cue("FILE a.bin BINARY").unwrap_err(), "FILE without a quoted name");
    assert_eq!(cue("FILE \"b.bin\" BINARY").unwrap_err(), "missing b.bin");
    assert_eq!(cue("TRACK 01 AUDIO").unwrap_err(), "TRACK before FILE");
    assert_eq!(cue("FILE \"a.bin\" BINARY\nTRACK x AUDIO").unwrap_err(), "bad TRACK #");
    assert_eq!(
        cue("FILE \"a.bin\" BINARY\nTRACK 01 CDG").unwrap_err(),
        "unsupported TRACK type CDG"
    );
    assert_eq!(
        cue("FILE \"a.bin\" BINARY\nTRACK 01 AUDIO\nINDEX 01 0:x:0").unwrap_err(),
        "bad INDEX"
    );
    assert_eq!(cue("REM nothing").unwrap_err(), "no tracks in CUE");
    assert!(cue("FILE \"a.bin\" BINARY\nTRACK 01 AUDIO\nINDEX 01 00:00:00").is_ok());
    assert_eq!(
        Disc::from_ccd("[Disc]\n", vec![0; 2352]).unwrap_err(),
        "CCD: no point 0xA1 (last track)"
    );
}

#[test]
fn fields_of_sheets_are_read() {
    assert_eq!(cue_quoted("FILE \"x y.bin\" BINARY"), Some(String::from("x y.bin")));
    assert_eq!(cue_quoted("FILE x.bin"), None);
    assert_eq!(mmss_ff_to_frames("01:02:03"), Some((62 * 75) + 3));
    assert_eq!(mmss_ff_to_frames("01:02"), None);
    assert_eq!(parse_int("0xA1"), Some(161));
    assert_eq!(parse_int("-3"), Some(-3));
    assert_eq!(parse_int("z"), None);
}

#[test]
fn text_is_taken_apart() {
    let lines = split_lines(&chars_of("one\ntwo\n"));
    assert_eq!(lines.len(), 3);
    assert_eq!(string_of(&lines[1]), "two");
    assert_eq!(string_of(trim(&chars_of("  a b\t"))), "a b");
    assert_eq!(read_number(&chars_of("+12"), 10, 0, 255), Some(12));
    assert_eq!(read_number(&chars_of("256"), 10, 0, 255), None);
    let mut s = String::from("n=");
    push_decimal(&mut s, 1203);
    s.push(' ');
    push_hex(&mut s, 0xBEEF, 6);
    assert_eq!(s, "n=1203 00BEEF");
}

#[test]
fn tracks_of_a_full_toc_start_at_their_lba() {
    let ccd = "\
[Entry 0]
Point=0xa1
PMin=2
PLBA=0
[Entry 1]
Point=0xa2
PLBA=9
[Entry 2]
Point=1
Control=4
PLBA=3
[Entry 3]
Point=2
PLBA=5
";
    let d = Disc::from_ccd(ccd, vec![0u8; 2352 * 9]).unwrap();
    assert_eq!((d.tracks()[0].start_fad, d.tracks()[0].length), (153, 2));
    assert_eq!((d.tracks()[1].start_fad, d.tracks()[1].length), (155, 4));
    assert_eq!(d.lead_out_fad(), 159);
}
