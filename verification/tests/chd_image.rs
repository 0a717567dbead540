use saturn::chd_image::{
    assemble, pad_to_track_boundary, parse_track_metadata, ChdTrack, CD_FRAME_SIZE, CD_SECTOR_SIZE,
};
use saturn::disc::TrackMode;

#[test]
fn parses_chtr_minimal() {
    let t = parse_track_metadata("TRACK:1 TYPE:MODE1_RAW SUBTYPE:NONE FRAMES:12345").unwrap();
    assert_eq!(t.number, 1);
    assert_eq!(t.mode, TrackMode::Mode1);
    assert_eq!(t.frames, 12345);
    assert_eq!(t.pregap_in_file, 0);
}

#[test]
fn parses_cht2_with_synthesised_pregap() {
    let t = parse_track_metadata(
        "TRACK:2 TYPE:AUDIO SUBTYPE:NONE FRAMES:1000 PREGAP:150 PGTYPE:MODE1 PGSUB:NONE POSTGAP:0",
    )
    .unwrap();
    assert_eq!(t.mode, TrackMode::Audio);
    assert_eq!(t.frames, 1000);
    assert_eq!(t.pregap_in_file, 0);
}

#[test]
fn parses_cht2_with_in_file_pregap() {
    let t = parse_track_metadata(
        "TRACK:3 TYPE:MODE2_RAW SUBTYPE:RW FRAMES:500 PREGAP:150 PGTYPE:VMODE1 PGSUB:NONE POSTGAP:0",
    )
    .unwrap();
    assert_eq!(t.mode, TrackMode::Mode2);
    assert_eq!(t.pregap_in_file, 150);
}

#[test]
fn rejects_unknown_type() {
    assert!(parse_track_metadata("TRACK:1 TYPE:WEIRD FRAMES:10").is_none());
    assert!(parse_track_metadata("TYPE:AUDIO FRAMES:10").is_none());
}

#[test]
fn padding_rounds_up_to_four() {
    assert_eq!(pad_to_track_boundary(0), 0);
    assert_eq!(pad_to_track_boundary(1), 4);
    assert_eq!(pad_to_track_boundary(4), 4);
    assert_eq!(pad_to_track_boundary(5), 8);
    assert_eq!(pad_to_track_boundary(752), 752);
}

#[test]
fn assemble_two_tracks_skips_padding_and_subcode() {
    let tracks = [
        ChdTrack { number: 1, mode: TrackMode::Mode1, frames: 2, pregap_in_file: 0 },
        ChdTrack { number: 2, mode: TrackMode::Audio, frames: 3, pregap_in_file: 0 },
    ];
    let total = 7;
    let mut raw = vec![0u8; total * CD_FRAME_SIZE];
    for f in 0..total {
        raw[f * CD_FRAME_SIZE] = (0xF0 | f) as u8;
        raw[f * CD_FRAME_SIZE + CD_SECTOR_SIZE] = 0xAB;
    }
    let d = assemble(&tracks, &raw).unwrap();
    assert_eq!(d.image().len(), 5 * CD_SECTOR_SIZE);
    assert_eq!(d.image()[0], 0xF0);
    assert_eq!(d.image()[CD_SECTOR_SIZE], 0xF1);
    assert_eq!(d.image()[2 * CD_SECTOR_SIZE], 0xF4);
    assert_eq!(d.image()[4 * CD_SECTOR_SIZE], 0xF6);
    assert!(!d.image().contains(&0xAB));
    assert_eq!(d.tracks().len(), 2);
    assert_eq!(d.first_track(), 1);
    assert_eq!(d.last_track(), 2);
}

#[test]
fn assemble_rejects_a_track_past_the_data() {
    let tracks = [ChdTrack { number: 1, mode: TrackMode::Mode1, frames: 4, pregap_in_file: 0 }];
    let raw = vec![0u8; CD_FRAME_SIZE];
    let err = assemble(&tracks, &raw).unwrap_err();
    assert!(err.contains("runs past"), "expected a bounds error, got: {err}");
}
