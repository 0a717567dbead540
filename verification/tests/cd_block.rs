use saturn::cd_block::commands::play_window;
use saturn::cd_block::{
    cd2m, CdBlock, DrivePhase, HIRQ_CMOK, HIRQ_DCHG, HIRQ_DRDY, HIRQ_EFLS, HIRQ_EHST, HIRQ_ESEL,
    HIRQ_MPED, HIRQ_PEND, HIRQ_SCDQ, MAX_BLOCKS, NO_FILTER, PERIODIC_CYCLES, STAT_BUSY,
    STAT_NODISC, STAT_PAUSE, STAT_PERI, STAT_PLAY, STAT_REJECT, STAT_SEEK, STAT_STANDBY,
    STAT_TRANS,
};
use saturn::disc::{Disc, FAD_OFFSET};

#[test]
fn power_on_presents_cdblock_signature() {
    let mut c = CdBlock::new();
    assert_eq!(c.read16(0x0018), b'C' as u16);
    assert_eq!(c.read16(0x001C), ((b'D' as u16) << 8) | b'B' as u16);
    assert_eq!(c.read16(0x0020), ((b'L' as u16) << 8) | b'O' as u16);
    assert_eq!(c.read16(0x0024), ((b'C' as u16) << 8) | b'K' as u16);
}

#[test]
fn registers_alias_both_halfwords_of_their_slot() {
    let mut c = CdBlock::new();
    assert_eq!(c.read16(0x0018), c.read16(0x001A));
    assert_eq!(c.read16(0x0008), c.read16(0x000A));
}

#[test]
fn read32_duplicates_the_register_in_both_halves() {
    let mut c = CdBlock::new();
    let cr1 = c.read16(0x0018) as u32;
    assert_eq!(c.read32(0x0018), (cr1 << 16) | cr1);
}

#[test]
fn hirq_is_write_and_to_clear() {
    let mut c = CdBlock::new();
    c.hirq = HIRQ_CMOK | HIRQ_DRDY | HIRQ_DCHG | HIRQ_MPED;
    c.write16(0x0008, !HIRQ_CMOK);
    assert_eq!(c.hirq, HIRQ_DRDY | HIRQ_DCHG | HIRQ_MPED);
    c.write16(0x0008, 0xFFFF);
    assert_eq!(c.hirq, HIRQ_DRDY | HIRQ_DCHG | HIRQ_MPED);
    c.write16(0x0008, !HIRQ_MPED);
    assert_eq!(c.hirq & HIRQ_MPED, HIRQ_MPED, "MPED stays set (no MPEG)");
}

#[test]
fn get_status_command_returns_no_disc_report_and_cmok() {
    let mut c = CdBlock::new();
    c.hirq = 0;
    c.write16(0x0018, 0x0000);
    c.write16(0x001C, 0x0000);
    c.write16(0x0020, 0x0000);
    c.write16(0x0024, 0x0000);
    assert_eq!(c.hirq & HIRQ_CMOK, HIRQ_CMOK);
    assert_eq!(c.read16(0x0018), 0x0700);
    assert_eq!(c.read16(0x001C), 0x0000);
    assert_eq!(c.read16(0x0020), 0x0000);
    assert_eq!(c.read16(0x0024), 0x0000);
}

#[test]
fn signature_held_until_first_command() {
    let mut c = CdBlock::new();
    for _ in 0..10 {
        c.tick(PERIODIC_CYCLES);
    }
    assert_eq!(c.read16(0x0018), b'C' as u16);
    assert_eq!(c.read16(0x001C), ((b'D' as u16) << 8) | b'B' as u16);
    assert_eq!(c.read16(0x0020), ((b'L' as u16) << 8) | b'O' as u16);
    assert_eq!(c.read16(0x0024), ((b'C' as u16) << 8) | b'K' as u16);
    assert_eq!(
        c.read16(0x0018) >> 8,
        0,
        "CR1 status byte still 0 (no PERI)"
    );
}

fn activated() -> CdBlock {
    let mut c = CdBlock::new();
    c.write16(0x0018, 0x0000);
    c.write16(0x001C, 0x0000);
    c.write16(0x0020, 0x0000);
    c.write16(0x0024, 0x0000);
    let _ = c.read16(0x0024);
    c
}

#[test]
fn periodic_fires_after_the_first_command() {
    let mut c = activated();
    c.tick(PERIODIC_CYCLES);
    assert_eq!(c.read16(0x0018) >> 8, (STAT_NODISC | STAT_PERI) as u16);
    assert_eq!(c.hirq & HIRQ_SCDQ, HIRQ_SCDQ);
}

#[test]
fn periodic_report_only_fires_once_the_interval_elapses() {
    let mut c = activated();
    let cr1_cmd = c.read16(0x0018);
    c.tick(PERIODIC_CYCLES - 1);
    assert_eq!(c.read16(0x0018), cr1_cmd);
    c.tick(1);
    assert_eq!(c.read16(0x0018) >> 8, (STAT_NODISC | STAT_PERI) as u16);
}

#[test]
fn periodic_cadence_is_independent_of_tick_granularity() {
    let mut fine = activated();
    let step = PERIODIC_CYCLES / 263;
    let mut acc = 0;
    while acc < PERIODIC_CYCLES {
        fine.tick(step);
        acc += step;
    }
    assert_eq!(fine.read16(0x0018) >> 8, (STAT_NODISC | STAT_PERI) as u16);
    assert_eq!(fine.hirq & HIRQ_SCDQ, HIRQ_SCDQ);
}

#[test]
fn periodic_tick_is_suppressed_while_a_command_response_is_unread() {
    let mut c = CdBlock::new();
    c.write16(0x0018, 0x0000);
    c.write16(0x001C, 0x0000);
    c.write16(0x0020, 0x0000);
    c.write16(0x0024, 0x0000);
    let cr1_after_cmd = c.read16(0x0018);
    c.tick(PERIODIC_CYCLES);
    assert_eq!(
        c.read16(0x0018),
        cr1_after_cmd,
        "response held until CR4 read"
    );
    let _ = c.read16(0x0024);
    c.tick(PERIODIC_CYCLES);
    assert_eq!(c.read16(0x0018) >> 8, (STAT_NODISC | STAT_PERI) as u16);
}

#[test]
fn get_hardware_info_reports_drive_revision() {
    let mut c = CdBlock::new();
    c.write16(0x0018, 0x0100);
    c.write16(0x001C, 0x0000);
    c.write16(0x0020, 0x0000);
    c.write16(0x0024, 0x0000);
    assert_eq!(c.read16(0x001C), 0x0002);
    assert_eq!(c.read16(0x0024), 0x0600);
    assert_eq!(c.hirq & HIRQ_CMOK, HIRQ_CMOK);
}

#[test]
fn initialize_cd_system_sets_esel_and_cmok() {
    let mut c = CdBlock::new();
    c.write16(0x0018, 0x0400);
    c.write16(0x001C, 0x0000);
    c.write16(0x0020, 0x0000);
    c.write16(0x0024, 0x0000);
    assert_eq!(c.hirq & (HIRQ_CMOK | HIRQ_ESEL), HIRQ_CMOK | HIRQ_ESEL);
}

#[test]
fn data_fifo_region_reads_zero() {
    let mut c = CdBlock::new();
    assert_eq!(c.read16(0x8000), 0);
    assert_eq!(c.read32(0x9000), 0);
}

fn iso_disc() -> Disc {
    Disc::from_iso(vec![0u8; 2048 * 4])
}

fn audio_disc() -> Disc {
    let mut bin = vec![0u8; 2352 * 2];
    bin[0..2].copy_from_slice(&0x1234i16.to_le_bytes());
    bin[2..4].copy_from_slice(&(-2i16).to_le_bytes());
    Disc::from_cue(
        "FILE \"a.bin\" BINARY\n  TRACK 01 AUDIO\n    INDEX 01 00:00:00\n",
        |_| Some(bin.clone()),
    )
    .expect("audio cue")
}

#[test]
fn cdda_audio_track_decodes_to_stereo_pcm() {
    let mut c = CdBlock::new();
    c.insert_disc(audio_disc());
    c.pos.status = STAT_PLAY;
    c.pos.cd_curfad = FAD_OFFSET;
    c.drive.fadstoplay = 2;
    c.play_data();
    let pcm = c.take_cd_audio(1176);
    assert_eq!(pcm.len(), 1176);
    assert_eq!(pcm[0], 0x1234, "left, frame 0");
    assert_eq!(pcm[1], -2, "right, frame 0");
    assert!(!c.buf.sectorstore);
}

#[test]
fn take_cd_audio_pads_with_silence_when_empty() {
    let mut c = CdBlock::new();
    assert_eq!(c.take_cd_audio(8), vec![0i16; 8]);
}

#[test]
fn insert_disc_flags_change_and_reports_real_geometry() {
    let mut c = CdBlock::new();
    c.hirq = 0;
    c.link.host_initialized = true;
    c.insert_disc(iso_disc());
    assert!(c.has_disc());
    assert_eq!(c.hirq & HIRQ_DCHG, HIRQ_DCHG, "disc change flagged");
    c.write16(0x0018, 0x0000);
    c.write16(0x001C, 0x0000);
    c.write16(0x0020, 0x0000);
    c.write16(0x0024, 0x0000);
    assert_eq!(
        c.read16(0x0018),
        0x0000,
        "BUSY status (recognition spin-up), is_cdrom=0 (no read yet)"
    );
    assert_eq!(c.read16(0x001C), 0x4101, "ctrl/adr 0x41, track 1");
    assert_eq!(c.read16(0x0020), 0x0100, "index 1, FAD hi 0");
    assert_eq!(c.read16(0x0024), 0x0096, "FAD 150");
    c.pos.cd_curfad = FAD_OFFSET;
    c.drive.fadstoplay = 1;
    c.pos.status = STAT_PLAY;
    c.play_data();
    assert!(c.pos.is_cdrom, "is_cdrom set after reading a data sector");
    c.write16(0x0018, 0x0000);
    c.write16(0x001C, 0x0000);
    c.write16(0x0020, 0x0000);
    c.write16(0x0024, 0x0000);
    assert_eq!(
        c.read16(0x0018) & 0x0080,
        0x0080,
        "is_cdrom bit now reported"
    );
}

#[test]
fn get_toc_streams_the_toc_through_the_fifo() {
    let mut c = CdBlock::new();
    c.insert_disc(iso_disc());
    c.write16(0x0018, 0x0200);
    c.write16(0x001C, 0x0000);
    c.write16(0x0020, 0x0000);
    c.write16(0x0024, 0x0000);
    assert_eq!(c.read16(0x001C), 0x00CC, "TOC length = 102 words");
    assert_eq!(c.hirq & HIRQ_DRDY, HIRQ_DRDY, "data ready");
    assert_eq!(c.read16(0x8000), 0x4100);
    assert_eq!(c.read16(0x8000), 0x0096);
    for _ in 2..198 {
        let _ = c.read16(0x8000);
    }
    assert_eq!(c.read16(0x8000), 0x4101, "first-track meta: ctrl 0x41, #1");
}

#[test]
fn get_session_returns_the_lead_out_fad() {
    let mut c = CdBlock::new();
    c.insert_disc(iso_disc());
    c.write16(0x0018, 0x0300);
    c.write16(0x001C, 0x0000);
    c.write16(0x0020, 0x0000);
    c.write16(0x0024, 0x0000);
    assert_eq!(c.read16(0x0020), 0x0100, "1 session, lead-out FAD hi 0");
    assert_eq!(c.read16(0x0024), 154, "lead-out FAD 154");
}

fn cmd(c: &mut CdBlock, cr1: u16, cr2: u16, cr3: u16, cr4: u16) {
    c.write16(0x0018, cr1);
    c.write16(0x001C, cr2);
    c.write16(0x0020, cr3);
    c.write16(0x0024, cr4);
}

#[test]
fn set_and_get_filter_range_round_trips() {
    let mut c = CdBlock::new();
    cmd(&mut c, 0x4001, 0x2345, 0x0200, 0x0678);
    assert_eq!(c.buf.filters[2].fad, 0x01_2345);
    assert_eq!(c.buf.filters[2].range, 0x00_0678);
    assert_eq!(c.hirq & HIRQ_ESEL, HIRQ_ESEL);
}

#[test]
fn set_and_get_filter_subheader_and_mode() {
    let mut c = CdBlock::new();
    cmd(&mut c, 0x4205, 0x1122, 0x0133, 0x4455);
    assert_eq!(c.buf.filters[1].chan, 0x05);
    assert_eq!(c.buf.filters[1].smmask, 0x11);
    assert_eq!(c.buf.filters[1].cimask, 0x22);
    assert_eq!(c.buf.filters[1].fid, 0x33);
    assert_eq!(c.buf.filters[1].smval, 0x44);
    assert_eq!(c.buf.filters[1].cival, 0x55);
    cmd(&mut c, 0x4300, 0x0000, 0x0100, 0x0000);
    assert_eq!(c.read16(0x0018) & 0xFF, 0x05);
    assert_eq!(c.read16(0x001C), 0x1122);
    cmd(&mut c, 0x4407, 0x0000, 0x0100, 0x0000);
    assert_eq!(c.buf.filters[1].mode, 0x07);
    cmd(&mut c, 0x4500, 0x0000, 0x0100, 0x0000);
    assert_eq!(c.read16(0x0018) & 0xFF, 0x07);
}

#[test]
fn cd_device_connection_round_trips() {
    let mut c = CdBlock::new();
    cmd(&mut c, 0x3000, 0x0000, 0x0300, 0x0000);
    assert_eq!(c.buf.cd_device_filter, 3);
    cmd(&mut c, 0x3100, 0x0000, 0x0000, 0x0000);
    assert_eq!(c.read16(0x0020) >> 8, 3);
}

#[test]
fn get_buffer_size_reports_the_full_pool_when_idle() {
    let mut c = CdBlock::new();
    cmd(&mut c, 0x5000, 0x0000, 0x0000, 0x0000);
    assert_eq!(c.read16(0x001C), MAX_BLOCKS as u16, "all blocks free");
    assert_eq!(c.read16(0x0024), MAX_BLOCKS as u16, "total blocks");
}

#[test]
fn reset_selector_clears_filters_and_get_sector_info_rejects_when_empty() {
    let mut c = CdBlock::new();
    c.buf.filters[0].fad = 0x1234;
    cmd(&mut c, 0x4810, 0x0000, 0x0000, 0x0000);
    assert_eq!(c.buf.filters[0].fad, 0, "filter FAD reset");
    assert_eq!(c.buf.filters[0].range, 0xFFFF_FFFF, "filter range reset to all");
    cmd(&mut c, 0x5400, 0x0000, 0x0000, 0x0000);
    assert_eq!(c.read16(0x0018) & STAT_REJECT, STAT_REJECT);
}

fn data_disc() -> Disc {
    let mut img = vec![0u8; 2048 * 4];
    img[0..4].copy_from_slice(&[0xDE, 0xAD, 0xBE, 0xEF]);
    img[2048..2052].copy_from_slice(&[0x12, 0x34, 0x56, 0x78]);
    Disc::from_iso(img)
}

fn play(c: &mut CdBlock, fad: u32, count: u32) {
    cmd(c, 0x3000, 0, 0x0000, 0);
    let start = 0x80_0000 | fad;
    let end = 0x80_0000 | count;
    cmd(
        c,
        0x1000 | ((start >> 16) & 0xFF) as u16,
        (start & 0xFFFF) as u16,
        ((end >> 16) & 0xFF) as u16,
        (end & 0xFFFF) as u16,
    );
}

fn pump(c: &mut CdBlock) {
    c.tick(12_000_000);
}

#[test]
fn set_sector_length_decodes_size_codes() {
    let mut c = CdBlock::new();
    cmd(&mut c, 0x6003, 0x0300, 0x0000, 0x0000);
    assert_eq!(c.buf.sectlenin, 2352);
    assert_eq!(c.buf.sectlenout, 2352);
    cmd(&mut c, 0x6000, 0x0000, 0x0000, 0x0000);
    assert_eq!(c.buf.sectlenin, 2048);
}

#[test]
fn play_pumps_sectors_into_a_partition_then_streams_the_data_port() {
    let mut c = CdBlock::new();
    c.insert_disc(data_disc());
    play(&mut c, 150, 2);
    pump(&mut c);
    assert_eq!(c.buf.partitions[0].blocks.len(), 2, "two sectors buffered");
    assert_eq!(
        c.pos.status & !STAT_PERI,
        STAT_PAUSE,
        "paused after the read range"
    );
    assert_eq!(c.hirq & HIRQ_PEND, HIRQ_PEND, "PEND on range complete");
    cmd(&mut c, 0x6100, 0x0000, 0x0000, 0x0002);
    assert_eq!(c.hirq & HIRQ_DRDY, HIRQ_DRDY, "data ready");
    assert_eq!(c.read32(0x8000), 0xDEAD_BEEF);
    for _ in 1..512 {
        let _ = c.read32(0x8000);
    }
    assert_eq!(c.read32(0x8000), 0x1234_5678, "second sector");
}

#[test]
fn get_and_delete_sector_data_frees_the_blocks_when_drained() {
    let mut c = CdBlock::new();
    c.insert_disc(data_disc());
    play(&mut c, 150, 1);
    pump(&mut c);
    assert_eq!(c.buf.partitions[0].blocks.len(), 1);
    let free_before = c.buf.free_blocks;
    cmd(&mut c, 0x6300, 0x0000, 0x0000, 0x0001);
    for _ in 0..512 {
        let _ = c.read32(0x8000);
    }
    let _ = c.read32(0x8000);
    assert!(c.buf.partitions[0].blocks.is_empty(), "partition emptied");
    assert_eq!(c.buf.free_blocks, free_before + 1, "block returned to the pool");
}

#[test]
fn end_data_transfer_frees_a_get_and_delete_that_was_not_over_read() {
    let mut c = CdBlock::new();
    c.insert_disc(data_disc());
    play(&mut c, 150, 1);
    pump(&mut c);
    assert_eq!(c.buf.partitions[0].blocks.len(), 1);
    let free_before = c.buf.free_blocks;
    cmd(&mut c, 0x6300, 0x0000, 0x0000, 0x0001);
    for _ in 0..512 {
        let _ = c.read32(0x8000);
    }
    assert_eq!(
        c.buf.partitions[0].blocks.len(),
        1,
        "still buffered before EndXfer"
    );
    cmd(&mut c, 0x0600, 0x0000, 0x0000, 0x0000);
    assert!(c.buf.partitions[0].blocks.is_empty(), "EndXfer freed the block");
    assert_eq!(c.buf.free_blocks, free_before + 1, "block returned to the pool");
}

fn fs_disc() -> Disc {
    let mut img = vec![0u8; 2048 * 21];
    let put = |img: &mut [u8], off: usize, v: u32| {
        img[off..off + 4].copy_from_slice(&v.to_le_bytes());
    };
    let pvd = 16 * 2048;
    img[pvd] = 1;
    img[pvd + 1..pvd + 6].copy_from_slice(b"CD001");
    let r = pvd + 156;
    img[r] = 34;
    put(&mut img, r + 2, 17);
    put(&mut img, r + 10, 2048);
    img[r + 25] = 0x02;
    img[r + 32] = 1;
    let d = 17 * 2048;
    img[d] = 34;
    put(&mut img, d + 2, 17);
    put(&mut img, d + 10, 2048);
    img[d + 25] = 0x02;
    img[d + 32] = 1;
    img[d + 34] = 34;
    put(&mut img, d + 36, 17);
    put(&mut img, d + 44, 2048);
    img[d + 59] = 0x02;
    img[d + 66] = 1;
    img[d + 67] = 0x01;
    img[d + 68] = 34;
    put(&mut img, d + 70, 20);
    put(&mut img, d + 78, 2048);
    img[d + 93] = 0x00;
    img[d + 100] = 1;
    img[d + 101] = b'X';
    img[20 * 2048..20 * 2048 + 4].copy_from_slice(&[0xCA, 0xFE, 0xBA, 0xBE]);
    Disc::from_iso(img)
}

#[test]
fn iso9660_change_dir_lists_files_and_read_file_streams_content() {
    let mut c = CdBlock::new();
    c.insert_disc(fs_disc());
    cmd(&mut c, 0x7000, 0x0000, 0x00FF, 0xFFFF);
    assert_eq!(c.files.numfiles, 3, ". / .. / one file");
    assert_eq!(c.files.firstfile, 2, "first non-directory entry");
    cmd(&mut c, 0x7200, 0, 0, 0);
    assert_eq!(c.read16(0x001C), 3);
    assert_eq!(c.read16(0x0024), 2);
    cmd(&mut c, 0x7300, 0x0000, 0x0000, 0x0002);
    assert_eq!(c.read16(0x8000), 0x0000);
    assert_eq!(c.read16(0x8000), 0x00AA);
    assert_eq!(c.read16(0x8000), 0x0000);
    assert_eq!(c.read16(0x8000), 0x0800);
    cmd(&mut c, 0x7400, 0x0000, 0x0000, 0x0002);
    pump(&mut c);
    assert_eq!(c.buf.partitions[0].blocks.len(), 1, "file sector buffered");
    cmd(&mut c, 0x6100, 0x0000, 0x0000, 0x0001);
    assert_eq!(c.read32(0x8000), 0xCAFE_BABE, "file content streamed");
}

#[test]
fn authentication_and_disc_region() {
    let mut c = CdBlock::new();
    cmd(&mut c, 0xE100, 0x0000, 0, 0);
    assert_eq!(c.read16(0x001C), 0x0000, "no disc → region 0");
    c.insert_disc(iso_disc());
    cmd(&mut c, 0xE000, 0x0000, 0, 0);
    assert_eq!(
        c.hirq, 0x0FC5,
        "authentication HIRQ pattern (0x07C5 | MPED)"
    );
    assert_ne!(c.hirq & 0x0100, 0, "ECPY (authentication done)");
    cmd(&mut c, 0xE100, 0x0000, 0, 0);
    assert_eq!(c.read16(0x001C), 0x0004, "Saturn data-disc region");
}

#[test]
fn no_disc_commands_unchanged() {
    let mut c = CdBlock::new();
    c.write16(0x0018, 0x0000);
    c.write16(0x001C, 0x0000);
    c.write16(0x0020, 0x0000);
    c.write16(0x0024, 0x0000);
    assert_eq!(c.read16(0x001C), 0x0000);
    assert_eq!(c.read16(0x0024), 0x0000);
}

#[test]
fn get_sector_data_rejects_offset_plus_count_past_partition() {
    let mut c = CdBlock::new();
    c.buf.partitions[0].blocks = vec![0, 1, 2];
    c.hirq = 0;
    c.write16(0x0018, 0x6100);
    c.write16(0x001C, 2);
    c.write16(0x0020, 0x0000);
    c.write16(0x0024, 3);
    assert_eq!(
        c.cr1, STAT_REJECT,
        "offset+count past the partition rejected"
    );
    assert!(c.port.xfer32.is_none(), "no transfer armed on reject");
}

#[test]
fn get_sector_data_ffff_count_is_remaining_from_offset() {
    let mut c = CdBlock::new();
    c.buf.partitions[0].blocks = vec![0, 1, 2, 3, 4];
    c.write16(0x0018, 0x6100);
    c.write16(0x001C, 2);
    c.write16(0x0020, 0x0000);
    c.write16(0x0024, 0xFFFF);
    let x = c.port.xfer32.as_ref().expect("transfer armed");
    assert_eq!(x.pos, 2);
    assert_eq!(x.num, 3, "0xFFFF count = avail (5) - offset (2)");
    assert!(c.cr1 & STAT_TRANS != 0, "transfer-pending status set");
}

#[test]
fn seek_disc_fad_form_positions_the_head_and_pauses() {
    let mut c = CdBlock::new();
    c.insert_disc(iso_disc());
    c.drive.phase = DrivePhase::Idle;
    cmd(&mut c, 0x1180, 0x0200, 0x0000, 0x0000);
    assert_eq!(c.pos.status & !STAT_PERI, STAT_PAUSE, "FAD seek pauses");
    assert_eq!(c.pos.cd_curfad, 0x0200, "head positioned at the requested FAD");
    assert_eq!(c.hirq & HIRQ_CMOK, HIRQ_CMOK);
}

#[test]
fn seek_disc_fad_ffffff_is_pause_in_place() {
    let mut c = CdBlock::new();
    c.insert_disc(iso_disc());
    c.drive.phase = DrivePhase::Idle;
    c.pos.cd_curfad = 0x0345;
    cmd(&mut c, 0x11FF, 0xFFFF, 0x0000, 0x0000);
    assert_eq!(c.pos.status & !STAT_PERI, STAT_PAUSE, "pause in place");
    assert_eq!(c.pos.cd_curfad, 0x0345, "head position preserved (no re-seek)");
}

#[test]
fn seek_disc_track_form_sets_track_and_pauses() {
    let mut c = CdBlock::new();
    c.insert_disc(iso_disc());
    c.drive.phase = DrivePhase::Idle;
    cmd(&mut c, 0x1100, 0x0500, 0x0000, 0x0000);
    assert_eq!(c.pos.status & !STAT_PERI, STAT_PAUSE, "track seek pauses");
    assert_eq!(c.pos.track, 5, "track set from CR2 high byte");
}

#[test]
fn seek_disc_stop_form_goes_standby_with_stopped_geometry() {
    let mut c = CdBlock::new();
    c.insert_disc(iso_disc());
    c.drive.phase = DrivePhase::Idle;
    cmd(&mut c, 0x1100, 0x0000, 0x0000, 0x0000);
    assert_eq!(c.pos.status & !STAT_PERI, STAT_STANDBY, "Stop → STANDBY");
    assert_eq!(c.pos.cd_curfad, 0xFFFF_FFFF, "head FAD sentinel");
    assert_eq!(c.pos.track, 0xFF);
    assert_eq!(c.pos.ctrladdr, 0xFF);
    assert_eq!(c.pos.index, 0xFF);
    assert_eq!(c.pos.repcnt, 0x7F);
    assert_eq!(c.read16(0x001C), 0xFFFF, "CR2 ctrl/track sentinel");
    assert_eq!(c.read16(0x0020), 0xFFFF, "CR3 index/FAD-hi sentinel");
    assert_eq!(c.read16(0x0024), 0xFFFF, "CR4 FAD-lo sentinel");
}

#[test]
fn get_last_buffer_destination_reports_the_last_routed_partition() {
    let mut c = CdBlock::new();
    c.insert_disc(data_disc());
    play(&mut c, 150, 1);
    pump(&mut c);
    assert_eq!(c.buf.last_buffer, 0, "filtered sector latched partition 0");
    cmd(&mut c, 0x3200, 0x0000, 0x0000, 0x0000);
    assert_eq!(c.read16(0x0020) >> 8, 0, "last buffer in CR3 high byte");
    assert_eq!(c.hirq & HIRQ_CMOK, HIRQ_CMOK);
}

#[test]
fn set_filter_connection_sets_true_and_false_conditions() {
    let mut c = CdBlock::new();
    cmd(&mut c, 0x4603, 0x0709, 0x0200, 0x0000);
    assert_eq!(c.buf.filters[2].condtrue, 7, "true connector set");
    assert_eq!(c.buf.filters[2].condfalse, 9, "false connector set");
    assert_eq!(c.hirq & HIRQ_ESEL, HIRQ_ESEL);
    cmd(&mut c, 0x4601, 0x1100, 0x0200, 0x0000);
    assert_eq!(c.buf.filters[2].condtrue, 0x11, "true connector updated");
    assert_eq!(c.buf.filters[2].condfalse, 9, "false connector untouched");
    cmd(&mut c, 0x4602, 0x0022, 0x0200, 0x0000);
    assert_eq!(c.buf.filters[2].condtrue, 0x11, "true connector untouched");
    assert_eq!(c.buf.filters[2].condfalse, 0x22, "false connector updated");
}

#[test]
fn get_buffer_partition_sector_number_reports_block_count() {
    let mut c = CdBlock::new();
    c.buf.partitions[3].blocks = vec![0, 1, 2, 3];
    cmd(&mut c, 0x5100, 0x0000, 0x0300, 0x0000);
    assert_eq!(c.read16(0x0024), 4, "CR4 = partition block count");
    assert_eq!(c.hirq & HIRQ_CMOK, HIRQ_CMOK);
    cmd(&mut c, 0x5100, 0x0000, 0xFF00, 0x0000);
    assert_eq!(c.read16(0x0024), 0, "invalid partition → 0 count");
}

#[test]
fn calculate_and_get_actual_data_size_sums_block_sizes_in_words() {
    let mut c = CdBlock::new();
    c.buf.blocks[10].size = 2048;
    c.buf.blocks[11].size = 2048;
    c.buf.blocks[12].size = 1024;
    c.buf.partitions[1].blocks = vec![10, 11, 12];
    cmd(&mut c, 0x5200, 0x0000, 0x0100, 0x0003);
    assert_eq!(c.buf.calcsize, 2560);
    assert_eq!(c.hirq & HIRQ_ESEL, HIRQ_ESEL);
    cmd(&mut c, 0x5300, 0x0000, 0x0000, 0x0000);
    assert_eq!(c.read16(0x0018) & 0xFF, 0, "CR1 size hi");
    assert_eq!(c.read16(0x001C), 2560, "CR2 size lo (words)");
    cmd(&mut c, 0x5200, 0x0001, 0x0100, 0x0001);
    assert_eq!(c.buf.calcsize, 1024, "block 11 only = 2048/2 words");
}

#[test]
fn get_copy_move_error_reports_no_error() {
    let mut c = CdBlock::new();
    c.insert_disc(iso_disc());
    cmd(&mut c, 0x6700, 0x0000, 0x0000, 0x0000);
    assert_eq!(c.read16(0x001C), 0x0000, "CR2 = 0 (no error)");
    assert_eq!(c.read16(0x0020), 0x0000, "CR3 = 0");
    assert_eq!(c.read16(0x0024), 0x0000, "CR4 = 0");
    assert_eq!(c.hirq & HIRQ_CMOK, HIRQ_CMOK);
}

#[test]
fn read_directory_connects_the_filter_and_rejects_invalid() {
    let mut c = CdBlock::new();
    cmd(&mut c, 0x7100, 0x0000, 0x0500, 0x0000);
    assert_eq!(c.buf.cd_device_filter, 5, "filter connected for the dir read");
    assert_eq!(c.hirq & HIRQ_EFLS, HIRQ_EFLS);
    cmd(&mut c, 0x7100, 0x0000, 0xFF00, 0x0000);
    assert_eq!(c.buf.cd_device_filter, NO_FILTER, "invalid filter → disconnected");
}

#[test]
fn abort_file_with_disc_pauses_and_clears_xfer() {
    let mut c = CdBlock::new();
    c.insert_disc(data_disc());
    play(&mut c, 150, 2);
    pump(&mut c);
    cmd(&mut c, 0x6100, 0x0000, 0x0000, 0x0002);
    assert!(c.port.xfer32.is_some(), "transfer armed before abort");
    cmd(&mut c, 0x7500, 0x0000, 0x0000, 0x0000);
    assert_eq!(c.pos.status & !STAT_PERI, STAT_PAUSE, "disc present → PAUSE");
    assert!(c.port.xfer32.is_none(), "xfer32 cleared by Abort File");
    assert_eq!(c.drive.fadstoplay, -1, "play range parked (drive idle)");
    assert_eq!(c.hirq & HIRQ_EFLS, HIRQ_EFLS);
}

#[test]
fn abort_file_without_disc_keeps_nodisc() {
    let mut c = CdBlock::new();
    cmd(&mut c, 0x7500, 0x0000, 0x0000, 0x0000);
    assert_eq!(c.pos.status & !STAT_PERI, STAT_NODISC, "no disc → NODISC kept");
    assert!(c.port.xfer32.is_none());
    assert_eq!(c.hirq & (HIRQ_CMOK | HIRQ_EFLS), HIRQ_CMOK | HIRQ_EFLS);
}

#[test]
fn unimplemented_command_returns_a_status_report_and_cmok() {
    let mut c = CdBlock::new();
    c.hirq = 0;
    cmd(&mut c, 0x2100, 0x0000, 0x0000, 0x0000);
    assert_eq!(c.hirq & HIRQ_CMOK, HIRQ_CMOK, "default arm sets CMOK");
    assert_eq!(c.read16(0x0018), 0x0700, "CR1 = NODISC status report");
    assert_eq!(c.read16(0x001C), 0x0000);
    assert_eq!(c.read16(0x0020), 0x0000);
    assert_eq!(c.read16(0x0024), 0x0000);
}

#[test]
fn play_with_repeat_mode_arms_the_repeat_count() {
    let mut c = CdBlock::new();
    c.insert_disc(data_disc());
    cmd(&mut c, 0x1080, 150, 0x0380, 0x0002);
    assert_eq!(c.drive.play_repeat, 0x03, "repeat field decoded from play-mode");
    assert_eq!(c.drive.play_end & 0x7F_FFFF, 150 + 2, "end = start + count");
    assert_eq!(c.hirq & HIRQ_CMOK, HIRQ_CMOK);
}

#[test]
fn play_ffffff_reuses_the_prior_play_position() {
    let mut c = CdBlock::new();
    c.insert_disc(data_disc());
    cmd(&mut c, 0x1080, 150, 0x0080, 0x0002);
    let prior_start = c.drive.play_start;
    let prior_end = c.drive.play_end;
    cmd(&mut c, 0x10FF, 0xFFFF, 0x00FF, 0xFFFF);
    assert_eq!(c.drive.play_start, prior_start, "start reused");
    assert_eq!(c.drive.play_end, prior_end, "end reused");
}

#[test]
fn play_after_seek_stop_uses_physical_pickup_as_seek_origin() {
    let mut c = CdBlock::new();
    c.insert_disc(data_disc());
    c.drive.phase = DrivePhase::Idle;
    c.drive.sector = 150;

    cmd(&mut c, 0x1100, 0x0000, 0x0000, 0x0000);
    assert_eq!(c.pos.cd_curfad, 0xFFFF_FFFF, "stopped geometry is visible");
    assert_eq!(c.drive.sector, 150, "physical pickup position is retained");

    play(&mut c, 150, 2);
    pump(&mut c);
    assert_eq!(c.buf.partitions[0].blocks.len(), 2, "Play completes after stop");
    assert_eq!(c.pos.status & !STAT_PERI, STAT_PAUSE);
    assert_eq!(c.pos.track, 1, "seek refreshes target track geometry");
    assert_eq!(c.pos.index, 1, "seek refreshes target index geometry");
}

#[test]
fn seek_holds_busy_through_the_seekstart2_settle_before_reporting_seek() {
    let mut c = CdBlock::new();
    c.insert_disc(data_disc());
    c.drive.phase = DrivePhase::Idle;
    c.drive.sector = 150;

    play(&mut c, 151, 1);
    assert_eq!(c.pos.status & !STAT_PERI, STAT_BUSY, "BUSY at Play accept");
    c.tick(cd2m(128_000));
    assert_eq!(c.pos.status & !STAT_PERI, STAT_BUSY, "still BUSY mid-settle");
    c.tick(cd2m(256_000));
    assert_eq!(c.pos.status & !STAT_PERI, STAT_SEEK, "SEEK only after the settle");
    pump(&mut c);
    assert_eq!(c.buf.partitions[0].blocks.len(), 1, "sector buffered");
    assert_eq!(c.pos.status & !STAT_PERI, STAT_PAUSE);
}

#[test]
fn periodic_report_does_not_clobber_a_half_composed_command() {
    let mut c = CdBlock::new();
    c.insert_disc(data_disc());
    c.drive.phase = DrivePhase::Idle;
    cmd(&mut c, 0x0000, 0x0000, 0x0000, 0x0000);
    let _ = c.read16(0x0024);

    c.write16(0x0018, 0x2000);
    c.tick(cd2m(500_000));
    assert_eq!(c.cr1, 0x2000, "periodic must not overwrite the pending CR1");

    c.write16(0x001C, 0x0000);
    c.write16(0x0020, 0x0000);
    c.write16(0x0024, 0x0000);
    assert_eq!(c.cr2, 0x0005, "the intended GetSubcodeQ executed (5 words)");
    assert_eq!(c.cr1 & STAT_TRANS, STAT_TRANS, "subcode staged for transfer");
}

#[test]
fn get_subcode_q_stages_the_head_position_for_fifo_read() {
    let mut c = CdBlock::new();
    c.insert_disc(data_disc());
    play(&mut c, 150, 2);
    pump(&mut c);
    let fad = c.pos.cd_curfad;
    let rel = fad - 150;

    cmd(&mut c, 0x2000, 0x0000, 0x0000, 0x0000);
    assert_eq!(c.cr1 & STAT_TRANS, STAT_TRANS, "DTREQ in the status");
    assert_eq!(c.cr2, 0x0005, "5 words of subcode Q");
    assert_eq!(c.hirq & HIRQ_DRDY, HIRQ_DRDY, "data ready");
    assert_eq!(c.read16(0x8000), 0x4101, "ctrl/adr 0x41, track 1");
    assert_eq!(c.read16(0x8000), 0x0100 | ((rel >> 16) & 0xFF) as u16, "index 1 + rel hi");
    assert_eq!(c.read16(0x8000), (rel & 0xFFFF) as u16, "rel-FAD");
    assert_eq!(c.read16(0x8000), ((fad >> 16) & 0xFF) as u16, "abs hi");
    assert_eq!(c.read16(0x8000), (fad & 0xFFFF) as u16, "abs-FAD");
    cmd(&mut c, 0x0600, 0x0000, 0x0000, 0x0000);
    assert_eq!(c.cr2, 5, "host read 5 words");

    cmd(&mut c, 0x2002, 0x0000, 0x0000, 0x0000);
    assert_eq!(c.cr1, STAT_REJECT, "subcode type >= 2 rejected");
}

#[test]
fn play_track_index_form_seeks_to_the_track_and_loops_its_audio() {
    let mut bin = vec![0u8; 2352 * 8];
    bin[2352 * 4..2352 * 4 + 2].copy_from_slice(&0x4321i16.to_le_bytes());
    let disc = Disc::from_cue(
        "FILE \"a.bin\" BINARY\n  TRACK 01 MODE1/2352\n    INDEX 01 00:00:00\n  TRACK 02 AUDIO\n    INDEX 01 00:00:04\n",
        |_| Some(bin.clone()),
    )
    .expect("cue");
    let mut c = CdBlock::new();
    c.insert_disc(disc);
    c.drive.phase = DrivePhase::Idle;
    c.drive.sector = 150;
    cmd(&mut c, 0x1000, 0x0201, 0x0F00, 0x0263);
    assert_ne!(c.cr1, STAT_REJECT, "consistent track forms accepted");
    pump(&mut c);
    assert!(c.pos.cd_curfad >= 154, "head in the audio track (FAD {})", c.pos.cd_curfad);
    assert_ne!(c.pos.status & !STAT_PERI, STAT_PAUSE, "repeat ∞ never pauses");
    let pcm = c.take_cd_audio(2);
    assert_eq!(pcm[0], 0x4321, "track 2 PCM streamed to the CD-DA mixer");
}

#[test]
fn play_with_mixed_fad_and_track_forms_is_rejected() {
    let mut c = CdBlock::new();
    c.insert_disc(data_disc());
    c.drive.phase = DrivePhase::Idle;
    let prev_end = c.drive.play_end;
    cmd(&mut c, 0x1080, 0x0E01, 0x0F00, 0x0E63);
    assert_eq!(c.cr1, STAT_REJECT, "mixed forms rejected");
    assert_eq!(c.drive.play_end, prev_end, "play state untouched");
    assert_eq!(c.drive.phase, DrivePhase::Idle, "no seek started");
}

#[test]
fn get_file_info_whole_directory_form() {
    let mut c = CdBlock::new();
    c.insert_disc(fs_disc());
    cmd(&mut c, 0x7000, 0x0000, 0x00FF, 0xFFFF);
    cmd(&mut c, 0x7300, 0x0000, 0x00FF, 0xFFFF);
    assert_eq!(c.read16(0x001C), 0x05F4, "whole-directory word count");
    assert!(c.port.transfer_request, "transfer pending");
    assert_eq!(c.hirq & HIRQ_DRDY, HIRQ_DRDY);
}

#[test]
fn get_file_info_for_a_valid_id_stages_a_12_byte_record() {
    let mut c = CdBlock::new();
    c.insert_disc(fs_disc());
    cmd(&mut c, 0x7000, 0x0000, 0x00FF, 0xFFFF);
    cmd(&mut c, 0x7300, 0x0000, 0x0000, 0x0002);
    assert_eq!(c.read16(0x001C), 6, "CR2 = 6 words for a single file");
    assert_eq!(c.read16(0x8000), 0x0000, "FAD hi");
    assert_eq!(c.read16(0x8000), 0x00AA, "FAD lo = 170");
    assert_eq!(c.read16(0x8000), 0x0000, "length hi");
    assert_eq!(c.read16(0x8000), 0x0800, "length lo = 2048");
    let _gap_unit = c.read16(0x8000);
    assert_eq!(c.read16(0x8000) >> 8, 2, "id byte = 2");
}

#[test]
fn read_file_with_invalid_id_just_reports_status() {
    let mut c = CdBlock::new();
    c.insert_disc(fs_disc());
    c.drive.phase = DrivePhase::Idle;
    cmd(&mut c, 0x7000, 0x0000, 0x00FF, 0xFFFF);
    cmd(&mut c, 0x7400, 0x0000, 0x0000, 0x0063);
    assert_eq!(c.drive.fadstoplay, -1, "no read range armed for an invalid id");
    assert_eq!(c.hirq & (HIRQ_CMOK | HIRQ_EHST), HIRQ_CMOK | HIRQ_EHST);
}

#[test]
fn data_fifo_streams_a_staged_transfer_word_by_word_big_endian() {
    let mut c = CdBlock::new();
    c.insert_disc(fs_disc());
    cmd(&mut c, 0x7000, 0x0000, 0x00FF, 0xFFFF);
    cmd(&mut c, 0x7300, 0x0000, 0x0000, 0x0002);
    assert_eq!(c.read16(0x8000), 0x0000);
    assert_eq!(c.read16(0x8000), 0x00AA);
    assert_eq!(c.port.xfer_pos, 4, "two 16-bit reads consumed four bytes");
    assert_eq!(c.port.xfer_done, 4);
    for _ in 0..20 {
        let _ = c.read16(0x8000);
    }
    assert_eq!(c.port.xfer_pos, c.port.xfer.len(), "cursor clamps at the buffer end");
    assert_eq!(c.read16(0x8000), 0x0000, "past-end reads return 0");
}

#[test]
fn take_cd_audio_buffered_holds_silence_until_preroll_then_drains() {
    let mut c = CdBlock::new();
    c.insert_disc(audio_disc());
    c.pos.status = STAT_PLAY;
    c.pos.cd_curfad = FAD_OFFSET;
    for _ in 0..50 {
        c.pos.cd_curfad = FAD_OFFSET;
        c.drive.fadstoplay = 1;
        c.pos.status = STAT_PLAY;
        c.play_data();
    }
    assert!(
        c.audio.fifo.len() >= 44_100,
        "buffered past the pre-roll cushion"
    );
    let out = c.take_cd_audio_buffered(1176);
    assert!(c.audio.primed, "primed once the cushion was reached");
    assert!(out.iter().any(|&s| s != 0), "drained real PCM, not silence");
}

#[test]
fn take_cd_audio_buffered_returns_silence_below_preroll() {
    let mut c = CdBlock::new();
    let out = c.take_cd_audio_buffered(64);
    assert_eq!(out, vec![0i16; 64], "no cushion yet → silence");
    assert!(!c.audio.primed, "still un-primed below the pre-roll");
}

#[test]
fn dbg_play_cdda_arms_a_play_over_the_given_range() {
    let mut c = CdBlock::new();
    c.insert_disc(audio_disc());
    c.dbg_play_cdda(FAD_OFFSET, 2);
    assert_eq!(
        c.drive.play_start, 0x80_0000 | FAD_OFFSET,
        "play start armed (FAD-addressed)"
    );
    assert_eq!(c.drive.play_end, 0x80_0000 | (FAD_OFFSET + 2), "play end armed");
    assert_eq!(c.drive.end_irq, HIRQ_PEND, "PEND at range end");
    assert_eq!(c.drive.phase, DrivePhase::SeekStart, "seek started");
}

#[test]
fn dbg_play_first_audio_track_finds_and_plays_the_audio_track() {
    let mut c = CdBlock::new();
    c.insert_disc(audio_disc());
    assert!(c.dbg_play_first_audio_track(), "found the audio track");
    assert_eq!(c.drive.play_start, 0x80_0000 | FAD_OFFSET);
    assert_eq!(c.drive.phase, DrivePhase::SeekStart, "seek started");
    pump(&mut c);
    assert!(!c.audio.fifo.is_empty(), "CDDA decoded to the audio FIFO");
    let mut d = CdBlock::new();
    d.insert_disc(iso_disc());
    assert!(!d.dbg_play_first_audio_track(), "no audio track on a data disc");
}

#[test]
fn reset_selector_single_partition_clears_just_that_buffer() {
    let mut c = CdBlock::new();
    c.buf.blocks[5].size = 2048;
    c.buf.blocks[6].size = 2048;
    c.buf.partitions[2].blocks = vec![5];
    c.buf.partitions[3].blocks = vec![6];
    c.buf.free_blocks = MAX_BLOCKS as i32 - 2;
    cmd(&mut c, 0x4800, 0x0000, 0x0200, 0x0000);
    assert!(c.buf.partitions[2].blocks.is_empty(), "partition 2 cleared");
    assert_eq!(c.buf.partitions[3].blocks, vec![6], "partition 3 untouched");
    assert_eq!(c.buf.free_blocks, MAX_BLOCKS as i32 - 1, "one block freed");
    assert_eq!(c.hirq & (HIRQ_CMOK | HIRQ_ESEL), HIRQ_CMOK | HIRQ_ESEL);
}

#[test]
fn reset_selector_all_partitions_and_connectors() {
    let mut c = CdBlock::new();
    c.buf.filters[0].condtrue = 7;
    c.buf.filters[0].condfalse = 9;
    c.buf.blocks[1].size = 2048;
    c.buf.partitions[0].blocks = vec![1];
    c.buf.free_blocks = MAX_BLOCKS as i32 - 1;
    cmd(&mut c, 0x48C4, 0x0000, 0x0000, 0x0000);
    assert_eq!(c.buf.filters[0].condtrue, 0, "true connector reset");
    assert_eq!(c.buf.filters[0].condfalse, 0, "false connector reset");
    assert!(c.buf.partitions[0].blocks.is_empty(), "all partitions cleared");
    assert_eq!(c.buf.free_blocks, MAX_BLOCKS as i32, "all blocks freed");
    assert!(!c.buf.buf_full, "buffer-full latch cleared");
}

#[test]
fn get_sector_data_rejects_an_invalid_buffer_number() {
    let mut c = CdBlock::new();
    c.hirq = 0;
    cmd(&mut c, 0x6100, 0x0000, 0xFF00, 0x0001);
    assert_eq!(c.cr1, STAT_REJECT, "invalid buffer rejected");
    assert!(c.port.xfer32.is_none(), "no transfer armed");
    assert_eq!(c.hirq & (HIRQ_CMOK | HIRQ_EHST), HIRQ_CMOK | HIRQ_EHST);
}

#[test]
fn delete_sector_data_rejects_an_empty_or_invalid_partition() {
    let mut c = CdBlock::new();
    c.hirq = 0;
    cmd(&mut c, 0x6200, 0x0000, 0x0000, 0x0001);
    assert_eq!(c.cr1, STAT_REJECT, "empty partition rejected");
    c.buf.blocks[2].size = 2048;
    c.buf.blocks[3].size = 2048;
    c.buf.partitions[1].blocks = vec![2, 3];
    c.buf.free_blocks = MAX_BLOCKS as i32 - 2;
    cmd(&mut c, 0x6200, 0x0000, 0x0100, 0x0001);
    assert_eq!(c.buf.partitions[1].blocks, vec![3], "one block deleted");
    assert_eq!(c.buf.free_blocks, MAX_BLOCKS as i32 - 1, "freed one block");
    assert_eq!(c.hirq & (HIRQ_CMOK | HIRQ_EHST), HIRQ_CMOK | HIRQ_EHST);
}

#[test]
fn byte_access_aliases_the_even_and_odd_halves_of_a_register() {
    let mut c = CdBlock::new();
    assert_eq!(c.read8(0x001C), b'D');
    assert_eq!(c.read8(0x001D), b'B');
    c.write8(0x000C, 0x12);
    c.write8(0x000D, 0x34);
    assert_eq!(c.hirq_mask, 0x1234, "byte writes compose the 16-bit value");
    assert_eq!(c.read8(0x000C), 0x12);
    assert_eq!(c.read8(0x000D), 0x34);
}

#[test]
fn hirq_mask_register_round_trips_and_gates_irq_active() {
    let mut c = CdBlock::new();
    c.hirq = HIRQ_CMOK;
    c.write16(0x000C, 0x0001);
    assert_eq!(c.read16(0x000C), 0x0001);
    assert!(c.irq_active(), "(hirq & mask) != 0 with CMOK unmasked");
    c.write16(0x000C, 0x0000);
    assert!(!c.irq_active(), "masking all bits drops the IRQ level");
}

#[test]
fn read8_of_cr4_consumes_the_pending_command_response() {
    let mut c = CdBlock::new();
    cmd(&mut c, 0x0000, 0x0000, 0x0000, 0x0000);
    assert!(c.link.command_pending, "response pending after a command");
    let _ = c.read8(0x0024);
    assert!(!c.link.command_pending, "reading CR4 consumed the response");
}

#[test]
fn disc_in_the_tray_at_power_on_is_no_change() {
    let mut c = CdBlock::new();
    c.insert_disc(iso_disc());
    assert_eq!(c.hirq & HIRQ_DCHG, 0);
    assert_eq!(c.curfad(), 150);
    let mut c = activated();
    c.insert_disc(iso_disc());
    assert_eq!(c.hirq & HIRQ_DCHG, HIRQ_DCHG);
}

#[test]
fn sector_that_passes_a_later_filter_goes_where_that_one_leads() {
    let mut c = CdBlock::new();
    c.insert_disc(data_disc());
    cmd(&mut c, 0x4440, 0, 0, 0);
    cmd(&mut c, 0x4602, 0x0001, 0, 0);
    cmd(&mut c, 0x4601, 0x0500, 0x0100, 0);
    cmd(&mut c, 0x3000, 0, 0, 0);
    cmd(&mut c, 0x1080, 150, 0x0080, 1);
    c.tick(12_000_000);
    assert_eq!(c.debug_state().4[5], 1);
    assert_eq!(c.debug_state().4[1], 0);
}

#[test]
fn command_history_keeps_the_newest() {
    let mut c = CdBlock::new();
    c.cmd_log_on = true;
    for i in 0..600u16 {
        cmd(&mut c, 0x0100, i, 0, 0);
    }
    assert_eq!(c.cmd_log.len(), 512);
    for (k, e) in c.cmd_log.iter().enumerate() {
        assert_eq!(e.cr_in[1] as usize, 88 + k);
    }
}

#[test]
fn every_command_is_acknowledged() {
    for disc in [false, true] {
        for k in 0..=255u16 {
            let mut c = CdBlock::new();
            if disc {
                c.insert_disc(fs_disc());
            }
            c.hirq = 0;
            cmd(&mut c, k << 8, 0xFFFF, 0xFFFF, 0xFFFF);
            assert_eq!(c.hirq & HIRQ_CMOK, HIRQ_CMOK, "command {k:02X}");
        }
    }
}

#[test]
fn time_passes_alike_in_one_slice_or_many() {
    let mut whole = CdBlock::new();
    let mut slices = CdBlock::new();
    for c in [&mut whole, &mut slices] {
        c.insert_disc(data_disc());
        c.hirq_log_on = true;
        play(c, 150, 3);
    }
    whole.tick(7_000_000);
    for _ in 0..7 {
        slices.tick(1_000_000);
    }
    assert_eq!(whole.drive, slices.drive);
    assert_eq!(whole.pos, slices.pos);
    assert_eq!(whole.hirq, slices.hirq);
    assert_eq!(whole.debug_state(), slices.debug_state());
}

#[test]
fn commanded_ranges_are_resolved() {
    assert_eq!(play_window([0x1080, 150, 0x0080, 4], (0, 0)), (0x80_0096, 0x80_009A));
    assert_eq!(play_window([0x10FF, 0xFFFF, 0x00FF, 0xFFFF], (7, 9)), (7, 9));
    assert_eq!(play_window([0x1000, 0x0101, 0x0000, 0x0263], (7, 9)), (0x0101, 0x0263));
}
