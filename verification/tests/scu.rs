use saturn::scu::{Scu, Source, DGO_BIT};

#[test]
fn version_register_is_read_only_and_returns_four() {
    let mut s = Scu::new();
    assert_eq!(s.read32(0xC8), 0x04);
    s.write32(0xC8, 0xDEAD_BEEF);
    assert_eq!(s.read32(0xC8), 0x04, "VER ignores writes");
}

#[test]
fn cd_external_interrupt_vector_level_mask_and_aiack() {
    let mut s = Scu::new();
    assert_eq!(Source::Cd.vector(), 0x50);
    assert_eq!(Source::Cd.priority(), 7);

    s.write32(0xA0, 0x0000);

    s.set_cd_int(true);
    assert_eq!(s.take_pending_interrupt(0), Some((Source::Cd, 7)));

    s.set_cd_int(true);
    assert_eq!(s.take_pending_interrupt(0), None, "no re-fire until AIACK");

    s.write32(0xA8, 1);
    s.set_cd_int(true);
    assert_eq!(s.take_pending_interrupt(0), Some((Source::Cd, 7)));

    s.write32(0xA8, 1);
    s.write32(0xA0, 0x8000);
    s.set_cd_int(true);
    assert_eq!(
        s.take_pending_interrupt(0),
        None,
        "IMS bit 15 masks all external interrupts (incl. the CD-block)"
    );

    s.write32(0xA8, 1);
    s.write32(0xA0, 0x0000);
    s.set_cd_int(true);
    assert_eq!(
        s.take_pending_interrupt(7),
        None,
        "imask 7 gates the level-7 CD int"
    );
    assert_eq!(s.take_pending_interrupt(6), Some((Source::Cd, 7)));
}

#[test]
fn channel_registers_round_trip() {
    let mut s = Scu::new();
    s.write32(0x20, 0x0600_1000);
    s.write32(0x24, 0x0020_2000);
    s.write32(0x28, 0x0000_0040);
    assert_eq!(s.channels[1].read_addr, 0x0600_1000);
    assert_eq!(s.channels[1].write_addr, 0x0020_2000);
    assert_eq!(s.channels[1].transfer_count, 0x40);
}

#[test]
fn channel0_count_is_20_bit_and_channel12_count_is_12_bit() {
    let mut s = Scu::new();
    s.write32(0x08, 0xFFFF_FFFF);
    s.write32(0x28, 0xFFFF_FFFF);
    s.write32(0x48, 0xFFFF_FFFF);
    assert_eq!(s.channels[0].transfer_count, 0x000F_FFFF);
    assert_eq!(s.channels[1].transfer_count, 0x0000_0FFF);
    assert_eq!(s.channels[2].transfer_count, 0x0000_0FFF);
}

#[test]
fn dgo_write_with_nonzero_count_queues_a_dma_request() {
    let mut s = Scu::new();
    s.write32(0x00, 0x0600_0000);
    s.write32(0x04, 0x0020_0000);
    s.write32(0x08, 0x100);
    s.write32(0x10, DGO_BIT);
    let req = s.take_pending_dma().expect("DMA should be queued");
    assert_eq!(req.channel, 0);
    assert_eq!(req.src, 0x0600_0000);
    assert_eq!(req.dst, 0x0020_0000);
    assert_eq!(req.bytes, 0x100);
    assert!(s.take_pending_dma().is_none(), "queue is single-shot");
}

#[test]
fn dgo_with_zero_count_does_not_trigger() {
    let mut s = Scu::new();
    s.write32(0x10, DGO_BIT);
    assert!(s.take_pending_dma().is_none());
}

#[test]
fn byte_writes_to_d0en_do_not_trigger_mid_construction() {
    let mut s = Scu::new();
    s.write32(0x08, 0x100);
    s.write8(0x10, 0x00);
    s.write8(0x11, 0x00);
    s.write8(0x12, 0x01);
    s.write8(0x13, 0x00);
    assert!(
        s.take_pending_dma().is_none(),
        "byte writes must not fire DMA — software is expected to use word writes"
    );
}

#[test]
fn timer_and_interrupt_registers_use_hardware_offsets() {
    let mut s = Scu::new();
    s.write32(0x90, 0x0000_1234);
    s.write32(0x94, 0x0000_5678);
    s.write32(0x98, 0x0000_0001);
    s.write32(0xA0, 0x0000_FF00);
    assert_eq!(s.read32(0x90), 0x0000_1234);
    assert_eq!(s.read32(0x94), 0x0000_5678);
    assert_eq!(s.read32(0x98), 0x0000_0001);
    assert_eq!(
        s.read32(0xA0),
        0x0000_BF00,
        "IMS at 0xA0 (bit 14 masked off)"
    );
    assert_eq!(
        s.ims, 0x0000_BF00,
        "0xA0 write reaches the mask field, masked to 0xBFFF"
    );
}

#[test]
fn dsp_program_load_and_data_ram_ports_round_trip() {
    let mut s = Scu::new();
    s.write32(0x84, 0x1111_1111);
    s.write32(0x84, 0x2222_2222);
    assert_eq!(s.dsp.program[0], 0x1111_1111);
    assert_eq!(s.dsp.program[1], 0x2222_2222);
    s.write32(0x88, 0x00);
    s.write32(0x8C, 0xDEAD_0000);
    s.write32(0x8C, 0xBEEF_0001);
    assert_eq!(s.dsp.data_ram[0][0], 0xDEAD_0000);
    assert_eq!(s.dsp.data_ram[0][1], 0xBEEF_0001);
    s.write32(0x88, 0x00);
    assert_eq!(s.read32(0x8C), 0xDEAD_0000);
    assert_eq!(s.read32(0x8C), 0xBEEF_0001);
}

#[test]
fn dsp_ppaf_start_sets_exec_and_run_request() {
    let mut s = Scu::new();
    s.write32(0x80, (1 << 15) | (1 << 16) | 0x05);
    assert_eq!(s.dsp.regs.pc, 0x05);
    assert!(s.dsp.regs.flags.running, "EXF starts the DSP");
    assert!(s.take_dsp_run(), "PPAF EXF raises the run request");
    assert!(!s.take_dsp_run(), "run request is one-shot");
}

#[test]
fn finish_dma_writes_back_final_addresses_only_when_update_enabled() {
    let mut s = Scu::new();
    s.channels[0].mode = (1 << 16) | (1 << 8) | 7;
    s.channels[0].read_addr = 0x0600_0000;
    s.channels[0].write_addr = 0x0020_0000;
    s.channels[0].transfer_count = 0x100;
    s.finish_dma(0, 0x0600_0100, 0x0020_0100);
    assert_eq!(s.channels[0].read_addr, 0x0600_0100);
    assert_eq!(s.channels[0].write_addr, 0x0020_0100);
    assert_eq!(s.channels[0].transfer_count, 0);

    let mut s = Scu::new();
    s.channels[1].read_addr = 0x0600_0000;
    s.channels[1].write_addr = 0x0020_0000;
    s.channels[1].transfer_count = 0x100;
    s.finish_dma(1, 0x0600_0100, 0x0020_0100);
    assert_eq!(
        s.channels[1].read_addr, 0x0600_0000,
        "RUP clear → unchanged"
    );
    assert_eq!(
        s.channels[1].write_addr, 0x0020_0000,
        "WUP clear → unchanged"
    );
    assert_eq!(s.channels[1].transfer_count, 0);
}

#[test]
fn finish_dma_raises_the_channel_specific_end_source() {
    let mut s = Scu::new();
    s.ims = 0;
    s.channels[1].transfer_count = 0x10;
    s.finish_dma(1, 0, 0);
    assert_ne!(s.ist & (1 << Source::Level1DmaEnd.bit()), 0);
    let (src, lvl) = s.take_pending_interrupt(0).unwrap();
    assert_eq!(src, Source::Level1DmaEnd);
    assert_eq!(lvl, 6);
}

#[test]
fn event_driven_channel_stays_armed_after_completion() {
    let mut s = Scu::new();
    s.channels[0].mode = 0;
    s.channels[0].enable = DGO_BIT;
    s.channels[0].transfer_count = 0x10;
    s.trigger_dma_factor(0);
    assert!(
        s.take_pending_dma().is_some(),
        "armed channel fires on its event"
    );
    s.finish_dma(0, 0, 0);
    assert!(s.channels[0].armed(), "enable persists across completion");
    s.trigger_dma_factor(0);
    assert!(
        s.take_pending_dma().is_some(),
        "still armed → re-fires on the next event"
    );
}

#[test]
fn take_pending_interrupt_resolves_by_priority() {
    let mut s = Scu::new();
    s.ims = 0;
    s.raise(Source::SpriteDrawEnd);
    s.raise(Source::VBlankIn);
    s.raise(Source::DmaIllegal);
    let (src, _) = s.take_pending_interrupt(0).unwrap();
    assert_eq!(src, Source::VBlankIn, "highest priority wins");
    let (src, _) = s.take_pending_interrupt(0).unwrap();
    assert_eq!(src, Source::DmaIllegal);
    let (src, _) = s.take_pending_interrupt(0).unwrap();
    assert_eq!(src, Source::SpriteDrawEnd);
    assert!(s.take_pending_interrupt(0).is_none());
}

#[test]
fn take_pending_interrupt_honours_sh2_imask() {
    let mut s = Scu::new();
    s.ims = 0;
    s.raise(Source::Smpc);
    assert!(
        s.take_pending_interrupt(8).is_none(),
        "imask 8 blocks level 8"
    );
    assert!(
        s.take_pending_interrupt(7).is_some(),
        "imask 7 allows level 8"
    );
}

#[test]
fn take_pending_interrupt_honours_ims_per_source() {
    let mut s = Scu::new();
    s.ims = 1 << Source::VBlankIn.bit();
    s.raise(Source::VBlankIn);
    s.raise(Source::HBlankIn);
    let (src, _) = s.take_pending_interrupt(0).unwrap();
    assert_eq!(src, Source::HBlankIn, "VBlankIn masked, HBlankIn allowed");
}

#[test]
fn taking_an_interrupt_consumes_edge_but_keeps_ist_latched() {
    let mut s = Scu::new();
    s.ims = 0;
    s.raise(Source::DspEnd);
    let _ = s.take_pending_interrupt(0).unwrap();
    assert_eq!(
        s.ist & (1 << Source::DspEnd.bit()),
        1 << Source::DspEnd.bit(),
        "vector acceptance leaves the software-visible IST bit latched"
    );
    assert!(s.take_pending_interrupt(0).is_none());
    s.raise(Source::DspEnd);
    assert!(s.take_pending_interrupt(0).is_some());
}

#[test]
fn a_masked_source_keeps_its_ist_bit_until_it_is_actually_taken() {
    let mut s = Scu::new();
    s.ims = 1 << Source::VBlankOut.bit();
    s.raise(Source::VBlankOut);
    assert!(
        s.take_pending_interrupt(0).is_none(),
        "masked: not delivered"
    );
    assert_ne!(
        s.ist & (1 << Source::VBlankOut.bit()),
        0,
        "masked source's IST bit stays set (not acknowledged)"
    );
}

#[test]
fn dma_request_carries_stride_and_mode_flags() {
    let mut s = Scu::new();
    s.write32(0x00, 0x0600_0000);
    s.write32(0x04, 0x0020_0000);
    s.write32(0x08, 0x40);
    s.write32(0x0C, 0x100 | 0x2);
    s.write32(0x14, (1 << 24) | (1 << 16) | (1 << 8) | 7);
    s.write32(0x10, DGO_BIT);
    let req = s.take_pending_dma().expect("queued");
    assert_eq!(req.src_add, 4, "D*AD bit 8 → +4 source stride");
    assert_eq!(req.dst_add, 4, "D*AD code 2 → 2^2 = 4 byte dest stride");
    assert!(req.indirect);
    assert!(req.read_update);
    assert!(req.write_update);
}

#[test]
fn dma_stride_zero_codes_mean_fixed_addresses() {
    let mut s = Scu::new();
    s.write32(0x08, 0x10);
    s.write32(0x0C, 0x000);
    s.write32(0x14, 7);
    s.write32(0x10, DGO_BIT);
    let req = s.take_pending_dma().expect("queued");
    assert_eq!(req.src_add, 0, "fixed source (e.g. a FIFO register)");
    assert_eq!(req.dst_add, 0, "code 0 → fixed destination");
}

#[test]
fn dst_stride_doubles_per_code() {
    let mut s = Scu::new();
    for (code, expected) in [(0u32, 0u32), (1, 2), (2, 4), (3, 8), (7, 128)] {
        s.channels[0].add_value = code;
        assert_eq!(s.channels[0].dst_add(), expected, "code {code}");
    }
}

#[test]
fn indirect_channel_triggers_even_with_zero_count() {
    let mut s = Scu::new();
    s.write32(0x08, 0);
    s.write32(0x14, (1 << 24) | 7);
    s.write32(0x10, DGO_BIT);
    assert!(
        s.take_pending_dma().is_some(),
        "indirect fires with count 0"
    );
}

#[test]
fn hardware_start_factor_only_fires_on_the_matching_event() {
    let mut s = Scu::new();
    s.write32(0x14, 0);
    s.write32(0x08, 0x10);
    s.write32(0x10, DGO_BIT);
    assert!(
        s.take_pending_dma().is_none(),
        "factor-0 channel waits for the event"
    );
    s.trigger_dma_factor(3);
    assert!(s.take_pending_dma().is_none());
    s.trigger_dma_factor(0);
    assert!(s.take_pending_dma().is_some());
    s.trigger_dma_factor(0);
    assert!(
        s.take_pending_dma().is_some(),
        "armed channel re-fires on the next event"
    );
}

#[test]
fn unarmed_channel_ignores_hardware_factor_events() {
    let mut s = Scu::new();
    s.write32(0x14, 2);
    s.trigger_dma_factor(2);
    assert!(
        s.take_pending_dma().is_none(),
        "unarmed channel never triggers"
    );
}

#[test]
fn byte_writes_to_channel_registers_patch_without_triggering() {
    let mut s = Scu::new();
    s.write32(0x08, 0x10);
    s.write32(0x14, 7);
    s.write8(0x00, 0x06);
    s.write8(0x01, 0x00);
    s.write8(0x02, 0x10);
    s.write8(0x03, 0x00);
    assert_eq!(
        s.channels[0].read_addr, 0x0600_1000,
        "byte writes assemble the word"
    );
    s.write8(0x12, 0x01);
    assert!(s.take_pending_dma().is_none(), "byte writes never fire DMA");
}

#[test]
fn byte_writes_to_count_honour_the_per_channel_mask() {
    let mut s = Scu::new();
    s.write8(0x28, 0xFF);
    s.write8(0x29, 0xFF);
    s.write8(0x2A, 0xFF);
    s.write8(0x2B, 0xFF);
    assert_eq!(
        s.channels[1].transfer_count, 0x0000_0FFF,
        "ch1 count masked to 12 bits"
    );
}

#[test]
fn read8_and_read16_slice_the_register_word_big_endian() {
    let mut s = Scu::new();
    s.write32(0x90, 0x1234_5678);
    assert_eq!(s.read8(0x90), 0x12);
    assert_eq!(s.read8(0x91), 0x34);
    assert_eq!(s.read8(0x93), 0x78);
    assert_eq!(s.read16(0x90), 0x1234);
    assert_eq!(s.read16(0x92), 0x5678);
}

#[test]
fn abus_config_registers_round_trip_through_their_hardware_masks() {
    let mut s = Scu::new();
    s.write32(0xB0, 0xFFFF_FFFF);
    s.write32(0xB4, 0xFFFF_FFFF);
    s.write32(0xB8, 0xFFFF_FFFF);
    s.write32(0xC4, 0xFFFF_FFFF);
    assert_eq!(s.read32(0xB0), 0xFFFD_FFFD);
    assert_eq!(s.read32(0xB4), 0xF00D_FFFD);
    assert_eq!(s.read32(0xB8), 0x0000_001F);
    assert_eq!(s.read32(0xC4), 0x0000_0001);
}

#[test]
fn dstp_and_dsta_round_trip() {
    let mut s = Scu::new();
    s.write32(0x60, 0x0000_0001);
    s.write32(0x7C, 0xDEAD_BEEF);
    assert_eq!(s.read32(0x60), 0x0000_0001);
    assert_eq!(s.read32(0x7C), 0xDEAD_BEEF);
}

#[test]
fn aiack_write_without_bit0_does_not_clear_the_cd_prohibit_latch() {
    let mut s = Scu::new();
    s.write32(0xA0, 0x0000);
    s.set_cd_int(true);
    assert!(s.take_pending_interrupt(0).is_some());
    s.write32(0xA8, 0x0000_0002);
    s.set_cd_int(true);
    assert!(
        s.take_pending_interrupt(0).is_none(),
        "bit 0 clear → latch unchanged"
    );
    assert_eq!(s.read32(0xA8), 0x0000_0002, "AIACK stored");
}

#[test]
fn ims_write_masks_bit14_off() {
    let mut s = Scu::new();
    s.write32(0xA0, 0xFFFF_FFFF);
    assert_eq!(
        s.read32(0xA0),
        0x0000_BFFF,
        "IMS is 16-bit with bit 14 unused"
    );
}

#[test]
fn out_of_range_channel_offset_reads_zero_and_drops_writes() {
    let mut s = Scu::new();
    assert_eq!(s.read32(0x5C), 0);
    s.write32(0x5C, 0xDEAD_BEEF);
    assert_eq!(s.read32(0x5C), 0);
    assert_eq!(s.read32(0xF0), 0);
}

#[test]
fn dsp_ppaf_read_reports_flags_and_clears_v_and_end() {
    let mut s = Scu::new();
    s.dsp.regs.pc = 0x0A;
    s.dsp.regs.flags.running = true;
    s.dsp.regs.flags.end = true;
    s.dsp.regs.flags.v = true;
    s.dsp.regs.flags.z = true;
    let v = s.read32(0x80);
    assert_eq!(v & 0xFF, 0x0B);
    assert_ne!(v & (1 << 16), 0, "EXF reported");
    assert_ne!(v & (1 << 18), 0, "EF reported");
    assert_ne!(v & (1 << 19), 0, "VF reported");
    assert_ne!(v & (1 << 21), 0, "ZF reported");
    let v2 = s.read32(0x80);
    assert_eq!(v2 & (1 << 19), 0, "VF cleared by the previous read");
    assert_eq!(v2 & (1 << 18), 0, "EF cleared by the previous read");
}

#[test]
fn dsp_ppaf_write_loads_pc_and_zf_sf_without_starting() {
    let mut s = Scu::new();
    s.write32(0x80, (1 << 15) | (1 << 21) | (1 << 22) | 0x07);
    assert_eq!(s.dsp.regs.pc, 0x07, "LEF loaded the PC");
    assert!(s.dsp.regs.flags.z, "ZF writable");
    assert!(s.dsp.regs.flags.s, "SF writable");
    assert!(!s.take_dsp_run(), "no EXF → no run request");
}

#[test]
fn dsp_pdd_addresses_the_right_bank_via_ra() {
    let mut s = Scu::new();
    s.write32(0x88, 0x80);
    s.write32(0x8C, 0xC0DE_0000);
    assert_eq!(s.dsp.data_ram[2][0], 0xC0DE_0000);
    assert_eq!(s.dsp.regs.ra, 0x81, "RA auto-incremented past the write");
}

#[test]
fn ist_writes_are_write_zero_to_clear() {
    let mut s = Scu::new();
    s.raise(Source::Timer0);
    s.raise(Source::SoundRequest);
    assert_eq!(
        s.ist,
        (1 << Source::Timer0.bit()) | (1 << Source::SoundRequest.bit())
    );
    s.write32(0xA4, !(1 << Source::Timer0.bit()));
    assert_eq!(s.ist, 1 << Source::SoundRequest.bit());
    s.write32(0xA4, 0);
    assert_eq!(s.ist, 0);
}

#[test]
fn cd_interrupt_fires_again_where_the_latch_is_switched_off() {
    let mut s = Scu::new();
    s.write32(0xA0, 0x0000);
    s.drive_cd_int(true, true);
    assert!(s.take_pending_interrupt(0).is_some());
    s.drive_cd_int(true, true);
    assert!(s.take_pending_interrupt(0).is_some(), "no acknowledge is needed");
    assert!(!s.cd_prohibit);
    s.drive_cd_int(false, true);
    assert!(s.take_pending_interrupt(0).is_none());
    s.drive_cd_int(true, false);
    assert!(s.cd_prohibit);
    assert!(s.take_pending_interrupt(0).is_some());
    s.drive_cd_int(true, false);
    assert!(s.take_pending_interrupt(0).is_none());
}

#[test]
fn hblank_and_timer_1_are_gated_by_the_timer_enable() {
    let mut s = Scu::new();
    s.write32(0xA0, 0x0000);
    s.write32(0x94, 100);
    s.tick_timers(10, 1820, 427, true, false);
    assert_eq!(s.read32(0xA4), 0, "the timers are off");
    s.write32(0x98, 1);
    s.tick_timers(20, 1820, 427, false, false);
    s.tick_timers(30, 1820, 427, true, false);
    assert_eq!(s.take_pending_interrupt(0), Some((Source::HBlankIn, 13)));
    s.tick_timers(400, 1820, 427, false, false);
    assert_eq!(s.take_pending_interrupt(0), None);
    s.tick_timers(460, 1820, 427, false, false);
    assert_eq!(s.take_pending_interrupt(0), Some((Source::Timer1, 11)), "100 dots on");
    s.tick_timers(1850, 1820, 427, false, false);
    assert_eq!(s.take_pending_interrupt(0), None, "once a line");
}
