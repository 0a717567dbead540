//! The effect processor.

use saturn::memory::Ram;
use saturn::scsp::dsp::{dspfloat_to_int, int_to_dspfloat, sext, Dsp};
use saturn::scsp::SOUND_RAM_BYTES;


#[test]
fn dspfloat_round_trip_is_close() {
    for v in [
        0i32, 1, -1, 0x1000, -0x1000, 0x7FFF, -0x8000, 0x7F_FFFF, -0x80_0000,
    ] {
        let r = sext(dspfloat_to_int(int_to_dspfloat(v & 0xFF_FFFF)), 24);
        assert!(
            (r - v).abs() <= (v.abs() >> 10) + 1,
            "dspfloat round-trip {v} → {r}"
        );
    }
}

#[test]
fn empty_program_is_silent_and_stopped() {
    let mut dsp = Dsp::new();
    let mut ram = Ram::new(SOUND_RAM_BYTES);
    dsp.set_sample(0x4000, 0);
    dsp.step(&mut ram);
    assert!(dsp.efreg.iter().all(|&e| e == 0), "no program → no output");
}

#[test]
fn passes_a_mix_input_through_to_an_effect_output() {
    let mut dsp = Dsp::new();
    let mut ram = Ram::new(SOUND_RAM_BYTES);
    dsp.coef[0] = 0x7FF8u16 as i16;
    let s0_ip1 = (1 << 15) | (1 << 13) | (0x20 << 6);
    let s0_ip2 = (3 << 4) | (1 << 1);
    let s1_ip2 = (1 << 12) | (3 << 4) | (1 << 1);
    dsp.mpro[0..4].copy_from_slice(&[0, s0_ip1, s0_ip2, 0]);
    dsp.mpro[4..8].copy_from_slice(&[0, 0, s1_ip2, 0]);
    dsp.start();
    dsp.set_sample(0x10000, 0);
    dsp.step(&mut ram);
    assert_ne!(dsp.efreg[0], 0, "mix input reached the effect output");
}

#[test]
fn mixs_accumulates_modulo_20_bits() {
    let mut dsp = Dsp::new();
    dsp.set_sample(0x8_0000, 0);
    assert_eq!(dsp.mixs[0], 0x8_0000);
    dsp.set_sample(0x8_0000, 0);
    assert_eq!(dsp.mixs[0], 0, "MIXS accumulates modulo 20 bits");
}

#[test]
fn mixs_masks_negative_sends_into_the_20_bit_field() {
    let mut dsp = Dsp::new();
    dsp.set_sample(-0x1_0000, 5);
    assert_eq!(dsp.mixs[5], (-0x1_0000i32) & 0xF_FFFF);
    assert!(dsp.mixs[5] >= 0, "MIXS holds the unsigned 20-bit field");
    assert_ne!(dsp.mixs[5] & 0x8_0000, 0, "bit 19 (the sign) is set");
}

#[test]
fn negative_mix_input_stays_negative_through_the_step() {
    let mut dsp = Dsp::new();
    let mut ram = Ram::new(SOUND_RAM_BYTES);
    dsp.coef[0] = 0x7FF8u16 as i16;
    let s0_ip1 = (1 << 15) | (1 << 13) | (0x20 << 6);
    let s0_ip2 = (3 << 4) | (1 << 1);
    let s1_ip2 = (1 << 12) | (3 << 4) | (1 << 1);
    dsp.mpro[0..4].copy_from_slice(&[0, s0_ip1, s0_ip2, 0]);
    dsp.mpro[4..8].copy_from_slice(&[0, 0, s1_ip2, 0]);
    dsp.start();
    dsp.set_sample(-0x1_0000, 0);
    dsp.step(&mut ram);
    assert!(
        dsp.efreg[0] < 0,
        "negative effect-send must stay negative (efreg={})",
        dsp.efreg[0]
    );
}

fn ip0(tra: u16, twt: u16, twa: u16) -> u16 {
    (tra << 8) | (twt << 7) | twa
}
fn ip1(xsel: u16, ysel: u16, ira: u16, iwt: u16, iwa: u16) -> u16 {
    (xsel << 15) | (ysel << 13) | (ira << 6) | (iwt << 5) | iwa
}
fn ip2(
    mwt: u16,
    mrt: u16,
    ewt: u16,
    ewa: u16,
    adrl: u16,
    frcl: u16,
    shft1: u16,
    shft0: u16,
    yrl: u16,
    zero: u16,
    bsel: u16,
) -> u16 {
    (mwt << 14)
        | (mrt << 13)
        | (ewt << 12)
        | (ewa << 8)
        | (adrl << 7)
        | (frcl << 6)
        | (shft1 << 5)
        | (shft0 << 4)
        | (yrl << 3)
        | (zero << 1)
        | bsel
}
fn ip3(nofl: u16, cra: u16, masa: u16, nxaddr: u16) -> u16 {
    (nofl << 15) | (cra << 9) | (masa << 2) | nxaddr
}

fn load(dsp: &mut Dsp, prog: &[[u16; 4]]) {
    for (i, w) in prog.iter().enumerate() {
        dsp.mpro[i * 4..i * 4 + 4].copy_from_slice(w);
    }
    dsp.start();
}

#[test]
fn temp_write_then_read_round_trips_through_the_ring() {
    let mut dsp = Dsp::new();
    let mut ram = Ram::new(SOUND_RAM_BYTES);
    dsp.coef[0] = 0x7FF8u16 as i16;
    let prog = [
        [
            0,
            ip1(1, 1, 0x20, 0, 0),
            ip2(0, 0, 0, 0, 0, 0, 0, 1, 0, 1, 0),
            0,
        ],
        [ip0(0, 1, 5), 0, ip2(0, 0, 0, 0, 0, 0, 0, 1, 0, 1, 0), 0],
        [
            ip0(5, 0, 0),
            ip1(0, 1, 0, 0, 0),
            ip2(0, 0, 0, 0, 0, 0, 0, 1, 0, 1, 0),
            0,
        ],
        [0, 0, ip2(0, 0, 1, 0, 0, 0, 0, 1, 0, 1, 0), 0],
    ];
    load(&mut dsp, &prog);
    dsp.set_sample(0x4000, 0);
    dsp.step(&mut ram);
    assert_ne!(dsp.temp[5], 0, "TEMP cell was written");
    assert_ne!(dsp.efreg[0], 0, "value read back out of TEMP reached EFREG");
}

#[test]
fn unwritten_effect_outputs_remain_latched() {
    let mut dsp = Dsp::new();
    let mut ram = Ram::new(SOUND_RAM_BYTES);
    dsp.efreg[3] = 0x1234;
    let prog = [[0, 0, ip2(0, 0, 1, 0, 0, 0, 0, 1, 0, 1, 0), 0]];

    load(&mut dsp, &prog);
    dsp.step(&mut ram);

    assert_eq!(
        dsp.efreg[3], 0x1234,
        "EFREG entries without EWT are latched, not cleared per sample"
    );
}

#[test]
fn delay_ram_write_then_read_round_trips_via_madrs() {
    let mut dsp = Dsp::new();
    let mut ram = Ram::new(SOUND_RAM_BYTES);
    dsp.coef[0] = 0x7FF8u16 as i16;
    dsp.madrs[0] = 0x40;
    dsp.rbl = 0x2000;
    dsp.rbp = 0;
    let table = 1u16 << 15;
    let prog = [
        [
            0,
            ip1(1, 1, 0x20, 0, 0),
            ip2(0, 0, 0, 0, 0, 0, 0, 1, 0, 1, 0),
            0,
        ],
        [
            0,
            0,
            ip2(1, 0, 0, 0, 0, 0, 0, 1, 0, 1, 0) | table,
            ip3(1, 0, 0, 0),
        ],
        [0, 0, ip2(0, 0, 0, 0, 0, 0, 0, 0, 0, 1, 0), 0],
        [
            0,
            0,
            ip2(0, 1, 0, 0, 0, 0, 0, 0, 0, 1, 0) | table,
            ip3(1, 0, 0, 0),
        ],
        [0, 0, ip2(0, 0, 0, 0, 0, 0, 0, 0, 0, 1, 0), 0],
        [
            0,
            ip1(0, 0, 0, 1, 2),
            ip2(0, 0, 0, 0, 0, 0, 0, 0, 0, 1, 0),
            0,
        ],
    ];
    load(&mut dsp, &prog);
    dsp.set_sample(0x6000, 0);
    dsp.step(&mut ram);
    let stored = ram.read16((dsp.madrs[0] as u32) << 1);
    assert_ne!(stored, 0, "delay RAM received the write");
    assert_eq!(
        dsp.mems[2],
        ((stored as i32) << 8) & 0xFF_FFFF,
        "MRT(NOFL) read-back: raw 16-bit << 8, masked to 24 bits, into MEMS[2]"
    );
}

#[test]
fn delay_ram_dummy_half_reads_zero_and_ignores_writes() {
    let mut dsp = Dsp::new();
    let mut ram = Ram::new(SOUND_RAM_BYTES);
    dsp.stopped = false;
    dsp.last_step = 1;

    ram.write16(0, 0x5678);
    dsp.pipe.rw_addr = 0x4_0000;
    dsp.pipe.read_pending = 2;
    dsp.step(&mut ram);
    assert_eq!(dsp.pipe.read_value, 0, "dummy delay-RAM half reads as silence");

    dsp.pipe.rw_addr = 0x4_0000;
    dsp.pipe.write_pending = true;
    dsp.pipe.write_value = 0x1234;
    dsp.step(&mut ram);
    assert_eq!(
        ram.read16(0),
        0x5678,
        "dummy delay-RAM writes must not wrap into real sound RAM"
    );
}

#[test]
fn dspfloat_delay_path_round_trips_through_delay_ram() {
    let mut dsp = Dsp::new();
    let mut ram = Ram::new(SOUND_RAM_BYTES);
    dsp.coef[0] = 0x7FF8u16 as i16;
    dsp.madrs[0] = 0x80;
    dsp.rbl = 0x2000;
    let table = 1u16 << 15;
    let prog = [
        [
            0,
            ip1(1, 1, 0x20, 0, 0),
            ip2(0, 0, 0, 0, 0, 0, 0, 1, 0, 1, 0),
            0,
        ],
        [
            0,
            0,
            ip2(1, 0, 0, 0, 0, 0, 0, 1, 0, 1, 0) | table,
            ip3(0, 0, 0, 0),
        ],
        [0, 0, ip2(0, 0, 0, 0, 0, 0, 0, 0, 0, 1, 0), 0],
        [
            0,
            0,
            ip2(0, 1, 0, 0, 0, 0, 0, 0, 0, 1, 0) | table,
            ip3(0, 0, 0, 0),
        ],
        [0, 0, ip2(0, 0, 0, 0, 0, 0, 0, 0, 0, 1, 0), 0],
        [
            0,
            ip1(0, 0, 0, 1, 0),
            ip2(0, 0, 0, 0, 0, 0, 0, 0, 0, 1, 0),
            0,
        ],
    ];
    load(&mut dsp, &prog);
    dsp.set_sample(0x6000, 0);
    dsp.step(&mut ram);
    let raw = ram.read16((dsp.madrs[0] as u32) << 1);
    assert_eq!(
        dsp.mems[0],
        dspfloat_to_int(raw),
        "MRT(dsp-float) read-back matches the decoded delay word"
    );
    assert_ne!(
        dsp.mems[0], 0,
        "the dsp-float path carried a non-zero value"
    );
}

#[test]
fn exts_input_reaches_the_effect_output() {
    let mut dsp = Dsp::new();
    let mut ram = Ram::new(SOUND_RAM_BYTES);
    dsp.coef[0] = 0x7FF8u16 as i16;
    dsp.exts[0] = 0x1234;
    let prog = [
        [
            0,
            ip1(1, 1, 0x30, 0, 0),
            ip2(0, 0, 0, 0, 0, 0, 0, 1, 0, 1, 0),
            0,
        ],
        [0, 0, ip2(0, 0, 1, 0, 0, 0, 0, 1, 0, 1, 0), 0],
    ];
    load(&mut dsp, &prog);
    dsp.step(&mut ram);
    assert_ne!(dsp.efreg[0], 0, "EXTS[0] external input reached EFREG[0]");
}

#[test]
fn mems_input_feeds_the_mac() {
    let mut dsp = Dsp::new();
    let mut ram = Ram::new(SOUND_RAM_BYTES);
    dsp.coef[0] = 0x7FF8u16 as i16;
    dsp.mems[7] = 0x20_0000;
    let prog = [
        [
            0,
            ip1(1, 1, 7, 0, 0),
            ip2(0, 0, 0, 0, 0, 0, 0, 1, 0, 1, 0),
            0,
        ],
        [0, 0, ip2(0, 0, 1, 0, 0, 0, 0, 1, 0, 1, 0), 0],
    ];
    load(&mut dsp, &prog);
    dsp.step(&mut ram);
    assert_ne!(dsp.efreg[0], 0, "MEMS input reached the effect output");
}

#[test]
fn bsel_accumulates_onto_the_running_accumulator() {
    fn run(bsel: u16) -> i16 {
        let mut dsp = Dsp::new();
        let mut ram = Ram::new(SOUND_RAM_BYTES);
        dsp.coef[0] = 0x4000u16 as i16;
        let macc = |b: u16| ip2(0, 0, 0, 0, 0, 0, 0, 1, 0, 0, b);
        let prog = [
            [
                0,
                ip1(1, 1, 0x20, 0, 0),
                ip2(0, 0, 0, 0, 0, 0, 0, 1, 0, 1, 0),
                0,
            ],
            [0, ip1(1, 1, 0x20, 0, 0), macc(bsel), 0],
            [0, 0, ip2(0, 0, 1, 0, 0, 0, 0, 1, 0, 1, 0), 0],
        ];
        load(&mut dsp, &prog);
        dsp.set_sample(0x2000, 0);
        dsp.step(&mut ram);
        dsp.efreg[0]
    }
    let with = run(1);
    let without = run(0);
    assert_ne!(with, without, "BSEL changes the accumulation");
    assert!(
        with.unsigned_abs() > without.unsigned_abs(),
        "BSEL accumulates (|{with}| > |{without}|)"
    );
}

#[test]
fn negb_negates_the_b_operand() {
    fn run(negb: u16) -> i16 {
        let mut dsp = Dsp::new();
        let mut ram = Ram::new(SOUND_RAM_BYTES);
        dsp.coef[0] = 0x4000u16 as i16;
        let negb_bit = (negb & 1) << 2;
        let prog = [
            [
                0,
                ip1(1, 1, 0x20, 0, 0),
                ip2(0, 0, 0, 0, 0, 0, 0, 1, 0, 1, 0),
                0,
            ],
            [
                0,
                ip1(1, 1, 0x20, 0, 0),
                ip2(0, 0, 0, 0, 0, 0, 0, 1, 0, 0, 1) | negb_bit,
                0,
            ],
            [0, 0, ip2(0, 0, 1, 0, 0, 0, 0, 1, 0, 1, 0), 0],
        ];
        load(&mut dsp, &prog);
        dsp.set_sample(0x2000, 0);
        dsp.step(&mut ram);
        dsp.efreg[0]
    }
    let plus = run(0);
    let minus = run(1);
    assert_ne!(plus, minus, "NEGB changes the B-operand sign");
    assert!(
        minus.unsigned_abs() < plus.unsigned_abs(),
        "negated B cancels the running accumulator (|{minus}| < |{plus}|)"
    );
}

#[test]
fn mdec_ct_counter_advances_the_ring_each_sample() {
    let mut dsp = Dsp::new();
    let mut ram = Ram::new(SOUND_RAM_BYTES);
    dsp.rbl = 16;
    load(&mut dsp, &[[0, 0, ip2(0, 0, 0, 0, 0, 0, 0, 0, 0, 1, 0), 0]]);
    dsp.step(&mut ram);
    assert_eq!(dsp.dec, dsp.rbl - 1, "dec wrapped to RBL then counted down");
    dsp.step(&mut ram);
    assert_eq!(dsp.dec, dsp.rbl - 2, "dec decrements each sample");
}

#[test]
fn empty_microprogram_clears_pending_mix_input() {
    let mut dsp = Dsp::new();
    let mut ram = Ram::new(SOUND_RAM_BYTES);
    dsp.set_sample(0x1234, 3);
    assert_eq!(dsp.mixs[3], 0x1234);
    dsp.step(&mut ram);
    assert_eq!(dsp.mixs[3], 0, "MIXS cleared even with no program");
}
