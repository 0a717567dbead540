//! The effect processor: a program of 128 steps, run once per output sample.
//!
//! A step multiplies and accumulates 24-bit data by 13-bit coefficients, and
//! reads and writes a delay line in sound RAM. The mixer sends voices into the
//! input mix and takes effects from the outputs.

use vstd::prelude::*;
use vstd::arithmetic::div_mod::{
    lemma_add_mod_noop, lemma_add_mod_noop_right, lemma_fundamental_div_mod_converse, lemma_mod_mod, lemma_small_mod,
    lemma_sub_mod_noop,
};
use vstd::std_specs::bits::axiom_u32_leading_zeros;
use crate::bits::{casts, low_bits, masks_bound, right_shifts};
use crate::memory::{folded16, put16, word_is_read_back, Ram};

verus! {

// ---- number formats ---------------------------------------------------------

/// The low `bits` of `v`, with their sign.
pub open spec fn sign_extended(v: i32, bits: u32) -> i32 {
    (v << ((32 - bits) as u32)) >> ((32 - bits) as u32)
}

/// A 16-bit delay-RAM word as a 24-bit number: sign, 4-bit exponent, 11-bit
/// mantissa.
pub open spec fn float_value(w: u16) -> i32 {
    let sign: u32 = if w & 0x8000 != 0 {
        0xC000_0000
    } else {
        0
    };
    let exp: u32 = ((w >> 11) & 0xF) as u32;
    let low: u32 = (w & 0x7FF) as u32;
    let mantissa: u32 = if exp < 12 {
        low | 0x800
    } else {
        low
    };
    let shift: u32 = if exp < 11 {
        (8 + exp) as u32
    } else {
        19
    };
    ((((mantissa << 19) ^ sign) as i32) >> shift) & 0xFF_FFFF
}

/// All ones if the 24-bit number `v` is negative.
pub open spec fn sign_of(v: i32) -> u32 {
    (((v as u32) << 8) as i32 >> 31) as u32
}

/// The number whose leading zeros are the exponent of `v`.
pub open spec fn exponent_source(v: i32) -> u32 {
    ((((v as u32) << 8) ^ sign_of(v)) << 1) | 0x8_0000
}

/// The exponent of the 24-bit number `v`: 0 to 12.
pub open spec fn exponent(v: i32) -> u32 {
    exponent_source(v).leading_zeros()
}

/// A word with the given exponent for the 24-bit number `v`.
pub open spec fn float_with(v: i32, exp: u32) -> u16 {
    let shift: u32 = if exp == 12 {
        11
    } else {
        exp
    };
    ((((((v as u32) << 8) as i32 >> ((19 - shift) as u32)) as u32) & 0x87FF) | (exp << 11)) as u16
}

/// The delay-RAM word of a 24-bit number.
pub open spec fn float_word(v: i32) -> u16 {
    float_with(v, exponent(v))
}

/// Sign-extends the low `bits` of `v`.
pub fn sext(v: i32, bits: u32) -> (r: i32)
    requires
        1 <= bits <= 32,
    ensures
        r == sign_extended(v, bits),
{
    let s: u32 = 32 - bits;
    (v << s) >> s
}

/// Expands a delay-RAM word to a 24-bit number.
pub fn dspfloat_to_int(inv: u16) -> (r: i32)
    ensures
        r == float_value(inv),
{
    let sign: u32 = if inv & 0x8000 != 0 {
        0xC000_0000
    } else {
        0
    };
    let exp: u32 = ((inv >> 11) & 0xF) as u32;
    let low: u32 = (inv & 0x7FF) as u32;
    let mantissa: u32 = if exp < 12 {
        low | 0x800
    } else {
        low
    };
    let shift: u32 = if exp < 11 {
        8 + exp
    } else {
        19
    };
    ((((mantissa << 19) ^ sign) as i32) >> shift) & 0xFF_FFFF
}

/// An exponent is at most 12, and says where the highest bit is.
proof fn exponent_bounds(v: i32)
    ensures
        exponent(v) <= 12,
        exponent_source(v) >> ((31 - exponent(v)) as u32) == 1,
{
    let u = exponent_source(v);
    let x = (((v as u32) << 8) ^ sign_of(v)) << 1;
    let e = exponent(v);
    axiom_u32_leading_zeros(u);
    assert({
        &&& (x | 0x8_0000) & 0x8_0000 != 0
        &&& u & 0x8_0000 != 0 ==> u != 0
        &&& u & 0x8_0000 != 0 && e > 12 && e <= 32 ==> u >> ((32 - e) as u32) != 0
        &&& e <= 12 && u >> ((32 - e) as u32) == 0 && (u >> ((31 - e) as u32)) & 1 != 0 ==> u >> ((31
            - e) as u32) == 1
    }) by (bit_vector);
}

/// Compresses a 24-bit number to a delay-RAM word.
pub fn int_to_dspfloat(inv: i32) -> (r: u16)
    ensures
        r == float_word(inv),
{
    let shifted: u32 = (inv as u32) << 8;
    let sign: u32 = ((shifted as i32) >> 31) as u32;
    let exp: u32 = (((shifted ^ sign) << 1) | 0x8_0000).leading_zeros();
    proof {
        exponent_bounds(inv);
    }
    let shift: u32 = if exp == 12 {
        11
    } else {
        exp
    };
    (((((shifted as i32) >> (19 - shift)) as u32) & 0x87FF) | (exp << 11)) as u16
}

// ---- instructions -------------------------------------------------------------

/// One step of a program.
#[derive(Clone, Copy, Debug, PartialEq, Eq, Structural)]
pub struct Micro {
    /// Temp register read, and written if `twt`.
    pub tra: u32,
    pub twt: bool,
    pub twa: u32,
    /// Multiply the input rather than the temp register.
    pub xsel: bool,
    /// The multiplier: 0 FRC, 1 a coefficient, 2 and 3 parts of Y.
    pub ysel: u16,
    /// Input read, and memory register written if `iwt`.
    pub ira: u16,
    pub iwt: bool,
    pub iwa: u16,
    /// Address a table rather than the ring.
    pub table: bool,
    /// Write, and read, delay RAM.
    pub mwt: bool,
    pub mrt: bool,
    /// Effect output written if `ewt`.
    pub ewt: bool,
    pub ewa: u16,
    /// Latch the address register, FRC, Y.
    pub adrl: bool,
    pub frcl: bool,
    pub shft0: bool,
    pub shft1: bool,
    pub yrl: bool,
    /// Negate, clear, or accumulate onto the addend.
    pub negb: bool,
    pub zero: bool,
    pub bsel: bool,
    /// Raw delay-RAM words rather than floating ones.
    pub nofl: bool,
    pub cra: u16,
    pub masa: u16,
    pub adrgb: bool,
    pub nxaddr: bool,
}

impl Micro {
    /// The step that four program words write.
    pub open spec fn of(a: u16, b: u16, c: u16, d: u16) -> Micro {
        Micro {
            tra: ((a >> 8) & 0x7F) as u32,
            twt: (a >> 7) & 1 != 0,
            twa: (a & 0x7F) as u32,
            xsel: (b >> 15) & 1 != 0,
            ysel: (b >> 13) & 3,
            ira: (b >> 6) & 0x3F,
            iwt: (b >> 5) & 1 != 0,
            iwa: b & 0x1F,
            table: (c >> 15) & 1 != 0,
            mwt: (c >> 14) & 1 != 0,
            mrt: (c >> 13) & 1 != 0,
            ewt: (c >> 12) & 1 != 0,
            ewa: (c >> 8) & 0xF,
            adrl: (c >> 7) & 1 != 0,
            frcl: (c >> 6) & 1 != 0,
            shft0: (c >> 4) & 1 != 0,
            shft1: (c >> 5) & 1 != 0,
            yrl: (c >> 3) & 1 != 0,
            negb: (c >> 2) & 1 != 0,
            zero: (c >> 1) & 1 != 0,
            bsel: c & 1 != 0,
            nofl: (d >> 15) & 1 != 0,
            cra: (d >> 9) & 0x3F,
            masa: (d >> 2) & 0x1F,
            adrgb: (d >> 1) & 1 != 0,
            nxaddr: d & 1 != 0,
        }
    }

    /// Every index is within its register file.
    pub open spec fn wf(self) -> bool {
        self.ira < 64 && self.iwa < 32 && self.ewa < 16 && self.cra < 64 && self.masa < 32
    }

    fn decode(a: u16, b: u16, c: u16, d: u16) -> (r: Micro)
        ensures
            r == Micro::of(a, b, c, d),
            r.wf(),
    {
        proof {
            masks_bound();
        }
        Micro {
            tra: ((a >> 8) & 0x7F) as u32,
            twt: (a >> 7) & 1 != 0,
            twa: (a & 0x7F) as u32,
            xsel: (b >> 15) & 1 != 0,
            ysel: (b >> 13) & 3,
            ira: (b >> 6) & 0x3F,
            iwt: (b >> 5) & 1 != 0,
            iwa: b & 0x1F,
            table: (c >> 15) & 1 != 0,
            mwt: (c >> 14) & 1 != 0,
            mrt: (c >> 13) & 1 != 0,
            ewt: (c >> 12) & 1 != 0,
            ewa: (c >> 8) & 0xF,
            adrl: (c >> 7) & 1 != 0,
            frcl: (c >> 6) & 1 != 0,
            shft0: (c >> 4) & 1 != 0,
            shft1: (c >> 5) & 1 != 0,
            yrl: (c >> 3) & 1 != 0,
            negb: (c >> 2) & 1 != 0,
            zero: (c >> 1) & 1 != 0,
            bsel: c & 1 != 0,
            nofl: (d >> 15) & 1 != 0,
            cra: (d >> 9) & 0x3F,
            masa: (d >> 2) & 0x1F,
            adrgb: (d >> 1) & 1 != 0,
            nxaddr: d & 1 != 0,
        }
    }
}

// ---- state ----------------------------------------------------------------------

/// The registers that carry from step to step, and from sample to sample.
#[derive(Clone, Copy, Debug, PartialEq, Eq, Structural)]
pub struct Pipe {
    /// The 26-bit accumulator.
    pub sft_reg: i32,
    /// The input that was read last.
    pub inputs_reg: i32,
    pub frc_reg: i32,
    pub y_reg: i32,
    pub adrs_reg: u16,
    /// A delay-RAM read is under way: 1 floating, 2 raw.
    pub read_pending: u8,
    pub read_value: i32,
    /// A delay-RAM write is under way.
    pub write_pending: bool,
    pub write_value: u16,
    pub rw_addr: u32,
}

/// The effect processor.
#[derive(Clone, Debug)]
pub struct Dsp {
    pub coef: [i16; 64],
    pub madrs: [u16; 32],
    pub mpro: [u16; 512],
    pub temp: [i32; 128],
    pub mems: [i32; 32],
    pub mixs: [i32; 16],
    pub exts: [i16; 2],
    pub efreg: [i16; 16],
    /// Largest effect outputs seen.
    pub efreg_hw: [i32; 16],
    /// Largest input mixes seen.
    pub mixs_hw: [i32; 16],
    /// Where the ring starts, and how long it is.
    pub rbp: u32,
    pub rbl: u32,
    /// Position in the ring.
    pub dec: u32,
    pub stopped: bool,
    /// Steps of the program.
    pub last_step: usize,
    pub pipe: Pipe,
}

/// The state of a [`Dsp`].
pub struct Fx {
    pub coef: Seq<i16>,
    pub madrs: Seq<u16>,
    pub mpro: Seq<u16>,
    pub temp: Seq<i32>,
    pub mems: Seq<i32>,
    pub mixs: Seq<i32>,
    pub exts: Seq<i16>,
    pub efreg: Seq<i16>,
    pub efreg_hw: Seq<i32>,
    pub mixs_hw: Seq<i32>,
    pub rbp: u32,
    pub rbl: u32,
    pub dec: u32,
    pub stopped: bool,
    pub last_step: usize,
    pub pipe: Pipe,
}

impl View for Dsp {
    type V = Fx;

    open spec fn view(&self) -> Fx {
        Fx {
            coef: self.coef@,
            madrs: self.madrs@,
            mpro: self.mpro@,
            temp: self.temp@,
            mems: self.mems@,
            mixs: self.mixs@,
            exts: self.exts@,
            efreg: self.efreg@,
            efreg_hw: self.efreg_hw@,
            mixs_hw: self.mixs_hw@,
            rbp: self.rbp,
            rbl: self.rbl,
            dec: self.dec,
            stopped: self.stopped,
            last_step: self.last_step,
            pipe: self.pipe,
        }
    }
}

/// The size of a number without its sign.
pub open spec fn magnitude(v: int) -> int {
    if v < 0 {
        -v
    } else {
        v
    }
}

impl Fx {
    /// Everything 0, stopped, with a ring of 8192 words.
    pub open spec fn reset() -> Fx {
        Fx {
            coef: Seq::new(64, |i: int| 0i16),
            madrs: Seq::new(32, |i: int| 0u16),
            mpro: Seq::new(512, |i: int| 0u16),
            temp: Seq::new(128, |i: int| 0i32),
            mems: Seq::new(32, |i: int| 0i32),
            mixs: Seq::new(16, |i: int| 0i32),
            exts: Seq::new(2, |i: int| 0i16),
            efreg: Seq::new(16, |i: int| 0i16),
            efreg_hw: Seq::new(16, |i: int| 0i32),
            mixs_hw: Seq::new(16, |i: int| 0i32),
            rbp: 0,
            rbl: 8192,
            dec: 0,
            stopped: true,
            last_step: 0,
            pipe: Pipe {
                sft_reg: 0,
                inputs_reg: 0,
                frc_reg: 0,
                y_reg: 0,
                adrs_reg: 0,
                read_pending: 0,
                read_value: 0,
                write_pending: false,
                write_value: 0,
                rw_addr: 0,
            },
        }
    }

    /// Program words `4i` to `4i + 3` hold a step.
    pub open spec fn has_step(self, i: int) -> bool {
        self.mpro[4 * i] != 0 || self.mpro[4 * i + 1] != 0 || self.mpro[4 * i + 2] != 0
            || self.mpro[4 * i + 3] != 0
    }

    /// Steps of the program among the first `n`: up to the last that is not
    /// empty.
    pub open spec fn program_length(self, n: int) -> int
        decreases n,
    {
        if n <= 0 {
            0
        } else if self.has_step(n - 1) {
            n
        } else {
            self.program_length(n - 1)
        }
    }

    /// The loaded program is started.
    pub open spec fn started(self) -> Fx {
        Fx { stopped: false, last_step: self.program_length(128) as usize, ..self }
    }

    /// A program is loaded and runs.
    pub open spec fn is_running(self) -> bool {
        !self.stopped && self.last_step > 0
    }

    /// Channel `sel` of the input mix receives `sample`, modulo 20 bits.
    pub open spec fn sampled(self, sample: i32, sel: int) -> Fx {
        let m = self.mixs[sel].wrapping_add(sample) & 0xF_FFFF;
        Fx {
            mixs: self.mixs.update(sel, m),
            mixs_hw: if m > self.mixs_hw[sel] {
                self.mixs_hw.update(sel, m)
            } else {
                self.mixs_hw
            },
            ..self
        }
    }

    /// The input mix is cleared.
    pub open spec fn mix_cleared(self) -> Fx {
        Fx { mixs: Seq::new(16, |i: int| 0i32), ..self }
    }

    /// Step `i` of the program.
    pub open spec fn micro(self, i: int) -> Micro {
        Micro::of(
            self.mpro[4 * i],
            self.mpro[4 * i + 1],
            self.mpro[4 * i + 2],
            self.mpro[4 * i + 3],
        )
    }

    /// Whether one of the first `n` steps writes effect output `e`.
    pub open spec fn writes_output(self, e: int, n: int) -> bool {
        exists|k: int| 0 <= k < n && (#[trigger] self.micro(k)).ewt && self.micro(k).ewa == e
    }

    // ---- the stages of a step --------------------------------------------------

    /// The input that a step reads: a memory register, an input mix, an external
    /// input; other numbers keep the last one.
    pub open spec fn input(self, ira: u16) -> i32 {
        if ira & 0x20 == 0 {
            self.mems[(ira & 0x1F) as int]
        } else if ira & 0x10 == 0 {
            self.mixs[(ira & 0xF) as int] << 4
        } else if ira & 0xE == 0 {
            (self.exts[(ira & 1) as int] as i32) << 8
        } else {
            self.pipe.inputs_reg
        }
    }

    pub open spec fn input_latched(self, w: Micro) -> Fx {
        Fx { pipe: Pipe { inputs_reg: self.input(w.ira), ..self.pipe }, ..self }
    }

    /// The multiplier.
    pub open spec fn multiplier(self, w: Micro) -> i32 {
        if w.ysel == 0 {
            self.pipe.frc_reg
        } else if w.ysel == 1 {
            (self.coef[w.cra as int] as i32) >> 3
        } else if w.ysel == 2 {
            (self.pipe.y_reg >> 11) & 0x1FFF
        } else {
            (self.pipe.y_reg >> 4) & 0xFFF
        }
    }

    /// The accumulator as it leaves the shifter: doubled by one of the two shift
    /// bits, clipped to 24 bits unless the other is set.
    pub open spec fn shifted(self, w: Micro) -> i32 {
        let a = sign_extended(self.pipe.sft_reg, 26) as u32;
        let d = (if w.shft0 != w.shft1 {
            a << 1
        } else {
            a
        }) as i32;
        let c = if w.shft1 {
            d
        } else if d < -0x80_0000 {
            (-0x80_0000) as i32
        } else if d > 0x7F_FFFF {
            0x7F_FFFF
        } else {
            d
        };
        (c as u32 & 0xFF_FFFF) as i32
    }

    /// Y and FRC are latched.
    pub open spec fn factors_latched(self, w: Micro, shifter: i32) -> Fx {
        Fx {
            pipe: Pipe {
                y_reg: if w.yrl {
                    self.pipe.inputs_reg & 0xFF_FFFF
                } else {
                    self.pipe.y_reg
                },
                frc_reg: if w.frcl {
                    if w.shft0 && w.shft1 {
                        shifter & 0xFFF
                    } else {
                        (shifter >> 11) & 0x1FFF
                    }
                } else {
                    self.pipe.frc_reg
                },
                ..self.pipe
            },
            ..self
        }
    }

    /// The temp register that a step reads.
    pub open spec fn temp_read(self, w: Micro) -> i32 {
        sign_extended(self.temp[(w.tra.wrapping_add(self.dec) & 0x7F) as int], 24)
    }

    /// What is added to the product.
    pub open spec fn addend(self, w: Micro) -> i32 {
        let b = if w.bsel {
            self.pipe.sft_reg
        } else {
            self.temp_read(w)
        };
        if w.zero {
            0
        } else if w.negb {
            0i32.wrapping_sub(b)
        } else {
            b
        }
    }

    /// The product of a step.
    pub open spec fn product(self, w: Micro, y: i32) -> i32 {
        let x = if w.xsel {
            sign_extended(self.pipe.inputs_reg, 24)
        } else {
            self.temp_read(w)
        };
        ((((sign_extended(y, 13) as i64) * (x as i64)) as i64) >> 12) as i32
    }

    /// The product and the addend make the new accumulator.
    pub open spec fn accumulated(self, w: Micro, y: i32) -> Fx {
        Fx {
            pipe: Pipe {
                sft_reg: self.product(w, y).wrapping_add(self.addend(w)) & 0x3FF_FFFF,
                ..self.pipe
            },
            ..self
        }
    }

    /// An effect output is written.
    pub open spec fn output(self, w: Micro, shifter: i32) -> Fx {
        if w.ewt {
            let e = (shifter >> 8) as i16;
            Fx {
                efreg: self.efreg.update(w.ewa as int, e),
                efreg_hw: if magnitude(e as int) > self.efreg_hw[w.ewa as int] {
                    self.efreg_hw.update(w.ewa as int, magnitude(e as int) as i32)
                } else {
                    self.efreg_hw
                },
                ..self
            }
        } else {
            self
        }
    }

    /// A temp register and a memory register are written.
    pub open spec fn stored(self, w: Micro, shifter: i32) -> Fx {
        Fx {
            temp: if w.twt {
                self.temp.update((w.twa.wrapping_add(self.dec) & 0x7F) as int, shifter)
            } else {
                self.temp
            },
            mems: if w.iwt {
                self.mems.update(w.iwa as int, self.pipe.read_value)
            } else {
                self.mems
            },
            ..self
        }
    }

    /// The delay-RAM word under access; the upper half of the range has no RAM.
    pub open spec fn delay_word(self, ram: Seq<u8>) -> u16 {
        if self.pipe.rw_addr & 0x4_0000 != 0 {
            0
        } else {
            folded16(ram, self.pipe.rw_addr << 1)
        }
    }

    /// The delay-RAM access that is under way is done.
    pub open spec fn accessed(self, ram: Seq<u8>) -> Fx {
        let p = self.pipe;
        if p.read_pending != 0 {
            Fx {
                pipe: Pipe {
                    read_value: if p.read_pending == 2 {
                        ((self.delay_word(ram) as i32) << 8) & 0xFF_FFFF
                    } else {
                        float_value(self.delay_word(ram))
                    },
                    read_pending: 0,
                    ..p
                },
                ..self
            }
        } else {
            Fx { pipe: Pipe { write_pending: false, ..p }, ..self }
        }
    }

    /// The delay RAM after the access that is under way.
    pub open spec fn ram_accessed(self, ram: Seq<u8>) -> Seq<u8> {
        let p = self.pipe;
        if p.read_pending == 0 && p.write_pending && p.rw_addr & 0x4_0000 == 0 {
            put16(ram, p.rw_addr << 1, p.write_value)
        } else {
            ram
        }
    }

    /// The delay-RAM address of a step.
    pub open spec fn address(self, w: Micro) -> u32 {
        let a = (self.madrs[w.masa as int] as u32).wrapping_add(
            if w.nxaddr {
                1
            } else {
                0
            },
        );
        let b = if w.adrgb {
            a.wrapping_add(sign_extended(self.pipe.adrs_reg as i32, 12) as u32)
        } else {
            a
        };
        let c = if w.table {
            b & 0xFFFF
        } else {
            b.wrapping_add(self.dec) & self.rbl.wrapping_sub(1)
        };
        c.wrapping_add(self.rbp << 12) & 0x7_FFFF
    }

    /// A delay-RAM access gets under way.
    pub open spec fn access_begun(self, w: Micro, shifter: i32) -> Fx {
        let p = self.pipe;
        Fx {
            pipe: Pipe {
                rw_addr: self.address(w),
                read_pending: if w.mrt {
                    if w.nofl {
                        2
                    } else {
                        1
                    }
                } else {
                    p.read_pending
                },
                write_pending: p.write_pending || w.mwt,
                write_value: if w.mwt {
                    if w.nofl {
                        (shifter >> 8) as u16
                    } else {
                        float_word(shifter)
                    }
                } else {
                    p.write_value
                },
                ..p
            },
            ..self
        }
    }

    /// The address register is latched.
    pub open spec fn address_latched(self, w: Micro, shifter: i32) -> Fx {
        Fx {
            pipe: Pipe {
                adrs_reg: if w.adrl {
                    if w.shft0 && w.shft1 {
                        (shifter >> 12) as u16
                    } else {
                        ((sign_extended(self.pipe.inputs_reg, 24) >> 16) & 0xFFF) as u16
                    }
                } else {
                    self.pipe.adrs_reg
                },
                ..self.pipe
            },
            ..self
        }
    }

    /// The arithmetic of a step. The shifter and the multiplier see what the step
    /// before has left.
    pub open spec fn computed(self, w: Micro) -> Fx {
        let s = self.input_latched(w);
        let y = s.multiplier(w);
        let shifter = s.shifted(w);
        s.factors_latched(w, shifter).accumulated(w, y).output(w, shifter).stored(w, shifter)
    }

    /// One step. Delay RAM is accessed one step after its address was made.
    pub open spec fn stepped(self, ram: Seq<u8>, w: Micro) -> Fx {
        let shifter = self.shifted(w);
        self.computed(w).accessed(ram).access_begun(w, shifter).address_latched(w, shifter)
    }

    /// The delay RAM after one step.
    pub open spec fn ram_stepped(self, ram: Seq<u8>, w: Micro) -> Seq<u8> {
        self.computed(w).ram_accessed(ram)
    }

    /// The processor and its delay RAM after `n` steps.
    pub open spec fn steps(self, ram: Seq<u8>, n: int) -> (Fx, Seq<u8>)
        decreases n,
    {
        if n <= 0 {
            (self, ram)
        } else {
            let (s, r) = self.steps(ram, n - 1);
            let w = self.micro(n - 1);
            (s.stepped(r, w), s.ram_stepped(r, w))
        }
    }

    /// The ring moves on by a word per sample.
    pub open spec fn ring_moved(self) -> Fx {
        Fx {
            dec: (if self.dec == 0 {
                self.rbl
            } else {
                self.dec
            }).wrapping_sub(1),
            ..self
        }
    }

    /// The processor after one sample: all 128 steps, if a program runs. The
    /// input mix is used up.
    pub open spec fn passed(self, ram: Seq<u8>) -> Fx {
        if self.is_running() {
            self.steps(ram, 128).0.ring_moved().mix_cleared()
        } else {
            self.mix_cleared()
        }
    }

    /// The delay RAM after one sample.
    pub open spec fn ram_passed(self, ram: Seq<u8>) -> Seq<u8> {
        if self.is_running() {
            self.steps(ram, 128).1
        } else {
            ram
        }
    }
}

// ---- code -----------------------------------------------------------------------

impl Default for Dsp {
    fn default() -> (r: Dsp)
        ensures
            r@ == Fx::reset(),
    {
        Dsp::new()
    }
}

/// The product of two 32-bit numbers fits 64 bits.
proof fn product_fits(a: i32, b: i32)
    ensures
        i64::MIN <= a * b <= i64::MAX,
{
    assert(-0x4000_0000_0000_0000 <= a * b <= 0x4000_0000_0000_0000) by (nonlinear_arith)
        requires
            -0x8000_0000 <= a <= 0x7FFF_FFFF,
            -0x8000_0000 <= b <= 0x7FFF_FFFF,
    ;
}

impl Dsp {
    /// A processor at reset.
    pub fn new() -> (r: Dsp)
        ensures
            r@ == Fx::reset(),
    {
        let r = Dsp {
            coef: [0i16; 64],
            madrs: [0u16; 32],
            mpro: [0u16; 512],
            temp: [0i32; 128],
            mems: [0i32; 32],
            mixs: [0i32; 16],
            exts: [0i16; 2],
            efreg: [0i16; 16],
            efreg_hw: [0i32; 16],
            mixs_hw: [0i32; 16],
            rbp: 0,
            rbl: 8192,
            dec: 0,
            stopped: true,
            last_step: 0,
            pipe: Pipe {
                sft_reg: 0,
                inputs_reg: 0,
                frc_reg: 0,
                y_reg: 0,
                adrs_reg: 0,
                read_pending: 0,
                read_value: 0,
                write_pending: false,
                write_value: 0,
                rw_addr: 0,
            },
        };
        proof {
            let e = Fx::reset();
            assert(r@.coef =~= e.coef);
            assert(r@.madrs =~= e.madrs);
            assert(r@.mpro =~= e.mpro);
            assert(r@.temp =~= e.temp);
            assert(r@.mems =~= e.mems);
            assert(r@.mixs =~= e.mixs);
            assert(r@.exts =~= e.exts);
            assert(r@.efreg =~= e.efreg);
            assert(r@.efreg_hw =~= e.efreg_hw);
            assert(r@.mixs_hw =~= e.mixs_hw);
        }
        r
    }

    /// Starts the loaded program, and finds out its length.
    pub fn start(&mut self)
        ensures
            final(self)@ == old(self)@.started(),
    {
        self.stopped = false;
        let mut n: usize = 128;
        while n > 0
            invariant_except_break
                self@.program_length(128) == self@.program_length(n as int),
            invariant
                n <= 128,
                self@ == (Fx { stopped: false, ..old(self)@ }),
            ensures
                n == self@.program_length(128),
            decreases n,
        {
            let i: usize = (n - 1) * 4;
            if self.mpro[i] != 0 || self.mpro[i + 1] != 0 || self.mpro[i + 2] != 0 || self.mpro[i
                + 3] != 0 {
                break ;
            }
            n -= 1;
        }
        proof {
            same_program(self@, old(self)@, 128);
        }
        self.last_step = n;
    }

    /// Whether a program is loaded and runs.
    pub fn running(&self) -> (r: bool)
        ensures
            r == self@.is_running(),
    {
        !self.stopped && self.last_step > 0
    }

    /// Adds a sample to a channel of the input mix.
    pub fn set_sample(&mut self, sample: i32, sel: usize)
        ensures
            final(self)@ == old(self)@.sampled(sample, (sel & 0xF) as int),
    {
        proof {
            masks_bound();
        }
        let i: usize = sel & 0xF;
        let sum: i32 = self.mixs[i].wrapping_add(sample);
        let m: i32 = sum & 0xF_FFFF;
        self.mixs[i] = m;
        if m > self.mixs_hw[i] {
            self.mixs_hw[i] = m;
        }
    }

    /// There are 16 effect outputs.
    pub(crate) proof fn output_within(&self, e: int)
        ensures
            self@.writes_output(e, 128) ==> 0 <= e < 16,
    {
        if self@.writes_output(e, 128) {
            let k = choose|k: int|
                0 <= k < 128 && (#[trigger] self@.micro(k)).ewt && self@.micro(k).ewa == e;
            masks_bound();
        }
    }

    fn read_input(&self, ira: u16) -> (r: i32)
        ensures
            r == self@.input(ira),
    {
        proof {
            masks_bound();
        }
        if ira & 0x20 == 0 {
            self.mems[(ira & 0x1F) as usize]
        } else if ira & 0x10 == 0 {
            self.mixs[(ira & 0xF) as usize] << 4
        } else if ira & 0xE == 0 {
            (self.exts[(ira & 1) as usize] as i32) << 8
        } else {
            self.pipe.inputs_reg
        }
    }

    fn read_multiplier(&self, w: &Micro) -> (r: i32)
        requires
            w.wf(),
        ensures
            r == self@.multiplier(*w),
    {
        if w.ysel == 0 {
            self.pipe.frc_reg
        } else if w.ysel == 1 {
            (self.coef[w.cra as usize] as i32) >> 3
        } else if w.ysel == 2 {
            (self.pipe.y_reg >> 11) & 0x1FFF
        } else {
            (self.pipe.y_reg >> 4) & 0xFFF
        }
    }

    fn shift(&self, w: &Micro) -> (r: i32)
        ensures
            r == self@.shifted(*w),
    {
        let a: u32 = sext(self.pipe.sft_reg, 26) as u32;
        let d: i32 = (if w.shft0 != w.shft1 {
            a << 1
        } else {
            a
        }) as i32;
        let c: i32 = if w.shft1 {
            d
        } else if d < -0x80_0000 {
            -0x80_0000
        } else if d > 0x7F_FFFF {
            0x7F_FFFF
        } else {
            d
        };
        (c as u32 & 0xFF_FFFF) as i32
    }

    fn latch_factors(&mut self, w: &Micro, shifter: i32)
        ensures
            final(self)@ == old(self)@.factors_latched(*w, shifter),
    {
        if w.yrl {
            self.pipe.y_reg = self.pipe.inputs_reg & 0xFF_FFFF;
        }
        if w.frcl {
            self.pipe.frc_reg = if w.shft0 && w.shft1 {
                shifter & 0xFFF
            } else {
                (shifter >> 11) & 0x1FFF
            };
        }
    }

    fn read_temp(&self, w: &Micro) -> (r: i32)
        ensures
            r == self@.temp_read(*w),
    {
        let i: u32 = w.tra.wrapping_add(self.dec);
        proof {
            masks_bound();
        }
        sext(self.temp[(i & 0x7F) as usize], 24)
    }

    fn accumulate(&mut self, w: &Micro, y: i32)
        ensures
            final(self)@ == old(self)@.accumulated(*w, y),
    {
        let t: i32 = self.read_temp(w);
        let x: i32 = if w.xsel {
            sext(self.pipe.inputs_reg, 24)
        } else {
            t
        };
        let f: i32 = sext(y, 13);
        proof {
            product_fits(f, x);
        }
        let product: i32 = (((f as i64) * (x as i64)) >> 12) as i32;
        let b: i32 = if w.bsel {
            self.pipe.sft_reg
        } else {
            t
        };
        let addend: i32 = if w.zero {
            0
        } else if w.negb {
            0i32.wrapping_sub(b)
        } else {
            b
        };
        self.pipe.sft_reg = product.wrapping_add(addend) & 0x3FF_FFFF;
    }

    fn write_output(&mut self, w: &Micro, shifter: i32)
        requires
            w.wf(),
        ensures
            final(self)@ == old(self)@.output(*w, shifter),
    {
        if w.ewt {
            let i: usize = w.ewa as usize;
            let e: i16 = (shifter >> 8) as i16;
            self.efreg[i] = e;
            let m: i32 = if e < 0 {
                -(e as i32)
            } else {
                e as i32
            };
            if m > self.efreg_hw[i] {
                self.efreg_hw[i] = m;
            }
        }
    }

    fn store(&mut self, w: &Micro, shifter: i32)
        requires
            w.wf(),
        ensures
            final(self)@ == old(self)@.stored(*w, shifter),
    {
        if w.twt {
            let i: u32 = w.twa.wrapping_add(self.dec);
            proof {
                masks_bound();
            }
            self.temp[(i & 0x7F) as usize] = shifter;
        }
        if w.iwt {
            self.mems[w.iwa as usize] = self.pipe.read_value;
        }
    }

    fn compute(&mut self, w: &Micro) -> (shifter: i32)
        requires
            w.wf(),
        ensures
            final(self)@ == old(self)@.computed(*w),
            shifter == old(self)@.shifted(*w),
    {
        self.pipe.inputs_reg = self.read_input(w.ira);
        let y: i32 = self.read_multiplier(w);
        let shifter: i32 = self.shift(w);
        self.latch_factors(w, shifter);
        self.accumulate(w, y);
        self.write_output(w, shifter);
        self.store(w, shifter);
        shifter
    }

    fn access(&mut self, ram: &mut Ram)
        requires
            old(ram)@.len() > 0,
        ensures
            final(self)@ == old(self)@.accessed(old(ram)@),
            final(ram)@ == old(self)@.ram_accessed(old(ram)@),
    {
        if self.pipe.read_pending != 0 {
            let word: u16 = if self.pipe.rw_addr & 0x4_0000 != 0 {
                0
            } else {
                ram.read16(self.pipe.rw_addr << 1)
            };
            self.pipe.read_value = if self.pipe.read_pending == 2 {
                ((word as i32) << 8) & 0xFF_FFFF
            } else {
                dspfloat_to_int(word)
            };
            self.pipe.read_pending = 0;
        } else if self.pipe.write_pending {
            if self.pipe.rw_addr & 0x4_0000 == 0 {
                ram.write16(self.pipe.rw_addr << 1, self.pipe.write_value);
            }
            self.pipe.write_pending = false;
        }
    }

    fn make_address(&self, w: &Micro) -> (r: u32)
        requires
            w.wf(),
        ensures
            r == self@.address(*w),
    {
        let mut addr: u32 = self.madrs[w.masa as usize] as u32;
        addr = addr.wrapping_add(
            if w.nxaddr {
                1
            } else {
                0
            },
        );
        if w.adrgb {
            addr = addr.wrapping_add(sext(self.pipe.adrs_reg as i32, 12) as u32);
        }
        if w.table {
            addr = addr & 0xFFFF;
        } else {
            addr = addr.wrapping_add(self.dec) & self.rbl.wrapping_sub(1);
        }
        addr.wrapping_add(self.rbp << 12) & 0x7_FFFF
    }

    fn begin_access(&mut self, w: &Micro, shifter: i32)
        requires
            w.wf(),
        ensures
            final(self)@ == old(self)@.access_begun(*w, shifter),
    {
        self.pipe.rw_addr = self.make_address(w);
        if w.mrt {
            self.pipe.read_pending = if w.nofl {
                2
            } else {
                1
            };
        }
        if w.mwt {
            self.pipe.write_pending = true;
            self.pipe.write_value = if w.nofl {
                (shifter >> 8) as u16
            } else {
                int_to_dspfloat(shifter)
            };
        }
    }

    fn latch_address(&mut self, w: &Micro, shifter: i32)
        ensures
            final(self)@ == old(self)@.address_latched(*w, shifter),
    {
        if w.adrl {
            self.pipe.adrs_reg = if w.shft0 && w.shft1 {
                (shifter >> 12) as u16
            } else {
                ((sext(self.pipe.inputs_reg, 24) >> 16) & 0xFFF) as u16
            };
        }
    }

    fn micro_step(&mut self, w: &Micro, ram: &mut Ram)
        requires
            w.wf(),
            old(ram)@.len() > 0,
        ensures
            final(self)@ == old(self)@.stepped(old(ram)@, *w),
            final(ram)@ == old(self)@.ram_stepped(old(ram)@, *w),
            final(ram)@.len() == old(ram)@.len(),
    {
        let shifter: i32 = self.compute(w);
        self.access(ram);
        self.begin_access(w, shifter);
        self.latch_address(w, shifter);
    }

    /// Runs the program for one output sample, with `ram` as the delay line.
    pub fn step(&mut self, ram: &mut Ram)
        requires
            old(ram)@.len() > 0,
        ensures
            final(self)@ == old(self)@.passed(old(ram)@),
            final(ram)@ == old(self)@.ram_passed(old(ram)@),
            final(ram)@.len() == old(ram)@.len(),
    {
        if self.running() {
            let ghost s0 = self@;
            let ghost r0 = ram@;
            let mut i: usize = 0;
            while i < 128
                invariant
                    i <= 128,
                    ram@.len() == r0.len() > 0,
                    s0 == old(self)@,
                    r0 == old(ram)@,
                    (self@, ram@) == s0.steps(r0, i as int),
                    self@.mpro == s0.mpro,
                    s0.mpro.len() == 512,
                decreases 128 - i,
            {
                let k: usize = i * 4;
                let w: Micro = Micro::decode(
                    self.mpro[k],
                    self.mpro[k + 1],
                    self.mpro[k + 2],
                    self.mpro[k + 3],
                );
                self.micro_step(&w, ram);
                i += 1;
            }
            if self.dec == 0 {
                self.dec = self.rbl;
            }
            self.dec = self.dec.wrapping_sub(1);
        }
        self.mixs = [0i32; 16];
        assert(self@.mixs =~= Fx::reset().mixs);
    }
}

proof fn same_program(a: Fx, b: Fx, n: int)
    requires
        a.mpro == b.mpro,
    ensures
        a.program_length(n) == b.program_length(n),
    decreases n,
{
    if n > 0 {
        same_program(a, b, n - 1);
    }
}

// ---- laws -----------------------------------------------------------------------

/// What a step leaves as it was: the program, its data, the input mix and the
/// ring.
proof fn step_frame(f: Fx, ram: Seq<u8>, w: Micro)
    ensures
        ({
            let n = f.stepped(ram, w);
            n.mpro == f.mpro && n.coef == f.coef && n.madrs == f.madrs && n.mixs == f.mixs && n.exts
                == f.exts && n.rbp == f.rbp && n.rbl == f.rbl && n.dec == f.dec && n.stopped
                == f.stopped && n.last_step == f.last_step
        }),
{
}

proof fn steps_frame(f: Fx, ram: Seq<u8>, n: int)
    ensures
        ({
            let s = f.steps(ram, n).0;
            s.mixs_hw == f.mixs_hw && s.rbl == f.rbl && s.dec == f.dec && s.rbp == f.rbp && s.madrs
                == f.madrs && s.stopped == f.stopped && s.last_step == f.last_step
        }),
    decreases n,
{
    if n > 0 {
        steps_frame(f, ram, n - 1);
        step_frame(f.steps(ram, n - 1).0, f.steps(ram, n - 1).1, f.micro(n - 1));
    }
}

/// Error of a 24-bit number with exponent `e` that goes through a delay-RAM
/// word.
proof fn float_error(v: i32, e: u32)
    by (bit_vector)
    requires
        -0x80_0000 <= v <= 0x7F_FFFF,
        e <= 12,
        ({
            let s = (((v & 0xFF_FFFF) as u32) << 8) as u32;
            let sign = (s as i32 >> 31) as u32;
            (((s ^ sign) << 1) | 0x8_0000) >> ((31 - e) as u32) == 1
        }),
    ensures
        ({
            let shift: u32 = if e == 12 {
                11
            } else {
                e
            };
            let w = (((((((v & 0xFF_FFFF) as u32) << 8) as i32 >> ((19 - shift) as u32)) as u32)
                & 0x87FF) | (e << 11)) as u16;
            let sign: u32 = if w & 0x8000 != 0 {
                0xC000_0000
            } else {
                0
            };
            let exp: u32 = ((w >> 11) & 0xF) as u32;
            let low: u32 = (w & 0x7FF) as u32;
            let mantissa: u32 = if exp < 12 {
                low | 0x800
            } else {
                low
            };
            let right: u32 = if exp < 11 {
                (8 + exp) as u32
            } else {
                19
            };
            let x = ((((mantissa << 19) ^ sign) as i32) >> right) & 0xFF_FFFF;
            let r = (x << 8) >> 8;
            let m = if v < 0 {
                0 - v
            } else {
                v + 0
            };
            r - v <= ((m as u32) >> 10) + 1 && v - r <= ((m as u32) >> 10) + 1
        }),
{
}

/// A 24-bit number that is written to delay RAM and read back is off by at most
/// one part in 1024, rounded up.
pub proof fn delay_word_is_close(v: i32)
    requires
        -0x80_0000 <= v <= 0x7F_FFFF,
    ensures
        ({
            let r = sign_extended(float_value(float_word(v & 0xFF_FFFF)), 24);
            magnitude(r - v) <= ((magnitude(v as int) as u32) >> 10) + 1
        }),
{
    let e = exponent(v & 0xFF_FFFF);
    exponent_bounds(v & 0xFF_FFFF);
    float_error(v, e);
}

/// A channel of the input mix holds 20 bits whatever is added to it, and the
/// others keep theirs.
pub proof fn input_mix_holds_20_bits(f: Fx, sample: i32, sel: int)
    requires
        0 <= sel < 16,
        f.mixs.len() == 16,
    ensures
        0 <= f.sampled(sample, sel).mixs[sel] <= 0xF_FFFF,
        forall|i: int|
            0 <= i < 16 && i != sel ==> #[trigger] f.sampled(sample, sel).mixs[i] == f.mixs[i],
{
    masks_bound();
}

/// The input mix is used up by every pass, whether a program runs or not.
pub proof fn input_mix_is_used_up(f: Fx, ram: Seq<u8>, i: int)
    requires
        0 <= i < 16,
    ensures
        f.passed(ram).mixs[i] == 0,
{
}

proof fn steps_keep_output(f: Fx, ram: Seq<u8>, i: int, n: int)
    requires
        0 <= i < 16,
        f.efreg.len() == 16,
        forall|k: int| 0 <= k < n ==> !((#[trigger] f.micro(k)).ewt && f.micro(k).ewa == i),
    ensures
        f.steps(ram, n).0.efreg[i] == f.efreg[i],
        f.steps(ram, n).0.efreg.len() == f.efreg.len(),
    decreases n,
{
    if n > 0 {
        steps_keep_output(f, ram, i, n - 1);
        masks_bound();
        assert(!(f.micro(n - 1).ewt && f.micro(n - 1).ewa == i));
    }
}

/// An effect output that no step writes keeps its value from sample to sample.
pub proof fn unwritten_outputs_stay_latched(f: Fx, ram: Seq<u8>, i: int)
    requires
        0 <= i < 16,
        f.efreg.len() == 16,
        !f.writes_output(i, 128),
    ensures
        f.passed(ram).efreg[i] == f.efreg[i],
{
    steps_keep_output(f, ram, i, 128);
}

/// The upper half of the delay range has no RAM: a raw read of it gives 0, and
/// no access of it changes RAM.
pub proof fn upper_delay_range_is_empty(f: Fx, ram: Seq<u8>)
    requires
        f.pipe.rw_addr & 0x4_0000 != 0,
    ensures
        f.pipe.read_pending == 2 ==> f.accessed(ram).pipe.read_value == 0,
        f.ram_accessed(ram) == ram,
{
    extension_bits(0);
}

/// A raw word that is written to delay RAM is what a raw read of its address
/// gives, moved up to 24 bits.
pub proof fn raw_delay_word_is_read_back(f: Fx, g: Fx, ram: Seq<u8>)
    requires
        ram.len() >= 2,
        f.pipe.read_pending == 0,
        f.pipe.write_pending,
        f.pipe.rw_addr & 0x4_0000 == 0,
        g.pipe.read_pending == 2,
        g.pipe.rw_addr == f.pipe.rw_addr,
    ensures
        g.accessed(f.ram_accessed(ram)).pipe.read_value == ((f.pipe.write_value as i32) << 8)
            & 0xFF_FFFF,
{
    extension_bits(0);
    assert((f.pipe.rw_addr << 1) < 0xFFFF_FFFF);
    word_is_read_back(ram, f.pipe.rw_addr << 1, f.pipe.write_value);
}

/// Each sample moves the ring by one word, backwards, and around at its start.
/// A position in the ring stays in it.
pub proof fn ring_moves_by_one(f: Fx, ram: Seq<u8>)
    requires
        f.is_running(),
        f.rbl > 0,
        f.dec < f.rbl,
    ensures
        f.passed(ram).dec == (if f.dec == 0 {
            f.rbl - 1
        } else {
            f.dec - 1
        }),
        f.passed(ram).rbl == f.rbl,
{
    steps_frame(f, ram, 128);
}

/// The program that [`Dsp::start`] finds ends in a step, and nothing follows it.
pub proof fn program_ends_in_a_step(f: Fx, n: int)
    requires
        0 <= n,
    ensures
        0 <= f.program_length(n) <= n,
        f.program_length(n) > 0 ==> f.has_step(f.program_length(n) - 1),
        forall|k: int| f.program_length(n) <= k < n ==> !#[trigger] f.has_step(k),
    decreases n,
{
    if n > 0 && !f.has_step(n - 1) {
        program_ends_in_a_step(f, n - 1);
    }
}

// ---- arithmetic of a step ---------------------------------------------------------

/// The number that `v` stands for, modulo `m`, in two's complement.
pub open spec fn signed(v: int, m: int) -> int {
    (v + m / 2) % m - m / 2
}

proof fn extension_bits(v: i32)
    by (bit_vector)
    ensures
        sign_extended(v, 12) & 0xFFF == v & 0xFFF && -0x800 <= sign_extended(v, 12) <= 0x7FF,
        sign_extended(v, 13) & 0x1FFF == v & 0x1FFF && -0x1000 <= sign_extended(v, 13) <= 0xFFF,
        sign_extended(v, 24) & 0xFF_FFFF == v & 0xFF_FFFF && -0x80_0000 <= sign_extended(v, 24)
            <= 0x7F_FFFF,
        sign_extended(v, 26) & 0x3FF_FFFF == v & 0x3FF_FFFF && -0x200_0000 <= sign_extended(v, 26)
            <= 0x1FF_FFFF,
        0 <= v <= 0xF_FFFF ==> v << 4 == 16 * v,
        -0x8000 <= v <= 0x7FFF ==> v << 8 == 256 * v,
        0 <= v <= 0xFFFF ==> (v << 8) & 0xFF_FFFF == 256 * v,
        v as u16 == (v as u32) & 0xFFFF,
        v as i16 == ((v as u32) & 0xFFFF) as u16 as i16,
        0 <= v <= 0x3F ==> (v as u32) << 12 == v * 4096,
        forall|u: u32| #[trigger] (u << 1) < 0xFFFF_FFFF,
        -0x200_0000 <= v <= 0x1FF_FFFF ==> ((v as u32) << 1) as i32 == 2 * v,
{
}

/// Sign extension keeps the number that the low bits stand for.
pub proof fn sign_extension_keeps_the_number(v: i32)
    ensures
        sign_extended(v, 12) == signed(v as int, 0x1000),
        sign_extended(v, 13) == signed(v as int, 0x2000),
        sign_extended(v, 24) == signed(v as int, 0x100_0000),
        sign_extended(v, 26) == signed(v as int, 0x400_0000),
{
    extension_bits(v);
    let a = sign_extended(v, 12);
    let b = sign_extended(v, 13);
    let c = sign_extended(v, 24);
    let d = sign_extended(v, 26);
    assert(v == ((v >> 12) - (a >> 12)) * 0x1000 + a && v == ((v >> 13) - (b >> 13)) * 0x2000 + b
        && v == ((v >> 24) - (c >> 24)) * 0x100_0000 + c && v == ((v >> 26) - (d >> 26))
        * 0x400_0000 + d) by {
        low_bits();
    }
    signed_is(v as int, 0x1000, (v >> 12) - (a >> 12), a as int);
    signed_is(v as int, 0x2000, (v >> 13) - (b >> 13), b as int);
    signed_is(v as int, 0x100_0000, (v >> 24) - (c >> 24), c as int);
    signed_is(v as int, 0x400_0000, (v >> 26) - (d >> 26), d as int);
}

proof fn signed_is(v: int, m: int, q: int, r: int)
    requires
        v == q * m + r,
        m > 0,
        m % 2 == 0,
        -m <= 2 * r < m,
    ensures
        signed(v, m) == r,
{
    lemma_fundamental_div_mod_converse(v + m / 2, m, q, r + m / 2);
}

proof fn doubling(a: i32)
    requires
        -0x200_0000 <= a <= 0x1FF_FFFF,
    ensures
        ((a as u32) << 1) as i32 == 2 * a,
        (a as u32) as i32 == a,
{
    extension_bits(a);
    casts();
}

/// The low 24 bits of a number are it, modulo that many bits.
#[verifier::spinoff_prover]
proof fn low_24_bits(c: i32)
    ensures
        c as u32 & 0xFF_FFFF == c as int % 0x100_0000,
        -0x80_0000 <= c <= 0x7F_FFFF ==> signed((c as u32 & 0xFF_FFFF) as int, 0x100_0000) == c,
{
    let u = c as u32;
    let r = u & 0xFF_FFFF;
    low_bits();
    casts();
    assert((u >> 24) * 0x100_0000 + r == u);
    let z: int = if c < 0 {
        1
    } else {
        0
    };
    lemma_fundamental_div_mod_converse(
        c as int,
        0x100_0000,
        (u >> 24) as int - 256 * z,
        r as int,
    );
}

/// The shifter passes the accumulator on: as it is or doubled, and clipped to 24 bits
/// unless the second shift bit asks for the low bits alone.
#[verifier::spinoff_prover]
pub proof fn shifter_scales_and_clips(f: Fx, w: Micro)
    ensures
        ({
            let a = signed(f.pipe.sft_reg as int, 0x400_0000);
            let d = if w.shft0 != w.shft1 {
                2 * a
            } else {
                a
            };
            let r = f.shifted(w) as int;
            &&& 0 <= r < 0x100_0000
            &&& w.shft1 ==> r == d % 0x100_0000
            &&& !w.shft1 ==> signed(r, 0x100_0000) == (if d < -0x80_0000 {
                -0x80_0000
            } else if d > 0x7F_FFFF {
                0x7F_FFFF
            } else {
                d
            })
        }),
{
    let v = f.pipe.sft_reg;
    sign_extension_keeps_the_number(v);
    let a = sign_extended(v, 26);
    extension_bits(v);
    doubling(a);
    let d = (if w.shft0 != w.shft1 {
        (a as u32) << 1
    } else {
        a as u32
    }) as i32;
    let c = if w.shft1 {
        d
    } else if d < -0x80_0000 {
        (-0x80_0000) as i32
    } else if d > 0x7F_FFFF {
        0x7F_FFFF
    } else {
        d
    };
    low_24_bits(c);
}

/// A step multiplies a 24-bit number by a 13-bit one, rounds down to 24 bits, and adds
/// a temp register or the accumulator, negated if asked; the accumulator keeps 26
/// bits.
#[verifier::spinoff_prover]
pub proof fn step_multiplies_and_adds(f: Fx, w: Micro, y: i32)
    ensures
        ({
            let t = signed(f.temp[(w.tra + f.dec) % 128] as int, 0x100_0000);
            let x = if w.xsel {
                signed(f.pipe.inputs_reg as int, 0x100_0000)
            } else {
                t
            };
            let b = if w.bsel {
                f.pipe.sft_reg as int
            } else {
                t
            };
            let product = signed(y as int, 0x2000) * x;
            f.accumulated(w, y).pipe.sft_reg == (product / 4096 + (if w.zero {
                0
            } else if w.negb {
                -b
            } else {
                b
            })) % 0x400_0000
        }),
{
    let i = w.tra.wrapping_add(f.dec) & 0x7F;
    temp_place(w.tra, f.dec);
    let raw = f.temp[i as int];
    sign_extension_keeps_the_number(raw);
    sign_extension_keeps_the_number(f.pipe.inputs_reg);
    sign_extension_keeps_the_number(y);
    extension_bits(raw);
    extension_bits(f.pipe.inputs_reg);
    extension_bits(y);
    let t = sign_extended(raw, 24);
    assert(f.temp_read(w) == t);
    let x = if w.xsel {
        sign_extended(f.pipe.inputs_reg, 24)
    } else {
        t
    };
    let m = sign_extended(y, 13);
    let p = (m * x) as i64;
    assert(-0x8_0000_0000 <= m * x <= 0x8_0000_0000) by (nonlinear_arith)
        requires
            -0x1000 <= m <= 0x1000,
            -0x80_0000 <= x <= 0x80_0000,
    ;
    assert(p == m * x);
    assert((p >> 12) == p as int / 4096) by {
        right_shifts();
    }
    assert((p >> 12) as i32 == p as int / 4096);
    let c = if w.bsel {
        f.pipe.sft_reg
    } else {
        t
    };
    sum_modulo_26_bits((p >> 12) as i32, c, w.zero, w.negb);
}

/// The sum of a step, in 26 bits.
#[verifier::spinoff_prover]
proof fn sum_modulo_26_bits(q: i32, c: i32, zero: bool, negb: bool)
    ensures
        ({
            let b = if zero {
                0i32
            } else if negb {
                0i32.wrapping_sub(c)
            } else {
                c
            };
            q.wrapping_add(b) & 0x3FF_FFFF == (q + (if zero {
                0
            } else if negb {
                -c
            } else {
                c as int
            })) % 0x400_0000
        }),
{
    let b = if zero {
        0i32
    } else if negb {
        0i32.wrapping_sub(c)
    } else {
        c
    };
    let exact = q + (if zero {
        0
    } else if negb {
        -c
    } else {
        c as int
    });
    let sum = q.wrapping_add(b);
    low_bits();
    assert((sum >> 26) * 0x400_0000 + (sum & 0x3FF_FFFF) == sum);
    let z = (sum - exact) / 0x1_0000_0000;
    assert(sum == exact + z * 0x1_0000_0000);
    lemma_fundamental_div_mod_converse(
        exact,
        0x400_0000,
        (sum >> 26) as int - 64 * z,
        (sum & 0x3FF_FFFF) as int,
    );
}

/// The multiplier of a step: FRC, a coefficient without its low three bits, or one of
/// two parts of what Y latched of the input.
#[verifier::spinoff_prover]
pub proof fn multiplier_is_a_part(f: Fx, w: Micro, v: Micro, shifter: i32)
    requires
        0 <= shifter <= 0xFF_FFFF,
        0 <= v.cra < 64,
        f.coef.len() == 64,
    ensures
        ({
            let g = f.factors_latched(w, shifter);
            let y = f.pipe.inputs_reg as int % 0x100_0000;
            &&& v.ysel == 1 ==> 8 * g.multiplier(v) <= f.coef[v.cra as int] < 8 * g.multiplier(v)
                + 8
            &&& w.yrl && v.ysel == 2 ==> g.multiplier(v) == y / 2048
            &&& w.yrl && v.ysel == 3 ==> g.multiplier(v) == (y / 16) % 4096
            &&& w.frcl && v.ysel == 0 ==> g.multiplier(v) == (if w.shft0 && w.shft1 {
                shifter as int % 4096
            } else {
                shifter as int / 2048
            })
            &&& !w.frcl && v.ysel == 0 ==> g.multiplier(v) == f.pipe.frc_reg
            &&& !w.yrl && v.ysel > 1 ==> g.multiplier(v) == f.multiplier(v)
        }),
{
    low_bits();
    right_shifts();
    let x = f.pipe.inputs_reg;
    assert((x >> 24) * 0x100_0000 + (x & 0xFF_FFFF) == x);
    let y = x & 0xFF_FFFF;
    let h = y >> 11;
    assert((h >> 13) * 0x2000 + (h & 0x1FFF) == h);
    let l = y >> 4;
    assert((l >> 12) * 0x1000 + (l & 0xFFF) == l);
    let s = shifter >> 11;
    assert((s >> 13) * 0x2000 + (s & 0x1FFF) == s);
    assert((shifter >> 12) * 0x1000 + (shifter & 0xFFF) == shifter);
}

/// What is sent into an empty channel of the input mix is what a step reads there,
/// moved up from 20 to 24 bits; an external input is moved up from 16.
#[verifier::spinoff_prover]
pub proof fn input_is_what_was_sent(f: Fx, sample: i32, sel: u16)
    requires
        sel < 16,
        f.mixs.len() == 16,
        f.exts.len() == 2,
        f.mixs[sel as int] == 0,
        -0x8_0000 <= sample <= 0x7_FFFF,
    ensures
        signed(f.sampled(sample, sel as int).input((0x20 + sel) as u16) as int, 0x100_0000) == 16
            * sample,
        f.input(0x30) == 256 * f.exts[0],
        f.input(0x31) == 256 * f.exts[1],
{
    input_selectors(sel);
    let m = sample & 0xF_FFFF;
    assert(m == sample as int % 0x10_0000 && 0 <= m <= 0xF_FFFF) by {
        low_20_bits(sample);
    }
    assert(m << 4 == 16 * m) by {
        extension_bits(m);
    }
    assert((f.exts[0] as i32) << 8 == 256 * f.exts[0] && (f.exts[1] as i32) << 8 == 256 * f.exts[1])
        by {
        extension_bits(f.exts[0] as i32);
        extension_bits(f.exts[1] as i32);
    }
    assert(sample >= 0 ==> m == sample);
    assert(sample < 0 ==> m == sample + 0x10_0000);
}

/// The low 20 bits of a number are it, modulo that many bits.
proof fn low_20_bits(x: i32)
    ensures
        x & 0xF_FFFF == x as int % 0x10_0000,
        0 <= x & 0xF_FFFF <= 0xF_FFFF,
{
    low_bits();
    assert((x >> 20) * 0x10_0000 + (x & 0xF_FFFF) == x);
}

/// Samples that are sent into one channel add up.
#[verifier::spinoff_prover]
pub proof fn input_mix_adds_up(f: Fx, a: i32, b: i32, sel: int)
    requires
        0 <= sel < 16,
        f.mixs.len() == 16,
        0 <= f.mixs[sel] <= 0xF_FFFF,
        -0x8_0000 <= a <= 0x7_FFFF,
        -0x8_0000 <= b <= 0x7_FFFF,
    ensures
        f.sampled(a, sel).sampled(b, sel).mixs[sel] == (f.mixs[sel] + a + b) % 0x10_0000,
{
    let x = f.mixs[sel].wrapping_add(a);
    let m = x & 0xF_FFFF;
    low_20_bits(x);
    low_20_bits(m.wrapping_add(b));
}

proof fn input_selectors(sel: u16)
    by (bit_vector)
    ensures
        sel < 16 ==> ((0x20 + sel) as u16) & 0x20 != 0 && ((0x20 + sel) as u16) & 0x10 == 0 && ((0x20
            + sel) as u16) & 0xF == sel,
        sel < 32 ==> sel & 0x20 == 0 && sel & 0x1F == sel,
        0x30u16 & 0x20 != 0 && 0x30u16 & 0x10 != 0 && 0x30u16 & 0xE == 0 && 0x30u16 & 1 == 0,
        0x31u16 & 0x20 != 0 && 0x31u16 & 0x10 != 0 && 0x31u16 & 0xE == 0 && 0x31u16 & 1 == 1,
{
}

/// What delay RAM gave last is stored in a memory register, where a later step reads
/// it.
pub proof fn memory_register_is_read_back(f: Fx, w: Micro, shifter: i32)
    requires
        w.iwt,
        w.iwa < 32,
        f.mems.len() == 32,
    ensures
        f.stored(w, shifter).input(w.iwa) == f.pipe.read_value,
        forall|i: u16|
            i < 32 && i != w.iwa ==> #[trigger] f.stored(w, shifter).input(i) == f.input(i),
{
    input_selectors(w.iwa);
    assert forall|i: u16| i < 32 && i != w.iwa implies #[trigger] f.stored(w, shifter).input(i)
        == f.input(i) by {
        input_selectors(i);
    }
}

/// The temp registers are a ring that moves with the delay line: what is stored is
/// read one place further with every sample.
#[verifier::spinoff_prover]
pub proof fn temp_ring_delays(f: Fx, g: Fx, w: Micro, v: Micro, shifter: i32, k: int)
    requires
        f.temp.len() == 128,
        w.twt,
        0 <= k,
        g.temp == f.stored(w, shifter).temp,
        g.dec as int % 128 == (f.dec - k) % 128,
        v.tra as int % 128 == (w.twa + k) % 128,
    ensures
        g.temp_read(v) == signed(shifter as int, 0x100_0000),
{
    temp_place(w.twa, f.dec);
    temp_place(v.tra, g.dec);
    lemma_add_mod_noop(v.tra as int, g.dec as int, 128);
    lemma_add_mod_noop(w.twa + k, f.dec - k, 128);
    assert((v.tra + g.dec) % 128 == (w.twa + f.dec) % 128);
    sign_extension_keeps_the_number(shifter);
}

proof fn temp_place(a: u32, dec: u32)
    ensures
        a.wrapping_add(dec) & 0x7F == (a + dec) % 128,
{
    let n = a.wrapping_add(dec);
    low_bits();
    assert((n >> 7) * 0x80 + (n & 0x7F) == n);
}

/// An effect output is the shifter, rounded down from 24 to 16 bits; the largest one is
/// kept.
#[verifier::spinoff_prover]
pub proof fn output_is_the_shifter(f: Fx, w: Micro, shifter: i32)
    requires
        0 <= shifter <= 0xFF_FFFF,
        w.ewt,
        w.ewa < 16,
        f.efreg.len() == 16,
        f.efreg_hw.len() == 16,
    ensures
        ({
            let e = f.output(w, shifter).efreg[w.ewa as int] as int;
            let h = f.output(w, shifter).efreg_hw[w.ewa as int] as int;
            &&& 256 * e <= signed(shifter as int, 0x100_0000) < 256 * e + 256
            &&& h >= f.efreg_hw[w.ewa as int] && h >= e && h >= -e
            &&& h == f.efreg_hw[w.ewa as int] || h == e || h == -e
        }),
{
    right_shifts();
    casts();
    low_bits();
    let h = shifter >> 8;
    extension_bits(h);
}

/// The address register latches the top of the shifter, or the input's top eight bits
/// with their sign.
#[verifier::spinoff_prover]
pub proof fn address_register_latches_the_top(f: Fx, w: Micro, shifter: i32)
    requires
        0 <= shifter <= 0xFF_FFFF,
        w.adrl,
    ensures
        ({
            let a = f.address_latched(w, shifter).pipe.adrs_reg as int;
            &&& w.shft0 && w.shft1 ==> a == shifter / 4096
            &&& !(w.shft0 && w.shft1) ==> signed(a, 0x1000) == signed(
                f.pipe.inputs_reg as int,
                0x100_0000,
            ) / 0x1_0000
        }),
{
    let x = f.pipe.inputs_reg;
    sign_extension_keeps_the_number(x);
    extension_bits(x);
    let t = sign_extended(x, 24);
    let h = t >> 16;
    assert(h == t as int / 0x1_0000 && shifter >> 12 == shifter as int / 4096) by {
        right_shifts();
    }
    low_12_bits(h);
    low_12_bits(shifter >> 12);
}

/// Twelve bits of a number, as a word.
#[verifier::spinoff_prover]
proof fn low_12_bits(h: i32)
    requires
        -0x800 <= h <= 0xFFF,
    ensures
        signed(((h & 0xFFF) as u16) as int, 0x1000) == signed(h as int, 0x1000),
        0 <= h ==> h as u16 == h,
        h <= 0x7FF ==> signed(h as int, 0x1000) == h,
{
    low_bits();
    casts();
    extension_bits(h);
    extension_bits(h & 0xFFF);
    assert((h >> 12) * 0x1000 + (h & 0xFFF) == h);
    let u = (h & 0xFFF) as u32;
    assert((u >> 16) * 0x1_0000 + (u & 0xFFFF) == u);
}

proof fn program_bits(a: u16, b: u16, c: u16, d: u16)
    by (bit_vector)
    ensures
        a == 32768 * (a >> 15) + 256 * ((a >> 8) & 0x7F) + 128 * ((a >> 7) & 1) + (a & 0x7F),
        b == 32768 * ((b >> 15) & 1) + 8192 * ((b >> 13) & 3) + 4096 * ((b >> 12) & 1) + 64 * ((b
            >> 6) & 0x3F) + 32 * ((b >> 5) & 1) + (b & 0x1F),
        c == 32768 * ((c >> 15) & 1) + 16384 * ((c >> 14) & 1) + 8192 * ((c >> 13) & 1) + 4096 * ((c
            >> 12) & 1) + 256 * ((c >> 8) & 0xF) + 128 * ((c >> 7) & 1) + 64 * ((c >> 6) & 1) + 32
            * ((c >> 5) & 1) + 16 * ((c >> 4) & 1) + 8 * ((c >> 3) & 1) + 4 * ((c >> 2) & 1) + 2 * ((c
            >> 1) & 1) + (c & 1),
        d == 32768 * ((d >> 15) & 1) + 512 * ((d >> 9) & 0x3F) + 128 * ((d >> 7) & 3) + 4 * ((d >> 2)
            & 0x1F) + 2 * ((d >> 1) & 1) + (d & 1),
{
}

/// A flag as a binary digit.
pub open spec fn digit(b: bool) -> int {
    if b {
        1
    } else {
        0
    }
}

proof fn flags_are_digits(a: u16, b: u16, c: u16, d: u16)
    ensures
        a & 1 == digit(a & 1 != 0),
        b & 1 == digit(b & 1 != 0),
        c & 1 == digit(c & 1 != 0),
        d & 1 == digit(d & 1 != 0),
{
    masks_bound();
}

/// The four words of a step are its fields, side by side; two words have bits that no
/// field takes.
#[verifier::spinoff_prover]
pub proof fn words_are_their_fields(a: u16, b: u16, c: u16, d: u16)
    ensures
        ({
            let w = Micro::of(a, b, c, d);
            &&& w.tra < 128 && w.twa < 128 && w.ysel < 4 && w.wf()
            &&& a as int % 32768 == 256 * w.tra + 128 * digit(w.twt) + w.twa
            &&& b == 32768 * digit(w.xsel) + 8192 * w.ysel + 4096 * (b as int / 4096 % 2) + 64 * w.ira
                + 32 * digit(w.iwt) + w.iwa
            &&& c == 32768 * digit(w.table) + 16384 * digit(w.mwt) + 8192 * digit(w.mrt) + 4096
                * digit(w.ewt) + 256 * w.ewa + 128 * digit(w.adrl) + 64 * digit(w.frcl) + 32 * digit(
                w.shft1,
            ) + 16 * digit(w.shft0) + 8 * digit(w.yrl) + 4 * digit(w.negb) + 2 * digit(w.zero)
                + digit(w.bsel)
            &&& d == 32768 * digit(w.nofl) + 512 * w.cra + 128 * (d as int / 128 % 4) + 4 * w.masa + 2
                * digit(w.adrgb) + digit(w.nxaddr)
        }),
{
    program_bits(a, b, c, d);
    masks_bound();
    let e = b >> 12;
    let g = d >> 7;
    assert(a >> 15 <= 1 && e == b as int / 4096 && g == d as int / 128) by {
        right_shifts();
    }
    assert(e & 1 == e as int % 2 && g & 3 == g as int % 4) by {
        low_bits();
    }
    flags_are_digits(c >> 15, c >> 14, c >> 13, c >> 12);
    flags_are_digits(c >> 7, c >> 6, c >> 5, c >> 4);
    flags_are_digits(c >> 3, c >> 2, c >> 1, c);
    flags_are_digits(a >> 7, b >> 15, b >> 5, d >> 15);
    flags_are_digits(d >> 1, d, 0, 0);
}

// ---- the delay line ---------------------------------------------------------------

/// The address of a step from the start of its ring or table, before it is brought
/// within it.
pub open spec fn delay_offset(f: Fx, w: Micro) -> int {
    f.madrs[w.masa as int] + digit(w.nxaddr) + if w.adrgb {
        signed(f.pipe.adrs_reg as int, 0x1000)
    } else {
        0
    }
}

/// A ring has one of four lengths.
pub open spec fn is_ring(rbl: u32) -> bool {
    rbl == 0x2000 || rbl == 0x4000 || rbl == 0x8000 || rbl == 0x1_0000
}

/// A step addresses the ring from its moving position, modulo its length, or a table of
/// 64 Ki words; both begin at a multiple of 4096 words.
#[verifier::spinoff_prover]
pub proof fn address_is_relative_to_the_ring(f: Fx, w: Micro)
    requires
        is_ring(f.rbl),
        f.rbp < 64,
    ensures
        !w.table ==> f.address(w) == (delay_offset(f, w) + f.dec) % f.rbl as int + 4096 * f.rbp,
        w.table ==> f.address(w) == delay_offset(f, w) % 0x1_0000 + 4096 * f.rbp,
{
    let r = f.pipe.adrs_reg as i32;
    sign_extension_keeps_the_number(r);
    extension_bits(r);
    let a = f.madrs[w.masa as int] + digit(w.nxaddr);
    let n = sign_extended(r, 12);
    let o = delay_offset(f, w);
    let b = if w.adrgb {
        (a as u32).wrapping_add(n as u32)
    } else {
        a as u32
    };
    assert(b as int == o % 0x1_0000_0000) by {
        casts();
    }
    let c = b.wrapping_add(f.dec);
    lemma_add_mod_noop_right(f.dec as int, o, 0x1_0000_0000);
    ring_remainder(c, o + f.dec, f.rbl);
    ring_remainder(b, o, 0x1_0000);
    let e = if w.table {
        b & 0xFFFF
    } else {
        c & f.rbl.wrapping_sub(1)
    };
    ring_base(e, f.rbp);
}

/// A 32-bit number modulo the length of a ring.
#[verifier::spinoff_prover]
proof fn ring_remainder(c: u32, x: int, rbl: u32)
    requires
        is_ring(rbl),
        c == x % 0x1_0000_0000,
    ensures
        c & rbl.wrapping_sub(1) == x % rbl as int,
{
    lemma_mod_mod(x, 0x2000, 0x8_0000);
    lemma_mod_mod(x, 0x4000, 0x4_0000);
    lemma_mod_mod(x, 0x8000, 0x2_0000);
    lemma_mod_mod(x, 0x1_0000, 0x1_0000);
    low_bits();
}

proof fn ring_base(e: u32, rbp: u32)
    requires
        e < 0x1_0000,
        rbp < 64,
    ensures
        e.wrapping_add(rbp << 12) & 0x7_FFFF == e + 4096 * rbp,
{
    extension_bits(rbp as i32);
    casts();
    low_bits();
}

/// Sample `i + 1` follows sample `i`: a pass lies between them, and new input.
pub open spec fn sample_follows(s: Seq<Fx>, r: Seq<Seq<u8>>, i: int) -> bool {
    s[i + 1] == (Fx { mixs: s[i + 1].mixs, mixs_hw: s[i + 1].mixs_hw, ..s[i].passed(r[i]) })
}

proof fn ring_step(x: int, m: int)
    requires
        m == 0x2000 || m == 0x4000 || m == 0x8000 || m == 0x1_0000,
    ensures
        (x - 1) % m == (if x % m == 0 {
            m - 1
        } else {
            x % m - 1
        }),
{
}

proof fn ring_after(s: Seq<Fx>, r: Seq<Seq<u8>>, i: int, k: int)
    requires
        0 <= i,
        0 <= k,
        i + k < s.len(),
        forall|j: int| 0 <= j < s.len() - 1 ==> #[trigger] sample_follows(s, r, j),
        s[i].is_running(),
        is_ring(s[i].rbl),
        s[i].dec < s[i].rbl,
    ensures
        s[i + k].is_running(),
        s[i + k].rbl == s[i].rbl,
        s[i + k].rbp == s[i].rbp,
        s[i + k].madrs == s[i].madrs,
        s[i + k].dec < s[i].rbl,
        s[i + k].dec == (s[i].dec - k) % s[i].rbl as int,
    decreases k,
{
    lemma_small_mod(s[i].dec as nat, s[i].rbl as nat);
    if k > 0 {
        ring_after(s, r, i, k - 1);
        assert(sample_follows(s, r, i + k - 1));
        let f = s[i + k - 1];
        steps_frame(f, r[i + k - 1], 128);
        assert(f.passed(r[i + k - 1]).dec == (if f.dec == 0 {
            f.rbl - 1
        } else {
            f.dec - 1
        }));
        ring_step(s[i].dec - (k - 1), s[i].rbl as int);
    }
}

/// The delay line delays: what a step addresses now, a step that lies `k` words further
/// addresses `k` samples later.
#[verifier::spinoff_prover]
pub proof fn delay_line_delays(
    s: Seq<Fx>,
    r: Seq<Seq<u8>>,
    i: int,
    k: int,
    w: Micro,
    v: Micro,
)
    requires
        0 <= i,
        0 <= k,
        i + k < s.len(),
        forall|j: int| 0 <= j < s.len() - 1 ==> #[trigger] sample_follows(s, r, j),
        s[i].is_running(),
        is_ring(s[i].rbl),
        s[i].rbp < 64,
        s[i].dec < s[i].rbl,
        !w.table && !v.table,
        delay_offset(s[i + k], v) == delay_offset(s[i], w) + k,
    ensures
        s[i + k].address(v) == s[i].address(w),
{
    ring_after(s, r, i, k);
    address_is_relative_to_the_ring(s[i], w);
    address_is_relative_to_the_ring(s[i + k], v);
    lemma_add_mod_noop_right(delay_offset(s[i], w) + k, s[i].dec - k, s[i].rbl as int);
}

/// Two steps of one sample that address the same ring are as far apart as their
/// addresses say.
#[verifier::spinoff_prover]
pub proof fn taps_keep_their_distance(f: Fx, w: Micro, v: Micro)
    requires
        is_ring(f.rbl),
        f.rbp < 64,
        !w.table && !v.table,
    ensures
        (f.address(v) - f.address(w)) % f.rbl as int == (delay_offset(f, v) - delay_offset(f, w))
            % f.rbl as int,
{
    address_is_relative_to_the_ring(f, w);
    address_is_relative_to_the_ring(f, v);
    lemma_sub_mod_noop(delay_offset(f, v) + f.dec, delay_offset(f, w) + f.dec, f.rbl as int);
}

/// A raw read that a step begins is done in the next step: what delay RAM holds there
/// then, moved up to 24 bits, is what the step after that stores.
pub proof fn raw_read_takes_two_steps(
    f: Fx,
    ram: Seq<u8>,
    w: Micro,
    mid: Seq<u8>,
    v: Micro,
    late: Seq<u8>,
    u: Micro,
)
    requires
        w.wf() && v.wf() && u.wf(),
        w.mrt && w.nofl,
        u.iwt,
        f.mems.len() == 32,
        f.address(w) & 0x4_0000 == 0,
    ensures
        f.stepped(ram, w).stepped(mid, v).stepped(late, u).mems[u.iwa as int] == 256 * folded16(
            mid,
            f.address(w) << 1,
        ),
{
    extension_bits(folded16(mid, f.address(w) << 1) as i32);
    let g = f.stepped(ram, w);
    assert(g.pipe.rw_addr == f.address(w));
    assert(g.pipe.read_pending == 2);
    let h = g.stepped(mid, v);
    assert(h.pipe.read_value == 256 * folded16(mid, f.address(w) << 1));
}

/// A raw write that a step begins is done in the next step: its word is the upper 16
/// bits of the shifter.
#[verifier::spinoff_prover]
pub proof fn raw_write_takes_one_step(f: Fx, ram: Seq<u8>, w: Micro, mid: Seq<u8>, v: Micro)
    requires
        w.mwt && w.nofl && !w.mrt,
        f.pipe.read_pending == 0,
        mid.len() >= 2,
        f.address(w) & 0x4_0000 == 0,
    ensures
        folded16(f.stepped(ram, w).ram_stepped(mid, v), f.address(w) << 1) == f.shifted(w) / 256,
{
    shifter_scales_and_clips(f, w);
    right_shifts();
    casts();
    low_bits();
    let h = f.shifted(w) >> 8;
    extension_bits(h);
    let g = f.stepped(ram, w);
    assert(g.pipe.write_pending && g.pipe.read_pending == 0);
    let word = f.address(w);
    extension_bits(0);
    word_is_read_back(mid, word << 1, g.pipe.write_value);
}

/// While no program runs, nothing but the input mix changes.
pub proof fn stopped_processor_keeps_still(f: Fx, ram: Seq<u8>)
    requires
        f.stopped || f.last_step == 0,
    ensures
        f.ram_passed(ram) == ram,
        f.passed(ram).efreg == f.efreg,
        f.passed(ram).dec == f.dec,
        f.passed(ram).temp == f.temp,
        f.passed(ram).pipe == f.pipe,
{
}

/// A word of the delay line with a greater exponent is half as large; from exponent 11 on
/// its mantissa is the number, with its leading bit up to there.
pub proof fn exponent_halves_the_number(w: u16)
    by (bit_vector)
    ensures
        w < 0x5800 ==> float_value(w) == 2 * float_value((w + 0x800) as u16),
        0x5800 <= w < 0x6000 ==> float_value(w) == 0x800 + (w - 0x5800),
        0x6000 <= w < 0x6800 ==> float_value(w) == w - 0x6000,
{
}

} // verus!
