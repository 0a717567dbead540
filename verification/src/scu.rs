//! The system control unit: DMA channels, interrupt mask and status, timers, and
//! the host ports of the embedded DSP.
//!
//! ```text
//!   0x00..0x14   DMA channel 0: source, destination, count, strides, enable, mode
//!   0x20..0x34   DMA channel 1
//!   0x40..0x54   DMA channel 2
//!   0x60         DSTP    DMA force stop
//!   0x7C         DSTA    DMA status
//!   0x80..0x8C   DSP ports: PPAF, PPD, PDA, PDD
//!   0x90         T0C     timer 0 compare
//!   0x94         T1S     timer 1 set value
//!   0x98         T1MD    timer 1 mode
//!   0xA0         IMS     interrupt mask (1 = masked)
//!   0xA4         IST     interrupt status (a written 0 bit clears)
//!   0xA8         AIACK   external interrupt acknowledge
//!   0xB0         ASR0    A-bus set 0
//!   0xB4         ASR1    A-bus set 1
//!   0xB8         AREF    A-bus refresh
//!   0xC4         RSEL    SDRAM select
//!   0xC8         VER     version (read-only)
//! ```

use vstd::prelude::*;
use crate::bits::{casts, low_bits, masks_bound, right_shifts};

verus! {

pub const SCU_BASE: u32 = 0x05FE_0000;

pub const SCU_END: u32 = 0x05FE_00FF;

/// The go bit in a channel's enable register.
pub const DGO_BIT: u32 = 0x100;

pub const NUM_CHANNELS: usize = 3;

/// An interrupt source.
#[derive(Clone, Copy, Debug, PartialEq, Eq, Structural)]
pub enum Source {
    VBlankIn,
    VBlankOut,
    HBlankIn,
    Timer0,
    Timer1,
    DspEnd,
    SoundRequest,
    Smpc,
    Pad,
    Level2DmaEnd,
    Level1DmaEnd,
    Level0DmaEnd,
    DmaIllegal,
    SpriteDrawEnd,
    /// The CD-block: an external interrupt.
    Cd,
}

impl Source {
    /// Bit of the source in IST and IMS. External interrupts come above the 16
    /// bits of IMS.
    pub open spec fn spec_bit(self) -> u32 {
        match self {
            Source::VBlankIn => 0,
            Source::VBlankOut => 1,
            Source::HBlankIn => 2,
            Source::Timer0 => 3,
            Source::Timer1 => 4,
            Source::DspEnd => 5,
            Source::SoundRequest => 6,
            Source::Smpc => 7,
            Source::Pad => 8,
            Source::Level2DmaEnd => 9,
            Source::Level1DmaEnd => 10,
            Source::Level0DmaEnd => 11,
            Source::DmaIllegal => 12,
            Source::SpriteDrawEnd => 13,
            Source::Cd => 16,
        }
    }

    /// Fixed priority level.
    pub open spec fn spec_priority(self) -> u8 {
        match self {
            Source::VBlankIn => 15,
            Source::VBlankOut => 14,
            Source::HBlankIn => 13,
            Source::Timer0 => 12,
            Source::Timer1 => 11,
            Source::DspEnd => 10,
            Source::SoundRequest => 9,
            Source::Smpc => 8,
            Source::Pad => 8,
            Source::Cd => 7,
            Source::Level2DmaEnd => 6,
            Source::Level1DmaEnd => 6,
            Source::Level0DmaEnd => 5,
            Source::DmaIllegal => 3,
            Source::SpriteDrawEnd => 2,
        }
    }

    /// The source's bit as a mask.
    pub open spec fn mask(self) -> u32 {
        1u32 << self.spec_bit()
    }

    /// Bit of the source in IST and IMS.
    pub fn bit(self) -> (r: u32)
        ensures
            r == self.spec_bit(),
            r < 32,
    {
        match self {
            Source::VBlankIn => 0,
            Source::VBlankOut => 1,
            Source::HBlankIn => 2,
            Source::Timer0 => 3,
            Source::Timer1 => 4,
            Source::DspEnd => 5,
            Source::SoundRequest => 6,
            Source::Smpc => 7,
            Source::Pad => 8,
            Source::Level2DmaEnd => 9,
            Source::Level1DmaEnd => 10,
            Source::Level0DmaEnd => 11,
            Source::DmaIllegal => 12,
            Source::SpriteDrawEnd => 13,
            Source::Cd => 16,
        }
    }

    /// Exception vector that the source presents.
    pub fn vector(self) -> (r: u8)
        ensures
            r == 0x40 + self.spec_bit(),
    {
        0x40 + self.bit() as u8
    }

    /// Fixed priority level.
    pub fn priority(self) -> (r: u8)
        ensures
            r == self.spec_priority(),
    {
        match self {
            Source::VBlankIn => 15,
            Source::VBlankOut => 14,
            Source::HBlankIn => 13,
            Source::Timer0 => 12,
            Source::Timer1 => 11,
            Source::DspEnd => 10,
            Source::SoundRequest => 9,
            Source::Smpc => 8,
            Source::Pad => 8,
            Source::Cd => 7,
            Source::Level2DmaEnd => 6,
            Source::Level1DmaEnd => 6,
            Source::Level0DmaEnd => 5,
            Source::DmaIllegal => 3,
            Source::SpriteDrawEnd => 2,
        }
    }
}

/// The sources in the order in which they are served.
pub const ALL_SOURCES: [Source; 15] = [
    Source::VBlankIn,
    Source::VBlankOut,
    Source::HBlankIn,
    Source::Timer0,
    Source::Timer1,
    Source::DspEnd,
    Source::SoundRequest,
    Source::Smpc,
    Source::Pad,
    Source::Cd,
    Source::Level2DmaEnd,
    Source::Level1DmaEnd,
    Source::Level0DmaEnd,
    Source::DmaIllegal,
    Source::SpriteDrawEnd,
];

/// The registers of a DMA channel.
#[derive(Clone, Copy, Debug, PartialEq, Eq, Structural)]
pub struct DmaChannel {
    pub read_addr: u32,
    pub write_addr: u32,
    pub transfer_count: u32,
    pub add_value: u32,
    pub enable: u32,
    pub mode: u32,
    /// A transfer is due.
    pub triggered: bool,
}

impl DmaChannel {
    /// A channel with every register 0.
    pub open spec fn zero() -> DmaChannel {
        DmaChannel {
            read_addr: 0,
            write_addr: 0,
            transfer_count: 0,
            add_value: 0,
            enable: 0,
            mode: 0,
            triggered: false,
        }
    }

    pub open spec fn is_armed(self) -> bool {
        self.enable & 0x100 != 0
    }

    pub open spec fn factor(self) -> u8 {
        (self.mode & 0x7) as u8
    }

    pub open spec fn is_indirect(self) -> bool {
        self.mode & 0x0100_0000 != 0
    }

    pub open spec fn updates_read(self) -> bool {
        self.mode & 0x0001_0000 != 0
    }

    pub open spec fn updates_write(self) -> bool {
        self.mode & 0x100 != 0
    }

    pub open spec fn src_stride(self) -> u32 {
        if self.add_value & 0x100 != 0 {
            4
        } else {
            0
        }
    }

    pub open spec fn dst_stride(self) -> u32 {
        let a = 1u32 << (self.add_value & 0x7);
        if a == 1 {
            0
        } else {
            a
        }
    }

    /// Whether the channel is armed: a start factor or the go bit triggers it.
    pub fn armed(&self) -> (r: bool)
        ensures
            r == self.is_armed(),
    {
        self.enable & 0x100 != 0
    }

    /// Start factor: 0 VBlank-IN, 1 VBlank-OUT, 2 HBlank-IN, 3 timer 0, 4 timer 1,
    /// 5 sound request, 6 sprite draw end, 7 the go bit.
    pub fn start_factor(&self) -> (r: u8)
        ensures
            r == self.factor(),
    {
        (self.mode & 0x7) as u8
    }

    /// Whether the transfer is described by a table.
    pub fn indirect(&self) -> (r: bool)
        ensures
            r == self.is_indirect(),
    {
        self.mode & 0x0100_0000 != 0
    }

    /// Whether the source register advances past what was transferred.
    pub fn read_update(&self) -> (r: bool)
        ensures
            r == self.updates_read(),
    {
        self.mode & 0x0001_0000 != 0
    }

    /// Whether the destination register advances past what was transferred.
    pub fn write_update(&self) -> (r: bool)
        ensures
            r == self.updates_write(),
    {
        self.mode & 0x100 != 0
    }

    /// Bytes between source words: 4, or 0 for a fixed source.
    pub fn src_add(&self) -> (r: u32)
        ensures
            r == self.src_stride(),
    {
        if self.add_value & 0x100 != 0 {
            4
        } else {
            0
        }
    }

    /// Bytes between destination words: a power of two, 0 for a fixed
    /// destination.
    pub fn dst_add(&self) -> (r: u32)
        ensures
            r == self.dst_stride(),
    {
        let code: u32 = self.add_value & 0x7;
        proof {
            masks_bound();
        }
        let a: u32 = 1u32 << code;
        if a == 1 {
            0
        } else {
            a
        }
    }
}

impl Default for DmaChannel {
    fn default() -> (r: DmaChannel)
        ensures
            r == DmaChannel::zero(),
    {
        DmaChannel {
            read_addr: 0,
            write_addr: 0,
            transfer_count: 0,
            add_value: 0,
            enable: 0,
            mode: 0,
            triggered: false,
        }
    }
}

/// A DMA transfer that is due.
#[derive(Clone, Copy, Debug, PartialEq, Eq, Structural)]
pub struct DmaRequest {
    pub channel: usize,
    pub src: u32,
    pub dst: u32,
    pub bytes: u32,
    /// Bytes between source words (0 = fixed).
    pub src_add: u32,
    /// Bytes between destination words (0 = fixed).
    pub dst_add: u32,
    /// `dst` points at a table of size, destination and source triplets.
    pub indirect: bool,
    /// Write the advanced addresses back to the channel.
    pub read_update: bool,
    pub write_update: bool,
}

/// Flags of the DSP.
#[derive(Clone, Copy, Debug, PartialEq, Eq, Structural)]
pub struct DspFlags {
    /// Running.
    pub running: bool,
    /// The program ended.
    pub end: bool,
    /// Overflow.
    pub v: bool,
    /// Carry.
    pub c: bool,
    /// Zero.
    pub z: bool,
    /// Sign.
    pub s: bool,
    /// DMA busy.
    pub t0: bool,
}

/// Registers of the DSP that the host ports reach.
#[derive(Clone, Copy, Debug, PartialEq, Eq, Structural)]
pub struct DspRegs {
    pub pc: u8,
    /// Data-RAM address of the PDD port: bank in the top two bits.
    pub ra: u8,
    pub flags: DspFlags,
}

/// What the host ports reach of the DSP: its program, data RAM and registers.
#[derive(Clone, Debug)]
pub struct DspPort {
    pub program: [u32; 256],
    pub data_ram: [[u32; 64]; 4],
    pub regs: DspRegs,
}

/// The contents of a [`DspPort`].
pub struct DspState {
    pub program: Seq<u32>,
    pub data: Seq<Seq<u32>>,
    pub regs: DspRegs,
}

impl View for DspPort {
    type V = DspState;

    open spec fn view(&self) -> DspState {
        DspState {
            program: self.program@,
            data: Seq::new(4, |i: int| self.data_ram@[i]@),
            regs: self.regs,
        }
    }
}

/// The timers.
#[derive(Clone, Copy, Debug, PartialEq, Eq, Structural)]
pub struct ScuTimer {
    /// Timer 1: dots to go in this line.
    pub timer1_counter: u32,
    /// Timer 1 fired in this line.
    pub timer1_met: bool,
    /// The HBlank level at the last tick.
    pub hb_prev: bool,
    /// The cycle of the last tick.
    pub timer_last_now: u64,
}

/// The system control unit.
#[derive(Clone, Debug)]
pub struct Scu {
    pub channels: [DmaChannel; 3],
    pub dstp: u32,
    pub dsta: u32,
    pub t0c: u32,
    pub t1s: u32,
    pub t1md: u32,
    pub ims: u32,
    pub ist: u32,
    pub aiack: u32,
    pub asr0: u32,
    pub asr1: u32,
    pub aref: u32,
    pub rsel: u32,
    pub dsp: DspPort,
    /// The host has started the DSP.
    pub dsp_run: bool,
    /// Sources asserted and not taken yet.
    pub fresh_assertions: u32,
    /// The CD-block's interrupt has fired and is not acknowledged yet.
    pub cd_prohibit: bool,
    pub timer: ScuTimer,
}

/// The registers of the system control unit, but for its DMA channels and DSP.
pub struct ScuRegs {
    pub dstp: u32,
    pub dsta: u32,
    pub t0c: u32,
    pub t1s: u32,
    pub t1md: u32,
    pub ims: u32,
    pub ist: u32,
    pub aiack: u32,
    pub asr0: u32,
    pub asr1: u32,
    pub aref: u32,
    pub rsel: u32,
}

/// The state of a system control unit.
pub struct ScuState {
    pub channels: Seq<DmaChannel>,
    pub regs: ScuRegs,
    pub dsp: DspState,
    pub dsp_run: bool,
    pub fresh: u32,
    pub cd_prohibit: bool,
    pub timer: ScuTimer,
}

impl View for Scu {
    type V = ScuState;

    open spec fn view(&self) -> ScuState {
        ScuState {
            channels: self.channels@,
            regs: ScuRegs {
                dstp: self.dstp,
                dsta: self.dsta,
                t0c: self.t0c,
                t1s: self.t1s,
                t1md: self.t1md,
                ims: self.ims,
                ist: self.ist,
                aiack: self.aiack,
                asr0: self.asr0,
                asr1: self.asr1,
                aref: self.aref,
                rsel: self.rsel,
            },
            dsp: self.dsp@,
            dsp_run: self.dsp_run,
            fresh: self.fresh_assertions,
            cd_prohibit: self.cd_prohibit,
            timer: self.timer,
        }
    }
}

/// A flag as bit `n` of a word.
pub open spec fn flag_bit(b: bool, n: u32) -> u32 {
    if b {
        1u32 << n
    } else {
        0
    }
}

impl DspState {
    /// The flags as the PPAF port reads them.
    pub open spec fn flag_bits(self) -> u32 {
        let f = self.regs.flags;
        flag_bit(f.running, 16) | flag_bit(f.end, 18) | flag_bit(f.v, 19) | flag_bit(f.c, 20)
            | flag_bit(f.z, 21) | flag_bit(f.s, 22) | flag_bit(f.t0, 23)
    }

    /// What the PPAF port reads: the next program address and the flags.
    pub open spec fn ppaf(self) -> u32 {
        ((self.regs.pc as u32).wrapping_add(1) & 0xFF) | self.flag_bits()
    }

    /// Reading PPAF clears the overflow and end flags.
    pub open spec fn ppaf_read(self) -> DspState {
        DspState {
            regs: DspRegs {
                flags: DspFlags { v: false, end: false, ..self.regs.flags },
                ..self.regs
            },
            ..self
        }
    }

    /// Writing PPAF: bit 15 loads the program address, bits 21 and 22 set the
    /// zero and sign flags, bit 16 starts the program.
    pub open spec fn ppaf_written(self, val: u32) -> DspState {
        DspState {
            regs: DspRegs {
                pc: if val & 0x8000 != 0 {
                    (val & 0xFF) as u8
                } else {
                    self.regs.pc
                },
                flags: DspFlags {
                    z: val & 0x20_0000 != 0,
                    s: val & 0x40_0000 != 0,
                    running: val & 0x1_0000 != 0 || self.regs.flags.running,
                    ..self.regs.flags
                },
                ..self.regs
            },
            ..self
        }
    }

    /// Writing PPD stores a program word and moves on.
    pub open spec fn ppd_written(self, val: u32) -> DspState {
        DspState {
            program: self.program.update(self.regs.pc as int, val),
            regs: DspRegs { pc: self.regs.pc.wrapping_add(1), ..self.regs },
            ..self
        }
    }

    /// Bank of the data word that PDD reaches.
    pub open spec fn bank(self) -> int {
        ((self.regs.ra >> 6) & 3) as int
    }

    /// The data word in its bank.
    pub open spec fn slot(self) -> int {
        (self.regs.ra & 0x3F) as int
    }

    /// The data word that PDD reaches.
    pub open spec fn pdd(self) -> u32 {
        self.data[self.bank()][self.slot()]
    }

    /// PDD moves on to the next data word.
    pub open spec fn pdd_read(self) -> DspState {
        DspState { regs: DspRegs { ra: self.regs.ra.wrapping_add(1), ..self.regs }, ..self }
    }

    /// Writing PDD stores a data word and moves on.
    pub open spec fn pdd_written(self, val: u32) -> DspState {
        DspState {
            data: self.data.update(
                self.bank(),
                self.data[self.bank()].update(self.slot(), val),
            ),
            ..self
        }.pdd_read()
    }
}

/// A count as a channel holds it: 20 bits in channel 0, 12 in the others.
pub open spec fn masked_count(ch: int, val: u32) -> u32 {
    if ch == 0 {
        val & 0x000F_FFFF
    } else {
        val & 0x0000_0FFF
    }
}

impl ScuState {
    /// The unit at reset: every channel starts by its go bit, every source is
    /// masked.
    pub open spec fn reset() -> ScuState {
        ScuState {
            channels: Seq::new(3, |i: int| DmaChannel { mode: 7, ..DmaChannel::zero() }),
            regs: ScuRegs {
                dstp: 0,
                dsta: 0,
                t0c: 0,
                t1s: 0,
                t1md: 0,
                ims: 0xBFFF,
                ist: 0,
                aiack: 0,
                asr0: 0,
                asr1: 0,
                aref: 0,
                rsel: 0,
            },
            dsp: DspState {
                program: Seq::new(256, |i: int| 0u32),
                data: Seq::new(4, |i: int| Seq::new(64, |j: int| 0u32)),
                regs: DspRegs {
                    pc: 0,
                    ra: 0,
                    flags: DspFlags {
                        running: false,
                        end: false,
                        v: false,
                        c: false,
                        z: false,
                        s: false,
                        t0: false,
                    },
                },
            },
            dsp_run: false,
            fresh: 0,
            cd_prohibit: false,
            timer: ScuTimer {
                timer1_counter: 0,
                timer1_met: false,
                hb_prev: false,
                timer_last_now: 0,
            },
        }
    }

    /// The channel register at an offset below `0x60`.
    pub open spec fn channel_at(self, offset: u32) -> u32 {
        let c = self.channels[offset as int / 0x20];
        let r = offset % 0x20;
        if r == 0x00 {
            c.read_addr
        } else if r == 0x04 {
            c.write_addr
        } else if r == 0x08 {
            c.transfer_count
        } else if r == 0x0C {
            c.add_value
        } else if r == 0x10 {
            c.enable
        } else if r == 0x14 {
            c.mode
        } else {
            0
        }
    }

    /// What a 32-bit read returns.
    pub open spec fn at(self, offset: u32) -> u32 {
        let r = self.regs;
        if offset < 0x60 {
            self.channel_at(offset)
        } else if offset == 0x60 {
            r.dstp
        } else if offset == 0x7C {
            r.dsta
        } else if offset == 0x80 {
            self.dsp.ppaf()
        } else if offset == 0x84 {
            self.dsp.regs.pc as u32
        } else if offset == 0x88 {
            self.dsp.regs.ra as u32
        } else if offset == 0x8C {
            self.dsp.pdd()
        } else if offset == 0x90 {
            r.t0c
        } else if offset == 0x94 {
            r.t1s
        } else if offset == 0x98 {
            r.t1md
        } else if offset == 0xA0 {
            r.ims
        } else if offset == 0xA4 {
            r.ist
        } else if offset == 0xA8 {
            r.aiack
        } else if offset == 0xB0 {
            r.asr0
        } else if offset == 0xB4 {
            r.asr1
        } else if offset == 0xB8 {
            r.aref
        } else if offset == 0xC4 {
            r.rsel
        } else if offset == 0xC8 {
            4
        } else {
            0
        }
    }

    /// The unit after a 32-bit read: the DSP ports move on.
    pub open spec fn read(self, offset: u32) -> ScuState {
        if offset == 0x80 {
            ScuState { dsp: self.dsp.ppaf_read(), ..self }
        } else if offset == 0x8C {
            ScuState { dsp: self.dsp.pdd_read(), ..self }
        } else {
            self
        }
    }

    /// A channel register is written. A long write to the enable register with
    /// the go bit starts a transfer of a channel whose start factor is the go
    /// bit, if there is anything to transfer.
    pub open spec fn channel_written(self, offset: u32, val: u32, long: bool) -> ScuState {
        let i = offset as int / 0x20;
        let r = offset % 0x20;
        let c = self.channels[i];
        let d = if r == 0x00 {
            DmaChannel { read_addr: val, ..c }
        } else if r == 0x04 {
            DmaChannel { write_addr: val, ..c }
        } else if r == 0x08 {
            DmaChannel { transfer_count: masked_count(i, val), ..c }
        } else if r == 0x0C {
            DmaChannel { add_value: val, ..c }
        } else if r == 0x10 {
            DmaChannel {
                enable: val,
                triggered: c.triggered || (long && val & DGO_BIT != 0 && c.factor() == 7 && (
                c.is_indirect() || c.transfer_count > 0)),
                ..c
            }
        } else if r == 0x14 {
            DmaChannel { mode: val, ..c }
        } else {
            c
        };
        ScuState { channels: self.channels.update(i, d), ..self }
    }

    /// A register above the channels is written.
    pub open spec fn reg_written(self, offset: u32, val: u32) -> ScuState {
        let r = self.regs;
        if offset == 0x60 {
            ScuState { regs: ScuRegs { dstp: val, ..r }, ..self }
        } else if offset == 0x7C {
            ScuState { regs: ScuRegs { dsta: val, ..r }, ..self }
        } else if offset == 0x80 {
            ScuState {
                dsp: self.dsp.ppaf_written(val),
                dsp_run: self.dsp_run || val & 0x1_0000 != 0,
                ..self
            }
        } else if offset == 0x84 {
            ScuState { dsp: self.dsp.ppd_written(val), ..self }
        } else if offset == 0x88 {
            ScuState {
                dsp: DspState { regs: DspRegs { ra: val as u8, ..self.dsp.regs }, ..self.dsp },
                ..self
            }
        } else if offset == 0x8C {
            ScuState { dsp: self.dsp.pdd_written(val), ..self }
        } else if offset == 0x90 {
            ScuState { regs: ScuRegs { t0c: val, ..r }, ..self }
        } else if offset == 0x94 {
            ScuState { regs: ScuRegs { t1s: val, ..r }, ..self }
        } else if offset == 0x98 {
            ScuState { regs: ScuRegs { t1md: val, ..r }, ..self }
        } else if offset == 0xA0 {
            ScuState { regs: ScuRegs { ims: val & 0xBFFF, ..r }, ..self }
        } else if offset == 0xA4 {
            ScuState { regs: ScuRegs { ist: r.ist & val, ..r }, ..self }
        } else if offset == 0xA8 {
            ScuState {
                regs: ScuRegs { aiack: val, ..r },
                cd_prohibit: self.cd_prohibit && val & 1 == 0,
                ..self
            }
        } else if offset == 0xB0 {
            ScuState { regs: ScuRegs { asr0: val & 0xFFFD_FFFD, ..r }, ..self }
        } else if offset == 0xB4 {
            ScuState { regs: ScuRegs { asr1: val & 0xF00D_FFFD, ..r }, ..self }
        } else if offset == 0xB8 {
            ScuState { regs: ScuRegs { aref: val & 0x1F, ..r }, ..self }
        } else if offset == 0xC4 {
            ScuState { regs: ScuRegs { rsel: val & 0x1, ..r }, ..self }
        } else {
            self
        }
    }

    /// The unit after a 32-bit write.
    pub open spec fn written(self, offset: u32, val: u32) -> ScuState {
        if offset < 0x60 {
            self.channel_written(offset, val, true)
        } else {
            self.reg_written(offset, val)
        }
    }

    /// What a byte read returns.
    pub open spec fn byte_at(self, offset: u32) -> u8 {
        (self.at(offset & !3) >> byte_shift(offset)) as u8
    }

    /// The unit after a byte read.
    pub open spec fn byte_read(self, offset: u32) -> ScuState {
        self.read(offset & !3)
    }

    /// The unit after a byte write: the register is read, patched and written
    /// back. A byte write never starts a DMA transfer.
    pub open spec fn byte_written(self, offset: u32, val: u8) -> ScuState {
        let aligned = offset & !3;
        let s = self.read(aligned);
        let new = patched(self.at(aligned), offset, val);
        if aligned < 0x60 {
            s.channel_written(aligned, new, false)
        } else {
            s.reg_written(aligned, new)
        }
    }

    /// Source `s` is asserted.
    pub open spec fn raised(self, s: Source) -> ScuState {
        ScuState {
            regs: ScuRegs { ist: self.regs.ist | s.mask(), ..self.regs },
            fresh: self.fresh | s.mask(),
            ..self
        }
    }

    // ---- DMA ------------------------------------------------------------------

    /// The first channel from `i` on that is triggered; the number of channels if
    /// none is.
    pub open spec fn first_triggered(self, i: int) -> int
        decreases 3 - i,
    {
        if i >= 3 {
            3
        } else if self.channels[i].triggered {
            i
        } else {
            self.first_triggered(i + 1)
        }
    }

    /// The transfer of channel `i`.
    pub open spec fn request(self, i: int) -> DmaRequest {
        let c = self.channels[i];
        DmaRequest {
            channel: i as usize,
            src: c.read_addr,
            dst: c.write_addr,
            bytes: c.transfer_count,
            src_add: c.src_stride(),
            dst_add: c.dst_stride(),
            indirect: c.is_indirect(),
            read_update: c.updates_read(),
            write_update: c.updates_write(),
        }
    }

    /// Channel `i`'s transfer is taken.
    pub open spec fn request_taken(self, i: int) -> ScuState {
        ScuState {
            channels: self.channels.update(
                i,
                DmaChannel { triggered: false, ..self.channels[i] },
            ),
            ..self
        }
    }

    /// Start factor `factor` triggers the channels that are armed for it.
    pub open spec fn factor_triggered(self, factor: u8) -> ScuState {
        ScuState {
            channels: Seq::new(
                3,
                |i: int|
                    if self.channels[i].is_armed() && self.channels[i].factor() == factor {
                        DmaChannel { triggered: true, ..self.channels[i] }
                    } else {
                        self.channels[i]
                    },
            ),
            ..self
        }
    }

    /// The source that says channel `i` is done.
    pub open spec fn end_source(i: int) -> Source {
        if i == 0 {
            Source::Level0DmaEnd
        } else if i == 1 {
            Source::Level1DmaEnd
        } else {
            Source::Level2DmaEnd
        }
    }

    /// Channel `i` is done: its addresses advance where the mode says so, its
    /// count is 0, and its end is announced. It stays armed.
    pub open spec fn dma_finished(self, i: int, src: u32, dst: u32) -> ScuState {
        let c = self.channels[i];
        ScuState {
            channels: self.channels.update(
                i,
                DmaChannel {
                    read_addr: if c.updates_read() {
                        src
                    } else {
                        c.read_addr
                    },
                    write_addr: if c.updates_write() {
                        dst
                    } else {
                        c.write_addr
                    },
                    transfer_count: 0,
                    ..c
                },
            ),
            ..self
        }.raised(Self::end_source(i))
    }

    // ---- timers -------------------------------------------------------------------

    /// Dots that pass from the last tick to `now`.
    pub open spec fn dots_since(self, now: u64, cycles_per_line: u64, dots_per_line: u32) -> u32 {
        let delta = if now >= self.timer.timer_last_now {
            now - self.timer.timer_last_now
        } else {
            0
        };
        let scaled = if delta * dots_per_line > u64::MAX {
            u64::MAX as int
        } else {
            delta * dots_per_line
        };
        (scaled / (if cycles_per_line == 0 {
            1
        } else {
            cycles_per_line as int
        })) as u32
    }

    /// Timer 1 counts `dots` down; it fires when it reaches 0, once per line, and
    /// in mode 1 on the timer 0 line alone.
    pub open spec fn timer1_counted(self, dots: u32, timer0_met: bool) -> ScuState {
        let t = self.timer;
        if dots == 0 || t.timer1_counter == 0 {
            self
        } else if t.timer1_counter > dots {
            ScuState {
                timer: ScuTimer { timer1_counter: (t.timer1_counter - dots) as u32, ..t },
                ..self
            }
        } else {
            let fires = (self.regs.t1md & 0x100 == 0 || timer0_met) && !t.timer1_met;
            let s = ScuState {
                timer: ScuTimer { timer1_counter: 0, timer1_met: t.timer1_met || fires, ..t },
                ..self
            };
            if fires {
                s.raised(Source::Timer1)
            } else {
                s
            }
        }
    }

    /// Timer 1 is reloaded for the next line.
    pub open spec fn timer1_reloaded(self) -> ScuState {
        let n = self.regs.t1s & 0x1FF;
        ScuState {
            timer: ScuTimer {
                timer1_met: false,
                timer1_counter: if n == 0 {
                    1
                } else {
                    n
                },
                ..self.timer
            },
            ..self
        }
    }

    /// Time passes to `now`; HBlank is at level `new_hb`. While the timers are enabled,
    /// timer 1 counts, and where HBlank begins it is reloaded and HBlank-IN asserted.
    pub open spec fn timers_ticked(
        self,
        now: u64,
        cycles_per_line: u64,
        dots_per_line: u32,
        new_hb: bool,
        timer0_met: bool,
    ) -> ScuState {
        let dots = self.dots_since(now, cycles_per_line, dots_per_line);
        let begins = new_hb && !self.timer.hb_prev;
        let s = ScuState {
            timer: ScuTimer { timer_last_now: now, hb_prev: new_hb, ..self.timer },
            ..self
        };
        if self.regs.t1md & 1 == 0 {
            s
        } else if begins {
            s.timer1_counted(dots, timer0_met).timer1_reloaded().raised(Source::HBlankIn)
        } else {
            s.timer1_counted(dots, timer0_met)
        }
    }

    // ---- interrupts ----------------------------------------------------------------

    /// The CD-block's interrupt is at level `active`. With `no_prohibit` it is asserted
    /// whenever it is active, and the latch that prohibits that is left alone.
    pub open spec fn cd_int_driven(self, active: bool, no_prohibit: bool) -> ScuState {
        if active && (!self.cd_prohibit || no_prohibit) {
            ScuState {
                cd_prohibit: self.cd_prohibit || !no_prohibit,
                ..self.raised(Source::Cd)
            }
        } else {
            self
        }
    }

    /// The CD-block's interrupt is at level `active`: it is asserted once, and
    /// again only after it was acknowledged.
    pub open spec fn cd_int_set(self, active: bool) -> ScuState {
        self.cd_int_driven(active, false)
    }

    /// The sources that are asserted and not masked. Bit 15 of IMS masks every
    /// external interrupt.
    pub open spec fn unmasked(self) -> u32 {
        self.fresh & !(((self.regs.ims as i16) as i32) as u32)
    }

    /// Source `s` can interrupt a processor at mask level `imask`.
    pub open spec fn deliverable(self, s: Source, imask: u8) -> bool {
        self.unmasked() & s.mask() != 0 && s.spec_priority() > imask
    }

    /// The source to be served from position `i` of the order on.
    pub open spec fn next_due(self, imask: u8, i: int) -> Option<Source>
        decreases 15 - i,
    {
        if i >= 15 {
            None
        } else if self.deliverable(ALL_SOURCES@[i], imask) {
            Some(ALL_SOURCES@[i])
        } else {
            self.next_due(imask, i + 1)
        }
    }

    /// Source `s` is taken; IST keeps it.
    pub open spec fn interrupt_taken(self, s: Source) -> ScuState {
        ScuState { fresh: self.fresh & !s.mask(), ..self }
    }
}

/// Where a byte lies in its 32-bit word.
pub open spec fn byte_shift(offset: u32) -> u32 {
    (8 * (3 - (offset & 3))) as u32
}

/// A word with the byte at `offset` replaced.
pub open spec fn patched(cur: u32, offset: u32, val: u8) -> u32 {
    (cur & !(0xFFu32 << byte_shift(offset))) | ((val as u32) << byte_shift(offset))
}

// ---- code -------------------------------------------------------------------

fn bit_of(b: bool, n: u32) -> (r: u32)
    requires
        n < 32,
    ensures
        r == flag_bit(b, n),
{
    if b {
        1u32 << n
    } else {
        0
    }
}

impl DspPort {
    /// A DSP at reset.
    pub fn new() -> (r: DspPort)
        ensures
            r@ == ScuState::reset().dsp,
    {
        let r = DspPort {
            program: [0u32; 256],
            data_ram: [[0u32; 64]; 4],
            regs: DspRegs {
                pc: 0,
                ra: 0,
                flags: DspFlags {
                    running: false,
                    end: false,
                    v: false,
                    c: false,
                    z: false,
                    s: false,
                    t0: false,
                },
            },
        };
        proof {
            let e = ScuState::reset().dsp;
            assert(r@.program =~= e.program);
            assert forall|i: int| 0 <= i < 4 implies #[trigger] r@.data[i] == e.data[i] by {
                assert(r@.data[i] =~= e.data[i]);
            }
            assert(r@.data =~= e.data);
        }
        r
    }

    fn flags_bits(&self) -> (r: u32)
        ensures
            r == self@.flag_bits(),
    {
        let f = self.regs.flags;
        bit_of(f.running, 16) | bit_of(f.end, 18) | bit_of(f.v, 19) | bit_of(f.c, 20) | bit_of(
            f.z,
            21,
        ) | bit_of(f.s, 22) | bit_of(f.t0, 23)
    }

    /// Starts the program at `pc`.
    pub fn start(&mut self, pc: u8)
        ensures
            final(self)@ == (DspState {
                regs: DspRegs {
                    pc,
                    flags: DspFlags { running: true, ..old(self)@.regs.flags },
                    ..old(self)@.regs
                },
                ..old(self)@
            }),
    {
        self.regs.pc = pc;
        self.regs.flags.running = true;
    }

    /// Reads PPAF.
    pub fn ppaf_read(&mut self) -> (r: u32)
        ensures
            r == old(self)@.ppaf(),
            final(self)@ == old(self)@.ppaf_read(),
    {
        let v: u32 = ((self.regs.pc as u32).wrapping_add(1) & 0xFF) | self.flags_bits();
        self.regs.flags.v = false;
        self.regs.flags.end = false;
        v
    }

    /// Writes PPAF; returns whether that starts the program.
    pub fn ppaf_write(&mut self, val: u32) -> (r: bool)
        ensures
            r == (val & 0x1_0000 != 0),
            final(self)@ == old(self)@.ppaf_written(val),
    {
        if val & 0x8000 != 0 {
            self.regs.pc = (val & 0xFF) as u8;
        }
        self.regs.flags.z = val & 0x20_0000 != 0;
        self.regs.flags.s = val & 0x40_0000 != 0;
        if val & 0x1_0000 != 0 {
            let pc: u8 = self.regs.pc;
            self.start(pc);
            true
        } else {
            false
        }
    }

    /// Writes PPD.
    pub fn ppd_write(&mut self, val: u32)
        ensures
            final(self)@ == old(self)@.ppd_written(val),
    {
        let pc: u8 = self.regs.pc;
        self.program[pc as usize] = val;
        self.regs.pc = pc.wrapping_add(1);
    }

    /// Reads PDD.
    pub fn pdd_read(&mut self) -> (r: u32)
        ensures
            r == old(self)@.pdd(),
            final(self)@ == old(self)@.pdd_read(),
    {
        let ra: u8 = self.regs.ra;
        proof {
            address_within(ra);
        }
        let b: usize = ((ra >> 6) & 3) as usize;
        let i: usize = (ra & 0x3F) as usize;
        let v: u32 = self.data_ram[b][i];
        self.regs.ra = ra.wrapping_add(1);
        v
    }

    /// Writes PDD.
    pub fn pdd_write(&mut self, val: u32)
        ensures
            final(self)@ == old(self)@.pdd_written(val),
    {
        let ra: u8 = self.regs.ra;
        proof {
            address_within(ra);
        }
        let b: usize = ((ra >> 6) & 3) as usize;
        let i: usize = (ra & 0x3F) as usize;
        self.data_ram[b][i] = val;
        self.regs.ra = ra.wrapping_add(1);
        assert(self@.data =~= old(self)@.pdd_written(val).data);
    }
}

/// A data-RAM address names a word of a bank.
proof fn address_within(ra: u8)
    ensures
        (ra >> 6) & 3 < 4,
        ra & 0x3F < 64,
{
    masks_bound();
}

/// A byte's shift is within a word.
proof fn shift_within(offset: u32)
    ensures
        offset & 3 <= 3,
        byte_shift(offset) < 32,
{
    masks_bound();
}

/// Aligning an offset keeps it below the channels' end.
proof fn aligned_below(offset: u32)
    ensures
        offset & !3 <= offset,
{
    masks_bound();
}

impl Default for Scu {
    fn default() -> (r: Scu)
        ensures
            r@ == (ScuState {
                channels: Seq::new(3, |i: int| DmaChannel::zero()),
                regs: ScuRegs { ims: 0, ..ScuState::reset().regs },
                ..ScuState::reset()
            }),
    {
        let r = Scu {
            channels: [DmaChannel::default(), DmaChannel::default(), DmaChannel::default()],
            dstp: 0,
            dsta: 0,
            t0c: 0,
            t1s: 0,
            t1md: 0,
            ims: 0,
            ist: 0,
            aiack: 0,
            asr0: 0,
            asr1: 0,
            aref: 0,
            rsel: 0,
            dsp: DspPort::new(),
            dsp_run: false,
            fresh_assertions: 0,
            cd_prohibit: false,
            timer: ScuTimer {
                timer1_counter: 0,
                timer1_met: false,
                hb_prev: false,
                timer_last_now: 0,
            },
        };
        assert(r@.channels =~= Seq::new(3, |i: int| DmaChannel::zero()));
        r
    }
}

impl Scu {
    /// The unit at reset.
    pub fn new() -> (r: Scu)
        ensures
            r@ == ScuState::reset(),
    {
        let mut s = Scu::default();
        s.channels[0].mode = 7;
        s.channels[1].mode = 7;
        s.channels[2].mode = 7;
        s.ims = 0xBFFF;
        assert(s@.channels =~= ScuState::reset().channels);
        s
    }

    fn read_channel(&self, offset: u32) -> (r: u32)
        requires
            offset < 0x60,
        ensures
            r == self@.channel_at(offset),
    {
        let c = self.channels[(offset / 0x20) as usize];
        let r: u32 = offset % 0x20;
        if r == 0x00 {
            c.read_addr
        } else if r == 0x04 {
            c.write_addr
        } else if r == 0x08 {
            c.transfer_count
        } else if r == 0x0C {
            c.add_value
        } else if r == 0x10 {
            c.enable
        } else if r == 0x14 {
            c.mode
        } else {
            0
        }
    }

    /// Reads a register.
    pub fn read32(&mut self, offset: u32) -> (r: u32)
        ensures
            r == old(self)@.at(offset),
            final(self)@ == old(self)@.read(offset),
    {
        if offset < 0x60 {
            self.read_channel(offset)
        } else if offset == 0x60 {
            self.dstp
        } else if offset == 0x7C {
            self.dsta
        } else if offset == 0x80 {
            self.dsp.ppaf_read()
        } else if offset == 0x84 {
            self.dsp.regs.pc as u32
        } else if offset == 0x88 {
            self.dsp.regs.ra as u32
        } else if offset == 0x8C {
            self.dsp.pdd_read()
        } else if offset == 0x90 {
            self.t0c
        } else if offset == 0x94 {
            self.t1s
        } else if offset == 0x98 {
            self.t1md
        } else if offset == 0xA0 {
            self.ims
        } else if offset == 0xA4 {
            self.ist
        } else if offset == 0xA8 {
            self.aiack
        } else if offset == 0xB0 {
            self.asr0
        } else if offset == 0xB4 {
            self.asr1
        } else if offset == 0xB8 {
            self.aref
        } else if offset == 0xC4 {
            self.rsel
        } else if offset == 0xC8 {
            4
        } else {
            0
        }
    }

    /// Writes a channel register; only a long write may start a transfer.
    fn write_channel(&mut self, offset: u32, val: u32, long: bool)
        requires
            offset < 0x60,
        ensures
            final(self)@ == old(self)@.channel_written(offset, val, long),
    {
        let i: usize = (offset / 0x20) as usize;
        let r: u32 = offset % 0x20;
        let mut c: DmaChannel = self.channels[i];
        if r == 0x00 {
            c.read_addr = val;
        } else if r == 0x04 {
            c.write_addr = val;
        } else if r == 0x08 {
            c.transfer_count = if i == 0 {
                val & 0x000F_FFFF
            } else {
                val & 0x0000_0FFF
            };
        } else if r == 0x0C {
            c.add_value = val;
        } else if r == 0x10 {
            c.enable = val;
            if long && val & DGO_BIT != 0 && c.start_factor() == 7 && (c.indirect()
                || c.transfer_count > 0) {
                c.triggered = true;
            }
        } else if r == 0x14 {
            c.mode = val;
        }
        self.channels[i] = c;
        assert(self@.channels =~= old(self)@.channel_written(offset, val, long).channels);
    }

    /// Writes a register above the channels.
    fn write_reg(&mut self, offset: u32, val: u32)
        requires
            offset >= 0x60,
        ensures
            final(self)@ == old(self)@.reg_written(offset, val),
    {
        if offset == 0x60 {
            self.dstp = val;
        } else if offset == 0x7C {
            self.dsta = val;
        } else if offset == 0x80 {
            if self.dsp.ppaf_write(val) {
                self.dsp_run = true;
            }
        } else if offset == 0x84 {
            self.dsp.ppd_write(val);
        } else if offset == 0x88 {
            self.dsp.regs.ra = val as u8;
        } else if offset == 0x8C {
            self.dsp.pdd_write(val);
        } else if offset == 0x90 {
            self.t0c = val;
        } else if offset == 0x94 {
            self.t1s = val;
        } else if offset == 0x98 {
            self.t1md = val;
        } else if offset == 0xA0 {
            self.ims = val & 0xBFFF;
        } else if offset == 0xA4 {
            self.ist &= val;
        } else if offset == 0xA8 {
            self.aiack = val;
            if val & 1 != 0 {
                self.cd_prohibit = false;
            }
        } else if offset == 0xB0 {
            self.asr0 = val & 0xFFFD_FFFD;
        } else if offset == 0xB4 {
            self.asr1 = val & 0xF00D_FFFD;
        } else if offset == 0xB8 {
            self.aref = val & 0x1F;
        } else if offset == 0xC4 {
            self.rsel = val & 0x1;
        }
    }

    /// Writes a register.
    pub fn write32(&mut self, offset: u32, val: u32)
        ensures
            final(self)@ == old(self)@.written(offset, val),
    {
        if offset < 0x60 {
            self.write_channel(offset, val, true);
        } else {
            self.write_reg(offset, val);
        }
    }

    /// Reads a byte of a register.
    pub fn read8(&mut self, offset: u32) -> (r: u8)
        ensures
            r == old(self)@.byte_at(offset),
            final(self)@ == old(self)@.byte_read(offset),
    {
        proof {
            shift_within(offset);
        }
        let word: u32 = self.read32(offset & !3);
        (word >> (8 * (3 - (offset & 3)))) as u8
    }

    /// Reads two bytes of a register.
    pub fn read16(&mut self, offset: u32) -> (r: u16)
        ensures
            r == ((old(self)@.byte_at(offset) as u16) << 8) | old(self)@.byte_read(offset).byte_at(
                offset.wrapping_add(1),
            ) as u16,
            final(self)@ == old(self)@.byte_read(offset).byte_read(offset.wrapping_add(1)),
    {
        let hi: u8 = self.read8(offset);
        let lo: u8 = self.read8(offset.wrapping_add(1));
        ((hi as u16) << 8) | lo as u16
    }

    /// Writes a byte of a register.
    pub fn write8(&mut self, offset: u32, val: u8)
        ensures
            final(self)@ == old(self)@.byte_written(offset, val),
    {
        proof {
            shift_within(offset);
            aligned_below(offset);
        }
        let aligned: u32 = offset & !3;
        let shift: u32 = 8 * (3 - (offset & 3));
        let cur: u32 = self.read32(aligned);
        let new: u32 = (cur & !(0xFFu32 << shift)) | ((val as u32) << shift);
        if aligned < 0x60 {
            self.write_channel(aligned, new, false);
        } else {
            self.write_reg(aligned, new);
        }
    }

    /// Writes two bytes of a register.
    pub fn write16(&mut self, offset: u32, val: u16)
        ensures
            final(self)@ == old(self)@.byte_written(offset, (val >> 8) as u8).byte_written(
                offset.wrapping_add(1),
                val as u8,
            ),
    {
        self.write8(offset, (val >> 8) as u8);
        self.write8(offset.wrapping_add(1), val as u8);
    }

    /// Whether the host has started the DSP since this was last asked.
    pub fn take_dsp_run(&mut self) -> (r: bool)
        ensures
            r == old(self)@.dsp_run,
            final(self)@ == (ScuState { dsp_run: false, ..old(self)@ }),
    {
        let r: bool = self.dsp_run;
        self.dsp_run = false;
        r
    }

    /// Whether a DMA transfer is due.
    pub fn dma_pending(&self) -> (r: bool)
        ensures
            r == (self@.first_triggered(0) < 3),
    {
        proof {
            reveal_with_fuel(ScuState::first_triggered, 4);
        }
        self.channels[0].triggered || self.channels[1].triggered || self.channels[2].triggered
    }

    /// Takes the next DMA transfer that is due.
    pub fn take_pending_dma(&mut self) -> (r: Option<DmaRequest>)
        ensures
            ({
                let i = old(self)@.first_triggered(0);
                if i < 3 {
                    r == Some(old(self)@.request(i)) && final(self)@ == old(self)@.request_taken(i)
                } else {
                    r is None && final(self)@ == old(self)@
                }
            }),
    {
        let mut i: usize = 0;
        while i < NUM_CHANNELS
            invariant
                i <= 3,
                self@ == old(self)@,
                self@.first_triggered(0) == self@.first_triggered(i as int),
            decreases 3 - i,
        {
            let ch: DmaChannel = self.channels[i];
            if ch.triggered {
                self.channels[i].triggered = false;
                assert(self@.channels =~= old(self)@.request_taken(i as int).channels);
                return Some(
                    DmaRequest {
                        channel: i,
                        src: ch.read_addr,
                        dst: ch.write_addr,
                        bytes: ch.transfer_count,
                        src_add: ch.src_add(),
                        dst_add: ch.dst_add(),
                        indirect: ch.indirect(),
                        read_update: ch.read_update(),
                        write_update: ch.write_update(),
                    },
                );
            }
            i += 1;
        }
        None
    }

    /// Triggers every armed channel whose start factor is `factor`.
    pub fn trigger_dma_factor(&mut self, factor: u8)
        ensures
            final(self)@ == old(self)@.factor_triggered(factor),
    {
        let ghost goal = old(self)@.factor_triggered(factor);
        let mut i: usize = 0;
        while i < NUM_CHANNELS
            invariant
                i <= 3,
                goal == old(self)@.factor_triggered(factor),
                self@ == (ScuState { channels: self@.channels, ..old(self)@ }),
                forall|k: int| 0 <= k < i ==> #[trigger] self@.channels[k] == goal.channels[k],
                forall|k: int|
                    i <= k < 3 ==> #[trigger] self@.channels[k] == old(self)@.channels[k],
            decreases 3 - i,
        {
            let mut c: DmaChannel = self.channels[i];
            if c.armed() && c.start_factor() == factor {
                c.triggered = true;
            }
            self.channels[i] = c;
            i += 1;
        }
        assert(self@.channels =~= goal.channels);
    }

    /// A transfer of a channel is done.
    pub fn finish_dma(&mut self, channel: usize, final_src: u32, final_dst: u32)
        requires
            channel < NUM_CHANNELS,
        ensures
            final(self)@ == old(self)@.dma_finished(channel as int, final_src, final_dst),
    {
        let mut c: DmaChannel = self.channels[channel];
        if c.read_update() {
            c.read_addr = final_src;
        }
        if c.write_update() {
            c.write_addr = final_dst;
        }
        c.transfer_count = 0;
        self.channels[channel] = c;
        let source: Source = if channel == 0 {
            Source::Level0DmaEnd
        } else if channel == 1 {
            Source::Level1DmaEnd
        } else {
            Source::Level2DmaEnd
        };
        self.raise(source);
        assert(self@.channels =~= old(self)@.dma_finished(
            channel as int,
            final_src,
            final_dst,
        ).channels);
    }

    /// Asserts an interrupt source.
    pub fn raise(&mut self, source: Source)
        ensures
            final(self)@ == old(self)@.raised(source),
    {
        let bit: u32 = 1u32 << source.bit();
        self.ist |= bit;
        self.fresh_assertions |= bit;
    }

    /// Whether the timers run.
    pub fn timers_enabled(&self) -> (r: bool)
        ensures
            r == (self@.regs.t1md & 1 != 0),
    {
        self.t1md & 1 != 0
    }

    fn count_timer1(&mut self, dots: u32, timer0_met: bool)
        ensures
            final(self)@ == old(self)@.timer1_counted(dots, timer0_met),
    {
        if dots > 0 && self.timer.timer1_counter > 0 {
            if self.timer.timer1_counter <= dots {
                self.timer.timer1_counter = 0;
                let mode1: bool = self.t1md & 0x100 != 0;
                if (!mode1 || timer0_met) && !self.timer.timer1_met {
                    self.timer.timer1_met = true;
                    self.raise(Source::Timer1);
                }
            } else {
                self.timer.timer1_counter -= dots;
            }
        }
    }

    fn elapsed_dots(&self, now: u64, cycles_per_line: u64, dots_per_line: u32) -> (r: u32)
        ensures
            r == self@.dots_since(now, cycles_per_line, dots_per_line),
    {
        let delta: u64 = if now >= self.timer.timer_last_now {
            now - self.timer.timer_last_now
        } else {
            0
        };
        assert(delta as u128 * dots_per_line as u128 <= 0xFFFF_FFFF_FFFF_FFFF * 0xFFFF_FFFF)
            by (nonlinear_arith)
            requires
                delta <= u64::MAX,
                dots_per_line <= u32::MAX,
        ;
        let wide: u128 = delta as u128 * dots_per_line as u128;
        let scaled: u64 = if wide > u64::MAX as u128 {
            u64::MAX
        } else {
            wide as u64
        };
        let line: u64 = if cycles_per_line == 0 {
            1
        } else {
            cycles_per_line
        };
        (scaled / line) as u32
    }

    /// Advances the timers to cycle `now`. `new_hb` is the HBlank level, and
    /// `timer0_met` whether the current line is that of timer 0. HBlank-IN and timer 1
    /// are both gated by the timer enable.
    pub fn tick_timers(
        &mut self,
        now: u64,
        cycles_per_line: u64,
        dots_per_line: u32,
        new_hb: bool,
        timer0_met: bool,
    )
        ensures
            final(self)@ == old(self)@.timers_ticked(
                now,
                cycles_per_line,
                dots_per_line,
                new_hb,
                timer0_met,
            ),
    {
        let dots: u32 = self.elapsed_dots(now, cycles_per_line, dots_per_line);
        let begins: bool = new_hb && !self.timer.hb_prev;
        self.timer.timer_last_now = now;
        self.timer.hb_prev = new_hb;
        if self.timers_enabled() {
            self.count_timer1(dots, timer0_met);
            if begins {
                self.timer.timer1_met = false;
                let n: u32 = self.t1s & 0x1FF;
                self.timer.timer1_counter = if n == 0 {
                    1
                } else {
                    n
                };
                self.raise(Source::HBlankIn);
            }
        }
    }

    /// Sets the level of the CD-block's interrupt.
    pub fn set_cd_int(&mut self, active: bool)
        ensures
            final(self)@ == old(self)@.cd_int_set(active),
    {
        self.drive_cd_int(active, false);
    }

    /// Sets the level of the CD-block's interrupt; with `no_prohibit` it is asserted
    /// again before it was acknowledged.
    pub fn drive_cd_int(&mut self, active: bool, no_prohibit: bool)
        ensures
            final(self)@ == old(self)@.cd_int_driven(active, no_prohibit),
    {
        if active && (!self.cd_prohibit || no_prohibit) {
            self.raise(Source::Cd);
            if !no_prohibit {
                self.cd_prohibit = true;
            }
        }
    }

    /// Takes the interrupt to be served by a processor at mask level
    /// `sh2_imask`: the source and its level.
    pub fn take_pending_interrupt(&mut self, sh2_imask: u8) -> (r: Option<(Source, u8)>)
        ensures
            match old(self)@.next_due(sh2_imask, 0) {
                Some(s) => r == Some((s, s.spec_priority())) && final(self)@
                    == old(self)@.interrupt_taken(s),
                None => r is None && final(self)@ == old(self)@,
            },
    {
        let unmasked: u32 = self.fresh_assertions & !(((self.ims as i16) as i32) as u32);
        let mut i: usize = 0;
        while i < 15
            invariant
                i <= 15,
                self@ == old(self)@,
                unmasked == self@.unmasked(),
                self@.next_due(sh2_imask, 0) == self@.next_due(sh2_imask, i as int),
            decreases 15 - i,
        {
            let source: Source = ALL_SOURCES[i];
            let bit: u32 = 1u32 << source.bit();
            if unmasked & bit != 0 {
                let level: u8 = source.priority();
                if level > sh2_imask {
                    self.fresh_assertions &= !bit;
                    return Some((source, level));
                }
            }
            i += 1;
        }
        None
    }
}

// ---- laws -------------------------------------------------------------------

/// The order in which sources are served is by priority.
proof fn order_by_priority(j: int, k: int)
    requires
        0 <= j <= k < 15,
    ensures
        ALL_SOURCES@[j].spec_priority() >= ALL_SOURCES@[k].spec_priority(),
{
    assert(ALL_SOURCES@[0] == Source::VBlankIn);
    assert(ALL_SOURCES@[1] == Source::VBlankOut);
    assert(ALL_SOURCES@[2] == Source::HBlankIn);
    assert(ALL_SOURCES@[3] == Source::Timer0);
    assert(ALL_SOURCES@[4] == Source::Timer1);
    assert(ALL_SOURCES@[5] == Source::DspEnd);
    assert(ALL_SOURCES@[6] == Source::SoundRequest);
    assert(ALL_SOURCES@[7] == Source::Smpc);
    assert(ALL_SOURCES@[8] == Source::Pad);
    assert(ALL_SOURCES@[9] == Source::Cd);
    assert(ALL_SOURCES@[10] == Source::Level2DmaEnd);
    assert(ALL_SOURCES@[11] == Source::Level1DmaEnd);
    assert(ALL_SOURCES@[12] == Source::Level0DmaEnd);
    assert(ALL_SOURCES@[13] == Source::DmaIllegal);
    assert(ALL_SOURCES@[14] == Source::SpriteDrawEnd);
}

/// Where a source stands in the order.
spec fn position(s: Source) -> int {
    match s {
        Source::VBlankIn => 0,
        Source::VBlankOut => 1,
        Source::HBlankIn => 2,
        Source::Timer0 => 3,
        Source::Timer1 => 4,
        Source::DspEnd => 5,
        Source::SoundRequest => 6,
        Source::Smpc => 7,
        Source::Pad => 8,
        Source::Cd => 9,
        Source::Level2DmaEnd => 10,
        Source::Level1DmaEnd => 11,
        Source::Level0DmaEnd => 12,
        Source::DmaIllegal => 13,
        Source::SpriteDrawEnd => 14,
    }
}

proof fn scan(u: ScuState, imask: u8, i: int, k: int)
    requires
        0 <= i <= k < 15,
        u.deliverable(ALL_SOURCES@[k], imask),
    ensures
        u.next_due(imask, i) is Some,
        u.next_due(imask, i)->0.spec_priority() >= ALL_SOURCES@[k].spec_priority(),
        u.deliverable(u.next_due(imask, i)->0, imask),
    decreases k - i,
{
    if u.deliverable(ALL_SOURCES@[i], imask) {
        order_by_priority(i, k);
    } else {
        scan(u, imask, i + 1, k);
    }
}

proof fn scan_finds_due(u: ScuState, imask: u8, i: int)
    requires
        0 <= i <= 15,
    ensures
        u.next_due(imask, i) matches Some(s) ==> u.deliverable(s, imask),
    decreases 15 - i,
{
    if i < 15 && !u.deliverable(ALL_SOURCES@[i], imask) {
        scan_finds_due(u, imask, i + 1);
    }
}

/// The interrupt that is served has the highest priority of all that can be
/// delivered; none is served only if none can be.
pub proof fn highest_priority_is_served(u: ScuState, imask: u8, other: Source)
    ensures
        u.next_due(imask, 0) matches Some(s) ==> u.deliverable(s, imask),
        u.deliverable(other, imask) ==> u.next_due(imask, 0) is Some,
        u.deliverable(other, imask) ==> u.next_due(imask, 0)->0.spec_priority()
            >= other.spec_priority(),
{
    scan_finds_due(u, imask, 0);
    if u.deliverable(other, imask) {
        let k = position(other);
        order_by_priority(k, k);
        assert(ALL_SOURCES@[k] == other);
        scan(u, imask, 0, k);
    }
}

/// Taking an interrupt consumes it, and leaves IST to the program.
pub proof fn taken_interrupt_is_consumed(u: ScuState, s: Source, imask: u8)
    ensures
        !u.interrupt_taken(s).deliverable(s, imask),
        u.interrupt_taken(s).regs == u.regs,
        u.deliverable(s, imask) ==> u.interrupt_taken(s).raised(s).deliverable(s, imask),
{
    let (f, m, k) = (u.fresh, !(((u.regs.ims as i16) as i32) as u32), s.mask());
    assert(((f & !k) & m) & k == 0 && ((f & m) & k != 0 ==> (((f & !k) | k) & m) & k != 0))
        by (bit_vector);
}

/// The CD-block's interrupt fires once, and again only after it was acknowledged
/// by a write of AIACK with bit 0 set.
pub proof fn cd_interrupt_fires_once_per_acknowledge(u: ScuState, active: bool, ack: u32)
    ensures
        u.cd_int_set(true).cd_int_set(active) == u.cd_int_set(true),
        ack & 1 == 0 ==> u.cd_int_set(true).written(0xA8, ack).cd_int_set(active)
            == u.cd_int_set(true).written(0xA8, ack),
        ack & 1 != 0 ==> u.written(0xA8, ack).cd_int_set(true).fresh == u.fresh
            | Source::Cd.mask(),
{
}

/// Bit 15 of IMS masks the CD-block's interrupt, and no other bit does.
pub proof fn cd_interrupt_is_masked_by_bit_15(u: ScuState, imask: u8)
    requires
        u.fresh & Source::Cd.mask() != 0,
        imask < 7,
    ensures
        u.deliverable(Source::Cd, imask) <==> u.regs.ims & 0x8000 == 0,
{
    let (f, ims) = (u.fresh, u.regs.ims);
    assert(1u32 << 16 == 0x1_0000 && (f & 0x1_0000 != 0 ==> ((f & !(((ims as i16) as i32) as u32)) & 0x1_0000 != 0 <==> ims
        & 0x8000 == 0))) by (bit_vector);
}

/// Writing a register byte by byte never starts a DMA transfer.
pub proof fn byte_writes_never_start_dma(u: ScuState, offset: u32, val: u8, i: int)
    requires
        u.channels.len() == 3,
        0 <= i < 3,
    ensures
        u.byte_written(offset, val).channels[i].triggered == u.channels[i].triggered,
{
    aligned_below(offset);
}

/// A transfer is handed out once; the channel stays armed, so that its start
/// factor triggers it again.
pub proof fn transfer_is_handed_out_once(u: ScuState, i: int, src: u32, dst: u32)
    requires
        u.channels.len() == 3,
        0 <= i < 3,
    ensures
        !u.request_taken(i).channels[i].triggered,
        u.dma_finished(i, src, dst).channels[i].is_armed() == u.channels[i].is_armed(),
        u.channels[i].is_armed() ==> u.dma_finished(i, src, dst).factor_triggered(
            u.channels[i].factor(),
        ).channels[i].triggered,
{
}

/// Words stored through the DSP's data port are read back through it.
pub proof fn dsp_data_is_read_back(d: DspState, ra: u8, val: u32)
    requires
        d.data.len() == 4,
        forall|b: int| 0 <= b < 4 ==> (#[trigger] d.data[b]).len() == 64,
    ensures
        ({
            let at = DspState { regs: DspRegs { ra, ..d.regs }, ..d };
            let w = at.pdd_written(val);
            (DspState { regs: DspRegs { ra, ..w.regs }, ..w }).pdd() == val
        }),
{
    address_within(ra);
}

proof fn unit_bits(v: u32, w: u32, k: u32, b: u8)
    by (bit_vector)
    ensures
        v & 0x100 != 0 <==> (v >> 8) & 1 == 1,
        v & 0x1_0000 != 0 <==> (v >> 16) & 1 == 1,
        v & 0x100_0000 != 0 <==> (v >> 24) & 1 == 1,
        v & 0x20_0000 != 0 <==> (v >> 21) & 1 == 1,
        v & 0x40_0000 != 0 <==> (v >> 22) & 1 == 1,
        v & 0x8000 != 0 <==> (v >> 15) & 1 == 1,
        k < 32 ==> ((v & w) & (1u32 << k) != 0 <==> v & (1u32 << k) != 0 && w & (1u32 << k) != 0),
        k < 7 ==> 1u32 << ((k + 1) as u32) == 2 * (1u32 << k),
        1 <= k <= 7 ==> 1u32 << k != 1,
        1u32 << 0 == 1,
        b == 64 * (b >> 6) + (b & 0x3F),
        (b >> 6) & 3 == b >> 6,
        k < 32 && w < 32 && k != w ==> (1u32 << k) & (1u32 << w) == 0,
        k < 32 ==> (v | (1u32 << k)) & (1u32 << k) != 0,
{
}

/// A register reads back what was written to it, as far as its bits are implemented.
pub proof fn registers_read_back(u: ScuState, v: u32)
    ensures
        u.written(0x90, v).at(0x90) == v,
        u.written(0x94, v).at(0x94) == v,
        u.written(0x98, v).at(0x98) == v,
        u.written(0xA0, v).at(0xA0) == v & 0xBFFF,
        u.written(0xA8, v).at(0xA8) == v,
        u.written(0xB0, v).at(0xB0) == v & 0xFFFD_FFFD,
        u.written(0xB4, v).at(0xB4) == v & 0xF00D_FFFD,
        u.written(0xB8, v).at(0xB8) == v as int % 32,
        u.written(0xC4, v).at(0xC4) == v as int % 2,
        u.at(0xC8) == 4,
        u.written(0xC8, v).at(0xC8) == 4,
{
    assert(v & 0x1F == v as int % 32 && v & 1 == v as int % 2) by {
        low_bits();
    }
}

/// A register of a DMA channel reads back what was written to it; the counts of the
/// channels have 20 and 12 bits.
pub proof fn channel_registers_read_back(u: ScuState, i: int, v: u32)
    requires
        u.channels.len() == 3,
        0 <= i < 3,
    ensures
        ({
            let o = |r: int| (0x20 * i + r) as u32;
            &&& u.written(o(0x00), v).at(o(0x00)) == v
            &&& u.written(o(0x04), v).at(o(0x04)) == v
            &&& u.written(o(0x08), v).at(o(0x08)) == (if i == 0 {
                v as int % 0x10_0000
            } else {
                v as int % 0x1000
            })
            &&& u.written(o(0x0C), v).at(o(0x0C)) == v
            &&& u.written(o(0x10), v).at(o(0x10)) == v
            &&& u.written(o(0x14), v).at(o(0x14)) == v
        }),
{
    assert(v & 0x000F_FFFF == v as int % 0x10_0000 && v & 0x0000_0FFF == v as int % 0x1000) by {
        low_bits();
    }
    assert((0x20 * i + 0x00) / 0x20 == i && (0x20 * i + 0x14) / 0x20 == i);
}

/// A write to a register changes no other one.
pub proof fn registers_are_apart(u: ScuState, o: u32, p: u32, v: u32)
    requires
        u.channels.len() == 3,
        o % 4 == 0,
        p % 4 == 0,
        o != p,
        !(0x80 <= o < 0x90),
        !(0x80 <= p < 0x90),
    ensures
        u.written(o, v).at(p) == u.at(p),
        u.written(o, v).dsp == u.dsp,
{
}

/// Writing IST clears the sources whose bits are 0, and no others; it cannot raise one.
pub proof fn written_zeros_clear_sources(u: ScuState, v: u32, s: Source)
    ensures
        u.written(0xA4, v).regs.ist & s.mask() != 0 <==> u.regs.ist & s.mask() != 0 && v & s.mask()
            != 0,
{
    unit_bits(u.regs.ist, v, s.spec_bit(), 0);
}

/// A source that is asserted pends, and can be delivered unless it is masked; every source
/// has a bit of its own.
pub proof fn raised_source_pends(u: ScuState, s: Source, t: Source)
    ensures
        u.raised(s).regs.ist & s.mask() != 0,
        u.raised(s).fresh & s.mask() != 0,
        u.raised(s).regs.ims == u.regs.ims,
        s != t ==> s.mask() & t.mask() == 0,
{
    unit_bits(u.regs.ist, t.spec_bit(), s.spec_bit(), 0);
    unit_bits(u.fresh, t.spec_bit(), s.spec_bit(), 0);
}

// ---- laws of the DMA ------------------------------------------------------------------

/// A transfer is the one that the channel's registers describe: source, destination and
/// count, and the strides that its add register names.
pub proof fn request_is_what_the_registers_say(u: ScuState, i: int)
    requires
        u.channels.len() == 3,
        0 <= i < 3,
    ensures
        ({
            let r = u.request(i);
            let o = |k: int| (0x20 * i + k) as u32;
            &&& r.channel == i
            &&& r.src == u.at(o(0x00)) && r.dst == u.at(o(0x04)) && r.bytes == u.at(o(0x08))
            &&& r.src_add == (if u.at(o(0x0C)) as int / 256 % 2 == 1 {
                4int
            } else {
                0
            })
            &&& u.at(o(0x0C)) as int % 8 == 0 ==> r.dst_add == 0
            &&& u.at(o(0x0C)) as int % 8 == 1 ==> r.dst_add == 2
            &&& r.indirect <==> u.at(o(0x14)) as int / 0x100_0000 % 2 == 1
            &&& r.read_update <==> u.at(o(0x14)) as int / 0x1_0000 % 2 == 1
            &&& r.write_update <==> u.at(o(0x14)) as int / 256 % 2 == 1
        }),
{
    let c = u.channels[i];
    assert((0x20 * i + 0x00) / 0x20 == i && (0x20 * i + 0x14) / 0x20 == i);
    mode_flags(c.add_value);
    mode_flags(c.mode);
    unit_bits(0, 0, 0, 0);
    unit_bits(0, 0, 1, 0);
    assert(c.add_value & 7 == c.add_value as int % 8) by {
        low_bits();
    }
}

proof fn mode_flags(m: u32)
    ensures
        m & 0x100 != 0 <==> m as int / 256 % 2 == 1,
        m & 0x1_0000 != 0 <==> m as int / 0x1_0000 % 2 == 1,
        m & 0x100_0000 != 0 <==> m as int / 0x100_0000 % 2 == 1,
{
    unit_bits(m, 0, 0, 0);
    assert(m >> 8 == m as int / 256 && m >> 16 == m as int / 0x1_0000 && m >> 24 == m as int
        / 0x100_0000) by {
        right_shifts();
    }
    let (a, b, c) = (m >> 8, m >> 16, m >> 24);
    assert(a & 1 == a as int % 2 && b & 1 == b as int % 2 && c & 1 == c as int % 2) by {
        low_bits();
    }
}

/// Destination strides double with their code, from 2 bytes on.
pub proof fn strides_double(c: DmaChannel, d: DmaChannel)
    requires
        d.add_value as int % 8 == c.add_value as int % 8 + 1,
        c.add_value as int % 8 > 0,
    ensures
        d.dst_stride() == 2 * c.dst_stride(),
{
    let (a, b) = (c.add_value & 7, d.add_value & 7);
    assert(a == c.add_value as int % 8 && b == d.add_value as int % 8) by {
        low_bits();
    }
    unit_bits(0, 0, a, 0);
    unit_bits(0, 0, b, 0);
}

/// A start factor triggers exactly the channels that are armed and wait for it, and the
/// lowest triggered channel is served first.
pub proof fn factor_triggers_its_channels(u: ScuState, f: u8, i: int)
    requires
        u.channels.len() == 3,
        0 <= i < 3,
    ensures
        ({
            let c = u.channels[i];
            let t = u.factor_triggered(f).channels[i];
            &&& t.triggered <==> c.triggered || (c.enable as int / 256 % 2 == 1 && c.mode as int % 8
                == f)
            &&& t == (DmaChannel { triggered: t.triggered, ..c })
            &&& u.first_triggered(0) <= i || !c.triggered
            &&& u.first_triggered(0) < 3 ==> u.channels[u.first_triggered(0)].triggered
        }),
{
    let c = u.channels[i];
    mode_flags(c.enable);
    assert(c.mode & 7 == c.mode as int % 8) by {
        low_bits();
    }
    small_factor(c.mode & 7);
    reveal_with_fuel(ScuState::first_triggered, 4);
}

proof fn small_factor(x: u32)
    ensures
        x < 256 ==> x as u8 == x,
{
    casts();
    assert(x & 0xFF == x as int % 256) by {
        low_bits();
    }
}

/// The go bit starts a channel that waits for it, if there is anything to transfer; for
/// another start factor the channel is only armed.
pub proof fn go_bit_starts_its_channel(u: ScuState, i: int, v: u32)
    requires
        u.channels.len() == 3,
        0 <= i < 3,
        !u.channels[i].triggered,
    ensures
        u.written((0x20 * i + 0x10) as u32, v).channels[i].triggered <==> v as int / 256 % 2 == 1
            && u.channels[i].mode as int % 8 == 7 && (u.channels[i].transfer_count > 0
            || u.channels[i].mode as int / 0x100_0000 % 2 == 1),
{
    let c = u.channels[i];
    mode_flags(v);
    mode_flags(c.mode);
    assert((0x20 * i + 0x10) / 0x20 == i);
    assert(c.mode & 7 == c.mode as int % 8) by {
        low_bits();
    }
    small_factor(c.mode & 7);
}

/// A transfer that is done has nothing left to transfer; its addresses are the advanced
/// ones where the mode asks for that, and its own end is announced.
pub proof fn finished_transfer_is_written_back(u: ScuState, i: int, src: u32, dst: u32)
    requires
        u.channels.len() == 3,
        0 <= i < 3,
    ensures
        ({
            let c = u.channels[i];
            let d = u.dma_finished(i, src, dst);
            &&& d.channels[i].transfer_count == 0
            &&& d.channels[i].read_addr == (if c.mode as int / 0x1_0000 % 2 == 1 {
                src
            } else {
                c.read_addr
            })
            &&& d.channels[i].write_addr == (if c.mode as int / 256 % 2 == 1 {
                dst
            } else {
                c.write_addr
            })
            &&& i == 0 ==> d.fresh == u.fresh | 1u32 << 11
            &&& i == 1 ==> d.fresh == u.fresh | 1u32 << 10
            &&& i == 2 ==> d.fresh == u.fresh | 1u32 << 9
            &&& forall|k: int| 0 <= k < 3 && k != i ==> #[trigger] d.channels[k] == u.channels[k]
        }),
{
    mode_flags(u.channels[i].mode);
}

// ---- laws of the timers ---------------------------------------------------------------

/// Timer 1 fires when as many dots have passed as it was loaded with, and not before; it
/// is loaded with the 9 bits of T1S, and with 1 for 0.
pub proof fn timer_1_counts_its_dots(u: ScuState, a: u32, b: u32, met: bool)
    requires
        a > 0,
        b > 0,
        a + b <= u32::MAX,
        u.timer.timer1_counter > a + b,
    ensures
        u.timer1_counted(a, met).timer1_counted(b, met) == u.timer1_counted((a + b) as u32, met),
        u.timer1_counted((a + b) as u32, met).fresh == u.fresh,
        u.timer1_counted((a + b) as u32, met).timer.timer1_counter == u.timer.timer1_counter - a - b,
{
}

pub proof fn timer_1_fires_at_zero(u: ScuState, dots: u32, met: bool)
    requires
        0 < u.timer.timer1_counter <= dots,
        !u.timer.timer1_met,
    ensures
        u.regs.t1md as int / 256 % 2 == 0 || met ==> u.timer1_counted(dots, met).fresh & (1u32 << 4)
            != 0,
        u.regs.t1md as int / 256 % 2 == 1 && !met ==> u.timer1_counted(dots, met).fresh == u.fresh,
        u.timer1_counted(dots, met).timer.timer1_counter == 0,
        u.regs.t1s as int % 512 > 0 ==> u.timer1_reloaded().timer.timer1_counter == u.regs.t1s as int
            % 512,
        u.regs.t1s as int % 512 == 0 ==> u.timer1_reloaded().timer.timer1_counter == 1,
        !u.timer1_reloaded().timer.timer1_met,
{
    mode_flags(u.regs.t1md);
    unit_bits(u.fresh, 0, 4, 0);
    assert(u.regs.t1s & 0x1FF == u.regs.t1s as int % 512) by {
        low_bits();
    }
}

/// Dots pass in proportion to the time, rounded down.
pub proof fn dots_follow_the_time(u: ScuState, now: u64, line: u64, dots: u32)
    requires
        now >= u.timer.timer_last_now,
        line > 0,
        (now - u.timer.timer_last_now) * dots < line * 0x1_0000_0000,
        (now - u.timer.timer_last_now) * dots <= u64::MAX,
    ensures
        ({
            let d = u.dots_since(now, line, dots);
            line * d <= (now - u.timer.timer_last_now) * dots < line * (d + 1)
        }),
{
    let x = (now - u.timer.timer_last_now) * dots;
    assert(0 <= x) by (nonlinear_arith)
        requires
            x == (now - u.timer.timer_last_now) * dots,
            now >= u.timer.timer_last_now,
    ;
    let l = line as int;
    vstd::arithmetic::div_mod::lemma_fundamental_div_mod(x, l);
    assert(x / l < 0x1_0000_0000 && 0 <= x / l && l * (x / l + 1) == l * (x / l) + l) by (nonlinear_arith)
        requires
            0 <= x < l * 0x1_0000_0000,
            l > 0,
            x == l * (x / l) + x % l,
            0 <= x % l < l,
    ;
}

/// Where HBlank begins, HBlank-IN is asserted once, and timer 1 is loaded; while it lasts
/// nothing more is asserted by it.
pub proof fn hblank_begins_once(u: ScuState, now: u64, line: u64, dots: u32, met: bool)
    requires
        u.regs.t1md as int % 2 == 1,
    ensures
        ({
            let t = u.timers_ticked(now, line, dots, true, met);
            &&& !u.timer.hb_prev ==> t.fresh & (1u32 << 2) != 0
            &&& t.timer.hb_prev && t.timer.timer_last_now == now
            &&& !u.timer.hb_prev ==> t.timer.timer1_counter == u.timer1_reloaded().timer.timer1_counter
        }),
        u.timer.hb_prev && u.timer.timer1_counter == 0 ==> u.timers_ticked(
            now,
            line,
            dots,
            true,
            met,
        ).fresh == u.fresh,
{
    assert(u.regs.t1md & 1 == u.regs.t1md as int % 2) by {
        low_bits();
    }
    let s = ScuState {
        timer: ScuTimer { timer_last_now: now, hb_prev: true, ..u.timer },
        ..u
    };
    let d = u.dots_since(now, line, dots);
    unit_bits(s.timer1_counted(d, met).fresh, 0, 2, 0);
}

// ---- laws of the DSP ports --------------------------------------------------------------

/// The program port stores words one behind the other from the program address on.
pub proof fn program_words_are_stored_in_order(d: DspState, a: u32, b: u32)
    requires
        d.program.len() == 256,
    ensures
        ({
            let e = d.ppd_written(a).ppd_written(b);
            let at = d.regs.pc as int;
            &&& e.program[at] == a
            &&& e.program[(at + 1) % 256] == b
            &&& e.regs.pc == (at + 2) % 256
            &&& forall|k: int|
                0 <= k < 256 && k != at && k != (at + 1) % 256 ==> #[trigger] e.program[k]
                    == d.program[k]
        }),
{
}

/// The data address names one of four banks of 64 words: it runs through a bank, and on
/// into the next.
pub proof fn data_address_runs_through_the_banks(d: DspState)
    ensures
        64 * d.bank() + d.slot() == d.regs.ra,
        d.pdd_read().regs.ra == (d.regs.ra + 1) % 256,
        0 <= d.bank() < 4,
        0 <= d.slot() < 64,
{
    unit_bits(0, 0, 0, d.regs.ra);
    address_within(d.regs.ra);
}

/// The control port starts the program at the address that it is given, and sets the
/// flags that it is given.
pub proof fn control_port_starts_the_program(d: DspState, v: u32)
    ensures
        ({
            let e = d.ppaf_written(v);
            &&& v as int / 0x8000 % 2 == 1 ==> e.regs.pc == v as int % 256
            &&& v as int / 0x8000 % 2 == 0 ==> e.regs.pc == d.regs.pc
            &&& v as int / 0x1_0000 % 2 == 1 ==> e.regs.flags.running
            &&& v as int / 0x1_0000 % 2 == 0 ==> e.regs.flags.running == d.regs.flags.running
            &&& e.regs.flags.z <==> v as int / 0x20_0000 % 2 == 1
            &&& e.regs.flags.s <==> v as int / 0x40_0000 % 2 == 1
            &&& e.program == d.program && e.data == d.data && e.regs.ra == d.regs.ra
        }),
        !d.ppaf_read().regs.flags.v && !d.ppaf_read().regs.flags.end,
{
    unit_bits(v, 0, 0, 0);
    assert(v >> 15 == v as int / 0x8000 && v >> 16 == v as int / 0x1_0000 && v >> 21 == v as int
        / 0x20_0000 && v >> 22 == v as int / 0x40_0000) by {
        right_shifts();
    }
    let (a, b, c, e) = (v >> 15, v >> 16, v >> 21, v >> 22);
    assert(a & 1 == a as int % 2 && b & 1 == b as int % 2 && c & 1 == c as int % 2 && e & 1 == e as int
        % 2 && v & 0xFF == v as int % 256) by {
        low_bits();
    }
    small_factor(v & 0xFF);
}

/// A flag as a binary digit.
pub open spec fn digit(b: bool) -> int {
    if b {
        1
    } else {
        0
    }
}

/// The status port tells the address of the next program word and the flags, each in a
/// bit of its own.
pub proof fn status_port_tells_the_flags(d: DspState)
    ensures
        ({
            let f = d.regs.flags;
            d.ppaf() == (d.regs.pc + 1) % 256 + 0x1_0000 * digit(f.running) + 0x4_0000 * digit(f.end)
                + 0x8_0000 * digit(f.v) + 0x10_0000 * digit(f.c) + 0x20_0000 * digit(f.z) + 0x40_0000
                * digit(f.s) + 0x80_0000 * digit(f.t0)
        }),
{
    let f = d.regs.flags;
    let a = (d.regs.pc as u32).wrapping_add(1) & 0xFF;
    assert(a == (d.regs.pc + 1) % 256) by {
        low_bits();
    }
    port_flags(a, f.running, f.end, f.v, f.c, f.z, f.s, f.t0);
}

proof fn port_flags(a: u32, r: bool, e: bool, v: bool, c: bool, z: bool, s: bool, t: bool)
    by (bit_vector)
    requires
        a < 256,
    ensures
        a | flag_bit(r, 16) | flag_bit(e, 18) | flag_bit(v, 19) | flag_bit(c, 20) | flag_bit(z, 21)
            | flag_bit(s, 22) | flag_bit(t, 23) == a | (flag_bit(r, 16) | flag_bit(e, 18) | flag_bit(
            v,
            19,
        ) | flag_bit(c, 20) | flag_bit(z, 21) | flag_bit(s, 22) | flag_bit(t, 23)),
        a | (flag_bit(r, 16) | flag_bit(e, 18) | flag_bit(v, 19) | flag_bit(c, 20) | flag_bit(z, 21)
            | flag_bit(s, 22) | flag_bit(t, 23)) == a + (if r { 0x1_0000int } else { 0 }) + (if e {
            0x4_0000int
        } else {
            0
        }) + (if v { 0x8_0000int } else { 0 }) + (if c { 0x10_0000int } else { 0 }) + (if z {
            0x20_0000int
        } else {
            0
        }) + (if s { 0x40_0000int } else { 0 }) + (if t { 0x80_0000int } else { 0 }),
{
}

} // verus!
