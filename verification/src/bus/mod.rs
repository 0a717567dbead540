//! The memory map that both main CPUs see.
//!
//! ```text
//!   0x0000_0000..0x000F_FFFF   BIOS ROM, mirrored
//!   0x0010_0000..0x0017_FFFF   SMPC
//!   0x0018_0000..0x001F_FFFF   backup RAM, mirrored
//!   0x0020_0000..0x002F_FFFF   low work RAM
//!   0x0040_0000..0x004F_FFFF   sound area
//!   0x0100_0000..0x01FF_FFFF   triggers of the CPUs' input capture
//!   0x0200_0000..0x04FF_FFFF   cartridge
//!   0x0500_0000..0x05FF_FFFF   CD-block, sound, graphics, SCU
//!   0x0600_0000..0x06FF_FFFF   high work RAM, mirrored
//! ```
//!
//! Anything else reads 0 and ignores writes. The SMPC and the graphics chips are
//! hosted outside: what they answer is handed to the bus with the access.

use vstd::prelude::*;
use crate::cartridge::{Cart, Cartridge, CART_BASE, CART_END};
use crate::cd_block::host::in_fifo;
use crate::cd_block::model::{CdState, Logs};
use crate::cd_block::{CdBlock, CD_BLOCK_BASE, CD_BLOCK_END};
use crate::disc::{Disc, SectorSource};
use crate::memory::{
    be16, be32, byte16, byte32, folded, folded16, folded32, formatted, long_is_read_back, pack,
    packed, put16, put32, word_is_read_back, BackupRam, BiosRom, Ram, StubRegisterBank,
    INTERNAL_BACKUP_BYTES,
};
use crate::scsp::chip::{Chip, Scsp};
use crate::scu::{Scu, ScuState, SCU_BASE, SCU_END};
use timing::{Access, AccessKind, BusTiming};

pub mod laws;
pub mod timing;

verus! {

pub const BIOS_BASE: u32 = 0x0000_0000;

pub const BIOS_END: u32 = 0x000F_FFFF;

pub const SMPC_BASE: u32 = 0x0010_0000;

pub const SMPC_END: u32 = 0x0017_FFFF;

pub const BACKUP_BASE: u32 = 0x0018_0000;

pub const BACKUP_END: u32 = 0x001F_FFFF;

pub const LOW_WRAM_BASE: u32 = 0x0020_0000;

pub const LOW_WRAM_END: u32 = 0x002F_FFFF;

pub const SOUND_BASE: u32 = 0x0040_0000;

pub const SOUND_END: u32 = 0x004F_FFFF;

/// Writes here trigger the input capture of the slave CPU.
pub const SLAVE_FTI_BASE: u32 = 0x0100_0000;

pub const SLAVE_FTI_END: u32 = 0x017F_FFFF;

/// Writes here trigger the input capture of the master CPU.
pub const MASTER_FTI_BASE: u32 = 0x0180_0000;

pub const MASTER_FTI_END: u32 = 0x01FF_FFFF;

pub const ABUS_BBUS_BASE: u32 = 0x0500_0000;

pub const ABUS_BBUS_END: u32 = 0x05FF_FFFF;

/// The data port of the CD-block, for transfers of 32 bits.
pub const CD_DATA_PORT: u32 = 0x0581_8000;

pub const CD_DATA_PORT_END: u32 = 0x0581_8003;

pub const SCSP_RAM_BASE: u32 = 0x05A0_0000;

pub const SCSP_RAM_END: u32 = 0x05AF_FFFF;

pub const SCSP_REGS_BASE: u32 = 0x05B0_0000;

pub const SCSP_REGS_END: u32 = 0x05BF_FFFF;

/// The sprite engine.
pub const VDP1_BASE: u32 = 0x05C0_0000;

pub const VDP1_END: u32 = 0x05D7_FFFF;

/// The background engine, and its registers.
pub const VDP2_BASE: u32 = 0x05E0_0000;

pub const VDP2_END: u32 = 0x05FB_FFFF;

pub const VDP2_REGS_BASE: u32 = 0x05F8_0000;

pub const HIGH_WRAM_BASE: u32 = 0x0600_0000;

pub const HIGH_WRAM_END: u32 = 0x06FF_FFFF;

/// What answers at an address.
#[derive(Clone, Copy, Debug, PartialEq, Eq, Structural)]
pub enum Region {
    Bios,
    Smpc,
    Backup,
    LowWram,
    Sound,
    Cartridge,
    /// The data port of the CD-block; only a read of 32 bits reaches it.
    CdPort,
    CdBlock,
    Vdp1,
    Vdp2,
    Scu,
    ScspRam,
    ScspRegs,
    AbusBbus,
    HighWram,
    SlaveFti,
    MasterFti,
    Open,
}

impl Region {
    pub open spec fn of(a: u32) -> Region {
        if a <= BIOS_END {
            Region::Bios
        } else if a <= SMPC_END {
            Region::Smpc
        } else if a <= BACKUP_END {
            Region::Backup
        } else if a <= LOW_WRAM_END {
            Region::LowWram
        } else if SOUND_BASE <= a <= SOUND_END {
            Region::Sound
        } else if SLAVE_FTI_BASE <= a <= SLAVE_FTI_END {
            Region::SlaveFti
        } else if MASTER_FTI_BASE <= a <= MASTER_FTI_END {
            Region::MasterFti
        } else if CART_BASE <= a <= CART_END {
            Region::Cartridge
        } else if CD_DATA_PORT <= a <= CD_DATA_PORT_END {
            Region::CdPort
        } else if CD_BLOCK_BASE <= a <= CD_BLOCK_END {
            Region::CdBlock
        } else if SCSP_RAM_BASE <= a <= SCSP_RAM_END {
            Region::ScspRam
        } else if SCSP_REGS_BASE <= a <= SCSP_REGS_END {
            Region::ScspRegs
        } else if VDP1_BASE <= a <= VDP1_END {
            Region::Vdp1
        } else if VDP2_BASE <= a <= VDP2_END {
            Region::Vdp2
        } else if SCU_BASE <= a <= SCU_END {
            Region::Scu
        } else if ABUS_BBUS_BASE <= a <= ABUS_BBUS_END {
            Region::AbusBbus
        } else if HIGH_WRAM_BASE <= a <= HIGH_WRAM_END {
            Region::HighWram
        } else {
            Region::Open
        }
    }

    /// What answers at an address.
    pub fn at(a: u32) -> (r: Region)
        ensures
            r == Region::of(a),
    {
        if a <= BIOS_END {
            Region::Bios
        } else if a <= SMPC_END {
            Region::Smpc
        } else if a <= BACKUP_END {
            Region::Backup
        } else if a <= LOW_WRAM_END {
            Region::LowWram
        } else if SOUND_BASE <= a && a <= SOUND_END {
            Region::Sound
        } else if SLAVE_FTI_BASE <= a && a <= SLAVE_FTI_END {
            Region::SlaveFti
        } else if MASTER_FTI_BASE <= a && a <= MASTER_FTI_END {
            Region::MasterFti
        } else if CART_BASE <= a && a <= CART_END {
            Region::Cartridge
        } else if CD_DATA_PORT <= a && a <= CD_DATA_PORT_END {
            Region::CdPort
        } else if CD_BLOCK_BASE <= a && a <= CD_BLOCK_END {
            Region::CdBlock
        } else if SCSP_RAM_BASE <= a && a <= SCSP_RAM_END {
            Region::ScspRam
        } else if SCSP_REGS_BASE <= a && a <= SCSP_REGS_END {
            Region::ScspRegs
        } else if VDP1_BASE <= a && a <= VDP1_END {
            Region::Vdp1
        } else if VDP2_BASE <= a && a <= VDP2_END {
            Region::Vdp2
        } else if SCU_BASE <= a && a <= SCU_END {
            Region::Scu
        } else if ABUS_BBUS_BASE <= a && a <= ABUS_BBUS_END {
            Region::AbusBbus
        } else if HIGH_WRAM_BASE <= a && a <= HIGH_WRAM_END {
            Region::HighWram
        } else {
            Region::Open
        }
    }
}

/// The bus, with the memory and the devices on it.
#[derive(Debug)]
pub struct SaturnBus<S: SectorSource = Disc> {
    pub bios: BiosRom,
    /// Internal backup RAM.
    pub backup: BackupRam,
    pub low_wram: Ram,
    pub sound: StubRegisterBank,
    pub scu: Scu,
    pub cd_block: CdBlock<S>,
    pub scsp: Scsp,
    pub cartridge: Cartridge,
    pub abus_bbus: StubRegisterBank,
    pub high_wram: Ram,
    pub timing: BusTiming,
    /// The clock of the instruction that uses the bus, its address, and whether it
    /// is the slave CPU's.
    pub cycle: u64,
    pub step_pc: u32,
    pub cur_is_slave: bool,
    /// Pending triggers of the CPUs' input capture.
    pub slave_input_capture: bool,
    pub master_input_capture: bool,
    /// A watchpoint for writes: an address, and a value or any.
    pub watch: Option<(u32, Option<u32>)>,
    /// The first write that it met: address, value, and the instruction's address.
    pub watch_hit: Option<(u32, u32, u32)>,
    /// Whether reads of the raster registers are noted.
    pub raster_probe_on: bool,
    /// The last one: offset, value, the instruction's address, clock.
    pub last_raster_read: Option<(u32, u16, u32, u64)>,
}

/// What is noted of the instruction that uses the bus, and for a debugger.
pub struct Notes {
    pub cycle: u64,
    pub step_pc: u32,
    pub cur_is_slave: bool,
    pub slave_input_capture: bool,
    pub master_input_capture: bool,
    pub watch: Option<(u32, Option<u32>)>,
    pub watch_hit: Option<(u32, u32, u32)>,
    pub raster_probe_on: bool,
    pub last_raster_read: Option<(u32, u16, u32, u64)>,
}

/// The state of a [`SaturnBus`].
pub struct Machine {
    pub bios: Seq<u8>,
    pub backup: Seq<u8>,
    pub low: Seq<u8>,
    pub scu: ScuState,
    pub cd: CdState,
    pub chip: Chip,
    pub cart: Cart,
    pub high: Seq<u8>,
    pub timing: BusTiming,
    pub notes: Notes,
}

impl<S: SectorSource> View for SaturnBus<S> {
    type V = Machine;

    closed spec fn view(&self) -> Machine {
        Machine {
            bios: self.bios@,
            backup: self.backup@,
            low: self.low_wram@,
            scu: self.scu@,
            cd: self.cd_block@,
            chip: self.scsp@,
            cart: self.cartridge@,
            high: self.high_wram@,
            timing: self.timing,
            notes: Notes {
                cycle: self.cycle,
                step_pc: self.step_pc,
                cur_is_slave: self.cur_is_slave,
                slave_input_capture: self.slave_input_capture,
                master_input_capture: self.master_input_capture,
                watch: self.watch,
                watch_hit: self.watch_hit,
                raster_probe_on: self.raster_probe_on,
                last_raster_read: self.last_raster_read,
            },
        }
    }
}

/// What the state of a bus shows.
pub proof fn bus_state<S: SectorSource>(bus: SaturnBus<S>)
    ensures
        bus@.bios == bus.bios@,
        bus@.backup == bus.backup@,
        bus@.low == bus.low_wram@,
        bus@.scu == bus.scu@,
        bus@.cd == bus.cd_block@,
        bus@.chip == bus.scsp@,
        bus@.cart == bus.cartridge@,
        bus@.high == bus.high_wram@,
        bus@.timing == bus.timing,
        bus@.notes.cycle == bus.cycle,
        bus@.notes.step_pc == bus.step_pc,
        bus@.notes.cur_is_slave == bus.cur_is_slave,
        bus@.notes.slave_input_capture == bus.slave_input_capture,
        bus@.notes.master_input_capture == bus.master_input_capture,
        bus@.notes.watch == bus.watch,
        bus@.notes.watch_hit == bus.watch_hit,
        bus@.notes.raster_probe_on == bus.raster_probe_on,
        bus@.notes.last_raster_read == bus.last_raster_read,
{
}

/// The offset of an address in its region.
pub open spec fn offset(addr: u32, base: u32) -> u32 {
    (addr - base) as u32
}

/// The CD-block is well-formed.
#[verifier::opaque]
pub open spec fn cd_wf(cd: CdState) -> bool {
    cd.wf()
}

/// The sound system is well-formed.
#[verifier::opaque]
pub open spec fn chip_wf(chip: Chip) -> bool {
    chip.wf()
}

impl Machine {
    pub open spec fn wf(self) -> bool {
        &&& self.low.len() == 0x10_0000
        &&& self.high.len() == 0x10_0000
        &&& self.cart.wf()
        &&& cd_wf(self.cd)
        &&& chip_wf(self.chip)
    }

    /// The machine at power-on, without a cartridge.
    pub open spec fn power_on(bios: Seq<u8>) -> Machine {
        Machine {
            bios,
            backup: formatted(INTERNAL_BACKUP_BYTES as nat, 4),
            low: Seq::new(0x10_0000, |i: int| 0u8),
            scu: ScuState::reset(),
            cd: CdState::power_on(),
            chip: Chip::reset(),
            cart: Cart::Empty,
            high: Seq::new(0x10_0000, |i: int| 0u8),
            timing: BusTiming::idle(),
            notes: Notes {
                cycle: 0,
                step_pc: 0,
                cur_is_slave: false,
                slave_input_capture: false,
                master_input_capture: false,
                watch: None,
                watch_hit: None,
                raster_probe_on: false,
                last_raster_read: None,
            },
        }
    }

    /// The access of the current instruction.
    pub open spec fn access(
        self,
        addr: u32,
        width: u32,
        write: bool,
        kind: AccessKind,
        draw: u32,
    ) -> Access {
        Access {
            addr,
            width,
            write,
            kind,
            asr0: self.scu.regs.asr0,
            draw: if Region::of(addr) is Vdp1 {
                draw
            } else {
                0
            },
        }
    }

    /// The machine after the time of an access.
    pub open spec fn done(
        self,
        addr: u32,
        width: u32,
        write: bool,
        kind: AccessKind,
        draw: u32,
    ) -> Machine {
        self.charged(self.access(addr, width, write, kind, draw))
    }

    /// What the CPU is stalled by it.
    pub open spec fn stalls(
        self,
        addr: u32,
        width: u32,
        write: bool,
        kind: AccessKind,
        draw: u32,
    ) -> u32 {
        self.stall(self.access(addr, width, write, kind, draw))
    }

    /// The machine with the time of an access taken.
    pub open spec fn charged(self, a: Access) -> Machine {
        Machine { timing: self.timing.charge(self.notes.cycle, a).0, ..self }
    }

    /// What the CPU is stalled by an access.
    pub open spec fn stall(self, a: Access) -> u32 {
        self.timing.charge(self.notes.cycle, a).1
    }

    // ---- devices ---------------------------------------------------------------

    #[verifier::opaque]
    pub open spec fn cd_read8(self, o: u32) -> Machine {
        Machine { cd: self.cd.word_read(o & !1), ..self }
    }

    #[verifier::opaque]
    pub open spec fn cd_read16(self, o: u32) -> Machine {
        Machine { cd: self.cd.word_read(o), ..self }
    }

    #[verifier::opaque]
    pub open spec fn cd_read32(self, o: u32) -> Machine {
        Machine { cd: self.cd.long_read(o), ..self }
    }

    #[verifier::opaque]
    pub open spec fn cd_port_read(self) -> Machine {
        Machine { cd: self.cd.port_read(), ..self }
    }

    #[verifier::opaque]
    pub open spec fn cd_written8(self, o: u32, val: u8) -> Machine {
        Machine {
            cd: self.cd.word_read(o & !1).word_written(
                o & !1,
                CdState::byte_merged(self.cd.word_at(o & !1), o, val),
            ),
            ..self
        }
    }

    /// The CD-block is told which instruction writes 16 bits.
    #[verifier::opaque]
    pub open spec fn cd_written16(self, o: u32, val: u16) -> Machine {
        Machine {
            cd: CdState {
                logs: Logs { caller_pc: self.notes.step_pc, ..self.cd.logs },
                ..self.cd
            }.word_written(o, val),
            ..self
        }
    }

    #[verifier::opaque]
    pub open spec fn cd_written32(self, o: u32, val: u32) -> Machine {
        Machine {
            cd: self.cd.word_written(o, (val >> 16) as u16).word_written(
                o.wrapping_add(2),
                val as u16,
            ),
            ..self
        }
    }

    #[verifier::opaque]
    pub open spec fn scu_read8(self, o: u32) -> Machine {
        Machine { scu: self.scu.byte_read(o), ..self }
    }

    #[verifier::opaque]
    pub open spec fn scu_read16(self, o: u32) -> Machine {
        Machine { scu: self.scu.byte_read(o).byte_read(o.wrapping_add(1)), ..self }
    }

    #[verifier::opaque]
    pub open spec fn scu_read32(self, o: u32) -> Machine {
        Machine { scu: self.scu.read(o), ..self }
    }

    #[verifier::opaque]
    pub open spec fn scu_written8(self, o: u32, val: u8) -> Machine {
        Machine { scu: self.scu.byte_written(o, val), ..self }
    }

    #[verifier::opaque]
    pub open spec fn scu_written16(self, o: u32, val: u16) -> Machine {
        Machine {
            scu: self.scu.byte_written(o, (val >> 8) as u8).byte_written(
                o.wrapping_add(1),
                val as u8,
            ),
            ..self
        }
    }

    #[verifier::opaque]
    pub open spec fn scu_written32(self, o: u32, val: u32) -> Machine {
        Machine { scu: self.scu.written(o, val), ..self }
    }

    #[verifier::opaque]
    pub open spec fn sound_ram_written8(self, o: u32, val: u8) -> Machine {
        Machine {
            chip: Chip {
                ram: self.chip.ram.update(o as int % self.chip.ram.len() as int, val),
                ..self.chip
            },
            ..self
        }
    }

    #[verifier::opaque]
    pub open spec fn sound_ram_written16(self, o: u32, val: u16) -> Machine {
        Machine { chip: Chip { ram: put16(self.chip.ram, o, val), ..self.chip }, ..self }
    }

    #[verifier::opaque]
    pub open spec fn sound_ram_written32(self, o: u32, val: u32) -> Machine {
        Machine { chip: Chip { ram: put32(self.chip.ram, o, val), ..self.chip }, ..self }
    }

    #[verifier::opaque]
    pub open spec fn sound_written8(self, o: u32, val: u8) -> Machine {
        Machine { chip: Chip { sound: self.chip.sound.written8(o, val), ..self.chip }, ..self }
    }

    #[verifier::opaque]
    pub open spec fn sound_written16(self, o: u32, val: u16) -> Machine {
        Machine { chip: Chip { sound: self.chip.sound.written16(o, val), ..self.chip }, ..self }
    }

    #[verifier::opaque]
    pub open spec fn sound_written32(self, o: u32, val: u32) -> Machine {
        Machine { chip: Chip { sound: self.chip.sound.written32(o, val), ..self.chip }, ..self }
    }

    // ---- reads -----------------------------------------------------------------

    /// What answers a read of 8 bits. The SMPC and the graphics chips answer
    /// `reply`.
    pub open spec fn answer8(self, addr: u32, reply: u8) -> u8 {
        match Region::of(addr) {
            Region::Bios => folded(self.bios, addr),
            Region::Smpc | Region::Vdp1 | Region::Vdp2 => reply,
            Region::Backup => packed(self.backup, offset(addr, BACKUP_BASE)),
            Region::LowWram => folded(self.low, offset(addr, LOW_WRAM_BASE)),
            Region::Cartridge => self.cart.at(addr),
            Region::CdBlock => {
                let o = offset(addr, CD_BLOCK_BASE);
                if o & 1 == 0 {
                    (self.cd.word_at(o & !1) >> 8) as u8
                } else {
                    self.cd.word_at(o & !1) as u8
                }
            },
            Region::Scu => self.scu.byte_at(offset(addr, SCU_BASE)),
            Region::ScspRam => folded(self.chip.ram, offset(addr, SCSP_RAM_BASE)),
            Region::ScspRegs => self.chip.sound.at(offset(addr, SCSP_REGS_BASE)),
            Region::HighWram => folded(self.high, offset(addr, HIGH_WRAM_BASE)),
            _ => 0,
        }
    }

    /// What a read of 8 bits changes.
    pub open spec fn read8(self, addr: u32) -> Machine {
        match Region::of(addr) {
            Region::CdBlock => self.cd_read8(offset(addr, CD_BLOCK_BASE)),
            Region::Scu => self.scu_read8(offset(addr, SCU_BASE)),
            _ => self,
        }
    }

    pub open spec fn answer16(self, addr: u32, reply: u16) -> u16 {
        match Region::of(addr) {
            Region::Bios => folded16(self.bios, addr),
            Region::Smpc | Region::Vdp1 | Region::Vdp2 => reply,
            Region::Backup => {
                let o = offset(addr, BACKUP_BASE);
                be16(packed(self.backup, o), packed(self.backup, o.wrapping_add(1)))
            },
            Region::LowWram => folded16(self.low, offset(addr, LOW_WRAM_BASE)),
            Region::Cartridge => self.cart.at16(addr),
            Region::CdBlock => self.cd.word_at(offset(addr, CD_BLOCK_BASE)),
            Region::Scu => {
                let o = offset(addr, SCU_BASE);
                ((self.scu.byte_at(o) as u16) << 8) | self.scu.byte_read(o).byte_at(
                    o.wrapping_add(1),
                ) as u16
            },
            Region::ScspRam => folded16(self.chip.ram, offset(addr, SCSP_RAM_BASE)),
            Region::ScspRegs => self.chip.sound.at16(offset(addr, SCSP_REGS_BASE)),
            Region::HighWram => folded16(self.high, offset(addr, HIGH_WRAM_BASE)),
            _ => 0,
        }
    }

    /// What a read of 16 bits changes. A read of a raster register is noted, if
    /// asked for.
    pub open spec fn read16(self, addr: u32, value: u16) -> Machine {
        match Region::of(addr) {
            Region::CdBlock => self.cd_read16(offset(addr, CD_BLOCK_BASE)),
            Region::Scu => self.scu_read16(offset(addr, SCU_BASE)),
            _ => if self.notes.raster_probe_on && (addr == 0x05F8_0004 || addr == 0x05F8_000A) {
                Machine {
                    notes: Notes {
                        last_raster_read: Some(
                            (
                                offset(addr, VDP2_REGS_BASE),
                                value,
                                self.notes.step_pc,
                                self.notes.cycle,
                            ),
                        ),
                        ..self.notes
                    },
                    ..self
                }
            } else {
                self
            },
        }
    }

    pub open spec fn answer32(self, addr: u32, reply: u32) -> u32 {
        match Region::of(addr) {
            Region::Bios => folded32(self.bios, addr),
            Region::Smpc | Region::Vdp1 | Region::Vdp2 => reply,
            Region::Backup => {
                let o = offset(addr, BACKUP_BASE);
                be32(
                    packed(self.backup, o),
                    packed(self.backup, o.wrapping_add(1)),
                    packed(self.backup, o.wrapping_add(2)),
                    packed(self.backup, o.wrapping_add(3)),
                )
            },
            Region::LowWram => folded32(self.low, offset(addr, LOW_WRAM_BASE)),
            Region::Cartridge => self.cart.at32(addr),
            Region::CdPort => self.cd.port_word(),
            Region::CdBlock => self.cd.long_at(offset(addr, CD_BLOCK_BASE)),
            Region::Scu => self.scu.at(offset(addr, SCU_BASE)),
            Region::ScspRam => folded32(self.chip.ram, offset(addr, SCSP_RAM_BASE)),
            Region::ScspRegs => self.chip.sound.at32(offset(addr, SCSP_REGS_BASE)),
            Region::HighWram => folded32(self.high, offset(addr, HIGH_WRAM_BASE)),
            _ => 0,
        }
    }

    /// What a read of 32 bits changes.
    pub open spec fn read32(self, addr: u32) -> Machine {
        match Region::of(addr) {
            Region::CdPort => self.cd_port_read(),
            Region::CdBlock => self.cd_read32(offset(addr, CD_BLOCK_BASE)),
            Region::Scu => self.scu_read32(offset(addr, SCU_BASE)),
            _ => self,
        }
    }

    /// Whether a read of 32 bits takes data of the CD-block.
    pub open spec fn takes_data(addr: u32) -> bool {
        Region::of(addr) is CdPort || (Region::of(addr) is CdBlock && in_fifo(
            offset(addr, CD_BLOCK_BASE),
        ))
    }

    // ---- writes ----------------------------------------------------------------

    /// The watchpoint notes the first write that it is set for.
    pub open spec fn watched(self, addr: u32, val: u32) -> Machine {
        if self.notes.watch_hit is None && (self.notes.watch matches Some((a, v)) && a == addr && (v
            matches Some(x) ==> x == val)) {
            Machine {
                notes: Notes {
                    watch_hit: Some((addr, val, self.notes.step_pc)),
                    ..self.notes
                },
                ..self
            }
        } else {
            self
        }
    }

    /// Triggers of the CPUs' input capture pend with a write of any width.
    pub open spec fn triggered(self, addr: u32) -> Machine {
        match Region::of(addr) {
            Region::SlaveFti => Machine {
                notes: Notes { slave_input_capture: true, ..self.notes },
                ..self
            },
            Region::MasterFti => Machine {
                notes: Notes { master_input_capture: true, ..self.notes },
                ..self
            },
            _ => self,
        }
    }

    /// What a write of 8 bits changes.
    pub open spec fn written8(self, addr: u32, val: u8) -> Machine {
        match Region::of(addr) {
            Region::Backup => Machine {
                backup: pack(self.backup, offset(addr, BACKUP_BASE), val),
                ..self
            },
            Region::LowWram => Machine {
                low: self.low.update(offset(addr, LOW_WRAM_BASE) as int % 0x10_0000, val),
                ..self
            },
            Region::Cartridge => Machine { cart: self.cart.with(addr, val), ..self },
            Region::CdBlock => self.cd_written8(offset(addr, CD_BLOCK_BASE), val),
            Region::Scu => self.scu_written8(offset(addr, SCU_BASE), val),
            Region::ScspRam => self.sound_ram_written8(offset(addr, SCSP_RAM_BASE), val),
            Region::ScspRegs => self.sound_written8(offset(addr, SCSP_REGS_BASE), val),
            Region::HighWram => Machine {
                high: self.high.update(offset(addr, HIGH_WRAM_BASE) as int % 0x10_0000, val),
                ..self
            },
            _ => self.triggered(addr),
        }
    }

    /// What a write of 16 bits changes. The CD-block is told which instruction
    /// writes.
    pub open spec fn written16(self, addr: u32, val: u16) -> Machine {
        match Region::of(addr) {
            Region::Backup => {
                let o = offset(addr, BACKUP_BASE);
                Machine {
                    backup: pack(
                        pack(self.backup, o, byte16(val, 0)),
                        o.wrapping_add(1),
                        byte16(val, 1),
                    ),
                    ..self
                }
            },
            Region::LowWram => Machine {
                low: put16(self.low, offset(addr, LOW_WRAM_BASE), val),
                ..self
            },
            Region::Cartridge => Machine { cart: self.cart.with16(addr, val), ..self },
            Region::CdBlock => self.cd_written16(offset(addr, CD_BLOCK_BASE), val),
            Region::Scu => self.scu_written16(offset(addr, SCU_BASE), val),
            Region::ScspRam => self.sound_ram_written16(offset(addr, SCSP_RAM_BASE), val),
            Region::ScspRegs => self.sound_written16(offset(addr, SCSP_REGS_BASE), val),
            Region::HighWram => Machine {
                high: put16(self.high, offset(addr, HIGH_WRAM_BASE), val),
                ..self
            },
            _ => self.triggered(addr),
        }
    }

    /// What a write of 32 bits changes.
    pub open spec fn written32(self, addr: u32, val: u32) -> Machine {
        match Region::of(addr) {
            Region::Backup => {
                let o = offset(addr, BACKUP_BASE);
                Machine {
                    backup: pack(
                        pack(
                            pack(
                                pack(self.backup, o, byte32(val, 0)),
                                o.wrapping_add(1),
                                byte32(val, 1),
                            ),
                            o.wrapping_add(2),
                            byte32(val, 2),
                        ),
                        o.wrapping_add(3),
                        byte32(val, 3),
                    ),
                    ..self
                }
            },
            Region::LowWram => Machine {
                low: put32(self.low, offset(addr, LOW_WRAM_BASE), val),
                ..self
            },
            Region::Cartridge => Machine { cart: self.cart.with32(addr, val), ..self },
            Region::CdBlock => self.cd_written32(offset(addr, CD_BLOCK_BASE), val),
            Region::Scu => self.scu_written32(offset(addr, SCU_BASE), val),
            Region::ScspRam => self.sound_ram_written32(offset(addr, SCSP_RAM_BASE), val),
            Region::ScspRegs => self.sound_written32(offset(addr, SCSP_REGS_BASE), val),
            Region::HighWram => Machine {
                high: put32(self.high, offset(addr, HIGH_WRAM_BASE), val),
                ..self
            },
            _ => self.triggered(addr),
        }
    }
}

/// The parts of the bus that its state leaves out stay as they are.
pub open spec fn rest_kept<S: SectorSource>(a: SaturnBus<S>, b: SaturnBus<S>) -> bool {
    b.cd_block.disc == a.cd_block.disc && b.scsp.probes == a.scsp.probes && b.sound == a.sound
        && b.abus_bbus == a.abus_bbus
}

impl SaturnBus<Disc> {
    /// A bus with the given BIOS image.
    pub fn new(bios: Vec<u8>) -> (r: SaturnBus<Disc>)
        requires
            bios@.len() > 0,
        ensures
            r@ == Machine::power_on(bios@),
            r@.wf(),
    {
        reveal(cd_wf);
        reveal(chip_wf);
        SaturnBus {
            bios: BiosRom::new(bios),
            backup: BackupRam::new(),
            low_wram: Ram::new(0x10_0000),
            sound: StubRegisterBank::new("SOUND"),
            scu: Scu::new(),
            cd_block: CdBlock::new(),
            scsp: Scsp::new(),
            cartridge: Cartridge::Empty,
            abus_bbus: StubRegisterBank::new("A/B-BUS"),
            high_wram: Ram::new(0x10_0000),
            timing: BusTiming::default(),
            cycle: 0,
            step_pc: 0,
            cur_is_slave: false,
            slave_input_capture: false,
            master_input_capture: false,
            watch: None,
            watch_hit: None,
            raster_probe_on: false,
            last_raster_read: None,
        }
    }

    /// A bus with a BIOS of 512 KiB, all zero.
    pub fn with_blank_bios() -> (r: SaturnBus<Disc>)
        ensures
            r@ == Machine::power_on(Seq::new(0x8_0000, |i: int| 0u8)),
            r@.wf(),
    {
        let bios: Vec<u8> = vec![0u8; 0x8_0000];
        assert(bios@ =~= Seq::new(0x8_0000, |i: int| 0u8));
        SaturnBus::new(bios)
    }
}

impl<S: SectorSource> SaturnBus<S> {
    /// Takes the last read of a raster register.
    pub fn take_raster_read(&mut self) -> (r: Option<(u32, u16, u32, u64)>)
        ensures
            r == old(self)@.notes.last_raster_read,
            final(self)@ == (Machine {
                notes: Notes { last_raster_read: None, ..old(self)@.notes },
                ..old(self)@
            }),
            *final(self) == (SaturnBus { last_raster_read: None, ..*old(self) }),
    {
        self.last_raster_read.take()
    }

    fn charge(&mut self, addr: u32, width: u32, write: bool, kind: AccessKind, draw: u32) -> (r: u32)
        ensures
            r == old(self)@.stalls(addr, width, write, kind, draw),
            final(self)@ == old(self)@.done(addr, width, write, kind, draw),
            *final(self) == (SaturnBus { timing: final(self).timing, ..*old(self) }),
    {
        let a = Access {
            addr,
            width,
            write,
            kind,
            asr0: self.scu.asr0,
            draw: if Region::at(addr) == Region::Vdp1 {
                draw
            } else {
                0
            },
        };
        self.timing.perform(self.cycle, &a)
    }

    fn note_write(&mut self, addr: u32, val: u32)
        ensures
            final(self)@ == old(self)@.watched(addr, val),
            *final(self) == (SaturnBus { watch_hit: final(self).watch_hit, ..*old(self) }),
    {
        if self.watch_hit.is_none() {
            if let Some((a, v)) = self.watch {
                let meets: bool = match v {
                    Some(x) => x == val,
                    None => true,
                };
                if a == addr && meets {
                    self.watch_hit = Some((addr, val, self.step_pc));
                }
            }
        }
    }

    /// The memory at an address, 16 bits, without any effect; `None` for devices.
    pub fn peek16(&self, addr: u32) -> (r: Option<u16>)
        requires
            self@.wf(),
        ensures
            r == (match Region::of(addr) {
                Region::Bios | Region::LowWram | Region::HighWram => Some(
                    self@.answer16(addr, 0),
                ),
                _ => None,
            }),
    {
        match Region::at(addr) {
            Region::Bios => Some(self.bios.read16(addr)),
            Region::LowWram => Some(self.low_wram.read16(addr - LOW_WRAM_BASE)),
            Region::HighWram => Some(self.high_wram.read16(addr - HIGH_WRAM_BASE)),
            _ => None,
        }
    }

    fn read_cd8(&mut self, o: u32) -> (r: u8)
        requires
            old(self)@.wf(),
        ensures
            r == (if o & 1 == 0 {
                (old(self)@.cd.word_at(o & !1) >> 8) as u8
            } else {
                old(self)@.cd.word_at(o & !1) as u8
            }),
            final(self)@ == old(self)@.cd_read8(o),
            final(self)@.wf(),
            rest_kept(*old(self), *final(self)),
    {
        reveal(Machine::cd_read8);
        reveal(cd_wf);
        self.cd_block.read8(o)
    }

    fn read_scu8(&mut self, o: u32) -> (r: u8)
        requires
            old(self)@.wf(),
        ensures
            r == old(self)@.scu.byte_at(o),
            final(self)@ == old(self)@.scu_read8(o),
            final(self)@.wf(),
            rest_kept(*old(self), *final(self)),
    {
        reveal(Machine::scu_read8);
        self.scu.read8(o)
    }

    fn write_cd8(&mut self, o: u32, val: u8)
        requires
            old(self)@.wf(),
        ensures
            final(self)@ == old(self)@.cd_written8(o, val),
            final(self)@.wf(),
            rest_kept(*old(self), *final(self)),
    {
        reveal(Machine::cd_written8);
        reveal(cd_wf);
        self.cd_block.write8(o, val);
    }

    fn write_scu8(&mut self, o: u32, val: u8)
        requires
            old(self)@.wf(),
        ensures
            final(self)@ == old(self)@.scu_written8(o, val),
            final(self)@.wf(),
            rest_kept(*old(self), *final(self)),
    {
        reveal(Machine::scu_written8);
        self.scu.write8(o, val);
    }

    fn read_sound8(&self, o: u32) -> (r: u8)
        requires
            self@.wf(),
        ensures
            r == self@.chip.sound.at(o),
    {
        reveal(chip_wf);
        self.scsp.ctrl.read8(o)
    }

    fn read_sound_ram8(&self, o: u32) -> (r: u8)
        requires
            self@.wf(),
        ensures
            r == folded(self@.chip.ram, o),
    {
        reveal(chip_wf);
        self.scsp.ram.read8(o)
    }

    fn write_sound_ram8(&mut self, o: u32, val: u8)
        requires
            old(self)@.wf(),
        ensures
            final(self)@ == old(self)@.sound_ram_written8(o, val),
            final(self)@.wf(),
            rest_kept(*old(self), *final(self)),
    {
        reveal(Machine::sound_ram_written8);
        reveal(chip_wf);
        self.scsp.ram.write8(o, val);
    }

    fn write_sound8(&mut self, o: u32, val: u8)
        requires
            old(self)@.wf(),
        ensures
            final(self)@ == old(self)@.sound_written8(o, val),
            final(self)@.wf(),
            rest_kept(*old(self), *final(self)),
    {
        reveal(Machine::sound_written8);
        reveal(chip_wf);
        self.scsp.ctrl.write8(o, val);
    }

    fn read_cd16(&mut self, o: u32) -> (r: u16)
        requires
            old(self)@.wf(),
        ensures
            r == old(self)@.cd.word_at(o),
            final(self)@ == old(self)@.cd_read16(o),
            final(self)@.wf(),
            rest_kept(*old(self), *final(self)),
    {
        reveal(Machine::cd_read16);
        reveal(cd_wf);
        self.cd_block.read16(o)
    }

    fn read_scu16(&mut self, o: u32) -> (r: u16)
        requires
            old(self)@.wf(),
        ensures
            r == ((old(self)@.scu.byte_at(o) as u16) << 8) | old(self)@.scu.byte_read(o).byte_at(
                o.wrapping_add(1),
            ) as u16,
            final(self)@ == old(self)@.scu_read16(o),
            final(self)@.wf(),
            rest_kept(*old(self), *final(self)),
    {
        reveal(Machine::scu_read16);
        self.scu.read16(o)
    }

    fn write_cd16(&mut self, o: u32, val: u16)
        requires
            old(self)@.wf(),
        ensures
            final(self)@ == old(self)@.cd_written16(o, val),
            final(self)@.wf(),
            rest_kept(*old(self), *final(self)),
    {
        reveal(Machine::cd_written16);
        reveal(cd_wf);
        self.cd_block.caller_pc = self.step_pc;
        self.cd_block.write16(o, val);
    }

    fn write_scu16(&mut self, o: u32, val: u16)
        requires
            old(self)@.wf(),
        ensures
            final(self)@ == old(self)@.scu_written16(o, val),
            final(self)@.wf(),
            rest_kept(*old(self), *final(self)),
    {
        reveal(Machine::scu_written16);
        self.scu.write16(o, val);
    }

    fn read_sound16(&self, o: u32) -> (r: u16)
        requires
            self@.wf(),
        ensures
            r == self@.chip.sound.at16(o),
    {
        reveal(chip_wf);
        self.scsp.ctrl.read16(o)
    }

    fn read_sound_ram16(&self, o: u32) -> (r: u16)
        requires
            self@.wf(),
        ensures
            r == folded16(self@.chip.ram, o),
    {
        reveal(chip_wf);
        self.scsp.ram.read16(o)
    }

    fn write_sound_ram16(&mut self, o: u32, val: u16)
        requires
            old(self)@.wf(),
        ensures
            final(self)@ == old(self)@.sound_ram_written16(o, val),
            final(self)@.wf(),
            rest_kept(*old(self), *final(self)),
    {
        reveal(Machine::sound_ram_written16);
        reveal(chip_wf);
        self.scsp.ram.write16(o, val);
    }

    fn write_sound16(&mut self, o: u32, val: u16)
        requires
            old(self)@.wf(),
        ensures
            final(self)@ == old(self)@.sound_written16(o, val),
            final(self)@.wf(),
            rest_kept(*old(self), *final(self)),
    {
        reveal(Machine::sound_written16);
        reveal(chip_wf);
        self.scsp.ctrl.write16(o, val);
    }

    fn read_cd32(&mut self, o: u32) -> (r: u32)
        requires
            old(self)@.wf(),
            in_fifo(o) ==> old(self)@.cd.transfer_ready(),
        ensures
            r == old(self)@.cd.long_at(o),
            final(self)@ == old(self)@.cd_read32(o),
            final(self)@.wf(),
            rest_kept(*old(self), *final(self)),
    {
        reveal(Machine::cd_read32);
        reveal(cd_wf);
        self.cd_block.read32(o)
    }

    fn read_scu32(&mut self, o: u32) -> (r: u32)
        requires
            old(self)@.wf(),
        ensures
            r == old(self)@.scu.at(o),
            final(self)@ == old(self)@.scu_read32(o),
            final(self)@.wf(),
            rest_kept(*old(self), *final(self)),
    {
        reveal(Machine::scu_read32);
        self.scu.read32(o)
    }

    fn write_cd32(&mut self, o: u32, val: u32)
        requires
            old(self)@.wf(),
        ensures
            final(self)@ == old(self)@.cd_written32(o, val),
            final(self)@.wf(),
            rest_kept(*old(self), *final(self)),
    {
        reveal(Machine::cd_written32);
        reveal(cd_wf);
        self.cd_block.write32(o, val);
    }

    fn write_scu32(&mut self, o: u32, val: u32)
        requires
            old(self)@.wf(),
        ensures
            final(self)@ == old(self)@.scu_written32(o, val),
            final(self)@.wf(),
            rest_kept(*old(self), *final(self)),
    {
        reveal(Machine::scu_written32);
        self.scu.write32(o, val);
    }

    fn read_sound32(&self, o: u32) -> (r: u32)
        requires
            self@.wf(),
        ensures
            r == self@.chip.sound.at32(o),
    {
        reveal(chip_wf);
        self.scsp.ctrl.read32(o)
    }

    fn read_sound_ram32(&self, o: u32) -> (r: u32)
        requires
            self@.wf(),
        ensures
            r == folded32(self@.chip.ram, o),
    {
        reveal(chip_wf);
        self.scsp.ram.read32(o)
    }

    fn write_sound_ram32(&mut self, o: u32, val: u32)
        requires
            old(self)@.wf(),
        ensures
            final(self)@ == old(self)@.sound_ram_written32(o, val),
            final(self)@.wf(),
            rest_kept(*old(self), *final(self)),
    {
        reveal(Machine::sound_ram_written32);
        reveal(chip_wf);
        self.scsp.ram.write32(o, val);
    }

    fn write_sound32(&mut self, o: u32, val: u32)
        requires
            old(self)@.wf(),
        ensures
            final(self)@ == old(self)@.sound_written32(o, val),
            final(self)@.wf(),
            rest_kept(*old(self), *final(self)),
    {
        reveal(Machine::sound_written32);
        reveal(chip_wf);
        self.scsp.ctrl.write32(o, val);
    }

    fn read_port(&mut self) -> (r: u32)
        requires
            old(self)@.wf(),
            old(self)@.cd.transfer_ready(),
        ensures
            r == old(self)@.cd.port_word(),
            final(self)@ == old(self)@.cd_port_read(),
            final(self)@.wf(),
            rest_kept(*old(self), *final(self)),
    {
        reveal(Machine::cd_port_read);
        reveal(cd_wf);
        self.cd_block.read_data_port()
    }

    fn device_read8(&mut self, addr: u32, reply: u8) -> (r: u8)
        requires
            old(self)@.wf(),
        ensures
            r == old(self)@.answer8(addr, reply),
            final(self)@ == old(self)@.read8(addr),
            final(self)@.wf(),
            rest_kept(*old(self), *final(self)),
    {
        match Region::at(addr) {
            Region::Bios => self.bios.read8(addr),
            Region::Smpc | Region::Vdp1 | Region::Vdp2 => reply,
            Region::Backup => self.backup.read8(addr - BACKUP_BASE),
            Region::LowWram => self.low_wram.read8(addr - LOW_WRAM_BASE),
            Region::Sound => self.sound.read8(addr - SOUND_BASE),
            Region::Cartridge => self.cartridge.read8(addr),
            Region::CdBlock => self.read_cd8(addr - CD_BLOCK_BASE),
            Region::Scu => self.read_scu8(addr - SCU_BASE),
            Region::ScspRam => self.read_sound_ram8(addr - SCSP_RAM_BASE),
            Region::ScspRegs => self.read_sound8(addr - SCSP_REGS_BASE),
            Region::AbusBbus => self.abus_bbus.read8(addr - ABUS_BBUS_BASE),
            Region::HighWram => self.high_wram.read8(addr - HIGH_WRAM_BASE),
            _ => 0,
        }
    }

    /// Reads 8 bits; gives the stall, too. `reply` is what the SMPC or a graphics
    /// chip answers, where one is addressed, and `draw` what the sprite engine adds.
    pub fn read8(&mut self, addr: u32, kind: AccessKind, reply: u8, draw: u32) -> (r: (u8, u32))
        requires
            old(self)@.wf(),
        ensures
            r.0 == old(self)@.answer8(addr, reply),
            ({
                let m = old(self)@.read8(addr);
                r.1 == m.stalls(addr, 1, false, kind, draw) && final(self)@ == m.done(
                    addr,
                    1,
                    false,
                    kind,
                    draw,
                )
            }),
            final(self)@.wf(),
            rest_kept(*old(self), *final(self)),
    {
        let v: u8 = self.device_read8(addr, reply);
        (v, self.charge(addr, 1, false, kind, draw))
    }

    fn device_read16(&mut self, addr: u32, reply: u16) -> (r: u16)
        requires
            old(self)@.wf(),
        ensures
            r == old(self)@.answer16(addr, reply),
            final(self)@ == old(self)@.read16(addr, r),
            final(self)@.wf(),
            rest_kept(*old(self), *final(self)),
    {
        let r: u16 = match Region::at(addr) {
            Region::Bios => self.bios.read16(addr),
            Region::Smpc | Region::Vdp1 | Region::Vdp2 => reply,
            Region::Backup => self.backup.read16(addr - BACKUP_BASE),
            Region::LowWram => self.low_wram.read16(addr - LOW_WRAM_BASE),
            Region::Sound => self.sound.read16(addr - SOUND_BASE),
            Region::Cartridge => self.cartridge.read16(addr),
            Region::CdBlock => self.read_cd16(addr - CD_BLOCK_BASE),
            Region::Scu => self.read_scu16(addr - SCU_BASE),
            Region::ScspRam => self.read_sound_ram16(addr - SCSP_RAM_BASE),
            Region::ScspRegs => self.read_sound16(addr - SCSP_REGS_BASE),
            Region::AbusBbus => self.abus_bbus.read16(addr - ABUS_BBUS_BASE),
            Region::HighWram => self.high_wram.read16(addr - HIGH_WRAM_BASE),
            _ => 0,
        };
        if self.raster_probe_on && (addr == 0x05F8_0004 || addr == 0x05F8_000A) {
            self.last_raster_read =
            Some((addr - VDP2_REGS_BASE, r, self.step_pc, self.cycle));
        }
        r
    }

    /// Reads 16 bits; gives the stall, too. `reply` is what the SMPC or a graphics
    /// chip answers, where one is addressed, and `draw` what the sprite engine adds.
    pub fn read16(&mut self, addr: u32, kind: AccessKind, reply: u16, draw: u32) -> (r: (u16, u32))
        requires
            old(self)@.wf(),
        ensures
            r.0 == old(self)@.answer16(addr, reply),
            ({
                let m = old(self)@.read16(addr, r.0);
                r.1 == m.stalls(addr, 2, false, kind, draw) && final(self)@ == m.done(
                    addr,
                    2,
                    false,
                    kind,
                    draw,
                )
            }),
            final(self)@.wf(),
            rest_kept(*old(self), *final(self)),
    {
        let v: u16 = self.device_read16(addr, reply);
        (v, self.charge(addr, 2, false, kind, draw))
    }

    fn device_read32(&mut self, addr: u32, reply: u32) -> (r: u32)
        requires
            old(self)@.wf(),
            Machine::takes_data(addr) ==> old(self)@.cd.transfer_ready(),
        ensures
            r == old(self)@.answer32(addr, reply),
            final(self)@ == old(self)@.read32(addr),
            final(self)@.wf(),
            rest_kept(*old(self), *final(self)),
    {
        match Region::at(addr) {
            Region::Bios => self.bios.read32(addr),
            Region::Smpc | Region::Vdp1 | Region::Vdp2 => reply,
            Region::Backup => self.backup.read32(addr - BACKUP_BASE),
            Region::LowWram => self.low_wram.read32(addr - LOW_WRAM_BASE),
            Region::Sound => self.sound.read32(addr - SOUND_BASE),
            Region::Cartridge => self.cartridge.read32(addr),
            Region::CdPort => self.read_port(),
            Region::CdBlock => self.read_cd32(addr - CD_BLOCK_BASE),
            Region::Scu => self.read_scu32(addr - SCU_BASE),
            Region::ScspRam => self.read_sound_ram32(addr - SCSP_RAM_BASE),
            Region::ScspRegs => self.read_sound32(addr - SCSP_REGS_BASE),
            Region::AbusBbus => self.abus_bbus.read32(addr - ABUS_BBUS_BASE),
            Region::HighWram => self.high_wram.read32(addr - HIGH_WRAM_BASE),
            _ => 0,
        }
    }

    /// Reads 32 bits; gives the stall, too. `reply` is what the SMPC or a graphics
    /// chip answers, where one is addressed, and `draw` what the sprite engine adds.
    pub fn read32(&mut self, addr: u32, kind: AccessKind, reply: u32, draw: u32) -> (r: (u32, u32))
        requires
            old(self)@.wf(),
            Machine::takes_data(addr) ==> old(self)@.cd.transfer_ready(),
        ensures
            r.0 == old(self)@.answer32(addr, reply),
            ({
                let m = old(self)@.read32(addr);
                r.1 == m.stalls(addr, 4, false, kind, draw) && final(self)@ == m.done(
                    addr,
                    4,
                    false,
                    kind,
                    draw,
                )
            }),
            final(self)@.wf(),
            rest_kept(*old(self), *final(self)),
    {
        let v: u32 = self.device_read32(addr, reply);
        (v, self.charge(addr, 4, false, kind, draw))
    }

    fn device_write8(&mut self, addr: u32, val: u8)
        requires
            old(self)@.wf(),
        ensures
            final(self)@ == old(self)@.written8(addr, val),
            final(self)@.wf(),
            rest_kept(*old(self), *final(self)),
    {
        match Region::at(addr) {
            Region::Bios => {
                self.bios.write_ignored();
            },
            Region::Backup => {
                self.backup.write8(addr - BACKUP_BASE, val);
            },
            Region::LowWram => {
                self.low_wram.write8(addr - LOW_WRAM_BASE, val);
            },
            Region::Sound => {
                self.sound.write8(addr - SOUND_BASE, val);
            },
            Region::Cartridge => {
                self.cartridge.write8(addr, val);
            },
            Region::CdBlock => {
                self.write_cd8(addr - CD_BLOCK_BASE, val);
            },
            Region::Scu => {
                self.write_scu8(addr - SCU_BASE, val);
            },
            Region::ScspRam => {
                self.write_sound_ram8(addr - SCSP_RAM_BASE, val);
            },
            Region::ScspRegs => {
                self.write_sound8(addr - SCSP_REGS_BASE, val);
            },
            Region::AbusBbus => {
                self.abus_bbus.write8(addr - ABUS_BBUS_BASE, val);
            },
            Region::HighWram => {
                self.high_wram.write8(addr - HIGH_WRAM_BASE, val);
            },
            Region::SlaveFti => {
                self.slave_input_capture = true;
            },
            Region::MasterFti => {
                self.master_input_capture = true;
            },
            _ => {},
        }
    }

    /// Writes 8 bits; gives the stall. What is for the SMPC or a graphics chip goes
    /// there outside.
    pub fn write8(&mut self, addr: u32, val: u8, kind: AccessKind, draw: u32) -> (r: u32)
        requires
            old(self)@.wf(),
        ensures
            ({
                let m = old(self)@.watched(addr, val as u32).written8(addr, val);
                r == m.stalls(addr, 1, true, kind, draw) && final(self)@ == m.done(
                    addr,
                    1,
                    true,
                    kind,
                    draw,
                )
            }),
            final(self)@.wf(),
            rest_kept(*old(self), *final(self)),
    {
        self.note_write(addr, val as u32);
        self.device_write8(addr, val);
        self.charge(addr, 1, true, kind, draw)
    }

    fn device_write16(&mut self, addr: u32, val: u16)
        requires
            old(self)@.wf(),
        ensures
            final(self)@ == old(self)@.written16(addr, val),
            final(self)@.wf(),
            rest_kept(*old(self), *final(self)),
    {
        match Region::at(addr) {
            Region::Bios => {
                self.bios.write_ignored();
            },
            Region::Backup => {
                self.backup.write16(addr - BACKUP_BASE, val);
            },
            Region::LowWram => {
                self.low_wram.write16(addr - LOW_WRAM_BASE, val);
            },
            Region::Sound => {
                self.sound.write16(addr - SOUND_BASE, val);
            },
            Region::Cartridge => {
                self.cartridge.write16(addr, val);
            },
            Region::CdBlock => {
                self.write_cd16(addr - CD_BLOCK_BASE, val);
            },
            Region::Scu => {
                self.write_scu16(addr - SCU_BASE, val);
            },
            Region::ScspRam => {
                self.write_sound_ram16(addr - SCSP_RAM_BASE, val);
            },
            Region::ScspRegs => {
                self.write_sound16(addr - SCSP_REGS_BASE, val);
            },
            Region::AbusBbus => {
                self.abus_bbus.write16(addr - ABUS_BBUS_BASE, val);
            },
            Region::HighWram => {
                self.high_wram.write16(addr - HIGH_WRAM_BASE, val);
            },
            Region::SlaveFti => {
                self.slave_input_capture = true;
            },
            Region::MasterFti => {
                self.master_input_capture = true;
            },
            _ => {},
        }
    }

    /// Writes 16 bits; gives the stall. What is for the SMPC or a graphics chip goes
    /// there outside.
    pub fn write16(&mut self, addr: u32, val: u16, kind: AccessKind, draw: u32) -> (r: u32)
        requires
            old(self)@.wf(),
        ensures
            ({
                let m = old(self)@.watched(addr, val as u32).written16(addr, val);
                r == m.stalls(addr, 2, true, kind, draw) && final(self)@ == m.done(
                    addr,
                    2,
                    true,
                    kind,
                    draw,
                )
            }),
            final(self)@.wf(),
            rest_kept(*old(self), *final(self)),
    {
        self.note_write(addr, val as u32);
        self.device_write16(addr, val);
        self.charge(addr, 2, true, kind, draw)
    }

    fn device_write32(&mut self, addr: u32, val: u32)
        requires
            old(self)@.wf(),
        ensures
            final(self)@ == old(self)@.written32(addr, val),
            final(self)@.wf(),
            rest_kept(*old(self), *final(self)),
    {
        match Region::at(addr) {
            Region::Bios => {
                self.bios.write_ignored();
            },
            Region::Backup => {
                self.backup.write32(addr - BACKUP_BASE, val);
            },
            Region::LowWram => {
                self.low_wram.write32(addr - LOW_WRAM_BASE, val);
            },
            Region::Sound => {
                self.sound.write32(addr - SOUND_BASE, val);
            },
            Region::Cartridge => {
                self.cartridge.write32(addr, val);
            },
            Region::CdBlock => {
                self.write_cd32(addr - CD_BLOCK_BASE, val);
            },
            Region::Scu => {
                self.write_scu32(addr - SCU_BASE, val);
            },
            Region::ScspRam => {
                self.write_sound_ram32(addr - SCSP_RAM_BASE, val);
            },
            Region::ScspRegs => {
                self.write_sound32(addr - SCSP_REGS_BASE, val);
            },
            Region::AbusBbus => {
                self.abus_bbus.write32(addr - ABUS_BBUS_BASE, val);
            },
            Region::HighWram => {
                self.high_wram.write32(addr - HIGH_WRAM_BASE, val);
            },
            Region::SlaveFti => {
                self.slave_input_capture = true;
            },
            Region::MasterFti => {
                self.master_input_capture = true;
            },
            _ => {},
        }
    }

    /// Writes 32 bits; gives the stall. What is for the SMPC or a graphics chip goes
    /// there outside.
    pub fn write32(&mut self, addr: u32, val: u32, kind: AccessKind, draw: u32) -> (r: u32)
        requires
            old(self)@.wf(),
        ensures
            ({
                let m = old(self)@.watched(addr, val).written32(addr, val);
                r == m.stalls(addr, 4, true, kind, draw) && final(self)@ == m.done(
                    addr,
                    4,
                    true,
                    kind,
                    draw,
                )
            }),
            final(self)@.wf(),
            rest_kept(*old(self), *final(self)),
    {
        self.note_write(addr, val);
        self.device_write32(addr, val);
        self.charge(addr, 4, true, kind, draw)
    }
}

// ---- logging ----------------------------------------------------------------------

/// An address of the high work RAM without its mirrors.
pub open spec fn unmirrored(a: u32) -> int {
    if HIGH_WRAM_BASE <= a <= HIGH_WRAM_END {
        HIGH_WRAM_BASE + (a - HIGH_WRAM_BASE) % 0x10_0000
    } else {
        a as int
    }
}

fn unmirror(a: u32) -> (r: u32)
    ensures
        r == unmirrored(a),
{
    if HIGH_WRAM_BASE <= a && a <= HIGH_WRAM_END {
        HIGH_WRAM_BASE + (a - HIGH_WRAM_BASE) % 0x10_0000
    } else {
        a
    }
}

/// Whether a write of `size` bytes is to be logged by a watch of an address, within
/// a window around it.
pub fn write_is_watched(target: u32, window: u32, addr: u32, size: u32) -> (r: bool)
    ensures
        ({
            let (f, t) = (unmirrored(addr) as u32, unmirrored(target) as u32);
            let low: int = if t > window {
                t - window
            } else {
                0
            };
            let wide: u32 = if window > 1 {
                window
            } else {
                1
            };
            r == (f.wrapping_add(size) > low && f < t.wrapping_add(wide))
        }),
{
    let f: u32 = unmirror(addr);
    let t: u32 = unmirror(target);
    let wide: u32 = if window > 1 {
        window
    } else {
        1
    };
    f.wrapping_add(size) > t.saturating_sub(window) && f < t.wrapping_add(wide)
}

/// Whether a read of `size` bytes is to be logged by a watch of a window.
pub fn read_is_watched(target: u32, window: u32, addr: u32, size: u32) -> (r: bool)
    ensures
        ({
            let wide: u32 = if window > 1 {
                window
            } else {
                1
            };
            r == (addr.wrapping_add(size) > target && addr < target.wrapping_add(wide))
        }),
{
    let wide: u32 = if window > 1 {
        window
    } else {
        1
    };
    addr.wrapping_add(size) > target && addr < target.wrapping_add(wide)
}

// ---- laws -------------------------------------------------------------------------

/// What is written to work RAM is read back there, whatever the width.
pub proof fn work_ram_is_read_back(m: Machine, addr: u32, a: u8, b: u16, c: u32, x: u32)
    requires
        m.wf(),
        Region::of(addr) is LowWram || Region::of(addr) is HighWram,
    ensures
        m.written8(addr, a).answer8(addr, x as u8) == a,
        m.written16(addr, b).answer16(addr, x as u16) == b,
        m.written32(addr, c).answer32(addr, x) == c,
{
    if Region::of(addr) is LowWram {
        word_is_read_back(m.low, offset(addr, LOW_WRAM_BASE), b);
        long_is_read_back(m.low, offset(addr, LOW_WRAM_BASE), c);
    } else {
        word_is_read_back(m.high, offset(addr, HIGH_WRAM_BASE), b);
        long_is_read_back(m.high, offset(addr, HIGH_WRAM_BASE), c);
    }
}

/// The high work RAM answers the same a mebibyte further on.
pub proof fn high_work_ram_mirrors(m: Machine, addr: u32, x: u8)
    requires
        m.wf(),
        Region::of(addr) is HighWram,
        addr + 0x10_0000 <= HIGH_WRAM_END,
    ensures
        m.answer8((addr + 0x10_0000) as u32, x) == m.answer8(addr, x),
{
}

/// Nothing is at an open address: it reads 0, and ignores writes. ROM ignores them,
/// too.
pub proof fn open_addresses_are_dead(m: Machine, addr: u32, a: u8, b: u16, c: u32)
    ensures
        Region::of(addr) is Open ==> m.answer8(addr, a) == 0 && m.answer16(addr, b) == 0
            && m.answer32(addr, c) == 0 && m.read8(addr) == m && m.read32(addr) == m,
        Region::of(addr) is Open || Region::of(addr) is Bios ==> m.written8(addr, a) == m
            && m.written16(addr, b) == m && m.written32(addr, c) == m,
{
}

/// A write of any width triggers the input capture of the CPU that its address is
/// for, and of no other.
pub proof fn triggers_pend_at_any_width(m: Machine, addr: u32, a: u8, b: u16, c: u32)
    ensures
        Region::of(addr) is SlaveFti ==> m.written8(addr, a) == m.triggered(addr) && m.written16(
            addr,
            b,
        ) == m.triggered(addr) && m.written32(addr, c) == m.triggered(addr) && m.triggered(
            addr,
        ).notes.slave_input_capture && m.triggered(addr).notes.master_input_capture
            == m.notes.master_input_capture,
        Region::of(addr) is MasterFti ==> m.written8(addr, a) == m.triggered(addr) && m.written16(
            addr,
            b,
        ) == m.triggered(addr) && m.written32(addr, c) == m.triggered(addr) && m.triggered(
            addr,
        ).notes.master_input_capture && m.triggered(addr).notes.slave_input_capture
            == m.notes.slave_input_capture,
{
}

/// A watchpoint that has met a write keeps it.
pub proof fn first_watched_write_stays(m: Machine, addr: u32, val: u32)
    ensures
        m.notes.watch_hit is Some ==> m.watched(addr, val) == m,
        m.watched(addr, val).notes.watch == m.notes.watch,
{
}

} // verus!
