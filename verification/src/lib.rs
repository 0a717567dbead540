//! Verified core of a SEGA Saturn emulator: the memory map and the devices on it,
//! disc images, the scheduler, save states and self-diagnostics.
//!
//! The CPUs, the SMPC and the graphics chips are hosted outside.

pub mod bios_hle;
pub mod bits;
pub mod bus;
pub mod cartridge;
pub mod cd_block;
pub mod chd_image;
pub mod diagnostics;
pub mod disc;
pub mod memory;
pub mod savestate;
pub mod scheduler;
pub mod scsp;
pub mod scu;
pub mod sheet;
pub mod text;

pub use bus::SaturnBus;
pub use cartridge::Cartridge;
pub use cd_block::CdBlock;
pub use memory::{BiosRom, Ram, StubRegisterBank};
pub use savestate::SaveStateError;
pub use scheduler::{CdBlockEntity, EntityId, SaturnEntity, SchedEntity, Scheduler, Sh2Entity};
pub use scsp::Scsp;
pub use scu::{DmaRequest, Scu, Source as ScuSource};
