//! The sound system.
//!
//! Sound RAM, a generator of 32 voices with envelopes and low-frequency
//! oscillators, an effect processor, three timers, and the bus of the sound CPU,
//! which is hosted outside. A native driver can take the place of its program.

pub mod chip;
pub mod ctrl;
pub mod dsp;
pub mod hle;
pub mod laws;
pub mod mixer_laws;
pub mod probes;
pub mod tables;
pub mod timer;
pub mod voice;

pub use chip::{Scsp, SCSP_CLOCK_HZ, SCSP_SAMPLE_HZ, SOUND_RAM_BYTES};
pub use ctrl::{ScspCtrl, SlotDebug, NUM_SLOTS, REG_BYTES};
pub use probes::{M68kBpHit, ScopeCap};
