//! The CD-block: host command interface at `0x0589_0000..=0x0589_FFFF`, sector
//! buffer, filters and partitions, drive-phase machine, and the ISO 9660
//! directory reader.
//!
//! Register layout (offsets relative to [`CD_BLOCK_BASE`]). Each 16-bit
//! register occupies a 4-byte slot; a 16-bit access to either halfword of the
//! slot hits the same register.
//!
//! ```text
//!   0x0008  HIRQ        host interrupt status   (a written 0 bit clears)
//!   0x000C  HIRQ_MASK   host interrupt mask
//!   0x0018  CR1         command/response register 1
//!   0x001C  CR2         command/response register 2
//!   0x0020  CR3         command/response register 3
//!   0x0024  CR4         command/response register 4
//!   0x8000  DATA        data-transfer port
//! ```
//!
//! On power-on the block presents the ASCII identity `"CDBLOCK"` in CR1..CR4.
//! A command runs once the host has written all four of CR1..CR4; the response
//! replaces them.

use vstd::prelude::*;
use crate::disc::{Disc, SectorSource};
use self::buffers::SectorBuffers;
use self::files::Directory;
use self::port::{CdAudio, DataPort};

pub mod blind;
pub mod buffers;
pub mod command_laws;
pub mod commands;
pub mod drive;
pub mod drive_laws;
pub mod files;
pub mod host;
pub mod laws;
pub mod model;
pub mod port;
pub mod register_laws;

verus! {

pub const CD_BLOCK_BASE: u32 = 0x0589_0000;

pub const CD_BLOCK_END: u32 = 0x0589_FFFF;

/// Offset of the data-transfer port within the region.
pub const DATA_FIFO: u32 = 0x8000;

/// HIRQ: command done, ready for the next.
pub const HIRQ_CMOK: u16 = 0x0001;

/// HIRQ: data transfer ready.
pub const HIRQ_DRDY: u16 = 0x0002;

/// HIRQ: one sector read.
pub const HIRQ_CSCT: u16 = 0x0004;

/// HIRQ: sector buffer full.
pub const HIRQ_BFUL: u16 = 0x0008;

/// HIRQ: playback / read range completed.
pub const HIRQ_PEND: u16 = 0x0010;

/// HIRQ: disc change / tray open.
pub const HIRQ_DCHG: u16 = 0x0020;

/// HIRQ: soft reset / selector settings done.
pub const HIRQ_ESEL: u16 = 0x0040;

/// HIRQ: host I/O done.
pub const HIRQ_EHST: u16 = 0x0080;

/// HIRQ: end of copy/move (also set at reset).
pub const HIRQ_ECPY: u16 = 0x0100;

/// HIRQ: file-system processing complete.
pub const HIRQ_EFLS: u16 = 0x0200;

/// HIRQ: subcode Q decoded.
pub const HIRQ_SCDQ: u16 = 0x0400;

/// HIRQ: no MPEG card. Set from power-on and never cleared.
pub const HIRQ_MPED: u16 = 0x0800;

/// Status: command accepted, drive in transition.
pub const STAT_BUSY: u8 = 0x00;

/// Status: drive ready, disc present, not playing.
pub const STAT_PAUSE: u8 = 0x01;

/// Status: drive stopped.
pub const STAT_STANDBY: u8 = 0x02;

/// Status: reading or playing.
pub const STAT_PLAY: u8 = 0x03;

/// Status: seeking.
pub const STAT_SEEK: u8 = 0x04;

/// Status: door closed, no disc present.
pub const STAT_NODISC: u8 = 0x07;

/// Status flag of unsolicited (periodic) reports.
pub const STAT_PERI: u8 = 0x20;

/// CR1 flag: data-transfer request pending.
pub const STAT_TRANS: u16 = 0x4000;

/// CR1 marker of a rejected request.
pub const STAT_REJECT: u16 = 0xFF00;

/// Sectors in the shared buffer pool.
pub const MAX_BLOCKS: usize = 200;

/// Number of filters, and of partitions.
pub const MAX_FILTERS: usize = 24;

/// "No filter": the drive is disconnected.
pub const NO_FILTER: u8 = 0xFF;

/// SH-2 master clock (Hz).
pub const MASTER_HZ: u64 = 28_636_400;

/// The CD-block's own clock, 44.1 kHz x 256, in which the drive's timers are
/// specified.
pub const CD_CLOCK_HZ: u64 = 11_289_600;

/// Master cycles between periodic reports with no disc inserted (16.67 ms).
pub const PERIODIC_CYCLES: u64 = 477_273;

/// Master cycles between periodic reports while the drive reads.
pub const ACTIVE_PERIODIC_CYCLES: u64 = 44_927;

/// Delay before a commanded seek begins: 500 CD clocks.
pub const SEEK_CPI_DELAY_CYC: u64 = 1_268;

/// Pickup settle before the radial seek: 256000 CD clocks.
pub const SEEKSTART2_CYC: u64 = 649_351;

/// Periodic-report interval of an idle drive: 187065 CD clocks.
pub const PERIODIC_IDLE_CYC: i64 = 474_495;

/// Periodic-report interval of a reading drive: 17712 CD clocks.
pub const PERIODIC_ACTIVE_CYC: i64 = 44_927;

/// Recognition spin-up of a disc that was just inserted: one second.
pub const STARTUP_CYC: i64 = 28_636_400;

/// The fixed part of a seek: 12/150 of a second.
pub const SEEK_BASE_CYC: u64 = 2_290_912;

/// Most CD-DA samples buffered: five seconds of stereo.
pub const CD_AUDIO_CAP: usize = 441_000;

/// CD-DA samples that must be buffered before playback starts.
pub const CD_AUDIO_PREROLL: usize = 44_100;

/// [`CdBlock::hirq_log`] cause: the drive changed HIRQ.
pub const HIRQ_CAUSE_READPUMP: u32 = 0x100;

/// [`CdBlock::hirq_log`] cause: the host's write changed HIRQ.
pub const HIRQ_CAUSE_W1C: u32 = 0x101;

/// `n` CD clocks in master cycles.
pub open spec fn cd2m_spec(n: int) -> int {
    n * MASTER_HZ / (CD_CLOCK_HZ as int)
}

/// Converts a count of CD clocks to master cycles, rounding down.
pub fn cd2m(n: u64) -> (r: u64)
    requires
        n * MASTER_HZ <= u64::MAX,
    ensures
        r == cd2m_spec(n as int),
{
    n * MASTER_HZ / CD_CLOCK_HZ
}

/// The drive's operating phase.
#[derive(Clone, Copy, Debug, PartialEq, Eq, Structural)]
pub enum DrivePhase {
    /// Idle or stopped.
    Idle,
    /// Recognition spin-up after a disc was inserted.
    Startup,
    /// A seek was commanded; its target is about to be resolved.
    SeekStart,
    /// The pickup moves to the target FAD.
    Seek,
    /// Reading or playing the commanded range.
    Play,
    /// The range is complete, or the buffer is full.
    Pause,
    /// The pickup settles before the radial seek.
    SeekSettle,
}

/// One [`CdBlock::cmd_log`] entry: a host command and its outcome.
#[derive(Clone, Copy, Debug)]
pub struct CmdTrace {
    /// Program counter that completed the command.
    pub caller_pc: u32,
    pub cmd: u8,
    pub cr_in: [u16; 4],
    pub cr_out: [u16; 4],
    pub hirq_in: u16,
    pub hirq_out: u16,
    pub status: u8,
}

/// The command handshake with the host.
#[derive(Clone, Copy, Debug, PartialEq, Eq, Structural)]
pub struct Handshake {
    /// A command's response is still unread; no periodic report may replace it.
    pub command_pending: bool,
    /// Which of CR1..CR4 the host has written since the last command (bits
    /// 0..3).
    pub cr_written: u8,
    /// The host has issued its first command.
    pub host_initialized: bool,
    /// A disc change the host has not acknowledged yet.
    pub disk_changed: bool,
}

/// The drive status and head position that reports carry.
#[derive(Clone, Copy, Debug, PartialEq, Eq, Structural)]
pub struct Position {
    /// Status code, high byte of CR1 in a report.
    pub status: u8,
    /// Repeat count, low bits of CR1 in a report.
    pub repcnt: u8,
    pub ctrladdr: u8,
    pub track: u8,
    pub index: u8,
    /// FAD reported while no disc is inserted.
    pub fad: u32,
    /// The sector read last was a data sector.
    pub is_cdrom: bool,
    /// FAD of the head.
    pub cd_curfad: u32,
}

/// The drive-phase machine.
#[derive(Clone, Copy, Debug, PartialEq, Eq, Structural)]
pub struct Drive {
    pub phase: DrivePhase,
    /// Master cycles to the next step of the phase machine.
    pub counter: i64,
    /// Master cycles to the next periodic report.
    pub periodic_idle: i64,
    /// Master cycles towards the next periodic report, with no disc inserted.
    pub periodic_accum: u64,
    /// FAD the drive reads next.
    pub sector: u32,
    /// Start of the play range (bit 23 = FAD addressing).
    pub play_start: u32,
    /// End of the play range.
    pub play_end: u32,
    /// Commanded repeat count.
    pub play_repeat: u8,
    /// Repeats so far (bit 7: no sector read since the last repeat).
    pub repeat_counter: u8,
    /// HIRQ bits to raise when the range completes.
    pub end_irq: u16,
    /// Sequences the end of a range: 0, 1, then -1.
    pub pause_counter: i32,
    /// FAD of the sector read ahead.
    pub pre_fad: u32,
    /// A sector has been read ahead.
    pub pre_in: bool,
    /// It is an audio sector.
    pub pre_audio: bool,
    /// A sector was processed since the status was last refreshed.
    pub processed: bool,
    /// Sectors left to read; negative means idle.
    pub fadstoplay: i64,
    /// Read speed, 1x or 2x.
    pub speed: u32,
}

/// The CD-block, reading from a medium of type `S`.
#[derive(Debug)]
pub struct CdBlock<S: SectorSource = Disc> {
    pub hirq: u16,
    pub hirq_mask: u16,
    pub cr1: u16,
    pub cr2: u16,
    pub cr3: u16,
    pub cr4: u16,
    pub link: Handshake,
    pub pos: Position,
    pub port: DataPort,
    pub buf: SectorBuffers,
    pub drive: Drive,
    pub audio: CdAudio,
    pub files: Directory,
    /// Command history, newest last.
    pub cmd_log: Vec<CmdTrace>,
    pub cmd_log_on: bool,
    /// Program counter of the in-flight command.
    pub caller_pc: u32,
    /// HIRQ changes `(before, after, cause)`.
    pub hirq_log: Vec<(u16, u16, u32)>,
    pub hirq_log_on: bool,
    /// HIRQ at the last logged change.
    pub last_hirq: u16,
    /// The inserted disc.
    pub disc: Option<S>,
}

} // verus!
