//! The host interface: registers, data port, and what is done with discs.

use vstd::prelude::*;
use std::collections::VecDeque;
use crate::disc::{Disc, Media, SectorSource, TrackInfo, FAD_OFFSET};
use super::buffers::{
    blocks_view, partitions_view, pool_is_free, Block, BlockView, Buffers, Filter, Partition,
    SectorBuffers,
};
use super::files::{DirEntry, DirView, Directory, Files};
use super::model::{media_of, CdState, Host, Logs};
use super::port::{Audio, CdAudio, DataPort, Port, Xfer32};
use super::{
    CdBlock, Drive, DrivePhase, Handshake, Position, ACTIVE_PERIODIC_CYCLES, DATA_FIFO, HIRQ_BFUL,
    HIRQ_CAUSE_READPUMP, HIRQ_CAUSE_W1C, HIRQ_CMOK, HIRQ_CSCT, HIRQ_DCHG, HIRQ_ECPY, HIRQ_EFLS,
    HIRQ_EHST, HIRQ_ESEL, HIRQ_MPED, HIRQ_PEND, MAX_BLOCKS, MAX_FILTERS, NO_FILTER,
    PERIODIC_CYCLES, PERIODIC_IDLE_CYC, STAT_BUSY, STAT_NODISC, STAT_PAUSE, STAT_PERI, STAT_PLAY,
    STAT_SEEK,
};

verus! {

/// Whether an offset lies in the data-transfer port.
pub open spec fn in_fifo(offset: u32) -> bool {
    offset & 0xFFFF >= DATA_FIFO
}

/// The register slot of an offset: both halfwords of four bytes are one
/// register.
pub open spec fn slot_of(offset: u32) -> u32 {
    (offset & 0xFFFF) & 0xFFFC
}

/// The byte at `o`, 0 past the end.
pub open spec fn byte_at(d: Seq<u8>, o: int) -> u8 {
    if o < d.len() {
        d[o]
    } else {
        0
    }
}

/// The four bytes from `o` on, high byte first.
pub open spec fn long_of(d: Seq<u8>, o: int) -> u32 {
    ((byte_at(d, o) as u32) << 24) | ((byte_at(d, o + 1) as u32) << 16) | ((byte_at(d, o + 2)
        as u32) << 8) | byte_at(d, o + 3) as u32
}

impl Port {
    /// A port with nothing staged.
    pub open spec fn idle() -> Port {
        Port {
            xfer: Seq::empty(),
            xfer_pos: 0,
            xfer_done: 0,
            transfer_request: false,
            xfer32: None,
        }
    }
}

impl Buffers {
    /// Buffers with every slot free and the drive connected to no filter.
    pub open spec fn empty() -> Buffers {
        Buffers {
            blocks: Seq::new(MAX_BLOCKS as nat, |i: int| BlockView::free()),
            free_blocks: MAX_BLOCKS as i32,
            buf_full: false,
            filters: Seq::new(MAX_FILTERS as nat, |i: int| Filter::zero()),
            partitions: Seq::new(MAX_FILTERS as nat, |i: int| Seq::<usize>::empty()),
            cd_device_filter: NO_FILTER,
            last_buffer: NO_FILTER,
            sectlenin: 2048,
            sectlenout: 2048,
            calcsize: 0,
            sectorstore: false,
            curblock: BlockView::free(),
            curblock_mode2: false,
        }
    }
}

impl Drive {
    /// The drive at power-on.
    pub open spec fn stopped() -> Drive {
        Drive {
            phase: DrivePhase::Idle,
            counter: 0,
            periodic_idle: PERIODIC_IDLE_CYC,
            periodic_accum: 0,
            sector: FAD_OFFSET,
            play_start: 0,
            play_end: 0,
            play_repeat: 0,
            repeat_counter: 0,
            end_irq: 0,
            pause_counter: 0,
            pre_fad: FAD_OFFSET,
            pre_in: false,
            pre_audio: false,
            processed: false,
            fadstoplay: (-1) as i64,
            speed: 2,
        }
    }
}

impl CdState {
    /// The block at power-on: no disc, the identity string in CR1..CR4, and
    /// nothing but MPED in HIRQ.
    pub open spec fn power_on() -> CdState {
        CdState {
            host: Host {
                hirq: HIRQ_MPED,
                hirq_mask: 0xFFFF,
                cr1: 0x0043,
                cr2: 0x4442,
                cr3: 0x4C4F,
                cr4: 0x434B,
                link: Handshake {
                    command_pending: false,
                    cr_written: 0,
                    host_initialized: false,
                    disk_changed: true,
                },
            },
            pos: Position {
                status: STAT_NODISC,
                repcnt: 0,
                ctrladdr: 0,
                track: 0,
                index: 0,
                fad: 0,
                is_cdrom: false,
                cd_curfad: FAD_OFFSET,
            },
            port: Port::idle(),
            buf: Buffers::empty(),
            drive: Drive::stopped(),
            audio: Audio { fifo: Seq::empty(), primed: false },
            files: Files { root: DirView::zero(), dir: Seq::empty(), numfiles: 0, firstfile: 0 },
            logs: Logs {
                cmd_log: Seq::empty(),
                cmd_log_on: false,
                caller_pc: 0,
                hirq_log: Seq::empty(),
                hirq_log_on: false,
                last_hirq: HIRQ_MPED,
            },
            disc: None,
        }
    }

    /// A disc is inserted: the drive spins up at the start of the first track. A
    /// disc change is flagged once the host has engaged the block; before that the
    /// disc is simply there.
    pub open spec fn disc_inserted(self, m: Media) -> CdState {
        CdState {
            pos: Position {
                ctrladdr: match m.track_at(FAD_OFFSET) {
                    Some(t) => t.ctrl_addr,
                    None => 0x41,
                },
                track: m.first,
                index: 1,
                fad: FAD_OFFSET,
                status: STAT_BUSY,
                is_cdrom: false,
                cd_curfad: FAD_OFFSET,
                ..self.pos
            },
            drive: Drive { sector: FAD_OFFSET, ..self.drive.spinning_up() },
            host: Host {
                hirq: (HIRQ_CMOK | HIRQ_ESEL | HIRQ_EHST | HIRQ_MPED | HIRQ_ECPY | HIRQ_EFLS)
                    | if self.host.link.host_initialized {
                    HIRQ_DCHG
                } else {
                    0
                },
                link: Handshake { disk_changed: true, ..self.host.link },
                ..self.host
            },
            disc: Some(m),
            ..self
        }
    }

    /// The disc is ejected: no disc, no geometry, and a disc change is flagged.
    pub open spec fn ejected(self) -> CdState {
        CdState {
            pos: Position {
                status: STAT_NODISC,
                ctrladdr: 0,
                track: 0,
                index: 0,
                fad: 0,
                ..self.pos
            },
            drive: self.drive.parked(),
            host: Host {
                hirq: self.host.hirq | HIRQ_DCHG,
                link: Handshake { disk_changed: true, ..self.host.link },
                ..self.host
            },
            disc: None,
            ..self
        }
    }

    // ---- register access -----------------------------------------------------

    /// What a 16-bit read at `offset` returns.
    pub open spec fn word_at(self, offset: u32) -> u16 {
        let slot = slot_of(offset);
        if in_fifo(offset) {
            self.port.fifo_word()
        } else if slot == 0x0008 {
            self.host.hirq & !HIRQ_BFUL
        } else if slot == 0x000C {
            self.host.hirq_mask
        } else if slot == 0x0018 {
            self.host.cr1
        } else if slot == 0x001C {
            self.host.cr2
        } else if slot == 0x0020 {
            self.host.cr3
        } else if slot == 0x0024 {
            self.host.cr4
        } else {
            0
        }
    }

    /// The state after a 16-bit read: the port moves on, a read of HIRQ clears
    /// BFUL, and a read of CR4 consumes the command's response.
    pub open spec fn word_read(self, offset: u32) -> CdState {
        let slot = slot_of(offset);
        if in_fifo(offset) {
            CdState { port: self.port.fifo_read(), ..self }
        } else if slot == 0x0008 {
            CdState { host: Host { hirq: self.host.hirq & !HIRQ_BFUL, ..self.host }, ..self }
        } else if slot == 0x0024 {
            CdState {
                host: Host {
                    link: Handshake { command_pending: false, ..self.host.link },
                    ..self.host
                },
                ..self
            }
        } else {
            self
        }
    }

    /// HIRQ after the host wrote `val`: a 0 bit clears, MPED stays. Clearing
    /// DCHG acknowledges the disc change.
    pub open spec fn hirq_written(self, val: u16) -> CdState {
        CdState {
            host: Host {
                hirq: (self.host.hirq & val) | HIRQ_MPED,
                link: Handshake {
                    disk_changed: if self.host.hirq & HIRQ_DCHG != 0 && val & HIRQ_DCHG == 0 {
                        false
                    } else {
                        self.host.link.disk_changed
                    },
                    ..self.host.link
                },
                ..self.host
            },
            ..self
        }.hirq_noted(HIRQ_CAUSE_W1C)
    }

    /// The state with the CRs marked `bit` as written.
    pub open spec fn cr_marked(self, bit: u8) -> CdState {
        CdState {
            host: Host {
                link: Handshake { cr_written: self.host.link.cr_written | bit, ..self.host.link },
                ..self.host
            },
            ..self
        }
    }

    /// CR4 is written; the command runs once all four CRs have been.
    pub open spec fn cr4_written(self, val: u16) -> CdState {
        let s = CdState { host: Host { cr4: val, ..self.host }, ..self }.cr_marked(8);
        if s.host.link.cr_written == 0x0F {
            CdState {
                host: Host { link: Handshake { cr_written: 0, ..s.host.link }, ..s.host },
                ..s
            }.executed()
        } else {
            s
        }
    }

    /// The state after a 16-bit write.
    pub open spec fn word_written(self, offset: u32, val: u16) -> CdState {
        let slot = slot_of(offset);
        if in_fifo(offset) {
            self
        } else if slot == 0x0008 {
            self.hirq_written(val)
        } else if slot == 0x000C {
            CdState { host: Host { hirq_mask: val, ..self.host }, ..self }
        } else if slot == 0x0018 {
            CdState {
                host: Host { cr1: val, ..self.host },
                ..self
            }.with_status(self.pos.status & !STAT_PERI).cr_marked(1)
        } else if slot == 0x001C {
            CdState { host: Host { cr2: val, ..self.host }, ..self }.cr_marked(2)
        } else if slot == 0x0020 {
            CdState { host: Host { cr3: val, ..self.host }, ..self }.cr_marked(4)
        } else if slot == 0x0024 {
            self.cr4_written(val)
        } else {
            self
        }
    }

    /// The word with one byte replaced, the high one at an even offset.
    pub open spec fn byte_merged(cur: u16, offset: u32, val: u8) -> u16 {
        if offset & 1 == 0 {
            (cur & 0x00FF) | ((val as u16) << 8)
        } else {
            (cur & 0xFF00) | val as u16
        }
    }

    // ---- the data port ---------------------------------------------------------

    /// The armed transfer's next sector is still in its partition.
    pub open spec fn transfer_ready(self) -> bool {
        self.port.xfer32 matches Some(x) ==> x.sect < x.num ==> x.pos + x.sect
            < self.buf.partitions[x.part as int].len()
    }

    /// The sector that the armed transfer `x` reads.
    pub open spec fn transfer_sector(self, x: Xfer32) -> BlockView {
        self.buf.blocks[self.buf.partitions[x.part as int][x.pos + x.sect] as int]
    }

    /// What a 32-bit read of the data port returns: the next four bytes of the
    /// transfer's sectors, all ones at their end; with no transfer armed, the
    /// next two staged words.
    pub open spec fn port_word(self) -> u32 {
        match self.port.xfer32 {
            None => ((self.port.fifo_word() as u32) << 16)
                | self.port.fifo_read().fifo_word() as u32,
            Some(x) => if x.sect >= x.num {
                0xFFFF_FFFF
            } else {
                long_of(self.transfer_sector(x).data, x.offs as int)
            },
        }
    }

    /// The transfer after four bytes were read.
    pub open spec fn transfer_advanced(self, x: Xfer32) -> Xfer32 {
        if x.offs + 4 >= self.transfer_sector(x).size {
            Xfer32 { offs: 0, sect: (x.sect + 1) as usize, ..x }
        } else {
            Xfer32 { offs: (x.offs + 4) as usize, ..x }
        }
    }

    /// The state after a 32-bit read of the data port. A transfer that deletes
    /// gives its sectors back when it is read past its end.
    pub open spec fn port_read(self) -> CdState {
        match self.port.xfer32 {
            None => CdState { port: self.port.fifo_read().fifo_read(), ..self },
            Some(x) => if x.sect >= x.num {
                let s = if x.delete {
                    self.deleted(x.part as int, x.pos as int, x.num as int)
                } else {
                    self
                };
                CdState { port: Port { xfer32: None, ..s.port }, ..s }
            } else {
                CdState {
                    port: Port {
                        xfer32: Some(self.transfer_advanced(x)),
                        xfer_done: self.port.xfer_done.wrapping_add(4),
                        ..self.port
                    },
                    ..self
                }
            },
        }
    }

    /// What a 32-bit read at `offset` returns.
    pub open spec fn long_at(self, offset: u32) -> u32 {
        if in_fifo(offset) {
            self.port_word()
        } else {
            ((self.word_at(offset) as u32) << 16) | self.word_read(offset).word_at(
                offset.wrapping_add(2),
            ) as u32
        }
    }

    /// The state after a 32-bit read at `offset`.
    pub open spec fn long_read(self, offset: u32) -> CdState {
        if in_fifo(offset) {
            self.port_read()
        } else {
            self.word_read(offset).word_read(offset.wrapping_add(2))
        }
    }

    // ---- direct reads ------------------------------------------------------------

    /// A play of `sectors` sectors from `fad` is commanded.
    pub open spec fn cdda_played(self, fad: u32, sectors: u32) -> CdState {
        self.seek_commanded(
            0x80_0000 | fad,
            0x80_0000 | fad.wrapping_add(sectors),
            0,
            HIRQ_PEND,
            false,
        )
    }

    /// One sector of the range was read; the last one pauses the drive.
    pub open spec fn sector_counted(self, bits: u16) -> CdState {
        let left = (self.drive.fadstoplay - 1) as i64;
        let s = CdState {
            pos: Position { cd_curfad: (self.pos.cd_curfad + 1) as u32, ..self.pos },
            drive: Drive {
                fadstoplay: left,
                periodic_accum: (PERIODIC_CYCLES - ACTIVE_PERIODIC_CYCLES) as u64,
                ..self.drive
            },
            ..self
        }.raised(bits);
        if left == 0 {
            s.with_status(STAT_PAUSE).raised(HIRQ_PEND)
        } else {
            s
        }
    }

    /// The audio sector at the head is played.
    pub open spec fn audio_played(self) -> CdState {
        let s = CdState {
            pos: Position { is_cdrom: false, ..self.pos },
            ..self
        }.audio_read(self.pos.cd_curfad);
        if self.disc matches Some(m) && m.raw_at(self.pos.cd_curfad).len() == 2352 {
            s.sector_counted(0)
        } else {
            s
        }
    }

    /// The data sector at the head is read and filtered.
    pub open spec fn data_played(self) -> CdState {
        let fad = self.pos.cd_curfad;
        let s = CdState {
            pos: Position { is_cdrom: true, ..self.pos },
            ..self
        }.sector_read(fad);
        if self.buf.sector_kept(self.disc, fad) {
            let t = s.sector_counted(HIRQ_CSCT);
            CdState { buf: Buffers { sectorstore: true, ..t.buf }, ..t }
        } else {
            s
        }
    }

    /// A seeking drive starts to play; a playing one reads the sector at its
    /// head, if any are left.
    pub open spec fn data_pumped(self) -> CdState {
        let status = self.pos.status & !STAT_PERI;
        (if status == STAT_SEEK {
            self.with_status(STAT_PLAY | (self.pos.status & STAT_PERI))
        } else if status == STAT_PLAY && self.drive.fadstoplay > 0 {
            if self.track_at(self.pos.cd_curfad) matches Some(t) && t.is_audio {
                self.audio_played()
            } else {
                self.data_played()
            }
        } else {
            self
        }).hirq_noted(HIRQ_CAUSE_READPUMP)
    }
}

/// The first audio track from `fad` on, walking from track to track up to the
/// lead-out.
pub open spec fn first_audio(m: Media, fad: int) -> Option<TrackInfo>
    decreases
            if fad < m.lead_out {
                m.lead_out - fad
            } else {
                0
            },
{
    if fad >= m.lead_out || fad < 0 {
        None
    } else {
        match m.track_at(fad as u32) {
            None => None,
            Some(t) => if t.is_audio {
                Some(t)
            } else if t.start_fad + t.length > fad {
                first_audio(m, t.start_fad + t.length)
            } else {
                None
            },
        }
    }
}

impl SectorBuffers {
    /// Buffers with every slot free.
    pub fn new() -> (r: SectorBuffers)
        ensures
            r@ == Buffers::empty(),
            r@.wf(),
    {
        let mut blocks: Vec<Block> = Vec::new();
        let mut filters: Vec<Filter> = Vec::new();
        let mut partitions: Vec<Partition> = Vec::new();
        let mut i: usize = 0;
        while i < MAX_BLOCKS
            invariant
                i <= MAX_BLOCKS,
                blocks@.len() == i,
                forall|j: int| 0 <= j < i ==> (#[trigger] blocks@[j])@ == BlockView::free(),
            decreases MAX_BLOCKS - i,
        {
            blocks.push(Block::free());
            i += 1;
        }
        let mut k: usize = 0;
        while k < MAX_FILTERS
            invariant
                k <= MAX_FILTERS,
                filters@.len() == k,
                partitions@.len() == k,
                forall|j: int| 0 <= j < k ==> #[trigger] filters@[j] == Filter::zero(),
                forall|j: int|
                    0 <= j < k ==> (#[trigger] partitions@[j]).blocks@ == Seq::<usize>::empty(),
            decreases MAX_FILTERS - k,
        {
            filters.push(Filter::default());
            partitions.push(Partition { blocks: Vec::new() });
            k += 1;
        }
        proof {
            let e = Buffers::empty();
            assert(blocks_view(blocks@) =~= e.blocks);
            assert(filters@ =~= e.filters);
            assert(partitions_view(partitions@) =~= e.partitions);
            pool_is_free(e);
        }
        SectorBuffers {
            blocks,
            free_blocks: MAX_BLOCKS as i32,
            buf_full: false,
            filters,
            partitions,
            cd_device_filter: NO_FILTER,
            last_buffer: NO_FILTER,
            sectlenin: 2048,
            sectlenout: 2048,
            calcsize: 0,
            sectorstore: false,
            curblock: Block::free(),
            curblock_mode2: false,
        }
    }
}

impl CdBlock<Disc> {
    /// A CD-block at power-on, with no disc.
    pub fn new() -> (r: CdBlock<Disc>)
        ensures
            r@ == CdState::power_on(),
            r@.wf(),
    {
        CdBlock::powered_on()
    }
}

impl Default for CdBlock<Disc> {
    fn default() -> (r: CdBlock<Disc>)
        ensures
            r@ == CdState::power_on(),
            r@.wf(),
    {
        CdBlock::powered_on()
    }
}

impl<S: SectorSource> CdBlock<S> {
    /// A CD-block at power-on, for any kind of medium.
    pub fn powered_on() -> (r: CdBlock<S>)
        ensures
            r@ == CdState::power_on(),
            r@.wf(),
    {
        let root = DirEntry {
            firstfad: 0,
            length: 0,
            flags: 0,
            file_unit_size: 0,
            interleave_gap_size: 0,
            name: Vec::new(),
        };
        let r = CdBlock {
            hirq: HIRQ_MPED,
            hirq_mask: 0xFFFF,
            cr1: 0x0043,
            cr2: 0x4442,
            cr3: 0x4C4F,
            cr4: 0x434B,
            link: Handshake {
                command_pending: false,
                cr_written: 0,
                host_initialized: false,
                disk_changed: true,
            },
            pos: Position {
                status: STAT_NODISC,
                repcnt: 0,
                ctrladdr: 0,
                track: 0,
                index: 0,
                fad: 0,
                is_cdrom: false,
                cd_curfad: FAD_OFFSET,
            },
            port: DataPort {
                xfer: Vec::new(),
                xfer_pos: 0,
                xfer_done: 0,
                transfer_request: false,
                xfer32: None,
            },
            buf: SectorBuffers::new(),
            drive: Drive {
                phase: DrivePhase::Idle,
                counter: 0,
                periodic_idle: PERIODIC_IDLE_CYC,
                periodic_accum: 0,
                sector: FAD_OFFSET,
                play_start: 0,
                play_end: 0,
                play_repeat: 0,
                repeat_counter: 0,
                end_irq: 0,
                pause_counter: 0,
                pre_fad: FAD_OFFSET,
                pre_in: false,
                pre_audio: false,
                processed: false,
                fadstoplay: -1,
                speed: 2,
            },
            audio: CdAudio { fifo: VecDeque::new(), primed: false },
            files: Directory { root, dir: Vec::new(), numfiles: 0, firstfile: 0 },
            cmd_log: Vec::new(),
            cmd_log_on: false,
            caller_pc: 0,
            hirq_log: Vec::new(),
            hirq_log_on: false,
            last_hirq: HIRQ_MPED,
            disc: None,
        };
        proof {
            let e = CdState::power_on();
            assert(r.port@.xfer =~= e.port.xfer);
            assert(r.audio@.fifo =~= e.audio.fifo);
            assert(r.files@.dir =~= e.files.dir);
            assert(r.files@.root =~= e.files.root);
            assert(r.cmd_log@ =~= e.logs.cmd_log);
            assert(r.hirq_log@ =~= e.logs.hirq_log);
        }
        r
    }

    /// Whether the block asserts its interrupt: an unmasked HIRQ bit is set.
    pub fn irq_active(&self) -> (r: bool)
        ensures
            r == ((self@.host.hirq & self@.host.hirq_mask) != 0),
    {
        (self.hirq & self.hirq_mask) != 0
    }

    /// Whether the drive is still spinning up.
    pub fn dbg_in_startup(&self) -> (r: bool)
        ensures
            r == (self@.drive.phase == DrivePhase::Startup),
    {
        self.drive.phase == DrivePhase::Startup
    }

    /// Inserts (or replaces) a disc.
    pub fn insert_disc(&mut self, source: S)
        requires
            old(self)@.wf(),
        ensures
            final(self)@ == old(self)@.disc_inserted(source.media()),
            final(self)@.wf(),
            final(self).disc == Some(source),
    {
        self.pos.ctrladdr = match source.track_at_fad(FAD_OFFSET) {
            Some(t) => t.ctrl_addr,
            None => 0x41,
        };
        self.pos.track = source.first_track();
        self.pos.index = 1;
        self.pos.fad = FAD_OFFSET;
        self.pos.status = STAT_BUSY;
        self.pos.is_cdrom = false;
        self.disc = Some(source);
        self.pos.cd_curfad = FAD_OFFSET;
        self.drive.sector = FAD_OFFSET;
        self.drive.spin_up();
        self.link.disk_changed = true;
        let change: u16 = if self.link.host_initialized {
            HIRQ_DCHG
        } else {
            0
        };
        self.hirq =
        (HIRQ_CMOK | HIRQ_ESEL | HIRQ_EHST | HIRQ_MPED | HIRQ_ECPY | HIRQ_EFLS) | change;
    }

    /// Whether a disc is present.
    pub fn has_disc(&self) -> (r: bool)
        ensures
            r == (self@.disc is Some),
            r == (self.disc is Some),
    {
        self.disc.is_some()
    }

    /// Ejects the disc.
    pub fn eject(&mut self)
        requires
            old(self)@.wf(),
        ensures
            final(self)@ == old(self)@.ejected(),
            final(self)@.wf(),
            final(self).disc is None,
    {
        self.disc = None;
        self.drive.park();
        self.pos.status = STAT_NODISC;
        self.pos.ctrladdr = 0;
        self.pos.track = 0;
        self.pos.index = 0;
        self.pos.fad = 0;
        self.link.disk_changed = true;
        self.hirq |= HIRQ_DCHG;
    }

    /// The inserted disc.
    pub fn disc(&self) -> (r: Option<&S>)
        ensures
            r matches Some(d) ==> self.disc == Some(*d),
            r is None ==> self.disc is None,
    {
        match &self.disc {
            Some(d) => Some(d),
            None => None,
        }
    }

    /// Moves the disc out, leaving the rest of the state alone.
    pub fn take_disc(&mut self) -> (r: Option<S>)
        ensures
            r == old(self).disc,
            final(self).disc is None,
            final(self)@ == (CdState { disc: None, ..old(self)@ }),
    {
        self.disc.take()
    }

    /// Puts back a disc moved out by [`CdBlock::take_disc`], leaving the rest of
    /// the state alone.
    pub fn restore_disc(&mut self, disc: Option<S>)
        ensures
            final(self).disc == disc,
            final(self)@ == (CdState { disc: media_of(disc), ..old(self)@ }),
    {
        self.disc = disc;
    }

    // ---- register access -------------------------------------------------------

    /// The register slot of an offset within the region.
    pub fn slot(offset: u32) -> (r: u32)
        ensures
            r == offset & 0xFFFC,
    {
        offset & 0xFFFC
    }

    /// Reads a register, or a word of the data port.
    pub fn read16(&mut self, offset: u32) -> (r: u16)
        requires
            old(self)@.wf(),
        ensures
            r == old(self)@.word_at(offset),
            final(self)@ == old(self)@.word_read(offset),
            final(self)@.wf(),
            final(self).disc == old(self).disc,
    {
        if offset & 0xFFFF >= DATA_FIFO {
            return self.port.read_fifo16();
        }
        let slot: u32 = Self::slot(offset & 0xFFFF);
        if slot == 0x0008 {
            self.hirq &= !HIRQ_BFUL;
            self.hirq
        } else if slot == 0x000C {
            self.hirq_mask
        } else if slot == 0x0018 {
            self.cr1
        } else if slot == 0x001C {
            self.cr2
        } else if slot == 0x0020 {
            self.cr3
        } else if slot == 0x0024 {
            self.link.command_pending = false;
            self.cr4
        } else {
            0
        }
    }

    /// Writes HIRQ: a 0 bit clears.
    fn write_hirq(&mut self, val: u16)
        requires
            old(self)@.wf(),
        ensures
            final(self)@ == old(self)@.hirq_written(val),
            final(self)@.wf(),
            final(self).disc == old(self).disc,
    {
        if self.hirq & HIRQ_DCHG != 0 && val & HIRQ_DCHG == 0 {
            self.link.disk_changed = false;
        }
        self.hirq = (self.hirq & val) | HIRQ_MPED;
        proof {
            reveal(CdState::hirq_noted);
        }
        self.note_hirq(HIRQ_CAUSE_W1C);
    }

    /// Writes CR4, and runs the command once all four CRs are written.
    fn write_cr4(&mut self, val: u16)
        requires
            old(self)@.wf(),
        ensures
            final(self)@ == old(self)@.cr4_written(val),
            final(self)@.wf(),
            final(self).disc == old(self).disc,
    {
        self.cr4 = val;
        self.link.cr_written |= 8;
        if self.link.cr_written == 0x0F {
            self.link.cr_written = 0;
            self.execute();
        }
    }

    /// Writes a register; the data port ignores writes.
    pub fn write16(&mut self, offset: u32, val: u16)
        requires
            old(self)@.wf(),
        ensures
            final(self)@ == old(self)@.word_written(offset, val),
            final(self)@.wf(),
            final(self).disc == old(self).disc,
    {
        if offset & 0xFFFF >= DATA_FIFO {
            return ;
        }
        let slot: u32 = Self::slot(offset & 0xFFFF);
        if slot == 0x0008 {
            self.write_hirq(val);
        } else if slot == 0x000C {
            self.hirq_mask = val;
        } else if slot == 0x0018 {
            self.pos.status &= !STAT_PERI;
            self.cr1 = val;
            self.link.cr_written |= 1;
        } else if slot == 0x001C {
            self.cr2 = val;
            self.link.cr_written |= 2;
        } else if slot == 0x0020 {
            self.cr3 = val;
            self.link.cr_written |= 4;
        } else if slot == 0x0024 {
            self.write_cr4(val);
        }
    }

    /// Reads one byte of a register: the high one at an even offset.
    pub fn read8(&mut self, offset: u32) -> (r: u8)
        requires
            old(self)@.wf(),
        ensures
            r == (if offset & 1 == 0 {
                (old(self)@.word_at(offset & !1) >> 8) as u8
            } else {
                old(self)@.word_at(offset & !1) as u8
            }),
            final(self)@ == old(self)@.word_read(offset & !1),
            final(self)@.wf(),
            final(self).disc == old(self).disc,
    {
        let w: u16 = self.read16(offset & !1);
        if offset & 1 == 0 {
            (w >> 8) as u8
        } else {
            w as u8
        }
    }

    /// Writes one byte of a register, by reading and writing the whole of it.
    pub fn write8(&mut self, offset: u32, val: u8)
        requires
            old(self)@.wf(),
        ensures
            final(self)@ == old(self)@.word_read(offset & !1).word_written(
                offset & !1,
                CdState::byte_merged(old(self)@.word_at(offset & !1), offset, val),
            ),
            final(self)@.wf(),
            final(self).disc == old(self).disc,
    {
        let aligned: u32 = offset & !1;
        let cur: u16 = self.read16(aligned);
        let new: u16 = if offset & 1 == 0 {
            (cur & 0x00FF) | ((val as u16) << 8)
        } else {
            (cur & 0xFF00) | val as u16
        };
        self.write16(aligned, new);
    }

    /// Reads two register words, or a long of the data port.
    pub fn read32(&mut self, offset: u32) -> (r: u32)
        requires
            old(self)@.wf(),
            in_fifo(offset) ==> old(self)@.transfer_ready(),
        ensures
            r == old(self)@.long_at(offset),
            final(self)@ == old(self)@.long_read(offset),
            final(self)@.wf(),
            final(self).disc == old(self).disc,
    {
        if offset & 0xFFFF >= DATA_FIFO {
            return self.read_data_port32();
        }
        let hi: u16 = self.read16(offset);
        let lo: u16 = self.read16(offset.wrapping_add(2));
        ((hi as u32) << 16) | lo as u32
    }

    /// Writes two register words.
    pub fn write32(&mut self, offset: u32, val: u32)
        requires
            old(self)@.wf(),
        ensures
            final(self)@ == old(self)@.word_written(offset, (val >> 16) as u16).word_written(
                offset.wrapping_add(2),
                val as u16,
            ),
            final(self)@.wf(),
            final(self).disc == old(self).disc,
    {
        self.write16(offset, (val >> 16) as u16);
        self.write16(offset.wrapping_add(2), val as u16);
    }

    // ---- the data port -----------------------------------------------------------

    /// Reads the data port: one 32-bit word of the active sector-data transfer.
    pub fn read_data_port(&mut self) -> (r: u32)
        requires
            old(self)@.wf(),
            old(self)@.transfer_ready(),
        ensures
            r == old(self)@.port_word(),
            final(self)@ == old(self)@.port_read(),
            final(self)@.wf(),
            final(self).disc == old(self).disc,
    {
        self.read_data_port32()
    }

    /// Ends the transfer `x`, which was read past its end.
    fn finish_transfer(&mut self, x: Xfer32)
        requires
            old(self)@.wf(),
            old(self)@.port.xfer32 == Some(x),
            x.sect >= x.num,
        ensures
            final(self)@ == old(self)@.port_read(),
            final(self)@.wf(),
            final(self).disc == old(self).disc,
    {
        if x.delete {
            self.delete_sectors(x.part, x.pos, x.num);
        }
        self.port.xfer32 = None;
    }

    /// Four bytes of the sector that `x` reads, high byte first.
    fn peek_transfer(&self, x: Xfer32) -> (r: u32)
        requires
            self@.wf(),
            self@.port.xfer32 == Some(x),
            x.sect < x.num,
            self@.transfer_ready(),
        ensures
            r == self@.port_word(),
    {
        proof {
            self.buf.buffers_match();
            let i = x.pos + x.sect;
            assert(self@.buf.partitions[x.part as int][i] < MAX_BLOCKS);
        }
        let bi: usize = self.buf.partitions[x.part].blocks[x.pos + x.sect];
        let d = &self.buf.blocks[bi].data;
        let o: usize = x.offs;
        let b0: u8 = byte_or_zero(d, o);
        let b1: u8 = byte_or_zero(d, o + 1);
        let b2: u8 = byte_or_zero(d, o + 2);
        let b3: u8 = byte_or_zero(d, o + 3);
        ((b0 as u32) << 24) | ((b1 as u32) << 16) | ((b2 as u32) << 8) | b3 as u32
    }

    /// Moves the transfer `x` on by four bytes.
    fn advance_transfer(&mut self, x: Xfer32)
        requires
            old(self)@.wf(),
            old(self)@.port.xfer32 == Some(x),
            x.sect < x.num,
            old(self)@.transfer_ready(),
        ensures
            final(self)@ == old(self)@.port_read(),
            final(self)@.wf(),
            final(self).disc == old(self).disc,
    {
        proof {
            self.buf.buffers_match();
            let i = x.pos + x.sect;
            assert(self@.buf.partitions[x.part as int][i] < MAX_BLOCKS);
        }
        let bi: usize = self.buf.partitions[x.part].blocks[x.pos + x.sect];
        let size: i32 = self.buf.blocks[bi].size;
        let mut y: Xfer32 = x;
        if size < 0 || x.offs + 4 >= size as usize {
            y.offs = 0;
            y.sect = x.sect + 1;
        } else {
            y.offs = x.offs + 4;
        }
        self.port.xfer32 = Some(y);
        self.port.xfer_done = self.port.xfer_done.wrapping_add(4);
    }

    /// One 32-bit word of the active sector-data transfer; with none active, two
    /// words of the staged bytes.
    pub fn read_data_port32(&mut self) -> (r: u32)
        requires
            old(self)@.wf(),
            old(self)@.transfer_ready(),
        ensures
            r == old(self)@.port_word(),
            final(self)@ == old(self)@.port_read(),
            final(self)@.wf(),
            final(self).disc == old(self).disc,
    {
        match self.port.xfer32 {
            None => {
                let hi: u16 = self.port.read_fifo16();
                let lo: u16 = self.port.read_fifo16();
                ((hi as u32) << 16) | lo as u32
            },
            Some(x) => {
                if x.sect >= x.num {
                    self.finish_transfer(x);
                    0xFFFF_FFFF
                } else {
                    let r: u32 = self.peek_transfer(x);
                    self.advance_transfer(x);
                    r
                }
            },
        }
    }

    // ---- inspection and direct play ----------------------------------------------

    /// FAD of the head.
    pub fn curfad(&self) -> (r: u32)
        ensures
            r == self@.pos.cd_curfad,
    {
        self.pos.cd_curfad
    }

    /// Status code, head FAD, sectors left to play, free slots, and how many
    /// sectors each partition holds.
    pub fn debug_state(&self) -> (r: (u8, u32, i64, i32, Vec<usize>))
        ensures
            r.0 == self@.pos.status,
            r.1 == self@.pos.cd_curfad,
            r.2 == self@.drive.fadstoplay,
            r.3 == self@.buf.free_blocks,
            r.4@ == Seq::new(
                self@.buf.partitions.len(),
                |i: int| self@.buf.partitions[i].len() as usize,
            ),
    {
        let mut counts: Vec<usize> = Vec::new();
        let mut i: usize = 0;
        while i < self.buf.partitions.len()
            invariant
                i <= self.buf.partitions@.len(),
                counts@.len() == i,
                forall|j: int|
                    0 <= j < i ==> #[trigger] counts@[j] == self@.buf.partitions[j].len() as usize,
            decreases self.buf.partitions@.len() - i,
        {
            proof {
                self.buf.buffers_match();
            }
            counts.push(self.buf.partitions[i].blocks.len());
            i += 1;
        }
        proof {
            self.buf.buffers_match();
            assert(counts@ =~= Seq::new(
                self@.buf.partitions.len(),
                |i: int| self@.buf.partitions[i].len() as usize,
            ));
        }
        (self.pos.status, self.pos.cd_curfad, self.drive.fadstoplay, self.buf.free_blocks, counts)
    }

    /// Counts one sector of the range as read.
    fn count_sector(&mut self, bits: u16)
        requires
            old(self)@.wf(),
            old(self)@.pos.cd_curfad < u32::MAX,
            old(self)@.drive.fadstoplay > 0,
        ensures
            final(self)@ == old(self)@.sector_counted(bits),
            final(self)@.wf(),
            final(self).disc == old(self).disc,
    {
        self.pos.cd_curfad += 1;
        self.drive.fadstoplay -= 1;
        self.drive.periodic_accum = PERIODIC_CYCLES - ACTIVE_PERIODIC_CYCLES;
        self.hirq |= bits;
        if self.drive.fadstoplay == 0 {
            self.pos.status = STAT_PAUSE;
            self.hirq |= HIRQ_PEND;
        }
    }

    /// Plays the audio sector at the head.
    fn play_audio_sector(&mut self)
        requires
            old(self)@.wf(),
            old(self)@.pos.cd_curfad < u32::MAX,
            old(self)@.drive.fadstoplay > 0,
        ensures
            final(self)@ == old(self)@.audio_played(),
            final(self)@.wf(),
            final(self).disc == old(self).disc,
    {
        let fad: u32 = self.pos.cd_curfad;
        self.pos.is_cdrom = false;
        if self.read_cd_audio_sector(fad) {
            self.count_sector(0);
        }
    }

    /// Reads the data sector at the head through the connected filter.
    fn play_data_sector(&mut self)
        requires
            old(self)@.wf(),
            old(self)@.pos.cd_curfad < u32::MAX,
            old(self)@.drive.fadstoplay > 0,
        ensures
            final(self)@ == old(self)@.data_played(),
            final(self)@.wf(),
            final(self).disc == old(self).disc,
    {
        let fad: u32 = self.pos.cd_curfad;
        self.pos.is_cdrom = true;
        if self.buf.read_filtered_sector(&self.disc, fad) {
            self.count_sector(HIRQ_CSCT);
            self.buf.sectorstore = true;
        }
    }

    /// Reads one sector at the head immediately, past the phase machine.
    pub fn play_data(&mut self)
        requires
            old(self)@.wf(),
            old(self)@.pos.cd_curfad < u32::MAX,
        ensures
            final(self)@ == old(self)@.data_pumped(),
            final(self)@.wf(),
            final(self).disc == old(self).disc,
    {
        let status: u8 = self.pos.status & !STAT_PERI;
        if status == STAT_SEEK {
            self.pos.status = STAT_PLAY | (self.pos.status & STAT_PERI);
        } else if status == STAT_PLAY && self.drive.fadstoplay > 0 {
            let is_audio: bool = match self.track_at(self.pos.cd_curfad) {
                Some(t) => t.is_audio,
                None => false,
            };
            if is_audio {
                self.play_audio_sector();
            } else {
                self.play_data_sector();
            }
        }
        proof {
            reveal(CdState::hirq_noted);
        }
        self.note_hirq(HIRQ_CAUSE_READPUMP);
    }

    /// Starts CD-DA playback of `sectors` sectors from FAD `fad`, as a Play
    /// command would.
    pub fn dbg_play_cdda(&mut self, fad: u32, sectors: u32)
        requires
            old(self)@.wf(),
        ensures
            final(self)@ == old(self)@.cdda_played(fad, sectors),
            final(self)@.wf(),
            final(self).disc == old(self).disc,
    {
        self.start_seek(0x80_0000 | fad, 0x80_0000 | fad.wrapping_add(sectors), 0, HIRQ_PEND);
    }

    /// The first audio track of the disc, walking the tracks up to the lead-out.
    fn find_audio_track(&self) -> (r: Option<TrackInfo>)
        ensures
            r == (match self@.disc {
                Some(m) => first_audio(m, FAD_OFFSET as int),
                None => None,
            }),
    {
        match &self.disc {
            None => None,
            Some(d) => {
                let lead_out: u32 = d.lead_out_fad();
                let mut fad: u32 = FAD_OFFSET;
                loop
                    invariant
                        self@.disc == Some(d.media()),
                        lead_out == d.media().lead_out,
                        first_audio(d.media(), FAD_OFFSET as int) == first_audio(
                            d.media(),
                            fad as int,
                        ),
                    decreases u32::MAX - fad,
                {
                    if fad >= lead_out {
                        return None;
                    }
                    match d.track_at_fad(fad) {
                        None => {
                            return None;
                        },
                        Some(t) => {
                            if t.is_audio {
                                return Some(t);
                            }
                            let next: u64 = t.start_fad as u64 + t.length as u64;
                            if next >= lead_out as u64 {
                                assert(first_audio(d.media(), next as int) is None);
                                return None;
                            }
                            fad = next as u32;
                        },
                    }
                }
            },
        }
    }

    /// Starts playing the first audio track of the disc; returns whether there
    /// is one.
    pub fn dbg_play_first_audio_track(&mut self) -> (r: bool)
        requires
            old(self)@.wf(),
        ensures
            (match old(self)@.disc {
                Some(m) => match first_audio(m, FAD_OFFSET as int) {
                    Some(t) => r && final(self)@ == old(self)@.cdda_played(t.start_fad, t.length),
                    None => !r && final(self)@ == old(self)@,
                },
                None => !r && final(self)@ == old(self)@,
            }),
            final(self)@.wf(),
            final(self).disc == old(self).disc,
    {
        match self.find_audio_track() {
            Some(t) => {
                self.dbg_play_cdda(t.start_fad, t.length);
                true
            },
            None => false,
        }
    }

    /// Takes up to `n` CD-DA samples, padded with silence.
    pub fn take_cd_audio(&mut self, n: usize) -> (r: Vec<i16>)
        ensures
            r@ == old(self)@.audio.head(n as nat),
            final(self)@ == (CdState { audio: old(self)@.audio.drained(n as nat), ..old(self)@ }),
            final(self).disc == old(self).disc,
    {
        self.audio.take(n)
    }

    /// Takes `n` CD-DA samples for playback: silence until a cushion has built
    /// up, and again once the buffer ran dry.
    pub fn take_cd_audio_buffered(&mut self, n: usize) -> (r: Vec<i16>)
        ensures
            r@ == (if old(self)@.audio.priming(n as nat) {
                Seq::new(n as nat, |i: int| 0i16)
            } else {
                old(self)@.audio.head(n as nat)
            }),
            final(self)@ == (CdState { audio: old(self)@.audio.played(n as nat), ..old(self)@ }),
            final(self).disc == old(self).disc,
    {
        self.audio.take_buffered(n)
    }

    /// Drops the CD-DA samples; playback waits for a new cushion.
    pub fn clear_audio_buffer(&mut self)
        ensures
            final(self)@ == (CdState {
                audio: Audio { fifo: Seq::empty(), primed: false },
                ..old(self)@
            }),
            final(self).disc == old(self).disc,
    {
        self.audio = CdAudio { fifo: VecDeque::new(), primed: false };
        assert(self.audio@.fifo =~= Seq::<i16>::empty());
    }
}

/// The byte at `o`, 0 past the end.
fn byte_or_zero(d: &Vec<u8>, o: usize) -> (r: u8)
    ensures
        r == byte_at(d@, o as int),
{
    if o < d.len() {
        d[o]
    } else {
        0
    }
}

} // verus!
