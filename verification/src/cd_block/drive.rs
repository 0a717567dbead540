//! Status reports and the drive-phase machine.

use vstd::prelude::*;
use crate::bits::flags_settle;
use crate::disc::{SectorSource, TrackInfo, FAD_OFFSET};
use super::model::{clamp_track, sector_cyc_spec, toc_start, CdState};
use super::{
    cd2m, CdBlock, Drive, DrivePhase, HIRQ_BFUL, HIRQ_CAUSE_READPUMP, HIRQ_CSCT, HIRQ_SCDQ,
    MASTER_HZ, PERIODIC_ACTIVE_CYC, PERIODIC_CYCLES, PERIODIC_IDLE_CYC, SEEKSTART2_CYC,
    SEEK_BASE_CYC, SEEK_CPI_DELAY_CYC, STARTUP_CYC, STAT_BUSY, STAT_PAUSE, STAT_PERI, STAT_PLAY,
    STAT_SEEK, STAT_TRANS,
};

verus! {

/// Master cycles per sector at `speed` times the single speed.
pub fn sector_cyc(speed: u32) -> (r: u64)
    ensures
        r == sector_cyc_spec(speed),
        speed == 1 || speed == 2 ==> 100_000 <= r <= 400_000,
{
    let s: u64 = if speed == 0 {
        1
    } else {
        speed as u64
    };
    proof {
        if s == 1 {
            assert(75 * s == 75);
            assert(28_636_400int / 75int == 381_818);
        } else if s == 2 {
            assert(75 * s == 150);
            assert(28_636_400int / 150int == 190_909);
        }
    }
    MASTER_HZ / (75 * s)
}

impl Drive {
    /// Parks the drive: cancels any play or seek.
    pub fn park(&mut self)
        ensures
            *final(self) == old(self).parked(),
    {
        self.phase = DrivePhase::Idle;
        self.pre_in = false;
        self.play_end = 0;
        self.end_irq = 0;
        self.pause_counter = 0;
        self.repeat_counter = 0;
        self.fadstoplay = -1;
        self.counter = 0;
        self.periodic_idle = PERIODIC_IDLE_CYC;
    }

    /// Begins the recognition spin-up.
    pub fn spin_up(&mut self)
        ensures
            *final(self) == old(self).spinning_up(),
    {
        self.park();
        self.phase = DrivePhase::Startup;
        self.counter = STARTUP_CYC;
        self.periodic_idle = i64::MAX;
    }
}

impl<S: SectorSource> CdBlock<S> {
    /// The 16-bit status word.
    pub fn cd_stat(&self) -> (r: u16)
        ensures
            r == self@.stat_word(),
    {
        let s: u16 = (self.pos.status as u16) << 8;
        if self.port.transfer_request {
            s | STAT_TRANS
        } else {
            s
        }
    }

    /// Writes a status report into CR1..CR4.
    pub fn cd_report(&mut self)
        ensures
            final(self)@ == old(self)@.reported(),
            final(self).disc == old(self).disc,
    {
        let fad: u32 = if self.disc.is_some() {
            self.pos.cd_curfad
        } else {
            self.pos.fad
        };
        let cdrom: u16 = if self.pos.is_cdrom {
            0x80
        } else {
            0
        };
        self.cr1 = self.cd_stat() | cdrom | (self.pos.repcnt & 0x7F) as u16;
        self.cr2 = ((self.pos.ctrladdr as u16) << 8) | self.pos.track as u16;
        self.cr3 = ((self.pos.index as u16) << 8) | ((fad >> 16) & 0xFF) as u16;
        self.cr4 = fad as u16;
    }

    /// Logs a HIRQ change, if logging is on.
    pub fn note_hirq(&mut self, cause: u32)
        ensures
            final(self)@ == old(self)@.hirq_noted(cause),
            final(self).disc == old(self).disc,
    {
        proof {
            reveal(CdState::hirq_noted);
        }
        if self.hirq_log_on && self.hirq != self.last_hirq {
            if self.hirq_log.len() < 16384 {
                self.hirq_log.push((self.last_hirq, self.hirq, cause));
            }
            self.last_hirq = self.hirq;
        }
    }

    /// The track under `fad`, with a disc inserted.
    pub fn track_at(&self, fad: u32) -> (r: Option<TrackInfo>)
        ensures
            r == self@.track_at(fad),
    {
        match &self.disc {
            Some(d) => d.track_at_fad(fad),
            None => None,
        }
    }

    /// Begins a seek: records the play range and the HIRQ bits of its end, and
    /// turns the drive busy. `target` and `end` carry bit 23 for FAD
    /// addressing. With `no_pickup_change` the pickup stays where it is.
    pub fn start_seek_impl(
        &mut self,
        target: u32,
        end: u32,
        repeat: u8,
        play_end_irq: u16,
        no_pickup_change: bool,
    )
        ensures
            final(self)@ == old(self)@.seek_commanded(
                target,
                end,
                repeat,
                play_end_irq,
                no_pickup_change,
            ),
            final(self).disc == old(self).disc,
            old(self)@.wf() ==> final(self)@.wf(),
    {
        proof {
            reveal(CdState::seek_commanded);
        }
        if self.disc.is_none() {
            return ;
        }
        self.drive.repeat_counter = 0;
        if !no_pickup_change {
            self.drive.pre_in = false;
        }
        self.drive.play_start = target;
        self.drive.play_end = end;
        self.drive.play_repeat = repeat;
        self.drive.end_irq = play_end_irq;
        if no_pickup_change && self.drive.phase == DrivePhase::Play {
            return ;
        }
        self.pos.status = STAT_BUSY;
        if no_pickup_change {
            self.drive.phase = DrivePhase::SeekSettle;
            self.drive.counter = (SEEKSTART2_CYC - SEEK_CPI_DELAY_CYC) as i64;
        } else {
            self.drive.phase = DrivePhase::SeekStart;
            self.drive.counter = SEEK_CPI_DELAY_CYC as i64;
        }
        self.drive.periodic_idle = PERIODIC_IDLE_CYC;
    }

    /// Begins a seek that moves the pickup.
    pub fn start_seek(&mut self, target: u32, end: u32, repeat: u8, play_end_irq: u16)
        ensures
            final(self)@ == old(self)@.seek_commanded(target, end, repeat, play_end_irq, false),
            final(self).disc == old(self).disc,
            old(self)@.wf() ==> final(self)@.wf(),
    {
        self.start_seek_impl(target, end, repeat, play_end_irq, false);
    }

    /// Start FAD of `track` (brought into the disc's track range), from the
    /// table of contents.
    pub fn track_start_fad(&self, track: u8) -> (r: Option<u32>)
        requires
            self@.disc matches Some(m) ==> m.numbered(),
        ensures
            r == (match self@.disc {
                Some(m) => Some(toc_start(m, track)),
                None => None,
            }),
    {
        match &self.disc {
            Some(d) => {
                let first: u8 = d.first_track();
                let last: u8 = d.last_track();
                let t: u8 = bring_into(track, first, last);
                let toc = d.toc();
                let i: usize = (t as usize - 1) * 4;
                Some(
                    ((toc[i + 1] as u32) << 16) | ((toc[i + 2] as u32) << 8) | toc[i + 3] as u32,
                )
            },
            None => None,
        }
    }

    /// Refreshes the reported geometry from the track under `fad`.
    fn locate(&mut self, fad: u32)
        ensures
            final(self)@ == (CdState { pos: old(self)@.located(fad), ..old(self)@ }),
            final(self).disc == old(self).disc,
            final(self).drive.play_start == old(self).drive.play_start,
            final(self).drive.play_end == old(self).drive.play_end,
    {
        if let Some(t) = self.track_at(fad) {
            self.pos.ctrladdr = t.ctrl_addr;
            self.pos.track = t.number;
            self.pos.index = 1;
        }
    }

    /// Resolves the seek target and enters the pickup settle.
    pub fn seek_start(&mut self)
        requires
            old(self)@.wf(),
            old(self)@.addressable(),
            old(self).drive.counter == 0,
        ensures
            final(self)@ == old(self)@.seek_resolved(),
            final(self).disc == old(self).disc,
            final(self).drive.play_start == old(self).drive.play_start,
            final(self).drive.play_end == old(self).drive.play_end,
            final(self)@.wf(),
            final(self).drive.counter > 0,
    {
        proof {
            reveal(CdState::seek_resolved);
        }
        let start: u32 = self.drive.play_start;
        let fad_target: u32 = if start & 0x80_0000 != 0 {
            let f: u32 = start & 0x7F_FFFF;
            if f < FAD_OFFSET {
                FAD_OFFSET
            } else {
                f
            }
        } else {
            let tt: u8 = ((start >> 8) & 0xFF) as u8;
            match self.track_start_fad(tt) {
                Some(f) => f,
                None => FAD_OFFSET,
            }
        };
        self.locate(fad_target);
        self.pos.cd_curfad = fad_target;
        self.pos.is_cdrom = false;
        self.pos.repcnt = self.drive.repeat_counter & 0x0F;
        self.pos.status = STAT_BUSY;
        self.drive.phase = DrivePhase::SeekSettle;
        self.drive.counter += (SEEKSTART2_CYC - SEEK_CPI_DELAY_CYC) as i64;
    }

    /// The settle has elapsed: schedules the radial seek.
    pub fn seek_settle_done(&mut self)
        requires
            old(self)@.wf(),
            old(self).drive.counter == 0,
        ensures
            final(self)@ == old(self)@.seek_settled(),
            final(self).disc == old(self).disc,
            final(self).drive.play_start == old(self).drive.play_start,
            final(self).drive.play_end == old(self).drive.play_end,
            final(self)@.wf(),
            final(self).drive.counter > 0,
    {
        proof {
            reveal(CdState::seek_settled);
        }
        let prev: u32 = self.drive.sector;
        let fad_target: u32 = self.pos.cd_curfad;
        let delta: u64 = if fad_target >= prev {
            (fad_target - prev) as u64
        } else {
            (prev - fad_target) as u64
        };
        let seek_cyc: u64 = SEEK_BASE_CYC + cd2m(delta * 27);
        self.pos.status = STAT_SEEK;
        self.drive.phase = DrivePhase::Seek;
        self.drive.sector = fad_target;
        self.drive.counter += seek_cyc as i64;
    }

    /// Track number under the play head, `0xAA` past the lead-out.
    pub fn head_track(&self) -> (r: u8)
        ensures
            r == self@.head_track(),
    {
        match self.track_at(self.pos.cd_curfad) {
            Some(t) => t.number,
            None => 0xAA,
        }
    }

    /// Whether the play head has left the commanded range.
    pub fn check_end_met(&self) -> (r: bool)
        requires
            self@.addressable(),
        ensures
            r == self@.end_met(),
    {
        let start: u32 = self.drive.play_start;
        let end: u32 = self.drive.play_end;
        let mut end_met: bool = self.pos.track == 0xAA;
        if end != 0 {
            if end & 0x80_0000 != 0 {
                if self.pos.cd_curfad >= (end & 0x7F_FFFF) {
                    end_met = true;
                }
            } else if let Some(d) = &self.disc {
                let end_track: u8 = bring_into(
                    ((end >> 8) & 0xFF) as u8,
                    d.first_track(),
                    d.last_track(),
                );
                if self.head_track() > end_track {
                    end_met = true;
                }
            }
        }
        if start & 0x80_0000 != 0 {
            if self.pos.cd_curfad < (start & 0x7F_FFFF) {
                end_met = true;
            }
        } else if let Some(d) = &self.disc {
            let start_track: u8 = bring_into(
                ((start >> 8) & 0xFF) as u8,
                d.first_track(),
                d.last_track(),
            );
            if self.head_track() < start_track {
                end_met = true;
            }
        }
        end_met
    }
}

/// Brings a track number into a range.
fn bring_into(t: u8, first: u8, last: u8) -> (r: u8)
    requires
        first <= last,
    ensures
        r == clamp_track(t, first, last),
{
    if t < first {
        first
    } else if t > last {
        last
    } else {
        t
    }
}

impl<S: SectorSource> CdBlock<S> {
    /// Decodes the raw audio sector at `fad` into the CD-DA buffer: 588 stereo
    /// frames of 16-bit samples, low byte first. Returns whether it could be
    /// read; the oldest samples beyond the cap are dropped.
    pub fn read_cd_audio_sector(&mut self, fad: u32) -> (r: bool)
        ensures
            final(self)@ == old(self)@.audio_read(fad),
            final(self).disc == old(self).disc,
            final(self).drive.play_start == old(self).drive.play_start,
            final(self).drive.play_end == old(self).drive.play_end,
            r == (old(self)@.disc matches Some(m) && m.raw_at(fad).len() == 2352),
    {
        let mut buf: [u8; 2352] = [0u8; 2352];
        match &self.disc {
            Some(d) => {
                if d.read_full_sector(fad, &mut buf) < 2352 {
                    return false;
                }
                assert(buf@.take(2352) =~= buf@);
            },
            None => {
                return false;
            },
        }
        self.audio.append_sector(&buf);
        true
    }

    /// Processes the sector read ahead.
    fn process_read_ahead(&mut self)
        requires
            old(self)@.buf.wf(),
        ensures
            final(self)@ == old(self)@.read_ahead_processed(),
            final(self).disc == old(self).disc,
            final(self).drive.play_start == old(self).drive.play_start,
            final(self).drive.play_end == old(self).drive.play_end,
            final(self)@.buf.wf(),
    {
        proof {
            reveal(CdState::read_ahead_processed);
        }
        if self.drive.pre_in {
            let fad: u32 = self.drive.pre_fad;
            if self.drive.pre_audio {
                self.pos.is_cdrom = false;
                let _ = self.read_cd_audio_sector(fad);
                self.drive.pre_in = false;
                self.drive.processed = true;
                self.drive.sector = self.drive.sector.wrapping_add(1);
            } else {
                self.pos.is_cdrom = true;
                if self.buf.free_blocks > 0 {
                    let _ = self.buf.read_filtered_sector(&self.disc, fad);
                    self.buf.sectorstore = true;
                    self.hirq |= HIRQ_CSCT;
                    if self.buf.free_blocks <= 0 {
                        self.hirq |= HIRQ_BFUL;
                    }
                    self.drive.pre_in = false;
                    self.drive.processed = true;
                    self.drive.sector = self.drive.sector.wrapping_add(1);
                }
            }
        }
    }

    /// Reads the next sector ahead, if none is held.
    fn fill_read_ahead(&mut self)
        ensures
            final(self)@ == old(self)@.read_ahead_filled(),
            final(self).disc == old(self).disc,
            final(self).drive.play_start == old(self).drive.play_start,
            final(self).drive.play_end == old(self).drive.play_end,
    {
        proof {
            reveal(CdState::read_ahead_filled);
        }
        if !self.drive.pre_in {
            let fad: u32 = self.drive.sector;
            self.locate(fad);
            self.drive.pre_audio = match self.track_at(fad) {
                Some(t) => t.is_audio,
                None => false,
            };
            self.drive.pre_fad = fad;
            self.drive.pre_in = true;
            self.pos.cd_curfad = fad;
            self.drive.fadstoplay = (self.drive.play_end & 0x7F_FFFF) as i64 - fad as i64;
        }
    }

    /// Reloads the drive's timers for one more sector.
    fn time_next_sector(&mut self)
        requires
            old(self)@.drive.wf(),
            old(self).drive.counter == 0,
        ensures
            final(self)@ == old(self)@.next_sector_timed(),
            final(self).disc == old(self).disc,
            final(self).drive.play_start == old(self).drive.play_start,
            final(self).drive.play_end == old(self).drive.play_end,
            final(self)@.drive.wf(),
            final(self).drive.counter > 0,
    {
        self.drive.periodic_idle = PERIODIC_ACTIVE_CYC;
        self.drive.counter += sector_cyc(self.drive.speed) as i64;
    }

    /// One step of a playing drive: processes the sector read ahead, then reads
    /// the next one ahead.
    pub fn drive_play_tick(&mut self)
        requires
            old(self)@.wf(),
            old(self).drive.counter == 0,
        ensures
            final(self)@ == old(self)@.play_ticked(),
            final(self).disc == old(self).disc,
            final(self).drive.play_start == old(self).drive.play_start,
            final(self).drive.play_end == old(self).drive.play_end,
            final(self)@.wf(),
            final(self).drive.counter > 0,
    {
        proof {
            reveal(CdState::read_ahead_processed);
            reveal(CdState::read_ahead_filled);
        }
        self.process_read_ahead();
        self.fill_read_ahead();
        self.time_next_sector();
    }

    /// One step of a pausing drive.
    fn drive_pause_tick(&mut self)
        requires
            old(self)@.wf(),
            old(self).drive.counter == 0,
        ensures
            final(self)@ == old(self)@.pause_ticked(),
            final(self).disc == old(self).disc,
            final(self).drive.play_start == old(self).drive.play_start,
            final(self).drive.play_end == old(self).drive.play_end,
            final(self)@.wf(),
            final(self).drive.counter > 0,
    {
        if !self.drive.pre_in {
            self.drive.pre_fad = self.drive.sector;
            self.pos.cd_curfad = self.drive.sector;
            self.drive.pre_in = true;
        }
        self.time_next_sector();
    }

    /// Moves the pause sequence on.
    fn sequence_pause(&mut self, end_met: bool)
        requires
            old(self)@.wf(),
            old(self).drive.counter > 0,
            end_met == old(self)@.end_met(),
        ensures
            final(self)@ == old(self)@.pause_sequenced(),
            final(self).disc == old(self).disc,
            final(self).drive.play_start == old(self).drive.play_start,
            final(self).drive.play_end == old(self).drive.play_end,
            final(self).drive.periodic_idle == old(self).drive.periodic_idle,
            final(self)@.wf(),
            final(self).drive.counter > 0,
    {
        proof {
            reveal(CdState::pause_sequenced);
        }
        self.drive.pre_in = false;
        if self.drive.pause_counter == 1 {
            self.pos.status = STAT_PAUSE;
            self.drive.fadstoplay = -1;
            if end_met && self.drive.end_irq != 0 && (self.drive.repeat_counter & 0x80) == 0 {
                self.hirq |= self.drive.end_irq;
            }
            self.drive.end_irq = 0;
            self.drive.pause_counter = -1;
        } else if self.drive.pause_counter == -1 {
            self.pos.status = STAT_PAUSE;
            self.drive.fadstoplay = -1;
            if !end_met && self.buf.free_blocks > 0 {
                self.pos.status = STAT_BUSY;
                self.drive.phase = DrivePhase::Play;
                self.drive.counter = SEEK_CPI_DELAY_CYC as i64;
            }
        } else {
            self.drive.pause_counter += 1;
        }
    }

    /// The range has ended: pauses, or replays it.
    fn end_range(&mut self)
        requires
            old(self)@.wf(),
            old(self).drive.counter > 0,
        ensures
            final(self)@ == old(self)@.range_ended(),
            final(self).disc == old(self).disc,
            final(self).drive.play_start == old(self).drive.play_start,
            final(self).drive.play_end == old(self).drive.play_end,
            final(self).drive.periodic_idle == old(self).drive.periodic_idle,
            final(self)@.wf(),
            final(self).drive.counter > 0,
    {
        proof {
            reveal(CdState::range_ended);
        }
        self.drive.pre_in = false;
        self.pos.status = STAT_BUSY;
        if self.drive.repeat_counter >= self.drive.play_repeat {
            self.drive.sector = self.pos.cd_curfad;
            self.drive.phase = DrivePhase::Pause;
            self.drive.pause_counter = if self.drive.end_irq != 0 {
                0
            } else {
                1
            };
        } else {
            if self.drive.repeat_counter < 0x0E {
                self.drive.repeat_counter += 1;
            }
            self.drive.repeat_counter |= 0x80;
            self.drive.phase = DrivePhase::SeekStart;
            self.drive.counter = SEEK_CPI_DELAY_CYC as i64;
        }
    }

    /// Resolves the end-of-range and buffer-full transitions.
    fn supervise_transfer(&mut self)
        requires
            old(self)@.wf(),
            old(self)@.addressable(),
            old(self).drive.counter > 0,
        ensures
            final(self)@ == old(self)@.transfer_supervised(),
            final(self).disc == old(self).disc,
            final(self).drive.play_start == old(self).drive.play_start,
            final(self).drive.play_end == old(self).drive.play_end,
            final(self).drive.periodic_idle == old(self).drive.periodic_idle,
            final(self)@.wf(),
            final(self).drive.counter > 0,
    {
        proof {
            reveal(CdState::transfer_supervised);
        }
        if self.drive.pre_in && (self.drive.phase == DrivePhase::Play || self.drive.phase
            == DrivePhase::Pause) {
            let end_met: bool = self.check_end_met();
            if self.drive.phase == DrivePhase::Pause {
                self.sequence_pause(end_met);
            } else if end_met {
                self.end_range();
            } else if self.buf.free_blocks <= 0 {
                self.drive.pre_in = false;
                self.pos.status = STAT_BUSY;
                self.drive.phase = DrivePhase::Pause;
                self.drive.pause_counter = 0;
            } else {
                self.drive.repeat_counter &= !0x80u8;
                if self.drive.processed {
                    self.pos.status = STAT_PLAY;
                    self.drive.processed = false;
                }
            }
        }
    }

    /// Emits an unsolicited report, if one may be made.
    fn report_unsolicited(&mut self)
        ensures
            final(self)@ == old(self)@.peri_reported(),
            final(self).disc == old(self).disc,
            final(self).drive.play_start == old(self).drive.play_start,
            final(self).drive.play_end == old(self).drive.play_end,
    {
        if self.link.host_initialized && !self.link.command_pending && self.link.cr_written == 0 {
            self.pos.status |= STAT_PERI;
            self.cd_report();
        }
    }

    /// The periodic work: resolves the end-of-range and buffer-full
    /// transitions, then emits the unsolicited status report.
    pub fn drive_periodic(&mut self)
        requires
            old(self)@.wf(),
            old(self)@.addressable(),
            old(self).drive.counter > 0,
        ensures
            final(self)@ == old(self)@.periodic(),
            final(self).disc == old(self).disc,
            final(self).drive.play_start == old(self).drive.play_start,
            final(self).drive.play_end == old(self).drive.play_end,
            final(self)@.wf(),
            final(self).drive.counter > 0,
            final(self).drive.periodic_idle > 0,
    {
        proof {
            reveal(CdState::periodic);
        }
        self.drive.periodic_idle = PERIODIC_IDLE_CYC;
        self.supervise_transfer();
        self.report_unsolicited();
        self.hirq |= HIRQ_SCDQ;
    }

    /// Runs the step of the phase machine that is due.
    fn step_phase(&mut self)
        requires
            old(self)@.wf(),
            old(self)@.addressable(),
            old(self).drive.counter == 0,
        ensures
            final(self)@ == old(self)@.phase_stepped(),
            final(self).disc == old(self).disc,
            final(self).drive.play_start == old(self).drive.play_start,
            final(self).drive.play_end == old(self).drive.play_end,
            final(self)@.wf(),
            final(self).drive.counter > 0,
    {
        proof {
            reveal(CdState::phase_stepped);
        }
        match self.drive.phase {
            DrivePhase::Idle => {
                self.drive.counter += PERIODIC_IDLE_CYC;
            },
            DrivePhase::Startup => {
                self.pos.status = STAT_PAUSE | (self.pos.status & STAT_PERI);
                self.drive.phase = DrivePhase::Idle;
                self.pos.cd_curfad = FAD_OFFSET;
                self.drive.sector = FAD_OFFSET;
                self.drive.counter += PERIODIC_IDLE_CYC;
                self.drive.periodic_idle = PERIODIC_IDLE_CYC;
            },
            DrivePhase::SeekStart => {
                self.seek_start();
            },
            DrivePhase::SeekSettle => {
                self.seek_settle_done();
            },
            DrivePhase::Seek => {
                self.drive.processed = false;
                self.drive.pre_in = false;
                self.drive.phase = DrivePhase::Play;
                self.drive.counter += sector_cyc(self.drive.speed) as i64;
            },
            DrivePhase::Play => {
                self.drive_play_tick();
            },
            DrivePhase::Pause => {
                self.drive_pause_tick();
            },
        }
    }
}

/// Repeating the unsolicited report changes nothing.
pub(crate) proof fn idle_report_again(s: CdState)
    ensures
        s.idle_reported().idle_reported() == s.idle_reported(),
{
    if s.may_report() {
        flags_settle(s.pos.status, STAT_PERI, s.host.hirq, HIRQ_SCDQ);
    }
}

impl<S: SectorSource> CdBlock<S> {
    /// Processes everything that is due now.
    fn do_due(&mut self)
        requires
            old(self)@.wf(),
            old(self)@.addressable(),
        ensures
            final(self)@ == old(self)@.due_done(),
            final(self).disc == old(self).disc,
            final(self)@.wf(),
            final(self)@.addressable(),
            final(self).drive.counter > 0,
            final(self).drive.periodic_idle > 0,
    {
        proof {
            reveal(CdState::due_done);
        }
        let ghost s = self@;
        let mut guard: u32 = 0;
        while self.drive.counter <= 0 && guard < 100_000
            invariant
                self@.wf(),
                self@.addressable(),
                self.disc == old(self).disc,
                guard == 0 ==> self@ == s,
                guard > 0 ==> s.drive.counter <= 0 && self@ == s.phase_stepped()
                    && self.drive.counter > 0,
            decreases 100_000 - guard,
        {
            guard += 1;
            self.step_phase();
        }
        if self.drive.periodic_idle <= 0 {
            self.drive_periodic();
        }
    }

    /// Advances the drive-phase machine by `cycles` master cycles. Events are
    /// processed in order, each at its own time, so the outcome does not depend
    /// on how the caller slices the time.
    pub fn drive_run(&mut self, cycles: u64)
        requires
            old(self)@.wf(),
            old(self)@.addressable(),
        ensures
            final(self)@ == old(self)@.run((cycles as i64) as int).hirq_noted(HIRQ_CAUSE_READPUMP),
            final(self).disc == old(self).disc,
            final(self)@.wf(),
            final(self)@.addressable(),
    {
        let mut rem: i64 = cycles as i64;
        let ghost goal = self@.run(rem as int);
        loop
            invariant_except_break
                self@.wf(),
                self@.addressable(),
                self.disc == old(self).disc,
                goal == self@.run(rem as int),
                rem <= i64::MAX,
            ensures
                self@.wf(),
                self@.addressable(),
                self.disc == old(self).disc,
                goal == self@,
            decreases rem,
        {
            self.do_due();
            if rem <= 0 {
                break ;
            }
            let soonest: i64 = if self.drive.counter < self.drive.periodic_idle {
                self.drive.counter
            } else {
                self.drive.periodic_idle
            };
            let next: i64 = if soonest < 1 {
                1
            } else {
                soonest
            };
            let adv: i64 = if next < rem {
                next
            } else {
                rem
            };
            self.drive.counter -= adv;
            self.drive.periodic_idle -= adv;
            rem -= adv;
        }
        self.note_hirq(HIRQ_CAUSE_READPUMP);
        proof {
            reveal(CdState::hirq_noted);
        }
    }

    /// Emits one unsolicited status report, unless the host has not engaged the
    /// block yet, has a response to read, or is composing a command.
    pub fn emit_periodic(&mut self)
        ensures
            final(self)@ == old(self)@.idle_reported(),
            final(self).disc == old(self).disc,
            final(self).drive == old(self).drive,
    {
        if !self.link.host_initialized || self.link.command_pending || self.link.cr_written != 0 {
            return ;
        }
        self.report_unsolicited();
        self.hirq |= HIRQ_SCDQ;
    }

    /// Advances the CD-block's clock by `cycles` master cycles: the drive with a
    /// disc, else the periodic report, one per interval with the overshoot
    /// carried forward.
    pub fn tick(&mut self, cycles: u64)
        requires
            old(self)@.wf(),
            old(self)@.addressable(),
            old(self)@.disc is None ==> old(self)@.drive.periodic_accum + cycles <= u64::MAX,
        ensures
            final(self)@ == old(self)@.ticked(cycles),
            final(self).disc == old(self).disc,
            final(self)@.wf(),
            final(self)@.addressable(),
    {
        if self.disc.is_some() {
            self.drive_run(cycles);
            return ;
        }
        let ghost total: int = self.drive.periodic_accum + cycles;
        let ghost s0 = self@;
        self.drive.periodic_accum += cycles;
        let ghost mut left: int = total;
        let ghost base = CdState {
            drive: Drive { periodic_accum: (total % PERIODIC_CYCLES as int) as u64, ..s0.drive },
            ..s0
        };
        while self.drive.periodic_accum >= PERIODIC_CYCLES
            invariant
                self@.wf(),
                self@.addressable(),
                self.disc == old(self).disc,
                self@.disc is None,
                left == self.drive.periodic_accum,
                0 <= left <= total,
                left % PERIODIC_CYCLES as int == total % PERIODIC_CYCLES as int,
                base == (CdState {
                    drive: Drive {
                        periodic_accum: (total % PERIODIC_CYCLES as int) as u64,
                        ..s0.drive
                    },
                    ..s0
                }),
                left == total ==> self@ == (CdState {
                    drive: Drive { periodic_accum: left as u64, ..s0.drive },
                    ..s0
                }),
                left < total ==> total >= PERIODIC_CYCLES && (CdState {
                    drive: base.drive,
                    ..self@
                }) == base.idle_reported() && self@.drive == (Drive {
                    periodic_accum: left as u64,
                    ..s0.drive
                }),
            decreases self.drive.periodic_accum,
        {
            self.drive.periodic_accum -= PERIODIC_CYCLES;
            self.emit_periodic();
            proof {
                idle_report_again(base);
                left = left - PERIODIC_CYCLES;
            }
        }
    }
}

} // verus!
