//! The mathematical state of the CD-block, and its transitions.

use vstd::prelude::*;
use crate::disc::{Media, SectorSource, TrackInfo, FAD_OFFSET};
use super::buffers::Buffers;
use super::files::Files;
use super::port::{Audio, Port};
use super::{
    cd2m_spec, CdBlock, CmdTrace, Drive, DrivePhase, Handshake, Position, CD_AUDIO_CAP, HIRQ_BFUL,
    HIRQ_CAUSE_READPUMP, HIRQ_CSCT, HIRQ_SCDQ, MASTER_HZ, PERIODIC_ACTIVE_CYC, PERIODIC_CYCLES,
    PERIODIC_IDLE_CYC, SEEKSTART2_CYC, SEEK_BASE_CYC, SEEK_CPI_DELAY_CYC, STARTUP_CYC, STAT_BUSY,
    STAT_PAUSE, STAT_PERI, STAT_PLAY, STAT_SEEK, STAT_TRANS,
};

verus! {

/// What the host sees of the CD-block: its registers and the command handshake.
pub struct Host {
    pub hirq: u16,
    pub hirq_mask: u16,
    pub cr1: u16,
    pub cr2: u16,
    pub cr3: u16,
    pub cr4: u16,
    pub link: Handshake,
}

/// The command and HIRQ logs.
pub struct Logs {
    pub cmd_log: Seq<CmdTrace>,
    pub cmd_log_on: bool,
    pub caller_pc: u32,
    pub hirq_log: Seq<(u16, u16, u32)>,
    pub hirq_log_on: bool,
    pub last_hirq: u16,
}

/// The state of a CD-block.
pub struct CdState {
    pub host: Host,
    pub pos: Position,
    pub port: Port,
    pub buf: Buffers,
    pub drive: Drive,
    pub audio: Audio,
    pub files: Files,
    pub logs: Logs,
    pub disc: Option<Media>,
}

pub open spec fn media_of<S: SectorSource>(d: Option<S>) -> Option<Media> {
    match d {
        Some(s) => Some(s.media()),
        None => None,
    }
}

impl<S: SectorSource> View for CdBlock<S> {
    type V = CdState;

    open spec fn view(&self) -> CdState {
        CdState {
            host: Host {
                hirq: self.hirq,
                hirq_mask: self.hirq_mask,
                cr1: self.cr1,
                cr2: self.cr2,
                cr3: self.cr3,
                cr4: self.cr4,
                link: self.link,
            },
            pos: self.pos,
            port: self.port@,
            buf: self.buf@,
            drive: self.drive,
            audio: self.audio@,
            files: self.files@,
            logs: Logs {
                cmd_log: self.cmd_log@,
                cmd_log_on: self.cmd_log_on,
                caller_pc: self.caller_pc,
                hirq_log: self.hirq_log@,
                hirq_log_on: self.hirq_log_on,
                last_hirq: self.last_hirq,
            },
            disc: media_of(self.disc),
        }
    }
}

impl Drive {
    /// The drive's timers are not overdue, and it reads at 1x or 2x.
    pub open spec fn wf(self) -> bool {
        &&& 0 <= self.counter <= 0x100_0000_0000
        &&& 0 <= self.periodic_idle
        &&& -1 <= self.pause_counter <= 1
        &&& self.speed == 1 || self.speed == 2
    }

    /// The drive parked: no read range, no sector read ahead.
    pub open spec fn parked(self) -> Drive {
        Drive {
            phase: DrivePhase::Idle,
            pre_in: false,
            play_end: 0,
            end_irq: 0,
            pause_counter: 0,
            repeat_counter: 0,
            fadstoplay: (-1) as i64,
            counter: 0,
            periodic_idle: PERIODIC_IDLE_CYC,
            ..self
        }
    }

    /// The drive spinning up to recognise a disc; no periodic reports run
    /// until it is done.
    pub open spec fn spinning_up(self) -> Drive {
        Drive {
            phase: DrivePhase::Startup,
            counter: STARTUP_CYC,
            periodic_idle: i64::MAX,
            ..self.parked()
        }
    }

    /// The next sector is read ahead.
    pub open spec fn holding(self, fad: u32, audio: bool) -> Drive {
        Drive {
            pre_fad: fad,
            pre_in: true,
            pre_audio: audio,
            fadstoplay: ((self.play_end & 0x7F_FFFF) - fad) as i64,
            ..self
        }
    }

    /// The sector read ahead is consumed.
    pub open spec fn consumed(self) -> Drive {
        Drive { pre_in: false, processed: true, sector: self.sector.wrapping_add(1), ..self }
    }
}

/// Seek times stay small.
pub proof fn cd2m_bounds(n: int)
    requires
        0 <= n <= 27 * 0xFFFF_FFFF,
    ensures
        0 <= cd2m_spec(n) <= 0x80_0000_0000,
{
    assert(0 <= n * 28_636_400 / 11_289_600 <= 0x80_0000_0000) by (nonlinear_arith)
        requires
            0 <= n <= 27 * 0xFFFF_FFFF,
    ;
}

/// Master cycles per sector: 1/75 s at single speed.
pub open spec fn sector_cyc_spec(speed: u32) -> int {
    (MASTER_HZ as int) / (75 * if speed == 0 {
        1int
    } else {
        speed as int
    })
}

/// A track number brought into the range of the disc.
pub open spec fn clamp_track(t: u8, first: u8, last: u8) -> u8 {
    if t < first {
        first
    } else if t > last {
        last
    } else {
        t
    }
}

/// The track byte of a play position in track form.
pub open spec fn track_byte(play: u32) -> u8 {
    ((play >> 8) & 0xFF) as u8
}

/// A play position in FAD form.
pub open spec fn is_fad(play: u32) -> bool {
    play & 0x80_0000 != 0
}

/// Start FAD of track `t`, from the table of contents.
pub open spec fn toc_start(m: Media, t: u8) -> u32 {
    let i = (clamp_track(t, m.first, m.last) - 1) * 4;
    ((m.toc[i + 1] as u32) << 16) | ((m.toc[i + 2] as u32) << 8) | m.toc[i + 3] as u32
}

/// The samples of a raw audio sector: 588 stereo frames, low byte first.
pub open spec fn audio_samples(raw: Seq<u8>) -> Seq<i16> {
    Seq::new(1176, |i: int| (((raw[2 * i + 1] as u16) << 8) | raw[2 * i] as u16) as i16)
}

/// The newest `CD_AUDIO_CAP` samples.
pub open spec fn audio_capped(fifo: Seq<i16>) -> Seq<i16> {
    if fifo.len() > CD_AUDIO_CAP {
        fifo.skip(fifo.len() - CD_AUDIO_CAP)
    } else {
        fifo
    }
}

impl CdState {
    /// What every operation preserves.
    pub open spec fn wf(self) -> bool {
        self.buf.wf() && self.drive.wf() && self.port.wf()
    }

    // ---- status reports ----------------------------------------------------

    /// The state with `bits` raised in HIRQ.
    pub open spec fn raised(self, bits: u16) -> CdState {
        CdState { host: Host { hirq: self.host.hirq | bits, ..self.host }, ..self }
    }

    /// The state with a response in CR1..CR4.
    pub open spec fn answered(self, cr1: u16, cr2: u16, cr3: u16, cr4: u16) -> CdState {
        CdState { host: Host { cr1, cr2, cr3, cr4, ..self.host }, ..self }
    }

    /// The state with status code `status`.
    pub open spec fn with_status(self, status: u8) -> CdState {
        CdState { pos: Position { status, ..self.pos }, ..self }
    }

    /// The 16-bit status word: the status code in the high byte, and the
    /// transfer-request flag.
    pub open spec fn stat_word(self) -> u16 {
        let s = (self.pos.status as u16) << 8;
        if self.port.transfer_request {
            s | STAT_TRANS
        } else {
            s
        }
    }

    /// FAD of a status report: the head's with a disc, else the stored one.
    pub open spec fn report_fad(self) -> u32 {
        if self.disc is Some {
            self.pos.cd_curfad
        } else {
            self.pos.fad
        }
    }

    /// CR1..CR4 hold a status report: status word, data-track flag and repeat
    /// count; control/address and track; index and FAD.
    pub open spec fn reported(self) -> CdState {
        let fad = self.report_fad();
        let p = self.pos;
        self.answered(
            self.stat_word() | (if p.is_cdrom {
                0x80u16
            } else {
                0u16
            }) | (p.repcnt & 0x7F) as u16,
            ((p.ctrladdr as u16) << 8) | p.track as u16,
            ((p.index as u16) << 8) | ((fad >> 16) & 0xFF) as u16,
            fad as u16,
        )
    }

    /// The change of HIRQ since the last entry is logged, if logging is on.
    #[verifier::opaque]
    pub open spec fn hirq_noted(self, cause: u32) -> CdState {
        let l = self.logs;
        if l.hirq_log_on && self.host.hirq != l.last_hirq {
            CdState {
                logs: Logs {
                    hirq_log: if l.hirq_log.len() < 16384 {
                        l.hirq_log.push((l.last_hirq, self.host.hirq, cause))
                    } else {
                        l.hirq_log
                    },
                    last_hirq: self.host.hirq,
                    ..l
                },
                ..self
            }
        } else {
            self
        }
    }

    /// The track under `fad`, with a disc inserted.
    pub open spec fn track_at(self, fad: u32) -> Option<TrackInfo> {
        match self.disc {
            Some(m) => m.track_at(fad),
            None => None,
        }
    }
}

impl CdState {
    /// Sectors are removed from a partition; HIRQ stops saying that the buffer
    /// is full once a slot is given back.
    pub open spec fn deleted(self, p: int, ofs: int, num: int) -> CdState {
        CdState {
            buf: self.buf.deleted(p, ofs, num),
            host: Host {
                hirq: if self.buf.deletes_any(p, ofs, num) {
                    self.host.hirq & !HIRQ_BFUL
                } else {
                    self.host.hirq
                },
                ..self.host
            },
            ..self
        }
    }

    /// Partition `p` is emptied.
    pub open spec fn cleared(self, p: int) -> CdState {
        self.deleted(p, 0, self.buf.partitions[p].len() as int)
    }

    /// The first `n` partitions are emptied.
    pub open spec fn all_cleared(self, n: int) -> CdState
        decreases n,
    {
        if n <= 0 {
            self
        } else {
            self.all_cleared(n - 1).cleared(n - 1)
        }
    }

    /// The sector at `fad` is read and filtered.
    pub open spec fn sector_read(self, fad: u32) -> CdState {
        CdState { buf: self.buf.sector_read(self.disc, fad), ..self }
    }
}

// ---- the drive-phase machine ------------------------------------------------

impl CdState {
    /// A seek is commanded: the range is recorded and the drive turns busy. With
    /// `keep` (no pickup change) the sector read ahead is kept; a drive that
    /// plays goes on from where it is, any other settles where the head is.
    #[verifier::opaque]
    pub open spec fn seek_commanded(
        self,
        target: u32,
        end: u32,
        repeat: u8,
        irq: u16,
        keep: bool,
    ) -> CdState {
        if self.disc is None {
            self
        } else {
            let d = Drive {
                repeat_counter: 0,
                pre_in: keep && self.drive.pre_in,
                play_start: target,
                play_end: end,
                play_repeat: repeat,
                end_irq: irq,
                ..self.drive
            };
            if keep && d.phase == DrivePhase::Play {
                CdState { drive: d, ..self }
            } else {
                CdState {
                    drive: Drive {
                        phase: if keep {
                            DrivePhase::SeekSettle
                        } else {
                            DrivePhase::SeekStart
                        },
                        counter: if keep {
                            (SEEKSTART2_CYC - SEEK_CPI_DELAY_CYC) as i64
                        } else {
                            SEEK_CPI_DELAY_CYC as i64
                        },
                        periodic_idle: PERIODIC_IDLE_CYC,
                        ..d
                    },
                    ..self.with_status(STAT_BUSY)
                }
            }
        }
    }

    /// FAD the commanded range starts at.
    pub open spec fn seek_target(self) -> u32 {
        let p = self.drive.play_start;
        if is_fad(p) {
            if (p & 0x7F_FFFF) < FAD_OFFSET {
                FAD_OFFSET
            } else {
                p & 0x7F_FFFF
            }
        } else {
            match self.disc {
                Some(m) => toc_start(m, track_byte(p)),
                None => FAD_OFFSET,
            }
        }
    }

    /// The position with the geometry of the track under `fad`, if any.
    pub open spec fn located(self, fad: u32) -> Position {
        match self.track_at(fad) {
            Some(t) => Position {
                ctrladdr: t.ctrl_addr,
                track: t.number,
                index: 1,
                ..self.pos
            },
            None => self.pos,
        }
    }

    /// The seek target is resolved; the drive stays busy while the pickup
    /// settles.
    #[verifier::opaque]
    pub open spec fn seek_resolved(self) -> CdState {
        let fad = self.seek_target();
        CdState {
            pos: Position {
                cd_curfad: fad,
                is_cdrom: false,
                repcnt: self.drive.repeat_counter & 0x0F,
                status: STAT_BUSY,
                ..self.located(fad)
            },
            drive: Drive {
                phase: DrivePhase::SeekSettle,
                counter: (self.drive.counter + SEEKSTART2_CYC - SEEK_CPI_DELAY_CYC) as i64,
                ..self.drive
            },
            ..self
        }
    }

    /// Distance of the seek, in sectors.
    pub open spec fn seek_distance(self) -> int {
        if self.pos.cd_curfad >= self.drive.sector {
            self.pos.cd_curfad - self.drive.sector
        } else {
            self.drive.sector - self.pos.cd_curfad
        }
    }

    /// The pickup has settled: the radial seek takes a fixed time plus 27 CD
    /// clocks per sector.
    #[verifier::opaque]
    pub open spec fn seek_settled(self) -> CdState {
        CdState {
            pos: Position { status: STAT_SEEK, ..self.pos },
            drive: Drive {
                phase: DrivePhase::Seek,
                sector: self.pos.cd_curfad,
                counter: (self.drive.counter + SEEK_BASE_CYC + cd2m_spec(
                    self.seek_distance() * 27,
                )) as i64,
                ..self.drive
            },
            ..self
        }
    }

    /// Track number under the head, `0xAA` past the lead-out.
    pub open spec fn head_track(self) -> u8 {
        match self.track_at(self.pos.cd_curfad) {
            Some(t) => t.number,
            None => 0xAA,
        }
    }

    /// The head has left the commanded range.
    pub open spec fn end_met(self) -> bool {
        let d = self.drive;
        let at_lead_out = self.pos.track == 0xAA;
        let past_end = if d.play_end == 0 {
            false
        } else if is_fad(d.play_end) {
            self.pos.cd_curfad >= d.play_end & 0x7F_FFFF
        } else {
            match self.disc {
                Some(m) => self.head_track() > clamp_track(
                    track_byte(d.play_end),
                    m.first,
                    m.last,
                ),
                None => false,
            }
        };
        let before_start = if is_fad(d.play_start) {
            self.pos.cd_curfad < d.play_start & 0x7F_FFFF
        } else {
            match self.disc {
                Some(m) => self.head_track() < clamp_track(
                    track_byte(d.play_start),
                    m.first,
                    m.last,
                ),
                None => false,
            }
        };
        at_lead_out || past_end || before_start
    }

    /// The range is addressed by FAD, or the disc's tracks can be addressed.
    pub open spec fn addressable(self) -> bool {
        match self.disc {
            Some(m) => m.numbered() || (is_fad(self.drive.play_start) && (self.drive.play_end == 0
                || is_fad(self.drive.play_end))),
            None => true,
        }
    }

    /// The audio sector at `fad`, if it can be read whole, joins the samples
    /// for the mixer.
    pub open spec fn audio_read(self, fad: u32) -> CdState {
        match self.disc {
            Some(m) => if m.raw_at(fad).len() == 2352 {
                CdState {
                    audio: Audio {
                        fifo: audio_capped(self.audio.fifo + audio_samples(m.raw_at(fad))),
                        ..self.audio
                    },
                    ..self
                }
            } else {
                self
            },
            None => self,
        }
    }

    /// The data sector at `fad` is buffered; HIRQ says so, and when that filled
    /// the buffer.
    pub open spec fn data_read(self, fad: u32) -> CdState {
        let s = self.sector_read(fad);
        let h = s.host.hirq | HIRQ_CSCT;
        CdState {
            buf: Buffers { sectorstore: true, ..s.buf },
            host: Host {
                hirq: if s.buf.free_blocks <= 0 {
                    h | HIRQ_BFUL
                } else {
                    h
                },
                ..s.host
            },
            ..s
        }
    }

    /// The sector read ahead is processed: audio goes to the mixer, data to the
    /// buffer as long as it has room.
    #[verifier::opaque]
    pub open spec fn read_ahead_processed(self) -> CdState {
        let d = self.drive;
        if !d.pre_in {
            self
        } else if d.pre_audio {
            CdState {
                pos: Position { is_cdrom: false, ..self.pos },
                drive: d.consumed(),
                ..self.audio_read(d.pre_fad)
            }
        } else {
            let s = CdState { pos: Position { is_cdrom: true, ..self.pos }, ..self };
            if s.buf.free_blocks > 0 {
                CdState { drive: d.consumed(), ..s.data_read(d.pre_fad) }
            } else {
                s
            }
        }
    }

    /// The next sector is read ahead once the last one is consumed.
    #[verifier::opaque]
    pub open spec fn read_ahead_filled(self) -> CdState {
        let fad = self.drive.sector;
        if self.drive.pre_in {
            self
        } else {
            CdState {
                pos: Position { cd_curfad: fad, ..self.located(fad) },
                drive: self.drive.holding(
                    fad,
                    match self.track_at(fad) {
                        Some(t) => t.is_audio,
                        None => false,
                    },
                ),
                ..self
            }
        }
    }

    /// The drive's timers reloaded for one more sector.
    pub open spec fn next_sector_timed(self) -> CdState {
        CdState {
            drive: Drive {
                periodic_idle: PERIODIC_ACTIVE_CYC,
                counter: (self.drive.counter + sector_cyc_spec(self.drive.speed)) as i64,
                ..self.drive
            },
            ..self
        }
    }

    /// One step of a playing drive.
    pub open spec fn play_ticked(self) -> CdState {
        self.read_ahead_processed().read_ahead_filled().next_sector_timed()
    }

    /// One step of a pausing drive: it keeps a sector read ahead.
    pub open spec fn pause_ticked(self) -> CdState {
        let d = self.drive;
        (if d.pre_in {
            self
        } else {
            CdState {
                pos: Position { cd_curfad: d.sector, ..self.pos },
                drive: Drive { pre_fad: d.sector, pre_in: true, ..d },
                ..self
            }
        }).next_sector_timed()
    }

    /// Recognition is complete: the drive rests at the start of the disc.
    pub open spec fn recognised(self) -> CdState {
        CdState {
            pos: Position {
                status: STAT_PAUSE | (self.pos.status & STAT_PERI),
                cd_curfad: FAD_OFFSET,
                ..self.pos
            },
            drive: Drive {
                phase: DrivePhase::Idle,
                sector: FAD_OFFSET,
                counter: (self.drive.counter + PERIODIC_IDLE_CYC) as i64,
                periodic_idle: PERIODIC_IDLE_CYC,
                ..self.drive
            },
            ..self
        }
    }

    /// The step of the phase machine that is due when its counter runs out.
    #[verifier::opaque]
    pub open spec fn phase_stepped(self) -> CdState {
        let d = self.drive;
        match d.phase {
            DrivePhase::Idle => CdState {
                drive: Drive { counter: (d.counter + PERIODIC_IDLE_CYC) as i64, ..d },
                ..self
            },
            DrivePhase::Startup => self.recognised(),
            DrivePhase::SeekStart => self.seek_resolved(),
            DrivePhase::SeekSettle => self.seek_settled(),
            DrivePhase::Seek => CdState {
                drive: Drive {
                    processed: false,
                    pre_in: false,
                    phase: DrivePhase::Play,
                    counter: (d.counter + sector_cyc_spec(d.speed)) as i64,
                    ..d
                },
                ..self
            },
            DrivePhase::Play => self.play_ticked(),
            DrivePhase::Pause => self.pause_ticked(),
        }
    }

    /// The pause sequence moves on: the end of the range is announced once the
    /// status has turned to PAUSE, and a drive that paused for want of buffer
    /// space resumes when there is some.
    #[verifier::opaque]
    pub open spec fn pause_sequenced(self) -> CdState {
        let d = Drive { pre_in: false, ..self.drive };
        if d.pause_counter == 1 {
            let s = self.with_status(STAT_PAUSE);
            CdState {
                host: Host {
                    hirq: if self.end_met() && d.end_irq != 0 && d.repeat_counter & 0x80 == 0 {
                        self.host.hirq | d.end_irq
                    } else {
                        self.host.hirq
                    },
                    ..self.host
                },
                drive: Drive { fadstoplay: (-1) as i64, end_irq: 0, pause_counter: (-1) as i32, ..d },
                ..s
            }
        } else if d.pause_counter == -1 {
            if !self.end_met() && self.buf.free_blocks > 0 {
                CdState {
                    drive: Drive {
                        fadstoplay: (-1) as i64,
                        phase: DrivePhase::Play,
                        counter: SEEK_CPI_DELAY_CYC as i64,
                        ..d
                    },
                    ..self.with_status(STAT_BUSY)
                }
            } else {
                CdState {
                    drive: Drive { fadstoplay: (-1) as i64, ..d },
                    ..self.with_status(STAT_PAUSE)
                }
            }
        } else {
            CdState { drive: Drive { pause_counter: (d.pause_counter + 1) as i32, ..d }, ..self }
        }
    }

    /// The end of the range was reached while playing: the drive pauses, or
    /// replays the range while repeats are left.
    #[verifier::opaque]
    pub open spec fn range_ended(self) -> CdState {
        let d = Drive { pre_in: false, ..self.drive };
        let s = self.with_status(STAT_BUSY);
        if d.repeat_counter >= d.play_repeat {
            CdState {
                drive: Drive {
                    sector: self.pos.cd_curfad,
                    phase: DrivePhase::Pause,
                    pause_counter: if d.end_irq != 0 {
                        0
                    } else {
                        1
                    },
                    ..d
                },
                ..s
            }
        } else {
            CdState {
                drive: Drive {
                    repeat_counter: (if d.repeat_counter < 0x0E {
                        (d.repeat_counter + 1) as u8
                    } else {
                        d.repeat_counter
                    }) | 0x80,
                    phase: DrivePhase::SeekStart,
                    counter: SEEK_CPI_DELAY_CYC as i64,
                    ..d
                },
                ..s
            }
        }
    }

    /// The periodic work on a drive that has a sector read ahead.
    #[verifier::opaque]
    pub open spec fn transfer_supervised(self) -> CdState {
        let d = self.drive;
        if !d.pre_in {
            self
        } else if d.phase == DrivePhase::Pause {
            self.pause_sequenced()
        } else if d.phase == DrivePhase::Play {
            if self.end_met() {
                self.range_ended()
            } else if self.buf.free_blocks <= 0 {
                CdState {
                    drive: Drive {
                        pre_in: false,
                        phase: DrivePhase::Pause,
                        pause_counter: 0,
                        ..d
                    },
                    ..self.with_status(STAT_BUSY)
                }
            } else {
                let r = Drive { repeat_counter: d.repeat_counter & !0x80u8, ..d };
                if d.processed {
                    CdState {
                        drive: Drive { processed: false, ..r },
                        ..self.with_status(STAT_PLAY)
                    }
                } else {
                    CdState { drive: r, ..self }
                }
            }
        } else {
            self
        }
    }

    /// Whether an unsolicited report may replace CR1..CR4: the host has engaged
    /// the block, has read the last response, and is not composing a command.
    pub open spec fn may_report(self) -> bool {
        let l = self.host.link;
        l.host_initialized && !l.command_pending && l.cr_written == 0
    }

    /// CR1..CR4 hold an unsolicited report, if one may be made.
    pub open spec fn peri_reported(self) -> CdState {
        if self.may_report() {
            self.with_status(self.pos.status | STAT_PERI).reported()
        } else {
            self
        }
    }

    /// The periodic report of a drive with a disc.
    #[verifier::opaque]
    pub open spec fn periodic(self) -> CdState {
        let s = CdState {
            drive: Drive { periodic_idle: PERIODIC_IDLE_CYC, ..self.drive },
            ..self
        };
        s.transfer_supervised().peri_reported().raised(HIRQ_SCDQ)
    }

    /// Everything that is due now is done.
    #[verifier::opaque]
    pub open spec fn due_done(self) -> CdState {
        let s = if self.drive.counter <= 0 {
            self.phase_stepped()
        } else {
            self
        };
        if s.drive.periodic_idle <= 0 {
            s.periodic()
        } else {
            s
        }
    }

    /// Master cycles to the next event.
    pub open spec fn next_event(self) -> int {
        let n = if self.drive.counter < self.drive.periodic_idle {
            self.drive.counter as int
        } else {
            self.drive.periodic_idle as int
        };
        if n < 1 {
            1
        } else {
            n
        }
    }

    /// The drive's timers `n` master cycles later.
    pub open spec fn elapsed(self, n: int) -> CdState {
        CdState {
            drive: Drive {
                counter: (self.drive.counter - n) as i64,
                periodic_idle: (self.drive.periodic_idle - n) as i64,
                ..self.drive
            },
            ..self
        }
    }

    /// The drive `cycles` master cycles later: events are processed in order,
    /// each at its own time.
    pub open spec fn run(self, cycles: int) -> CdState
        decreases cycles,
    {
        let s = self.due_done();
        if cycles <= 0 {
            s
        } else {
            let n = if s.next_event() < cycles {
                s.next_event()
            } else {
                cycles
            };
            s.elapsed(n).run(cycles - n)
        }
    }

    /// The unsolicited report of a block without a disc.
    pub open spec fn idle_reported(self) -> CdState {
        if self.may_report() {
            self.peri_reported().raised(HIRQ_SCDQ)
        } else {
            self
        }
    }

    /// The block `cycles` master cycles later.
    pub open spec fn ticked(self, cycles: u64) -> CdState {
        if self.disc is Some {
            self.run((cycles as i64) as int).hirq_noted(HIRQ_CAUSE_READPUMP)
        } else {
            let total = self.drive.periodic_accum + cycles;
            let s = CdState {
                drive: Drive {
                    periodic_accum: (total % PERIODIC_CYCLES as int) as u64,
                    ..self.drive
                },
                ..self
            };
            if total >= PERIODIC_CYCLES {
                s.idle_reported()
            } else {
                s
            }
        }
    }
}

} // verus!
