//! The host commands.

use vstd::prelude::*;
use crate::disc::{SectorSource, FAD_OFFSET};
use super::buffers::{BlockView, Buffers, Filter};
use super::model::{CdState, Host, Logs};
use super::port::{Port, Xfer32};
use super::{
    CdBlock, CmdTrace, Drive, DrivePhase, Handshake, Position, HIRQ_BFUL, HIRQ_CMOK, HIRQ_DCHG, HIRQ_DRDY,
    HIRQ_ECPY, HIRQ_EFLS, HIRQ_EHST, HIRQ_ESEL, HIRQ_MPED, HIRQ_PEND, MAX_BLOCKS, MAX_FILTERS,
    NO_FILTER, STAT_BUSY, STAT_PAUSE, STAT_REJECT, STAT_STANDBY, STAT_TRANS,
};

verus! {

/// A 24-bit number: the low byte of `hi` above `lo`.
pub open spec fn num24(hi: u16, lo: u16) -> u32 {
    ((hi as u32 & 0xFF) << 16) | lo as u32
}

/// The high byte of a register.
pub open spec fn hi8(r: u16) -> u8 {
    (r >> 8) as u8
}

/// The sector length that a code of Set Sector Length selects; 0 for none.
pub open spec fn sector_length(code: u16) -> u32 {
    if code == 0 {
        2048
    } else if code == 1 {
        2336
    } else if code == 2 {
        2340
    } else if code == 3 {
        2352
    } else {
        0
    }
}

/// Data words held by the slots of `idxs`.
pub open spec fn data_words(blocks: Seq<BlockView>, idxs: Seq<usize>) -> int
    decreases idxs.len(),
{
    if idxs.len() == 0 {
        0
    } else {
        data_words(blocks, idxs.drop_last()) + (if blocks[idxs.last() as int].size < 0 {
            0int
        } else {
            blocks[idxs.last() as int].size / 2
        })
    }
}

/// Start of a range to play that CR1 and CR2 hold; all ones keeps the last one.
pub open spec fn window_from(cr1: u16, cr2: u16, last: u32) -> u32 {
    if num24(cr1, cr2) == 0xFF_FFFF {
        last
    } else {
        num24(cr1, cr2)
    }
}

/// End of the range from `start` that CR3 and CR4 hold; all ones keeps the last one,
/// and between two FADs it counts sectors.
pub open spec fn window_to(cr3: u16, cr4: u16, start: u32, last: u32) -> u32 {
    let n = num24(cr3, cr4);
    if n == 0xFF_FFFF {
        last
    } else if start & 0x80_0000 != 0 && n & 0x80_0000 != 0 {
        0x80_0000 | (start.wrapping_add(n) & 0x7F_FFFF)
    } else {
        n
    }
}

/// The range that a Play Disc command in CR1..CR4 asks for, after one of `last`.
pub fn play_window(cr: [u16; 4], last: (u32, u32)) -> (r: (u32, u32))
    ensures
        r.0 == window_from(cr[0], cr[1], last.0),
        r.1 == window_to(cr[2], cr[3], r.0, last.1),
{
    let start: u32 = ((cr[0] as u32 & 0xFF) << 16) | cr[1] as u32;
    let end: u32 = ((cr[2] as u32 & 0xFF) << 16) | cr[3] as u32;
    let from: u32 = if start == 0xFF_FFFF {
        last.0
    } else {
        start
    };
    let to: u32 = if end == 0xFF_FFFF {
        last.1
    } else if (from & 0x80_0000) != 0 && (end & 0x80_0000) != 0 {
        0x80_0000 | (from.wrapping_add(end) & 0x7F_FFFF)
    } else {
        end
    };
    (from, to)
}

/// The commands on status, contents and the drive.
pub open spec fn on_drive(command: u8) -> bool {
    ||| 0x01 <= command <= 0x04
    ||| command == 0x06
    ||| command == 0x10
    ||| command == 0x11
    ||| command == 0x20
    ||| command == 0x67
    ||| command == 0xE0
    ||| command == 0xE1
}

/// The commands on the filters and the selector.
pub open spec fn on_selector(command: u8) -> bool {
    ||| 0x30 <= command <= 0x32
    ||| command == 0x40
    ||| 0x42 <= command <= 0x46
    ||| command == 0x48
}

/// The commands on buffered sectors and files.
pub open spec fn on_data(command: u8) -> bool {
    ||| 0x50 <= command <= 0x54
    ||| 0x60 <= command <= 0x63
    ||| 0x70 <= command <= 0x75
}

impl CdState {
    /// The high byte of CR3: a filter or partition number.
    pub open spec fn selector(self) -> int {
        hi8(self.host.cr3) as int
    }

    /// The selector, brought down to the last filter.
    pub open spec fn filter_index(self) -> int {
        if self.selector() < MAX_FILTERS {
            self.selector()
        } else {
            MAX_FILTERS - 1
        }
    }

    /// Sectors in the selected partition, 0 if there is no such partition.
    pub open spec fn available(self) -> int {
        if self.selector() < MAX_FILTERS {
            self.buf.partitions[self.selector()].len() as int
        } else {
            0
        }
    }

    /// The file number in CR3 and CR4.
    pub open spec fn file_number(self) -> u32 {
        num24(self.host.cr3, self.host.cr4)
    }

    /// A status report, with `bits` raised.
    pub open spec fn acknowledged(self, bits: u16) -> CdState {
        self.reported().raised(bits)
    }

    /// The request is rejected.
    pub open spec fn rejected(self, bits: u16) -> CdState {
        self.answered(STAT_REJECT, 0, 0, 0).raised(bits)
    }

    /// A status report whose CR1 says that the request is rejected.
    pub open spec fn report_rejected(self) -> CdState {
        let s = self.reported();
        CdState { host: Host { cr1: STAT_REJECT, ..s.host }, ..s }.raised(HIRQ_CMOK)
    }

    /// The state with filter `f` replaced, if there is such a filter.
    pub open spec fn with_filter(self, f: Filter) -> CdState {
        if self.selector() < MAX_FILTERS {
            CdState {
                buf: Buffers { filters: self.buf.filters.update(self.selector(), f), ..self.buf },
                ..self
            }
        } else {
            self
        }
    }

    /// The selected filter.
    pub open spec fn filter(self) -> Filter {
        self.buf.filters[self.selector()]
    }

    // ---- 0x00..0x06: status, contents, initialisation ------------------------

    pub open spec fn hardware_info(self) -> CdState {
        self.answered((self.pos.status as u16) << 8, 0x0002, 0x0000, 0x0600).raised(HIRQ_CMOK)
    }

    /// The table of contents is staged, with a disc.
    pub open spec fn toc_staged(self) -> CdState {
        let s = match self.disc {
            Some(m) => CdState { port: self.port.staged(m.toc), ..self },
            None => self,
        };
        s.answered(s.stat_word() | STAT_TRANS, 0x00CC, 0, 0).raised(HIRQ_CMOK | HIRQ_DRDY)
    }

    /// Session 0 of a disc ends at the lead-out; anything else starts at 0.
    pub open spec fn session_info(self) -> CdState {
        let lo = match self.disc {
            Some(m) => if self.host.cr1 & 0xFF == 0 {
                m.lead_out
            } else {
                0
            },
            None => 0,
        };
        self.with_status(STAT_PAUSE).answered(
            (STAT_PAUSE as u16) << 8,
            0,
            0x0100 | ((lo >> 16) & 0xFF) as u16,
            lo as u16,
        ).raised(HIRQ_CMOK)
    }

    /// The drive returns to the start of the disc, unless it is still spinning
    /// up or has no disc.
    pub open spec fn drive_initialised(self) -> CdState {
        if self.disc is Some && self.drive.phase != DrivePhase::Startup {
            CdState {
                drive: Drive { sector: FAD_OFFSET, ..self.drive.parked() },
                pos: Position {
                    status: STAT_PAUSE,
                    cd_curfad: FAD_OFFSET,
                    is_cdrom: false,
                    ..self.pos
                },
                ..self
            }
        } else {
            self
        }
    }

    /// HIRQ after initialisation. A disc change is announced once.
    pub open spec fn hirq_initialised(self) -> CdState {
        let h = self.host.hirq & 0xFFE5;
        CdState {
            host: Host {
                hirq: (if self.host.link.disk_changed {
                    h | HIRQ_DCHG
                } else {
                    h & !HIRQ_DCHG
                }) | HIRQ_CMOK | HIRQ_ESEL | HIRQ_EHST | HIRQ_ECPY | HIRQ_EFLS,
                link: Handshake { disk_changed: false, ..self.host.link },
                ..self.host
            },
            ..self
        }
    }

    /// The CD system is initialised.
    pub open spec fn initialised(self) -> CdState {
        let d = self.drive_initialised();
        CdState {
            buf: Buffers { buf_full: false, ..d.buf },
            drive: Drive {
                speed: if self.host.cr1 & 0x10 != 0 {
                    1
                } else {
                    2
                },
                ..d.drive
            },
            ..d
        }.reported().hirq_initialised()
    }

    /// The data transfer ends: the count of words read is reported, all ones
    /// when there was none, and a transfer that deletes gives its sectors back.
    pub open spec fn transfer_ended(self) -> CdState {
        let n = self.port.xfer_done as u32;
        let s = CdState { port: Port { transfer_request: false, ..self.port }, ..self };
        let a = if n != 0 {
            s.answered(
                s.stat_word() | ((n >> 17) & 0xFF) as u16,
                ((n >> 1) & 0xFFFF) as u16,
                0,
                0,
            )
        } else {
            s.answered(s.stat_word() | 0x00FF, 0xFFFF, 0, 0)
        };
        let d = match self.port.xfer32 {
            Some(x) => if x.delete {
                a.deleted(x.part as int, x.pos as int, x.num as int)
            } else {
                a
            },
            None => a,
        };
        CdState {
            port: Port {
                xfer: Seq::empty(),
                xfer_pos: 0,
                xfer_done: 0,
                xfer32: None,
                ..d.port
            },
            ..d
        }.raised(HIRQ_CMOK | HIRQ_EHST)
    }

    // ---- 0x30..0x48: device connection and filters ----------------------------

    pub open spec fn device_connected(self) -> CdState {
        CdState {
            buf: Buffers { cd_device_filter: hi8(self.host.cr3), ..self.buf },
            ..self
        }.acknowledged(HIRQ_CMOK | HIRQ_ESEL)
    }

    pub open spec fn device_told(self) -> CdState {
        self.answered(self.stat_word(), 0, (self.buf.cd_device_filter as u16) << 8, 0).raised(
            HIRQ_CMOK,
        )
    }

    pub open spec fn last_buffer_told(self) -> CdState {
        self.answered(self.stat_word(), 0, (self.buf.last_buffer as u16) << 8, 0).raised(HIRQ_CMOK)
    }

    pub open spec fn filter_range_set(self) -> CdState {
        let h = self.host;
        self.with_filter(
            Filter { fad: num24(h.cr1, h.cr2), range: num24(h.cr3, h.cr4), ..self.filter() },
        ).acknowledged(HIRQ_CMOK | HIRQ_ESEL)
    }

    pub open spec fn filter_subheader_set(self) -> CdState {
        let h = self.host;
        self.with_filter(
            Filter {
                chan: h.cr1 as u8,
                smmask: hi8(h.cr2),
                cimask: h.cr2 as u8,
                fid: h.cr3 as u8,
                smval: hi8(h.cr4),
                cival: h.cr4 as u8,
                ..self.filter()
            },
        ).acknowledged(HIRQ_CMOK | HIRQ_ESEL)
    }

    pub open spec fn filter_subheader_told(self) -> CdState {
        let f = self.buf.filters[self.filter_index()];
        self.answered(
            self.stat_word() | f.chan as u16,
            ((f.smmask as u16) << 8) | f.cimask as u16,
            f.fid as u16,
            ((f.smval as u16) << 8) | f.cival as u16,
        ).raised(HIRQ_CMOK | HIRQ_ESEL)
    }

    /// The filter's mode is set; bit 7 clears the whole filter instead.
    pub open spec fn filter_mode_set(self) -> CdState {
        let mode = self.host.cr1 as u8;
        self.with_filter(
            if mode & 0x80 != 0 {
                Filter::zero()
            } else {
                Filter { mode, ..self.filter() }
            },
        ).acknowledged(HIRQ_CMOK | HIRQ_ESEL)
    }

    pub open spec fn filter_mode_told(self) -> CdState {
        let f = self.buf.filters[self.filter_index()];
        self.answered(self.stat_word() | f.mode as u16, 0, 0, 0).raised(HIRQ_CMOK | HIRQ_ESEL)
    }

    /// CR1 bit 0 sets the true connector, bit 1 the false connector.
    pub open spec fn filter_connection_set(self) -> CdState {
        let h = self.host;
        let f = self.filter();
        self.with_filter(
            Filter {
                condtrue: if h.cr1 & 1 != 0 {
                    hi8(h.cr2)
                } else {
                    f.condtrue
                },
                condfalse: if h.cr1 & 2 != 0 {
                    h.cr2 as u8
                } else {
                    f.condfalse
                },
                ..f
            },
        ).acknowledged(HIRQ_CMOK | HIRQ_ESEL)
    }

    /// What Reset Selector leaves of a filter, by the flags of CR1.
    pub open spec fn filter_reset(flags: u16, f: Filter) -> Filter {
        let a = if flags & 0x80 != 0 {
            Filter { condfalse: 0, ..f }
        } else {
            f
        };
        let b = if flags & 0x40 != 0 {
            Filter { condtrue: 0, ..a }
        } else {
            a
        };
        if flags & 0x10 != 0 {
            Filter { range: 0xFFFF_FFFF, ..Filter::zero() }
        } else {
            b
        }
    }

    /// Every filter is reset by the flags of CR1.
    pub open spec fn filters_reset(self, flags: u16) -> CdState {
        CdState {
            buf: Buffers {
                filters: Seq::new(
                    self.buf.filters.len(),
                    |i: int| Self::filter_reset(flags, self.buf.filters[i]),
                ),
                ..self.buf
            },
            ..self
        }
    }

    /// With CR1's low byte 0 the selected partition is cleared; else its flags
    /// reset filters, and bit 2 clears all partitions.
    pub open spec fn selector_reset(self) -> CdState {
        let cr1 = self.host.cr1;
        if cr1 & 0xFF == 0 {
            (if self.selector() < MAX_FILTERS {
                self.cleared(self.selector())
            } else {
                self
            }).acknowledged(HIRQ_CMOK | HIRQ_ESEL)
        } else {
            let s = self.filters_reset(cr1);
            (if cr1 & 0x04 != 0 {
                let c = s.all_cleared(MAX_FILTERS as int);
                CdState { buf: Buffers { buf_full: false, ..c.buf }, ..c }
            } else {
                s
            }).acknowledged(HIRQ_CMOK | HIRQ_ESEL)
        }
    }

    // ---- 0x50..0x54: buffer information ---------------------------------------

    pub open spec fn buffer_size_told(self) -> CdState {
        let n = self.buf.free_blocks;
        self.answered(
            self.stat_word(),
            (if n < 0 {
                0
            } else if n > MAX_BLOCKS {
                MAX_BLOCKS as i32
            } else {
                n
            }) as u16,
            0x1800,
            MAX_BLOCKS as u16,
        ).raised(HIRQ_CMOK)
    }

    pub open spec fn sector_number_told(self) -> CdState {
        self.answered(self.stat_word(), 0, 0, self.available() as u16).raised(HIRQ_CMOK)
    }

    /// The sectors from CR2 on, CR4 of them, as far as the partition reaches.
    pub open spec fn size_range(self) -> Seq<usize> {
        if self.selector() < MAX_FILTERS {
            let p = self.buf.partitions[self.selector()];
            let from = if self.host.cr2 < p.len() {
                self.host.cr2 as int
            } else {
                p.len() as int
            };
            let to = if self.host.cr2 + self.host.cr4 < p.len() {
                self.host.cr2 + self.host.cr4
            } else {
                p.len() as int
            };
            p.subrange(from, to)
        } else {
            Seq::empty()
        }
    }

    pub open spec fn size_calculated(self) -> CdState {
        CdState {
            buf: Buffers {
                calcsize: data_words(self.buf.blocks, self.size_range()) as u32,
                ..self.buf
            },
            ..self
        }.acknowledged(HIRQ_CMOK | HIRQ_ESEL)
    }

    pub open spec fn size_told(self) -> CdState {
        let n = self.buf.calcsize;
        self.answered(self.stat_word() | ((n >> 16) & 0xFF) as u16, n as u16, 0, 0).raised(
            HIRQ_CMOK,
        )
    }

    pub open spec fn sector_info_told(self) -> CdState {
        let offs = (self.host.cr2 & 0xFF) as int;
        (if offs < self.available() {
            let b = self.buf.blocks[self.buf.partitions[self.selector()][offs] as int];
            self.answered(
                self.stat_word() | ((b.fad >> 16) & 0xFF) as u16,
                (b.fad & 0xFFFF) as u16,
                ((b.fnum as u16) << 8) | b.chan as u16,
                ((b.subm as u16) << 8) | b.cinf as u16,
            )
        } else {
            CdState { host: Host { cr1: self.host.cr1 | STAT_REJECT, ..self.host }, ..self }
        }).raised(HIRQ_CMOK | HIRQ_ESEL)
    }

    // ---- 0x10..0x20: play, seek, subcode --------------------------------------

    /// Start of the commanded range.
    pub open spec fn play_from(self) -> u32 {
        window_from(self.host.cr1, self.host.cr2, self.drive.play_start)
    }

    /// End of the commanded range.
    pub open spec fn play_to(self) -> u32 {
        window_to(self.host.cr3, self.host.cr4, self.play_from(), self.drive.play_end)
    }

    /// The drive starts on a range, answering with a busy report.
    pub open spec fn range_commanded(
        self,
        start: u32,
        end: u32,
        repeat: u8,
        keep: bool,
    ) -> CdState {
        CdState {
            buf: Buffers { sectorstore: false, ..self.buf },
            ..self
        }.with_status(STAT_BUSY).reported().seek_commanded(
            start,
            end,
            repeat,
            HIRQ_PEND,
            keep,
        ).raised(HIRQ_CMOK)
    }

    /// The range is played; one that mixes FAD and track addressing is
    /// rejected.
    pub open spec fn play_commanded(self) -> CdState {
        let pm = hi8(self.host.cr3);
        let start = self.play_from();
        let end = self.play_to();
        if (start ^ end) & 0x80_0000 != 0 && end != 0 {
            self.report_rejected()
        } else {
            self.range_commanded(
                start,
                end,
                if pm & 0x70 == 0 {
                    pm & 0x0F
                } else {
                    self.drive.play_repeat
                },
                pm & 0x80 != 0,
            )
        }
    }

    /// The drive is parked and positioned: at a FAD, on a track, or stopped.
    pub open spec fn disc_sought(self) -> CdState {
        let h = self.host;
        let s = CdState { drive: self.drive.parked(), ..self };
        let pos = if h.cr1 & 0x80 != 0 {
            Position {
                status: STAT_PAUSE,
                cd_curfad: if num24(h.cr1, h.cr2) == 0xFF_FFFF {
                    self.pos.cd_curfad
                } else {
                    ((h.cr1 as u32 & 0x7F) << 16) | h.cr2 as u32
                },
                ..self.pos
            }
        } else if h.cr2 >> 8 != 0 {
            Position { status: STAT_PAUSE, track: hi8(h.cr2), ..self.pos }
        } else {
            Position {
                status: STAT_STANDBY,
                cd_curfad: 0xFFFF_FFFF,
                track: 0xFF,
                ctrladdr: 0xFF,
                index: 0xFF,
                repcnt: 0x7F,
                ..self.pos
            }
        };
        CdState { pos, ..s }.acknowledged(HIRQ_CMOK)
    }

    /// The Q subcode of the head position: control/address, track, index, FAD
    /// within the track, a zero, and the FAD.
    pub open spec fn subcode_q(self) -> Seq<u8> {
        let fad = self.pos.cd_curfad;
        let rel = match self.track_at(fad) {
            Some(t) => fad.wrapping_sub(t.start_fad),
            None => 0u32,
        };
        seq![
            self.pos.ctrladdr,
            self.pos.track,
            self.pos.index,
            (rel >> 16) as u8,
            (rel >> 8) as u8,
            rel as u8,
            0u8,
            (fad >> 16) as u8,
            (fad >> 8) as u8,
            fad as u8,
        ]
    }

    /// `data` is staged and announced as `words` words.
    pub open spec fn subcode_staged(self, data: Seq<u8>, words: u16) -> CdState {
        let s = CdState { port: self.port.staged(data), ..self };
        s.answered(s.stat_word(), words, 0, 0).raised(HIRQ_CMOK | HIRQ_DRDY)
    }

    /// Subcode Q (type 0) or R to W (type 1, all ones); other types are
    /// rejected.
    pub open spec fn subcode_told(self) -> CdState {
        let ty = self.host.cr1 & 0xFF;
        if ty == 0 {
            self.subcode_staged(self.subcode_q(), 0x0005)
        } else if ty == 1 {
            self.subcode_staged(Seq::new(24, |i: int| 0xFFu8), 0x000C)
        } else {
            self.report_rejected()
        }
    }

    // ---- 0x60..0x63: sector data ------------------------------------------------

    pub open spec fn sector_length_set(self) -> CdState {
        let lin = sector_length(self.host.cr1 & 0xFF);
        let lout = sector_length((self.host.cr2 >> 8) & 0xFF);
        CdState {
            buf: Buffers {
                sectlenin: if lin != 0 {
                    lin
                } else {
                    self.buf.sectlenin
                },
                sectlenout: if lout != 0 {
                    lout
                } else {
                    self.buf.sectlenout
                },
                ..self.buf
            },
            ..self
        }.acknowledged(HIRQ_CMOK | HIRQ_ESEL)
    }

    /// The sectors from CR2 on, CR4 of them (all ones: the rest), lie within the
    /// selected partition.
    pub open spec fn range_valid(self) -> bool {
        &&& self.selector() < MAX_FILTERS
        &&& self.host.cr2 <= self.available()
        &&& self.host.cr4 == 0xFFFF || self.host.cr2 + self.host.cr4 <= self.available()
    }

    /// How many sectors CR4 asks for.
    pub open spec fn range_count(self) -> int {
        if self.host.cr4 == 0xFFFF {
            self.available() - self.host.cr2
        } else {
            self.host.cr4 as int
        }
    }

    /// A transfer of sector data is armed, or the request rejected.
    pub open spec fn transfer_armed(self, delete: bool) -> CdState {
        if !self.range_valid() {
            self.rejected(HIRQ_CMOK | HIRQ_EHST)
        } else {
            let s = CdState {
                port: Port {
                    xfer32: Some(
                        Xfer32 {
                            delete,
                            part: self.selector() as usize,
                            pos: self.host.cr2 as usize,
                            num: self.range_count() as usize,
                            sect: 0,
                            offs: 0,
                        },
                    ),
                    xfer_done: 0,
                    transfer_request: true,
                    ..self.port
                },
                ..self
            }.reported();
            CdState { host: Host { cr1: s.host.cr1 | STAT_TRANS, ..s.host }, ..s }.raised(
                HIRQ_CMOK | HIRQ_EHST | HIRQ_DRDY,
            )
        }
    }

    /// Sectors of a partition are deleted, or the request rejected.
    pub open spec fn sectors_deleted(self) -> CdState {
        if !self.range_valid() || self.available() == 0 {
            self.rejected(HIRQ_CMOK | HIRQ_EHST)
        } else {
            self.deleted(self.selector(), self.host.cr2 as int, self.range_count()).acknowledged(
                HIRQ_CMOK | HIRQ_EHST,
            )
        }
    }

    // ---- 0x70..0x75: files --------------------------------------------------------

    pub open spec fn directory_changed(self) -> CdState {
        CdState {
            files: self.files.changed(self.disc, self.file_number()),
            ..self
        }.acknowledged(HIRQ_CMOK | HIRQ_EFLS)
    }

    /// The filter a file read connects to.
    pub open spec fn file_filter(self) -> u8 {
        if self.selector() < MAX_FILTERS {
            hi8(self.host.cr3)
        } else {
            NO_FILTER
        }
    }

    pub open spec fn directory_read(self) -> CdState {
        CdState {
            buf: Buffers { cd_device_filter: self.file_filter(), ..self.buf },
            ..self
        }.acknowledged(HIRQ_CMOK | HIRQ_EFLS)
    }

    pub open spec fn scope_told(self) -> CdState {
        self.answered(
            self.stat_word(),
            self.files.numfiles as u16,
            0x0100,
            self.files.firstfile as u16,
        ).raised(HIRQ_CMOK | HIRQ_EFLS)
    }

    /// The 12-byte record of directory entry `n`: FAD, length, gap and unit
    /// size, number, flags.
    pub open spec fn file_record(self, n: u32) -> Seq<u8> {
        let e = self.files.dir[n as int];
        seq![
            (e.firstfad >> 24) as u8,
            (e.firstfad >> 16) as u8,
            (e.firstfad >> 8) as u8,
            e.firstfad as u8,
            (e.length >> 24) as u8,
            (e.length >> 16) as u8,
            (e.length >> 8) as u8,
            e.length as u8,
            e.interleave_gap_size,
            e.file_unit_size,
            n as u8,
            e.flags,
        ]
    }

    /// The record of a file is staged; `0xFFFFFF` announces the whole
    /// directory.
    pub open spec fn file_info_told(self) -> CdState {
        let n = self.file_number();
        let p = if n != 0xFF_FFFF && n < self.files.dir.len() {
            self.port.staged(self.file_record(n))
        } else {
            Port { xfer_done: 0, transfer_request: true, ..self.port }
        };
        let s = CdState { port: p, ..self };
        s.answered(
            s.stat_word() | STAT_TRANS,
            if n != 0xFF_FFFF {
                6
            } else {
                0x5F4
            },
            0,
            0,
        ).raised(HIRQ_CMOK | HIRQ_DRDY)
    }

    /// Sectors of a file of `length` bytes.
    pub open spec fn file_sectors(self, length: u32) -> int {
        (length + self.buf.sectlenin - 1) / self.buf.sectlenin as int
    }

    /// A file is read from a sector offset to its end; an unknown file only
    /// gets a status report.
    pub open spec fn file_read(self) -> CdState {
        let h = self.host;
        let offset = ((h.cr1 as u32 & 0xFF) << 8) | (h.cr2 as u32 & 0xFF);
        let id = self.file_number();
        (if id < self.files.dir.len() {
            let e = self.files.dir[id as int];
            let n = self.file_sectors(e.length);
            let start = e.firstfad.wrapping_add(offset);
            let count = if n > offset {
                (n - offset) as u32
            } else {
                0u32
            };
            CdState {
                buf: Buffers {
                    cd_device_filter: self.file_filter(),
                    sectorstore: false,
                    ..self.buf
                },
                ..self
            }.with_status(STAT_BUSY).reported().seek_commanded(
                0x80_0000 | (start & 0x7F_FFFF),
                0x80_0000 | (start.wrapping_add(count) & 0x7F_FFFF),
                0,
                HIRQ_EFLS,
                false,
            )
        } else {
            self.reported()
        }).raised(HIRQ_CMOK | HIRQ_EHST)
    }

    /// Any read or transfer stops; the drive turns idle.
    pub open spec fn file_aborted(self) -> CdState {
        let s = CdState {
            drive: self.drive.parked(),
            port: Port { xfer32: None, ..self.port },
            ..self
        };
        (if self.disc is Some {
            s.with_status(STAT_PAUSE)
        } else {
            s
        }).acknowledged(HIRQ_CMOK | HIRQ_EFLS)
    }

    // ---- 0x67, 0xE0, 0xE1 ----------------------------------------------------------

    /// A data disc passes authentication.
    pub open spec fn authenticated(self) -> CdState {
        if self.disc is Some {
            let s = self.with_status(STAT_PAUSE);
            (if self.host.cr2 != 0x0001 {
                CdState {
                    buf: Buffers { sectorstore: true, ..s.buf },
                    host: Host { hirq: 0x07C5 | HIRQ_MPED, ..s.host },
                    ..s
                }
            } else {
                s.raised(HIRQ_CMOK)
            }).reported()
        } else {
            self.raised(HIRQ_CMOK).reported()
        }
    }

    /// The kind of disc: 4 a Saturn data disc, 2 MPEG, 0 none.
    pub open spec fn region_told(self) -> CdState {
        self.answered(
            self.stat_word(),
            if self.host.cr2 == 0x0001 {
                0x0002
            } else if self.disc is Some {
                0x0004
            } else {
                0x0000
            },
            0,
            0,
        ).raised(HIRQ_CMOK)
    }

    pub open spec fn copy_error_told(self) -> CdState {
        self.answered(self.stat_word(), 0, 0, 0).raised(HIRQ_CMOK)
    }

    /// A command on status, contents or the drive.
    #[verifier::opaque]
    pub open spec fn drive_commanded(self, command: u8) -> CdState {
        match command {
            0x01 => self.hardware_info(),
            0x02 => self.toc_staged(),
            0x03 => self.session_info(),
            0x04 => self.initialised(),
            0x06 => self.transfer_ended(),
            0x10 => self.play_commanded(),
            0x11 => self.disc_sought(),
            0x20 => self.subcode_told(),
            0x67 => self.copy_error_told(),
            0xE0 => self.authenticated(),
            0xE1 => self.region_told(),
            _ => self.acknowledged(HIRQ_CMOK),
        }
    }

    /// A command on the filters and the selector.
    #[verifier::opaque]
    pub open spec fn selector_commanded(self, command: u8) -> CdState {
        match command {
            0x30 => self.device_connected(),
            0x31 => self.device_told(),
            0x32 => self.last_buffer_told(),
            0x40 => self.filter_range_set(),
            0x42 => self.filter_subheader_set(),
            0x43 => self.filter_subheader_told(),
            0x44 => self.filter_mode_set(),
            0x45 => self.filter_mode_told(),
            0x46 => self.filter_connection_set(),
            0x48 => self.selector_reset(),
            _ => self.acknowledged(HIRQ_CMOK),
        }
    }

    /// A command on buffered sectors or files.
    #[verifier::opaque]
    pub open spec fn data_commanded(self, command: u8) -> CdState {
        match command {
            0x50 => self.buffer_size_told(),
            0x51 => self.sector_number_told(),
            0x52 => self.size_calculated(),
            0x53 => self.size_told(),
            0x54 => self.sector_info_told(),
            0x60 => self.sector_length_set(),
            0x61 => self.transfer_armed(false),
            0x62 => self.sectors_deleted(),
            0x63 => self.transfer_armed(true),
            0x70 => self.directory_changed(),
            0x71 => self.directory_read(),
            0x72 => self.scope_told(),
            0x73 => self.file_info_told(),
            0x74 => self.file_read(),
            0x75 => self.file_aborted(),
            _ => self.acknowledged(HIRQ_CMOK),
        }
    }

    /// The command `command` with its parameters in CR1..CR4. One that is not known is
    /// answered with a status report.
    pub open spec fn commanded(self, command: u8) -> CdState {
        if on_drive(command) {
            self.drive_commanded(command)
        } else if on_selector(command) {
            self.selector_commanded(command)
        } else if on_data(command) {
            self.data_commanded(command)
        } else {
            self.acknowledged(HIRQ_CMOK)
        }
    }

    /// The command joins the history, if that is kept: the newest 512, where
    /// polls of the status by one caller share an entry.
    #[verifier::opaque]
    pub open spec fn command_logged(self, command: u8, cr_in: [u16; 4], hirq_in: u16) -> CdState {
        let l = self.logs;
        let e = CmdTrace {
            caller_pc: l.caller_pc,
            cmd: command,
            cr_in,
            cr_out: [self.host.cr1, self.host.cr2, self.host.cr3, self.host.cr4],
            hirq_in,
            hirq_out: self.host.hirq,
            status: self.pos.status,
        };
        if !l.cmd_log_on {
            self
        } else if command == 0x00 && l.cmd_log.len() > 0 && l.cmd_log.last().cmd == 0x00
            && l.cmd_log.last().caller_pc == l.caller_pc {
            self
        } else {
            CdState {
                logs: Logs {
                    cmd_log: (if l.cmd_log.len() >= 512 {
                        l.cmd_log.remove(0)
                    } else {
                        l.cmd_log
                    }).push(e),
                    ..l
                },
                ..self
            }
        }
    }

    /// The command in CR1..CR4 is run: the host is engaged, and its response is
    /// unread.
    #[verifier::opaque]
    pub open spec fn executed(self) -> CdState {
        let h = self.host;
        let command = hi8(h.cr1);
        CdState {
            host: Host {
                hirq: h.hirq & !HIRQ_CMOK,
                link: Handshake { host_initialized: true, command_pending: true, ..h.link },
                ..h
            },
            ..self
        }.commanded(command).hirq_noted(command as u32).command_logged(
            command,
            [h.cr1, h.cr2, h.cr3, h.cr4],
            h.hirq,
        )
    }
}

/// What Reset Selector leaves of a filter.
fn reset_filter(flags: u16, f: Filter) -> (r: Filter)
    ensures
        r == CdState::filter_reset(flags, f),
{
    let mut g: Filter = f;
    if flags & 0x80 != 0 {
        g.condfalse = 0;
    }
    if flags & 0x40 != 0 {
        g.condtrue = 0;
    }
    if flags & 0x10 != 0 {
        g = Filter::default();
        g.range = 0xFFFF_FFFF;
    }
    g
}

/// The sector length that a code selects; 0 for none.
fn sector_length_of(code: u16) -> (r: u32)
    ensures
        r == sector_length(code),
        r == 0 || r == 2048 || r == 2336 || r == 2340 || r == 2352,
{
    if code == 0 {
        2048
    } else if code == 1 {
        2336
    } else if code == 2 {
        2340
    } else if code == 3 {
        2352
    } else {
        0
    }
}

impl<S: SectorSource> CdBlock<S> {
    /// Puts a response into CR1..CR4 and raises HIRQ bits.
    fn answer(&mut self, cr1: u16, cr2: u16, cr3: u16, cr4: u16, bits: u16)
        ensures
            final(self)@ == old(self)@.answered(cr1, cr2, cr3, cr4).raised(bits),
            final(self).disc == old(self).disc,
    {
        self.cr1 = cr1;
        self.cr2 = cr2;
        self.cr3 = cr3;
        self.cr4 = cr4;
        self.hirq |= bits;
    }

    /// Answers with a status report and raises HIRQ bits.
    fn acknowledge(&mut self, bits: u16)
        ensures
            final(self)@ == old(self)@.acknowledged(bits),
            final(self).disc == old(self).disc,
    {
        self.cd_report();
        self.hirq |= bits;
    }

    /// Answers with a status report whose CR1 says "rejected".
    fn reject_report(&mut self)
        ensures
            final(self)@ == old(self)@.report_rejected(),
            final(self).disc == old(self).disc,
    {
        self.cd_report();
        self.cr1 = STAT_REJECT;
        self.hirq |= HIRQ_CMOK;
    }

    /// The high byte of CR3.
    fn select(&self) -> (r: usize)
        ensures
            r == self@.selector(),
            r <= 255,
    {
        (self.cr3 >> 8) as u8 as usize
    }

    /// The high byte of CR3, brought down to the last filter.
    fn select_filter(&self) -> (r: usize)
        ensures
            r == self@.filter_index(),
            r < MAX_FILTERS,
    {
        let f: usize = self.select();
        if f < MAX_FILTERS {
            f
        } else {
            MAX_FILTERS - 1
        }
    }

    /// Sectors in the selected partition.
    fn count_available(&self) -> (r: usize)
        requires
            self@.buf.wf(),
        ensures
            r == self@.available(),
            r <= MAX_BLOCKS,
    {
        let p: usize = self.select();
        proof {
            self.buf.buffers_match();
            self@.buf.held_bounds();
        }
        if p < MAX_FILTERS {
            self.buf.partitions[p].blocks.len()
        } else {
            0
        }
    }

    /// Deletes sectors of a partition; HIRQ stops saying that the buffer is full
    /// once a slot is given back.
    pub fn delete_sectors(&mut self, part: usize, ofs: usize, num: usize)
        requires
            old(self)@.buf.wf(),
            part < MAX_FILTERS,
            ofs + num <= usize::MAX,
        ensures
            final(self)@ == old(self)@.deleted(part as int, ofs as int, num as int),
            final(self).disc == old(self).disc,
            final(self)@.buf.wf(),
    {
        if self.buf.delete_partition_sectors(part, ofs, num) {
            self.hirq &= !HIRQ_BFUL;
        }
    }

    /// Get Hardware Info.
    fn cmd_hardware_info(&mut self)
        requires
            old(self)@.wf(),
        ensures
            final(self)@ == old(self)@.hardware_info(),
            final(self)@.wf(),
            final(self).disc == old(self).disc,
    {
        self.answer((self.pos.status as u16) << 8, 0x0002, 0x0000, 0x0600, HIRQ_CMOK);
    }

    /// Get TOC.
    fn cmd_get_toc(&mut self)
        requires
            old(self)@.wf(),
        ensures
            final(self)@ == old(self)@.toc_staged(),
            final(self)@.wf(),
            final(self).disc == old(self).disc,
    {
        if let Some(d) = &self.disc {
            let toc = d.toc();
            let mut data: Vec<u8> = Vec::new();
            data.extend_from_slice(toc.as_slice());
            assert(data@ =~= toc@);
            self.port.stage(data);
        }
        let stat: u16 = self.cd_stat();
        self.answer(stat | STAT_TRANS, 0x00CC, 0, 0, HIRQ_CMOK | HIRQ_DRDY);
    }

    /// Get Session Info.
    fn cmd_session_info(&mut self)
        requires
            old(self)@.wf(),
        ensures
            final(self)@ == old(self)@.session_info(),
            final(self)@.wf(),
            final(self).disc == old(self).disc,
    {
        let mut lo: u32 = 0;
        if let Some(d) = &self.disc {
            if self.cr1 & 0xFF == 0 {
                lo = d.lead_out_fad();
            }
        }
        self.pos.status = STAT_PAUSE;
        self.answer(
            (STAT_PAUSE as u16) << 8,
            0,
            0x0100 | ((lo >> 16) & 0xFF) as u16,
            lo as u16,
            HIRQ_CMOK,
        );
    }

    /// The drive's part of Initialize CD System.
    fn init_drive(&mut self)
        requires
            old(self)@.wf(),
        ensures
            final(self)@ == old(self)@.drive_initialised(),
            final(self)@.wf(),
            final(self).disc == old(self).disc,
    {
        if self.disc.is_some() && self.drive.phase != DrivePhase::Startup {
            self.drive.park();
            self.pos.status = STAT_PAUSE;
            self.pos.cd_curfad = FAD_OFFSET;
            self.drive.sector = FAD_OFFSET;
            self.pos.is_cdrom = false;
        }
    }

    /// HIRQ after Initialize CD System; a disc change is announced once.
    fn init_hirq(&mut self)
        requires
            old(self)@.wf(),
        ensures
            final(self)@ == old(self)@.hirq_initialised(),
            final(self)@.wf(),
            final(self).disc == old(self).disc,
    {
        let mut h: u16 = self.hirq & 0xFFE5;
        if self.link.disk_changed {
            h = h | HIRQ_DCHG;
        } else {
            h = h & !HIRQ_DCHG;
        }
        self.link.disk_changed = false;
        self.hirq = h | HIRQ_CMOK | HIRQ_ESEL | HIRQ_EHST | HIRQ_ECPY | HIRQ_EFLS;
    }

    /// Initialize CD System.
    fn cmd_init(&mut self)
        requires
            old(self)@.wf(),
        ensures
            final(self)@ == old(self)@.initialised(),
            final(self)@.wf(),
            final(self).disc == old(self).disc,
    {
        self.init_drive();
        self.buf.buf_full = false;
        self.drive.speed = if self.cr1 & 0x10 != 0 {
            1
        } else {
            2
        };
        self.cd_report();
        self.init_hirq();
    }

    /// End Data Transfer.
    fn cmd_end_transfer(&mut self)
        requires
            old(self)@.wf(),
        ensures
            final(self)@ == old(self)@.transfer_ended(),
            final(self)@.wf(),
            final(self).disc == old(self).disc,
    {
        let xferd: u32 = self.port.xfer_done as u32;
        self.port.transfer_request = false;
        let stat: u16 = self.cd_stat();
        if xferd != 0 {
            self.cr1 = stat | ((xferd >> 17) & 0xFF) as u16;
            self.cr2 = ((xferd >> 1) & 0xFFFF) as u16;
        } else {
            self.cr1 = stat | 0x00FF;
            self.cr2 = 0xFFFF;
        }
        self.cr3 = 0;
        self.cr4 = 0;
        if let Some(x) = self.port.xfer32 {
            if x.delete {
                self.delete_sectors(x.part, x.pos, x.num);
            }
        }
        self.port.xfer = Vec::new();
        self.port.xfer_pos = 0;
        self.port.xfer_done = 0;
        self.port.xfer32 = None;
        self.hirq |= HIRQ_CMOK | HIRQ_EHST;
    }

    /// Set CD Device Connection.
    fn cmd_set_device(&mut self)
        requires
            old(self)@.wf(),
        ensures
            final(self)@ == old(self)@.device_connected(),
            final(self)@.wf(),
            final(self).disc == old(self).disc,
    {
        self.buf.cd_device_filter = (self.cr3 >> 8) as u8;
        self.acknowledge(HIRQ_CMOK | HIRQ_ESEL);
    }

    /// Get CD Device Connection.
    fn cmd_get_device(&mut self)
        requires
            old(self)@.wf(),
        ensures
            final(self)@ == old(self)@.device_told(),
            final(self)@.wf(),
            final(self).disc == old(self).disc,
    {
        let stat: u16 = self.cd_stat();
        self.answer(stat, 0, (self.buf.cd_device_filter as u16) << 8, 0, HIRQ_CMOK);
    }

    /// Get Last Buffer Destination.
    fn cmd_get_last_buffer(&mut self)
        requires
            old(self)@.wf(),
        ensures
            final(self)@ == old(self)@.last_buffer_told(),
            final(self)@.wf(),
            final(self).disc == old(self).disc,
    {
        let stat: u16 = self.cd_stat();
        self.answer(stat, 0, (self.buf.last_buffer as u16) << 8, 0, HIRQ_CMOK);
    }

    /// Set Filter Range.
    fn cmd_set_filter_range(&mut self)
        requires
            old(self)@.wf(),
        ensures
            final(self)@ == old(self)@.filter_range_set(),
            final(self)@.wf(),
            final(self).disc == old(self).disc,
    {
        let f: usize = self.select();
        if f < MAX_FILTERS {
            self.buf.filters[f].fad = ((self.cr1 as u32 & 0xFF) << 16) | self.cr2 as u32;
            self.buf.filters[f].range = ((self.cr3 as u32 & 0xFF) << 16) | self.cr4 as u32;
            assert(self@.buf.filters =~= old(self)@.with_filter(self.buf.filters@[f as int]).buf.filters);
        }
        self.acknowledge(HIRQ_CMOK | HIRQ_ESEL);
    }

    /// Set Filter Subheader Conditions.
    fn cmd_set_filter_subheader(&mut self)
        requires
            old(self)@.wf(),
        ensures
            final(self)@ == old(self)@.filter_subheader_set(),
            final(self)@.wf(),
            final(self).disc == old(self).disc,
    {
        let f: usize = self.select();
        if f < MAX_FILTERS {
            self.buf.filters[f].chan = self.cr1 as u8;
            self.buf.filters[f].smmask = (self.cr2 >> 8) as u8;
            self.buf.filters[f].cimask = self.cr2 as u8;
            self.buf.filters[f].fid = self.cr3 as u8;
            self.buf.filters[f].smval = (self.cr4 >> 8) as u8;
            self.buf.filters[f].cival = self.cr4 as u8;
            assert(self@.buf.filters =~= old(self)@.with_filter(self.buf.filters@[f as int]).buf.filters);
        }
        self.acknowledge(HIRQ_CMOK | HIRQ_ESEL);
    }

    /// Get Filter Subheader Conditions.
    fn cmd_get_filter_subheader(&mut self)
        requires
            old(self)@.wf(),
        ensures
            final(self)@ == old(self)@.filter_subheader_told(),
            final(self)@.wf(),
            final(self).disc == old(self).disc,
    {
        let i: usize = self.select_filter();
        let f: Filter = self.buf.filters[i];
        let stat: u16 = self.cd_stat();
        self.answer(
            stat | f.chan as u16,
            ((f.smmask as u16) << 8) | f.cimask as u16,
            f.fid as u16,
            ((f.smval as u16) << 8) | f.cival as u16,
            HIRQ_CMOK | HIRQ_ESEL,
        );
    }

    /// Set Filter Mode.
    fn cmd_set_filter_mode(&mut self)
        requires
            old(self)@.wf(),
        ensures
            final(self)@ == old(self)@.filter_mode_set(),
            final(self)@.wf(),
            final(self).disc == old(self).disc,
    {
        let mode: u8 = self.cr1 as u8;
        let f: usize = self.select();
        if f < MAX_FILTERS {
            if mode & 0x80 != 0 {
                self.buf.filters[f] = Filter::default();
            } else {
                self.buf.filters[f].mode = mode;
            }
            assert(self@.buf.filters =~= old(self)@.with_filter(self.buf.filters@[f as int]).buf.filters);
        }
        self.acknowledge(HIRQ_CMOK | HIRQ_ESEL);
    }

    /// Get Filter Mode.
    fn cmd_get_filter_mode(&mut self)
        requires
            old(self)@.wf(),
        ensures
            final(self)@ == old(self)@.filter_mode_told(),
            final(self)@.wf(),
            final(self).disc == old(self).disc,
    {
        let i: usize = self.select_filter();
        let stat: u16 = self.cd_stat();
        self.answer(stat | self.buf.filters[i].mode as u16, 0, 0, 0, HIRQ_CMOK | HIRQ_ESEL);
    }

    /// Set Filter Connection.
    fn cmd_set_filter_connection(&mut self)
        requires
            old(self)@.wf(),
        ensures
            final(self)@ == old(self)@.filter_connection_set(),
            final(self)@.wf(),
            final(self).disc == old(self).disc,
    {
        let f: usize = self.select();
        if f < MAX_FILTERS {
            if self.cr1 & 1 != 0 {
                self.buf.filters[f].condtrue = (self.cr2 >> 8) as u8;
            }
            if self.cr1 & 2 != 0 {
                self.buf.filters[f].condfalse = self.cr2 as u8;
            }
            assert(self@.buf.filters =~= old(self)@.with_filter(self.buf.filters@[f as int]).buf.filters);
        }
        self.acknowledge(HIRQ_CMOK | HIRQ_ESEL);
    }

    /// Get Buffer Size.
    fn cmd_buffer_size(&mut self)
        requires
            old(self)@.wf(),
        ensures
            final(self)@ == old(self)@.buffer_size_told(),
            final(self)@.wf(),
            final(self).disc == old(self).disc,
    {
        let stat: u16 = self.cd_stat();
        let n: i32 = self.buf.free_blocks;
        let free: i32 = if n < 0 {
            0
        } else if n > MAX_BLOCKS as i32 {
            MAX_BLOCKS as i32
        } else {
            n
        };
        self.answer(stat, free as u16, 0x1800, MAX_BLOCKS as u16, HIRQ_CMOK);
    }

    /// Get Buffer Partition Sector Number.
    fn cmd_sector_number(&mut self)
        requires
            old(self)@.wf(),
        ensures
            final(self)@ == old(self)@.sector_number_told(),
            final(self)@.wf(),
            final(self).disc == old(self).disc,
    {
        let n: usize = self.count_available();
        let stat: u16 = self.cd_stat();
        self.answer(stat, 0, 0, n as u16, HIRQ_CMOK);
    }

    /// Get Actual Data Size.
    fn cmd_get_size(&mut self)
        requires
            old(self)@.wf(),
        ensures
            final(self)@ == old(self)@.size_told(),
            final(self)@.wf(),
            final(self).disc == old(self).disc,
    {
        let stat: u16 = self.cd_stat();
        let n: u32 = self.buf.calcsize;
        self.answer(stat | ((n >> 16) & 0xFF) as u16, n as u16, 0, 0, HIRQ_CMOK);
    }

    /// Get Sector Information.
    fn cmd_sector_info(&mut self)
        requires
            old(self)@.wf(),
        ensures
            final(self)@ == old(self)@.sector_info_told(),
            final(self)@.wf(),
            final(self).disc == old(self).disc,
    {
        let offs: usize = (self.cr2 & 0xFF) as usize;
        let stat: u16 = self.cd_stat();
        proof {
            self.buf.buffers_match();
        }
        if offs < self.count_available() {
            let p: usize = self.select();
            let bi: usize = self.buf.partitions[p].blocks[offs];
            assert(bi == self@.buf.partitions[p as int][offs as int]);
            let b = &self.buf.blocks[bi];
            let cr1: u16 = stat | ((b.fad >> 16) & 0xFF) as u16;
            let cr2: u16 = (b.fad & 0xFFFF) as u16;
            let cr3: u16 = ((b.fnum as u16) << 8) | b.chan as u16;
            let cr4: u16 = ((b.subm as u16) << 8) | b.cinf as u16;
            self.answer(cr1, cr2, cr3, cr4, HIRQ_CMOK | HIRQ_ESEL);
        } else {
            self.cr1 |= STAT_REJECT;
            self.hirq |= HIRQ_CMOK | HIRQ_ESEL;
        }
    }

    /// Play Disc.
    fn cmd_play(&mut self)
        requires
            old(self)@.wf(),
        ensures
            final(self)@ == old(self)@.play_commanded(),
            final(self)@.wf(),
            final(self).disc == old(self).disc,
    {
        let pm: u8 = (self.cr3 >> 8) as u8;
        let (start, end) = play_window(
            [self.cr1, self.cr2, self.cr3, self.cr4],
            (self.drive.play_start, self.drive.play_end),
        );
        if (start ^ end) & 0x80_0000 != 0 && end != 0 {
            self.reject_report();
            return ;
        }
        let repeat: u8 = if pm & 0x70 == 0 {
            pm & 0x0F
        } else {
            self.drive.play_repeat
        };
        self.play_range(start, end, repeat, pm & 0x80 != 0);
    }

    /// Starts playing a range.
    fn play_range(&mut self, start: u32, end: u32, repeat: u8, keep: bool)
        requires
            old(self)@.wf(),
        ensures
            final(self)@ == old(self)@.range_commanded(start, end, repeat, keep),
            final(self)@.wf(),
            final(self).disc == old(self).disc,
    {
        self.buf.sectorstore = false;
        self.pos.status = STAT_BUSY;
        self.cd_report();
        self.start_seek_impl(start, end, repeat, HIRQ_PEND, keep);
        self.hirq |= HIRQ_CMOK;
    }

    /// Seek Disc.
    fn cmd_seek(&mut self)
        requires
            old(self)@.wf(),
        ensures
            final(self)@ == old(self)@.disc_sought(),
            final(self)@.wf(),
            final(self).disc == old(self).disc,
    {
        self.drive.park();
        if self.cr1 & 0x80 != 0 {
            let temp: u32 = ((self.cr1 as u32 & 0xFF) << 16) | self.cr2 as u32;
            if temp != 0xFF_FFFF {
                self.pos.cd_curfad = ((self.cr1 as u32 & 0x7F) << 16) | self.cr2 as u32;
            }
            self.pos.status = STAT_PAUSE;
        } else if self.cr2 >> 8 != 0 {
            self.pos.status = STAT_PAUSE;
            self.pos.track = (self.cr2 >> 8) as u8;
        } else {
            self.pos.status = STAT_STANDBY;
            self.pos.cd_curfad = 0xFFFF_FFFF;
            self.pos.track = 0xFF;
            self.pos.ctrladdr = 0xFF;
            self.pos.index = 0xFF;
            self.pos.repcnt = 0x7F;
        }
        self.acknowledge(HIRQ_CMOK);
    }

    /// Get Subcode.
    fn cmd_subcode(&mut self)
        requires
            old(self)@.wf(),
        ensures
            final(self)@ == old(self)@.subcode_told(),
            final(self)@.wf(),
            final(self).disc == old(self).disc,
    {
        let ty: u16 = self.cr1 & 0xFF;
        if ty == 0 {
            let fad: u32 = self.pos.cd_curfad;
            let rel: u32 = match self.track_at(fad) {
                Some(t) => fad.wrapping_sub(t.start_fad),
                None => 0,
            };
            let data = vec![
                self.pos.ctrladdr,
                self.pos.track,
                self.pos.index,
                (rel >> 16) as u8,
                (rel >> 8) as u8,
                rel as u8,
                0u8,
                (fad >> 16) as u8,
                (fad >> 8) as u8,
                fad as u8,
            ];
            assert(data@ =~= self@.subcode_q());
            self.port.stage(data);
            let stat: u16 = self.cd_stat();
            self.answer(stat, 0x0005, 0, 0, HIRQ_CMOK | HIRQ_DRDY);
        } else if ty == 1 {
            let data = vec![0xFFu8; 24];
            assert(data@ =~= Seq::new(24, |i: int| 0xFFu8));
            self.port.stage(data);
            let stat: u16 = self.cd_stat();
            self.answer(stat, 0x000C, 0, 0, HIRQ_CMOK | HIRQ_DRDY);
        } else {
            self.reject_report();
        }
    }

    /// Set Sector Length.
    fn cmd_set_sector_length(&mut self)
        requires
            old(self)@.wf(),
        ensures
            final(self)@ == old(self)@.sector_length_set(),
            final(self)@.wf(),
            final(self).disc == old(self).disc,
    {
        let lin: u32 = sector_length_of(self.cr1 & 0xFF);
        if lin != 0 {
            self.buf.sectlenin = lin;
        }
        let lout: u32 = sector_length_of((self.cr2 >> 8) & 0xFF);
        if lout != 0 {
            self.buf.sectlenout = lout;
        }
        self.acknowledge(HIRQ_CMOK | HIRQ_ESEL);
    }

    /// Get Sector Data, and with `delete` Get and Delete Sector Data.
    fn cmd_get_sectors(&mut self, delete: bool)
        requires
            old(self)@.wf(),
        ensures
            final(self)@ == old(self)@.transfer_armed(delete),
            final(self)@.wf(),
            final(self).disc == old(self).disc,
    {
        let bufnum: usize = self.select();
        let sectofs: usize = self.cr2 as usize;
        let avail: usize = self.count_available();
        if bufnum >= MAX_FILTERS || sectofs > avail || (self.cr4 != 0xFFFF && sectofs
            + self.cr4 as usize > avail) {
            self.answer(STAT_REJECT, 0, 0, 0, HIRQ_CMOK | HIRQ_EHST);
        } else {
            let num: usize = if self.cr4 == 0xFFFF {
                avail - sectofs
            } else {
                self.cr4 as usize
            };
            self.port.xfer32 = Some(
                Xfer32 { delete, part: bufnum, pos: sectofs, num, sect: 0, offs: 0 },
            );
            self.port.xfer_done = 0;
            self.port.transfer_request = true;
            self.cd_report();
            self.cr1 |= STAT_TRANS;
            self.hirq |= HIRQ_CMOK | HIRQ_EHST | HIRQ_DRDY;
        }
    }

    /// Delete Sector Data.
    fn cmd_delete_sectors(&mut self)
        requires
            old(self)@.wf(),
        ensures
            final(self)@ == old(self)@.sectors_deleted(),
            final(self)@.wf(),
            final(self).disc == old(self).disc,
    {
        let bufnum: usize = self.select();
        let sectofs: usize = self.cr2 as usize;
        let avail: usize = self.count_available();
        if bufnum >= MAX_FILTERS || avail == 0 || sectofs > avail || (self.cr4 != 0xFFFF && sectofs
            + self.cr4 as usize > avail) {
            self.answer(STAT_REJECT, 0, 0, 0, HIRQ_CMOK | HIRQ_EHST);
        } else {
            let num: usize = if self.cr4 == 0xFFFF {
                avail - sectofs
            } else {
                self.cr4 as usize
            };
            self.delete_sectors(bufnum, sectofs, num);
            self.acknowledge(HIRQ_CMOK | HIRQ_EHST);
        }
    }

    /// Change Directory.
    fn cmd_change_directory(&mut self)
        requires
            old(self)@.wf(),
        ensures
            final(self)@ == old(self)@.directory_changed(),
            final(self)@.wf(),
            final(self).disc == old(self).disc,
    {
        let temp: u32 = ((self.cr3 as u32 & 0xFF) << 16) | self.cr4 as u32;
        self.files.read_new_dir(&self.disc, temp);
        self.acknowledge(HIRQ_CMOK | HIRQ_EFLS);
    }

    /// Read Directory: connects the filter for the read.
    fn cmd_read_directory(&mut self)
        requires
            old(self)@.wf(),
        ensures
            final(self)@ == old(self)@.directory_read(),
            final(self)@.wf(),
            final(self).disc == old(self).disc,
    {
        let f: u8 = (self.cr3 >> 8) as u8;
        self.buf.cd_device_filter = if (f as usize) < MAX_FILTERS {
            f
        } else {
            NO_FILTER
        };
        self.acknowledge(HIRQ_CMOK | HIRQ_EFLS);
    }

    /// Get File System Scope.
    fn cmd_file_scope(&mut self)
        requires
            old(self)@.wf(),
        ensures
            final(self)@ == old(self)@.scope_told(),
            final(self)@.wf(),
            final(self).disc == old(self).disc,
    {
        let stat: u16 = self.cd_stat();
        self.answer(
            stat,
            self.files.numfiles as u16,
            0x0100,
            self.files.firstfile as u16,
            HIRQ_CMOK | HIRQ_EFLS,
        );
    }

    /// Get File Info.
    fn cmd_file_info(&mut self)
        requires
            old(self)@.wf(),
        ensures
            final(self)@ == old(self)@.file_info_told(),
            final(self)@.wf(),
            final(self).disc == old(self).disc,
    {
        let temp: u32 = ((self.cr3 as u32 & 0xFF) << 16) | self.cr4 as u32;
        if temp != 0xFF_FFFF && (temp as u64) < self.files.dir.len() as u64 {
            let e = &self.files.dir[temp as usize];
            assert(self@.files.dir[temp as int] == e@);
            let data = vec![
                (e.firstfad >> 24) as u8,
                (e.firstfad >> 16) as u8,
                (e.firstfad >> 8) as u8,
                e.firstfad as u8,
                (e.length >> 24) as u8,
                (e.length >> 16) as u8,
                (e.length >> 8) as u8,
                e.length as u8,
                e.interleave_gap_size,
                e.file_unit_size,
                temp as u8,
                e.flags,
            ];
            assert(data@ =~= self@.file_record(temp));
            self.port.stage(data);
        } else {
            self.port.xfer_done = 0;
            self.port.transfer_request = true;
        }
        let stat: u16 = self.cd_stat();
        let words: u16 = if temp != 0xFF_FFFF {
            6
        } else {
            0x5F4
        };
        self.answer(stat | STAT_TRANS, words, 0, 0, HIRQ_CMOK | HIRQ_DRDY);
    }

    /// Read File.
    fn cmd_read_file(&mut self)
        requires
            old(self)@.wf(),
        ensures
            final(self)@ == old(self)@.file_read(),
            final(self)@.wf(),
            final(self).disc == old(self).disc,
    {
        let file_offset: u32 = ((self.cr1 as u32 & 0xFF) << 8) | (self.cr2 as u32 & 0xFF);
        let file_filter: u8 = (self.cr3 >> 8) as u8;
        let file_id: u32 = ((self.cr3 as u32 & 0xFF) << 16) | self.cr4 as u32;
        if (file_id as u64) < self.files.dir.len() as u64 {
            let len: u64 = self.buf.sectlenin as u64;
            let e = &self.files.dir[file_id as usize];
            assert(self@.files.dir[file_id as int] == e@);
            let nsect: u64 = (e.length as u64 + len - 1) / len;
            let start_fad: u32 = e.firstfad.wrapping_add(file_offset);
            assert(nsect <= u32::MAX) by (nonlinear_arith)
                requires
                    nsect == (e.length + len - 1) / len as int,
                    e.length <= u32::MAX,
                    2048 <= len <= 2352,
            ;
            let sec_count: u32 = if nsect > file_offset as u64 {
                (nsect - file_offset as u64) as u32
            } else {
                0
            };
            self.buf.cd_device_filter = if (file_filter as usize) < MAX_FILTERS {
                file_filter
            } else {
                NO_FILTER
            };
            self.buf.sectorstore = false;
            self.pos.status = STAT_BUSY;
            self.cd_report();
            self.start_seek(
                0x80_0000 | (start_fad & 0x7F_FFFF),
                0x80_0000 | (start_fad.wrapping_add(sec_count) & 0x7F_FFFF),
                0,
                HIRQ_EFLS,
            );
        } else {
            self.cd_report();
        }
        self.hirq |= HIRQ_CMOK | HIRQ_EHST;
    }

    /// Abort File.
    fn cmd_abort_file(&mut self)
        requires
            old(self)@.wf(),
        ensures
            final(self)@ == old(self)@.file_aborted(),
            final(self)@.wf(),
            final(self).disc == old(self).disc,
    {
        self.drive.park();
        if self.disc.is_some() {
            self.pos.status = STAT_PAUSE;
        }
        self.port.xfer32 = None;
        self.acknowledge(HIRQ_CMOK | HIRQ_EFLS);
    }

    /// Check Copy Protection.
    fn cmd_authenticate(&mut self)
        requires
            old(self)@.wf(),
        ensures
            final(self)@ == old(self)@.authenticated(),
            final(self)@.wf(),
            final(self).disc == old(self).disc,
    {
        let mpeg: bool = self.cr2 == 0x0001;
        if self.disc.is_some() {
            self.pos.status = STAT_PAUSE;
        }
        if !mpeg && self.disc.is_some() {
            self.buf.sectorstore = true;
            self.hirq = 0x07C5 | HIRQ_MPED;
        } else {
            self.hirq |= HIRQ_CMOK;
        }
        self.cd_report();
    }

    /// Get Disc Region.
    fn cmd_disc_region(&mut self)
        requires
            old(self)@.wf(),
        ensures
            final(self)@ == old(self)@.region_told(),
            final(self)@.wf(),
            final(self).disc == old(self).disc,
    {
        let kind: u16 = if self.cr2 == 0x0001 {
            0x0002
        } else if self.disc.is_some() {
            0x0004
        } else {
            0x0000
        };
        let stat: u16 = self.cd_stat();
        self.answer(stat, kind, 0, 0, HIRQ_CMOK);
    }

    /// Get Copy Error: none.
    fn cmd_copy_error(&mut self)
        requires
            old(self)@.wf(),
        ensures
            final(self)@ == old(self)@.copy_error_told(),
            final(self)@.wf(),
            final(self).disc == old(self).disc,
    {
        let stat: u16 = self.cd_stat();
        self.answer(stat, 0, 0, 0, HIRQ_CMOK);
    }

    /// Resets every filter by the flags of Reset Selector.
    fn reset_filters(&mut self, flags: u16)
        requires
            old(self)@.wf(),
        ensures
            final(self)@ == old(self)@.filters_reset(flags),
            final(self)@.wf(),
            final(self).disc == old(self).disc,
    {
        let ghost s0 = self@;
        let mut i: usize = 0;
        while i < MAX_FILTERS
            invariant
                i <= MAX_FILTERS,
                s0.wf(),
                self.disc == old(self).disc,
                self@.buf.filters.len() == MAX_FILTERS,
                forall|j: int|
                    0 <= j < i ==> #[trigger] self@.buf.filters[j] == CdState::filter_reset(
                        flags,
                        s0.buf.filters[j],
                    ),
                forall|j: int|
                    i <= j < MAX_FILTERS ==> #[trigger] self@.buf.filters[j] == s0.buf.filters[j],
                self@ == (CdState {
                    buf: Buffers { filters: self@.buf.filters, ..s0.buf },
                    ..s0
                }),
            decreases MAX_FILTERS - i,
        {
            let ghost before = self@;
            let f: Filter = reset_filter(flags, self.buf.filters[i]);
            self.buf.filters[i] = f;
            assert(self@.buf.filters == before.buf.filters.update(i as int, f));
            i += 1;
        }
        assert(self@.buf.filters =~= s0.filters_reset(flags).buf.filters);
    }

    /// Empties every partition.
    fn clear_partitions(&mut self)
        requires
            old(self)@.wf(),
        ensures
            final(self)@ == old(self)@.all_cleared(MAX_FILTERS as int),
            final(self)@.wf(),
            final(self).disc == old(self).disc,
    {
        let ghost s0 = self@;
        let mut i: usize = 0;
        while i < MAX_FILTERS
            invariant
                i <= MAX_FILTERS,
                self@.wf(),
                self.disc == old(self).disc,
                self@ == s0.all_cleared(i as int),
            decreases MAX_FILTERS - i,
        {
            self.clear_partition(i);
            i += 1;
        }
    }

    /// Frees every sector held by partition `p` and empties it.
    pub fn clear_partition(&mut self, p: usize)
        requires
            old(self)@.wf(),
            p < MAX_FILTERS,
        ensures
            final(self)@ == old(self)@.cleared(p as int),
            final(self)@.wf(),
            final(self).disc == old(self).disc,
    {
        proof {
            self.buf.buffers_match();
        }
        let n: usize = self.buf.partitions[p].blocks.len();
        self.delete_sectors(p, 0, n);
    }

    /// Reset Selector: empties one partition or, by the flags of CR1, resets
    /// filter connections, all filters, or all partitions.
    pub fn reset_selector(&mut self)
        requires
            old(self)@.wf(),
        ensures
            final(self)@ == old(self)@.selector_reset(),
            final(self)@.wf(),
            final(self).disc == old(self).disc,
    {
        let cr1: u16 = self.cr1;
        if cr1 & 0xFF == 0 {
            let p: usize = self.select();
            if p < MAX_FILTERS {
                self.clear_partition(p);
            }
        } else {
            self.reset_filters(cr1);
            if cr1 & 0x04 != 0 {
                self.clear_partitions();
                self.buf.buf_full = false;
            }
        }
        self.acknowledge(HIRQ_CMOK | HIRQ_ESEL);
    }

    /// Data words in the sectors `from..to` of partition `p`.
    fn count_words(&self, p: usize, from: usize, to: usize) -> (r: u32)
        requires
            self@.wf(),
            p < MAX_FILTERS,
            from <= to <= self@.buf.partitions[p as int].len(),
        ensures
            r == data_words(
                self@.buf.blocks,
                self@.buf.partitions[p as int].subrange(from as int, to as int),
            ),
    {
        proof {
            self.buf.buffers_match();
            self@.buf.held_bounds();
        }
        let ghost all = self@.buf.partitions[p as int];
        let mut sum: u32 = 0;
        let mut k: usize = from;
        while k < to
            invariant
                self@.wf(),
                p < MAX_FILTERS,
                from <= k <= to <= all.len() <= MAX_BLOCKS,
                all == self@.buf.partitions[p as int],
                sum == data_words(self@.buf.blocks, all.subrange(from as int, k as int)),
                sum <= 1176 * (k - from),
            decreases to - k,
        {
            proof {
                self.buf.buffers_match();
                assert(all.subrange(from as int, k + 1).drop_last() =~= all.subrange(
                    from as int,
                    k as int,
                ));
                assert(all[k as int] < MAX_BLOCKS);
            }
            let bi: usize = self.buf.partitions[p].blocks[k];
            let size: i32 = self.buf.blocks[bi].size;
            if size > 0 {
                sum += size as u32 / 2;
            }
            k += 1;
        }
        sum
    }

    /// Calculate Actual Data Size.
    fn cmd_calculate_size(&mut self)
        requires
            old(self)@.wf(),
        ensures
            final(self)@ == old(self)@.size_calculated(),
            final(self)@.wf(),
            final(self).disc == old(self).disc,
    {
        let p: usize = self.select();
        let ofs: usize = self.cr2 as usize;
        let len: usize = self.count_available();
        let from: usize = if ofs < len {
            ofs
        } else {
            len
        };
        let to: usize = if ofs + (self.cr4 as usize) < len {
            ofs + self.cr4 as usize
        } else {
            len
        };
        self.buf.calcsize = if p < MAX_FILTERS {
            self.count_words(p, from, to)
        } else {
            0
        };
        self.acknowledge(HIRQ_CMOK | HIRQ_ESEL);
    }

    /// Runs a command on status, contents or the drive.
    fn dispatch_drive(&mut self, command: u8) -> (done: bool)
        requires
            old(self)@.wf(),
        ensures
            done <==> on_drive(command),
            done ==> final(self)@ == old(self)@.drive_commanded(command),
            !done ==> final(self)@ == old(self)@,
            final(self)@.wf(),
            final(self).disc == old(self).disc,
    {
        proof {
            reveal(CdState::drive_commanded);
        }
        match command {
            0x01 => self.cmd_hardware_info(),
            0x02 => self.cmd_get_toc(),
            0x03 => self.cmd_session_info(),
            0x04 => self.cmd_init(),
            0x06 => self.cmd_end_transfer(),
            0x10 => self.cmd_play(),
            0x11 => self.cmd_seek(),
            0x20 => self.cmd_subcode(),
            0x67 => self.cmd_copy_error(),
            0xE0 => self.cmd_authenticate(),
            0xE1 => self.cmd_disc_region(),
            _ => {
                return false;
            },
        }
        true
    }

    /// Runs a command on the filters and the selector.
    fn dispatch_selector(&mut self, command: u8) -> (done: bool)
        requires
            old(self)@.wf(),
        ensures
            done <==> on_selector(command),
            done ==> final(self)@ == old(self)@.selector_commanded(command),
            !done ==> final(self)@ == old(self)@,
            final(self)@.wf(),
            final(self).disc == old(self).disc,
    {
        proof {
            reveal(CdState::selector_commanded);
        }
        match command {
            0x30 => self.cmd_set_device(),
            0x31 => self.cmd_get_device(),
            0x32 => self.cmd_get_last_buffer(),
            0x40 => self.cmd_set_filter_range(),
            0x42 => self.cmd_set_filter_subheader(),
            0x43 => self.cmd_get_filter_subheader(),
            0x44 => self.cmd_set_filter_mode(),
            0x45 => self.cmd_get_filter_mode(),
            0x46 => self.cmd_set_filter_connection(),
            0x48 => self.reset_selector(),
            _ => {
                return false;
            },
        }
        true
    }

    /// Runs a command on buffered sectors or files.
    fn dispatch_data(&mut self, command: u8) -> (done: bool)
        requires
            old(self)@.wf(),
        ensures
            done <==> on_data(command),
            done ==> final(self)@ == old(self)@.data_commanded(command),
            !done ==> final(self)@ == old(self)@,
            final(self)@.wf(),
            final(self).disc == old(self).disc,
    {
        proof {
            reveal(CdState::data_commanded);
        }
        match command {
            0x50 => self.cmd_buffer_size(),
            0x51 => self.cmd_sector_number(),
            0x52 => self.cmd_calculate_size(),
            0x53 => self.cmd_get_size(),
            0x54 => self.cmd_sector_info(),
            0x60 => self.cmd_set_sector_length(),
            0x61 => self.cmd_get_sectors(false),
            0x62 => self.cmd_delete_sectors(),
            0x63 => self.cmd_get_sectors(true),
            0x70 => self.cmd_change_directory(),
            0x71 => self.cmd_read_directory(),
            0x72 => self.cmd_file_scope(),
            0x73 => self.cmd_file_info(),
            0x74 => self.cmd_read_file(),
            0x75 => self.cmd_abort_file(),
            _ => {
                return false;
            },
        }
        true
    }

    /// Runs one host command, with its parameters in CR1..CR4.
    pub fn dispatch_inner(&mut self, command: u8)
        requires
            old(self)@.wf(),
        ensures
            final(self)@ == old(self)@.commanded(command),
            final(self)@.wf(),
            final(self).disc == old(self).disc,
    {
        if !self.dispatch_drive(command) {
            if !self.dispatch_selector(command) {
                if !self.dispatch_data(command) {
                    self.acknowledge(HIRQ_CMOK);
                }
            }
        }
    }

    /// Runs one host command and logs it. `cr_in` is the CR1..CR4 the host
    /// wrote, `hirq_in` the HIRQ it saw before.
    pub fn dispatch(&mut self, command: u8, cr_in: [u16; 4], hirq_in: u16)
        requires
            old(self)@.wf(),
        ensures
            final(self)@ == old(self)@.commanded(command).hirq_noted(command as u32).command_logged(
                command,
                cr_in,
                hirq_in,
            ),
            final(self)@.wf(),
            final(self).disc == old(self).disc,
    {
        self.dispatch_inner(command);
        proof {
            reveal(CdState::hirq_noted);
        }
        self.note_hirq(command as u32);
        self.log_command(command, cr_in, hirq_in);
    }

    /// Appends a command to the history, if that is kept; polls of the status
    /// by one caller share an entry.
    fn log_command(&mut self, command: u8, cr_in: [u16; 4], hirq_in: u16)
        ensures
            final(self)@ == old(self)@.command_logged(command, cr_in, hirq_in),
            final(self)@.wf() == old(self)@.wf(),
            final(self).disc == old(self).disc,
    {
        proof {
            reveal(CdState::command_logged);
        }
        if !self.cmd_log_on {
            return ;
        }
        let n: usize = self.cmd_log.len();
        if command == 0x00 && n > 0 && self.cmd_log[n - 1].cmd == 0x00 && self.cmd_log[n
            - 1].caller_pc == self.caller_pc {
            return ;
        }
        if n >= 512 {
            self.cmd_log.remove(0);
        }
        self.cmd_log.push(
            CmdTrace {
                caller_pc: self.caller_pc,
                cmd: command,
                cr_in,
                cr_out: [self.cr1, self.cr2, self.cr3, self.cr4],
                hirq_in,
                hirq_out: self.hirq,
                status: self.pos.status,
            },
        );
    }

    /// Runs the command latched in CR1..CR4.
    pub fn execute(&mut self)
        requires
            old(self)@.wf(),
        ensures
            final(self)@ == old(self)@.executed(),
            final(self)@.wf(),
            final(self).disc == old(self).disc,
    {
        proof {
            reveal(CdState::executed);
        }
        let command: u8 = (self.cr1 >> 8) as u8;
        let cr_in: [u16; 4] = [self.cr1, self.cr2, self.cr3, self.cr4];
        self.link.host_initialized = true;
        self.link.command_pending = true;
        let hirq_in: u16 = self.hirq;
        self.hirq &= !HIRQ_CMOK;
        self.dispatch(command, cr_in, hirq_in);
    }
}

} // verus!
