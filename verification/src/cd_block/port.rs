//! The data-transfer port and the CD-DA sample buffer.

use vstd::prelude::*;
use std::collections::VecDeque;
use super::model::{audio_capped, audio_samples};
use super::{CD_AUDIO_CAP, CD_AUDIO_PREROLL, MAX_BLOCKS, MAX_FILTERS};

verus! {

/// An armed sector-data transfer: streams `num` blocks of partition `part`
/// from index `pos`; `sect` counts the blocks done, `offs` the bytes of the
/// current one.
#[derive(Clone, Copy, Debug, PartialEq, Eq, Structural)]
pub struct Xfer32 {
    pub delete: bool,
    pub part: usize,
    pub pos: usize,
    pub num: usize,
    pub sect: usize,
    pub offs: usize,
}

/// The data-transfer port.
#[derive(Clone, Debug)]
pub struct DataPort {
    /// Bytes staged for the host to read.
    pub xfer: Vec<u8>,
    /// Read cursor in `xfer`.
    pub xfer_pos: usize,
    /// Bytes the host has read since the transfer was staged.
    pub xfer_done: usize,
    /// The transfer-request flag of the status word.
    pub transfer_request: bool,
    /// The armed sector-data transfer.
    pub xfer32: Option<Xfer32>,
}

/// The contents of a [`DataPort`].
pub struct Port {
    pub xfer: Seq<u8>,
    pub xfer_pos: usize,
    pub xfer_done: usize,
    pub transfer_request: bool,
    pub xfer32: Option<Xfer32>,
}

impl View for DataPort {
    type V = Port;

    open spec fn view(&self) -> Port {
        Port {
            xfer: self.xfer@,
            xfer_pos: self.xfer_pos,
            xfer_done: self.xfer_done,
            transfer_request: self.transfer_request,
            xfer32: self.xfer32,
        }
    }
}

/// Decoded CD-DA samples awaiting the mixer.
#[derive(Clone, Debug)]
pub struct CdAudio {
    /// Interleaved stereo samples at 44.1 kHz.
    pub fifo: VecDeque<i16>,
    /// The playback cushion has built up.
    pub primed: bool,
}

/// The contents of [`CdAudio`].
pub struct Audio {
    pub fifo: Seq<i16>,
    pub primed: bool,
}

impl View for CdAudio {
    type V = Audio;

    open spec fn view(&self) -> Audio {
        Audio { fifo: self.fifo@, primed: self.primed }
    }
}

impl CdAudio {
    /// Appends the samples of a raw audio sector, dropping the oldest ones
    /// beyond the cap.
    pub fn append_sector(&mut self, raw: &[u8; 2352])
        ensures
            final(self)@ == (Audio {
                fifo: audio_capped(old(self)@.fifo + audio_samples(raw@)),
                ..old(self)@
            }),
    {
        let ghost fifo0 = self.fifo@;
        let ghost samples = audio_samples(raw@);
        let mut i: usize = 0;
        while i < 1176
            invariant
                i <= 1176,
                samples == audio_samples(raw@),
                self.fifo@ == fifo0 + samples.take(i as int),
                self.primed == old(self).primed,
            decreases 1176 - i,
        {
            let v: i16 = (((raw[2 * i + 1] as u16) << 8) | raw[2 * i] as u16) as i16;
            self.fifo.push_back(v);
            assert(samples.take(i + 1) =~= samples.take(i as int).push(v));
            i += 1;
        }
        assert(samples.take(1176) =~= samples);
        let ghost all = self.fifo@;
        let ghost mut dropped: int = 0;
        assert(all.skip(0) =~= all);
        while self.fifo.len() > CD_AUDIO_CAP
            invariant
                0 <= dropped <= all.len(),
                self.fifo@ == all.skip(dropped),
                dropped == 0 || self.fifo@.len() >= CD_AUDIO_CAP,
                self.primed == old(self).primed,
            decreases self.fifo.len(),
        {
            let _ = self.fifo.pop_front();
            proof {
                assert(all.skip(dropped).skip(1) =~= all.skip(dropped + 1));
                dropped = dropped + 1;
            }
        }
    }
}

impl Port {
    /// The word at the read cursor, high byte first; 0 where two bytes are not
    /// left.
    pub open spec fn fifo_word(self) -> u16 {
        if self.xfer_pos + 1 < self.xfer.len() {
            ((self.xfer[self.xfer_pos as int] as u16) << 8) | self.xfer[self.xfer_pos + 1] as u16
        } else {
            0
        }
    }

    /// The port after a word was read: the cursor stops at the end.
    pub open spec fn fifo_read(self) -> Port {
        if self.xfer_pos < self.xfer.len() {
            Port {
                xfer_pos: if self.xfer_pos + 2 <= self.xfer.len() {
                    (self.xfer_pos + 2) as usize
                } else {
                    self.xfer.len() as usize
                },
                xfer_done: self.xfer_done.wrapping_add(2),
                ..self
            }
        } else {
            self
        }
    }

    /// The port with `data` staged for the host.
    pub open spec fn staged(self, data: Seq<u8>) -> Port {
        Port { xfer: data, xfer_pos: 0, xfer_done: 0, transfer_request: true, ..self }
    }

    /// What every operation preserves of the port: the cursor lies within the
    /// staged bytes, and an armed transfer names a partition.
    pub open spec fn wf(self) -> bool {
        &&& self.xfer_pos <= self.xfer.len()
        &&& self.xfer32 matches Some(x) ==> x.part < MAX_FILTERS && x.pos <= MAX_BLOCKS && x.num
            <= MAX_BLOCKS && x.offs <= i32::MAX
    }
}

impl DataPort {
    /// One 16-bit word, high byte first, from the staged bytes.
    pub fn read_fifo16(&mut self) -> (r: u16)
        requires
            old(self)@.xfer_pos <= old(self)@.xfer.len(),
        ensures
            r == old(self)@.fifo_word(),
            final(self)@ == old(self)@.fifo_read(),
    {
        let p: usize = self.xfer_pos;
        let left: usize = self.xfer.len() - p;
        let word: u16 = if left >= 2 {
            ((self.xfer[p] as u16) << 8) | self.xfer[p + 1] as u16
        } else {
            0
        };
        if left > 0 {
            self.xfer_pos = if left >= 2 {
                p + 2
            } else {
                self.xfer.len()
            };
            self.xfer_done = self.xfer_done.wrapping_add(2);
        }
        word
    }

    /// Stages `data` for the host to read.
    pub fn stage(&mut self, data: Vec<u8>)
        ensures
            final(self)@ == old(self)@.staged(data@),
    {
        self.xfer = data;
        self.xfer_pos = 0;
        self.xfer_done = 0;
        self.transfer_request = true;
    }
}

impl Audio {
    /// The next `n` samples, padded with silence.
    pub open spec fn head(self, n: nat) -> Seq<i16> {
        Seq::new(
            n,
            |i: int|
                if i < self.fifo.len() {
                    self.fifo[i]
                } else {
                    0i16
                },
        )
    }

    /// The buffer without its next `n` samples.
    pub open spec fn drained(self, n: nat) -> Audio {
        Audio {
            fifo: if n < self.fifo.len() {
                self.fifo.skip(n as int)
            } else {
                Seq::empty()
            },
            ..self
        }
    }

    /// The cushion that playback of `n` samples needs has not built up yet.
    pub open spec fn priming(self, n: nat) -> bool {
        !self.primed && (self.fifo.len() < CD_AUDIO_PREROLL || self.fifo.len() < n)
    }

    /// The buffer after `n` samples were played: the cushion must build up again
    /// once it runs dry.
    pub open spec fn played(self, n: nat) -> Audio {
        if self.priming(n) {
            self
        } else {
            Audio { primed: self.fifo.len() > n, ..self.drained(n) }
        }
    }
}

impl CdAudio {
    /// Drains up to `n` samples exactly as buffered, padded with silence if
    /// short.
    pub fn take(&mut self, n: usize) -> (r: Vec<i16>)
        ensures
            r@ == old(self)@.head(n as nat),
            final(self)@ == old(self)@.drained(n as nat),
    {
        let mut v: Vec<i16> = Vec::new();
        let ghost all = self.fifo@;
        assert(all.skip(0) =~= all);
        let mut i: usize = 0;
        while i < n
            invariant
                i <= n,
                all == old(self).fifo@,
                v@.len() == i,
                forall|j: int|
                    0 <= j < i ==> v@[j] == if j < all.len() {
                        all[j]
                    } else {
                        0i16
                    },
                self.primed == old(self).primed,
                self.fifo@ == if i < all.len() {
                    all.skip(i as int)
                } else {
                    Seq::empty()
                },
            decreases n - i,
        {
            let x: i16 = match self.fifo.pop_front() {
                Some(x) => x,
                None => 0,
            };
            v.push(x);
            i += 1;
            proof {
                if i < all.len() {
                    assert(self.fifo@ =~= all.skip(i as int));
                } else {
                    assert(self.fifo@ =~= Seq::empty());
                }
            }
        }
        assert(v@ =~= old(self)@.head(n as nat));
        v
    }

    /// Drains `n` samples for realtime playback, through a pre-roll cushion:
    /// silence until it has built up, and again after the buffer ran dry.
    pub fn take_buffered(&mut self, n: usize) -> (r: Vec<i16>)
        ensures
            r@ == (if old(self)@.priming(n as nat) {
                Seq::new(n as nat, |i: int| 0i16)
            } else {
                old(self)@.head(n as nat)
            }),
            final(self)@ == old(self)@.played(n as nat),
    {
        if !self.primed {
            if self.fifo.len() < CD_AUDIO_PREROLL || self.fifo.len() < n {
                let v = vec![0i16; n];
                assert(v@ =~= Seq::new(n as nat, |i: int| 0i16));
                return v;
            }
            self.primed = true;
        }
        let out = self.take(n);
        if self.fifo.len() == 0 {
            self.primed = false;
        }
        out
    }
}

} // verus!
