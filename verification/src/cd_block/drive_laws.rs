//! What the drive does in its phases: where it seeks, how long that takes, what it
//! reads, and how a range ends.

use vstd::prelude::*;
use crate::bits::{casts, low_bits, right_shifts};
use crate::disc::Media;
use super::buffers::Buffers;
use super::model::{
    audio_capped, audio_samples, clamp_track, is_fad, sector_cyc_spec, toc_start, track_byte, CdState,
};
use super::{
    DrivePhase, CD_AUDIO_CAP, CD_CLOCK_HZ, HIRQ_CSCT, HIRQ_PEND, MASTER_HZ, PERIODIC_CYCLES,
    SEEK_BASE_CYC, STAT_BUSY, STAT_PAUSE, STAT_PLAY, STAT_SEEK,
};

verus! {

proof fn track_bits(a: u8, b: u8, c: u8, p: u32, h: u16, r: u8)
    by (bit_vector)
    ensures
        ((a as u32) << 16) | ((b as u32) << 8) | c as u32 == 0x1_0000 * a + 0x100 * b + c,
        p < 0x100_0000 ==> (p & 0x80_0000 != 0 <==> p >= 0x80_0000),
        0x80_0000 <= p < 0x100_0000 ==> p & 0x7F_FFFF == p - 0x80_0000,
        p < 0x80_0000 ==> 0x80_0000 | p == 0x80_0000 + p && (0x80_0000 | p) & 0x80_0000 != 0 && (
        0x80_0000 | p) & 0x7F_FFFF == p,
        (h | 4) & 4 != 0 && ((h | 4) | 8) & 4 != 0,
        r < 0x80 ==> r & 0x80 == 0 && r | 0x80 == 0x80 + r,
        h | 0 == h,
        ((b as u16) << 8) | c as u16 == 0x100 * b + c,
{
}

// ---- seeking ----------------------------------------------------------------------

/// A track starts where the table of contents says: the three bytes behind its control
/// and address. Tracks that the disc does not have stand for the nearest that it has.
pub proof fn track_start_is_in_the_contents(m: Media, t: u8)
    requires
        m.first <= m.last,
        m.first >= 1,
    ensures
        m.first <= t <= m.last ==> toc_start(m, t) == 0x1_0000 * m.toc[4 * t - 3] + 0x100 * m.toc[4
            * t - 2] + m.toc[4 * t - 1],
        t < m.first ==> toc_start(m, t) == toc_start(m, m.first),
        t > m.last ==> toc_start(m, t) == toc_start(m, m.last),
{
    track_bits(m.toc[4 * t - 3], m.toc[4 * t - 2], m.toc[4 * t - 1], 0, 0, 0);
}

/// A seek goes to the FAD of the range, and not before the first sector of the disc, or to
/// the start of a track; the drive is busy until the pickup has settled.
pub proof fn seek_finds_its_target(s: CdState, m: Media)
    requires
        s.disc == Some(m),
        s.drive.phase == DrivePhase::SeekStart,
        s.drive.play_start < 0x100_0000,
    ensures
        ({
            let t = s.phase_stepped();
            let n = s.drive.play_start;
            &&& n >= 0x80_0000 + 150 ==> t.pos.cd_curfad == n - 0x80_0000
            &&& 0x80_0000 <= n < 0x80_0000 + 150 ==> t.pos.cd_curfad == 150
            &&& n < 0x80_0000 ==> t.pos.cd_curfad == toc_start(m, (n as int / 256 % 256) as u8)
            &&& t.drive.phase == DrivePhase::SeekSettle
            &&& t.pos.status == STAT_BUSY
            &&& t.drive.play_start == n && t.drive.play_end == s.drive.play_end
        }),
{
    reveal(CdState::phase_stepped);
    reveal(CdState::seek_resolved);
    let n = s.drive.play_start;
    track_bits(0, 0, 0, n, 0, 0);
    let b = n >> 8;
    assert(b == n as int / 256 && b & 0xFF == b as int % 256) by {
        low_bits();
        right_shifts();
    }
}

/// The way to the target takes a fixed time and 27 CD clocks for each sector between it
/// and where the pickup was; then the drive is at the target.
pub proof fn seek_takes_its_distance(s: CdState)
    requires
        s.drive.phase == DrivePhase::SeekSettle,
        s.drive.wf(),
    ensures
        ({
            let t = s.phase_stepped();
            let distance = if s.pos.cd_curfad >= s.drive.sector {
                s.pos.cd_curfad - s.drive.sector
            } else {
                s.drive.sector - s.pos.cd_curfad
            };
            let time = t.drive.counter - s.drive.counter - SEEK_BASE_CYC;
            &&& time * CD_CLOCK_HZ <= 27 * distance * MASTER_HZ < (time + 1) * CD_CLOCK_HZ
            &&& t.drive.sector == s.pos.cd_curfad
            &&& t.drive.phase == DrivePhase::Seek
            &&& t.pos.status == STAT_SEEK
        }),
{
    reveal(CdState::phase_stepped);
    reveal(CdState::seek_settled);
    super::model::cd2m_bounds(s.seek_distance() * 27);
}

/// A sector takes 1/75 of a second at single speed, and half of that at double speed.
pub proof fn sector_takes_its_time(speed: u32)
    requires
        speed == 1 || speed == 2,
    ensures
        75 * speed * sector_cyc_spec(speed) <= MASTER_HZ < 75 * speed * (sector_cyc_spec(speed) + 1),
        sector_cyc_spec(0) == sector_cyc_spec(1),
{
    assert(28_636_400int / 75int == 381_818);
    assert(28_636_400int / 150int == 190_909);
    if speed == 1 {
        assert(75 * speed * sector_cyc_spec(speed) == 75 * 381_818);
        assert(75 * speed * (sector_cyc_spec(speed) + 1) == 75 * 381_819);
    } else {
        assert(75 * speed * sector_cyc_spec(speed) == 150 * 190_909);
        assert(75 * speed * (sector_cyc_spec(speed) + 1) == 150 * 190_910);
    }
}

/// When the seek is over, the drive plays, one sector time later, with nothing read ahead.
pub proof fn seek_ends_in_play(s: CdState)
    requires
        s.drive.phase == DrivePhase::Seek,
        s.drive.wf(),
    ensures
        s.phase_stepped().drive.phase == DrivePhase::Play,
        !s.phase_stepped().drive.pre_in,
        s.phase_stepped().drive.counter == s.drive.counter + sector_cyc_spec(s.drive.speed),
        s.phase_stepped().drive.sector == s.drive.sector,
        s.phase_stepped().buf == s.buf,
{
    reveal(CdState::phase_stepped);
    sector_takes_its_time(s.drive.speed);
}

// ---- reading ----------------------------------------------------------------------

/// A playing drive has the sector at its head read ahead.
pub open spec fn at_head(s: CdState) -> bool {
    s.drive.pre_in && s.drive.pre_fad == s.drive.sector && s.drive.phase == DrivePhase::Play
}

/// A playing drive reads one sector after the other: the data sector read ahead goes
/// through the filters, and the next one is read ahead; the head is over it.
pub proof fn play_reads_sectors_in_order(s: CdState)
    requires
        at_head(s),
        !s.drive.pre_audio,
        s.buf.free_blocks > 0,
        s.drive.sector < 0xFFFF_FFFF,
        s.drive.wf(),
    ensures
        ({
            let t = s.phase_stepped();
            let r = s.buf.sector_read(s.disc, s.drive.sector);
            &&& at_head(t)
            &&& t.drive.sector == s.drive.sector + 1
            &&& t.pos.cd_curfad == s.drive.sector + 1
            &&& t.buf.blocks == r.blocks && t.buf.partitions == r.partitions && t.buf.free_blocks
                == r.free_blocks && t.buf.last_buffer == r.last_buffer
            &&& t.buf.sectorstore
            &&& t.host.hirq & HIRQ_CSCT != 0
            &&& t.pos.is_cdrom
            &&& t.drive.counter == s.drive.counter + sector_cyc_spec(s.drive.speed)
            &&& t.audio == s.audio
        }),
{
    reveal(CdState::phase_stepped);
    reveal(CdState::read_ahead_processed);
    reveal(CdState::read_ahead_filled);
    sector_takes_its_time(s.drive.speed);
    track_bits(0, 0, 0, 0, s.host.hirq, 0);
}

/// While the buffer is full, the sector read ahead waits.
pub proof fn full_buffer_holds_the_drive(s: CdState)
    requires
        at_head(s),
        !s.drive.pre_audio,
        s.buf.free_blocks <= 0,
        s.drive.wf(),
    ensures
        ({
            let t = s.phase_stepped();
            &&& at_head(t) && t.drive.sector == s.drive.sector && t.buf == s.buf
            &&& t.host.hirq == s.host.hirq
        }),
{
    reveal(CdState::phase_stepped);
    reveal(CdState::read_ahead_processed);
    reveal(CdState::read_ahead_filled);
    sector_takes_its_time(s.drive.speed);
}

/// An audio sector goes to the mixer and not to the buffer: its 588 pairs of samples,
/// low byte first, join those that wait.
pub proof fn audio_goes_to_the_mixer(s: CdState, m: Media, i: int)
    requires
        at_head(s),
        s.drive.pre_audio,
        s.disc == Some(m),
        m.raw_at(s.drive.sector).len() == 2352,
        s.audio.fifo.len() + 1176 <= CD_AUDIO_CAP,
        0 <= i < 1176,
        s.drive.sector < 0xFFFF_FFFF,
        s.drive.wf(),
    ensures
        ({
            let t = s.phase_stepped();
            let raw = m.raw_at(s.drive.sector);
            let n = s.audio.fifo.len() as int;
            let v = raw[2 * i] + 0x100 * raw[2 * i + 1];
            &&& t.audio.fifo.len() == n + 1176
            &&& t.audio.fifo.take(n) == s.audio.fifo
            &&& t.audio.fifo[n + i] == (if v < 0x8000 {
                v
            } else {
                v - 0x1_0000
            })
            &&& t.buf == s.buf
            &&& t.drive.sector == s.drive.sector + 1
            &&& !t.pos.is_cdrom
        }),
{
    reveal(CdState::phase_stepped);
    reveal(CdState::read_ahead_processed);
    reveal(CdState::read_ahead_filled);
    sector_takes_its_time(s.drive.speed);
    let raw = m.raw_at(s.drive.sector);
    track_bits(0, raw[2 * i + 1], raw[2 * i], 0, 0, 0);
    casts();
    let n = s.audio.fifo.len() as int;
    let f = s.audio.fifo + audio_samples(raw);
    assert(f.take(n) =~= s.audio.fifo);
    assert(f[n + i] == audio_samples(raw)[i]);
}

/// Of more samples than there is room for, the newest are kept.
pub proof fn newest_samples_are_kept(f: Seq<i16>, i: int)
    requires
        0 <= i < audio_capped(f).len(),
    ensures
        audio_capped(f).len() <= CD_AUDIO_CAP,
        audio_capped(f)[audio_capped(f).len() - 1 - i] == f[f.len() - 1 - i],
        f.len() <= CD_AUDIO_CAP ==> audio_capped(f) == f,
{
}

// ---- the end of a range -------------------------------------------------------------

/// At the end of its range a drive with repeats left seeks the start again and counts the
/// repeat; without, it pauses.
pub proof fn range_ends_or_repeats(s: CdState)
    requires
        s.drive.pre_in,
        s.drive.phase == DrivePhase::Play,
        s.end_met(),
        s.drive.repeat_counter < 0x0E,
    ensures
        ({
            let t = s.transfer_supervised();
            &&& s.drive.repeat_counter < s.drive.play_repeat ==> t.drive.phase
                == DrivePhase::SeekStart && t.drive.repeat_counter == 0x80 + s.drive.repeat_counter + 1
            &&& s.drive.repeat_counter >= s.drive.play_repeat ==> t.drive.phase == DrivePhase::Pause
                && t.drive.sector == s.pos.cd_curfad
            &&& t.drive.play_start == s.drive.play_start && t.drive.play_end == s.drive.play_end
            &&& !t.drive.pre_in
            &&& t.pos.status == STAT_BUSY
        }),
{
    reveal(CdState::transfer_supervised);
    reveal(CdState::range_ended);
    track_bits(0, 0, 0, 0, 0, (s.drive.repeat_counter + 1) as u8);
}

/// The end of a range is announced once, when the drive has turned to pause: with the
/// interrupt that the command asked for.
pub proof fn end_is_announced_once(s: CdState)
    requires
        s.drive.pre_in,
        s.drive.phase == DrivePhase::Pause,
        s.drive.pause_counter == 1,
        s.end_met(),
        s.drive.repeat_counter < 0x80,
    ensures
        ({
            let t = s.transfer_supervised();
            &&& t.host.hirq == s.host.hirq | s.drive.end_irq
            &&& t.drive.end_irq == 0
            &&& t.pos.status == STAT_PAUSE
            &&& t.drive.phase == DrivePhase::Pause
        }),
{
    reveal(CdState::transfer_supervised);
    reveal(CdState::pause_sequenced);
    track_bits(0, 0, 0, 0, s.host.hirq, s.drive.repeat_counter);
}

/// A drive that paused for want of room goes on once there is room, where it is.
pub proof fn pause_for_room_ends(s: CdState)
    requires
        s.drive.pre_in,
        s.drive.phase == DrivePhase::Pause,
        s.drive.pause_counter == -1,
        !s.end_met(),
    ensures
        s.buf.free_blocks > 0 ==> s.transfer_supervised().drive.phase == DrivePhase::Play,
        s.buf.free_blocks <= 0 ==> s.transfer_supervised().drive.phase == DrivePhase::Pause,
        s.transfer_supervised().drive.sector == s.drive.sector,
        s.transfer_supervised().host.hirq == s.host.hirq,
{
    reveal(CdState::transfer_supervised);
    reveal(CdState::pause_sequenced);
}

/// A drive that plays within its range says so once it has read a sector, and pauses where
/// the buffer is full.
pub proof fn play_is_reported(s: CdState)
    requires
        s.drive.pre_in,
        s.drive.phase == DrivePhase::Play,
        !s.end_met(),
    ensures
        s.buf.free_blocks > 0 && s.drive.processed ==> s.transfer_supervised().pos.status == STAT_PLAY
            && s.transfer_supervised().drive.phase == DrivePhase::Play,
        s.buf.free_blocks <= 0 ==> s.transfer_supervised().drive.phase == DrivePhase::Pause
            && s.transfer_supervised().drive.play_end == s.drive.play_end,
{
    reveal(CdState::transfer_supervised);
}

/// A range of tracks is played from its first track to the end of its last one.
pub proof fn track_range_ends_behind_its_last_track(s: CdState, m: Media)
    requires
        s.disc == Some(m),
        !is_fad(s.drive.play_start),
        !is_fad(s.drive.play_end),
        s.drive.play_end != 0,
        s.pos.track != 0xAA,
        m.track_at(s.pos.cd_curfad) is Some,
    ensures
        ({
            let here = m.track_at(s.pos.cd_curfad)->Some_0.number;
            let first = clamp_track(track_byte(s.drive.play_start), m.first, m.last);
            let last = clamp_track(track_byte(s.drive.play_end), m.first, m.last);
            s.end_met() <==> !(first <= here <= last)
        }),
{
}

/// The sectors of a play that is asked for directly are as many as it says, from the FAD
/// that it says.
pub proof fn direct_play_covers_its_range(s: CdState, fad: u32, n: u32)
    requires
        s.disc is Some,
        150 <= fad,
        0 < n,
        fad + n < 0x80_0000,
        s.pos.track != 0xAA,
    ensures
        ({
            let t = s.cdda_played(fad, n);
            &&& t.seek_target() == fad
            &&& super::command_laws::plays_exactly(t, fad as int, n as int)
            &&& t.drive.end_irq == HIRQ_PEND
        }),
{
    reveal(CdState::seek_commanded);
    track_bits(0, 0, 0, fad, 0, 0);
    track_bits(0, 0, 0, (fad + n) as u32, 0, 0);
}

/// Without a disc the block reports in a period of its own: how long it waits does not
/// depend on how the time passes.
pub proof fn empty_drive_keeps_its_period(s: CdState, n: u64)
    requires
        s.disc is None,
        s.drive.periodic_accum < PERIODIC_CYCLES,
        n <= 0xFFFF_FFFF,
    ensures
        s.ticked(n).drive.periodic_accum == (s.drive.periodic_accum + n) % PERIODIC_CYCLES as int,
        s.drive.periodic_accum + n < PERIODIC_CYCLES ==> s.ticked(n).host == s.host,
{
}

/// What is stored of a sector follows the length that is set: the user data, or the sector
/// as it is on the disc, up to that length.
pub proof fn stored_bytes_follow_the_length(b: Buffers, m: Media, fad: u32)
    requires
        b.lengths_ok(),
        m.raw_at(fad).len() == 2352,
    ensures
        b.sectlenin == 2048 ==> b.sector_bytes(m, fad) == m.sector_at(fad),
        b.sectlenin != 2048 ==> b.sector_bytes(m, fad) == Some(
            m.raw_at(fad).subrange(0, b.sectlenin as int),
        ),
{
    if b.sectlenin != 2048 {
        assert(m.raw_at(fad).take(b.sectlenin as int) =~= m.raw_at(fad).subrange(
            0,
            b.sectlenin as int,
        ));
    }
}

} // verus!
