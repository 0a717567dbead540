//! What holds of the CD-block as a whole.

use vstd::prelude::*;
use crate::disc::Media;
use super::blind::{logging, noting_logs, noting_on_the_way, run_is_blind};
use super::buffers::{
    deleted_ok, filter_hit, first_free, first_free_props, listed, route, stored_ok, BlockView, Buffers,
    Filter,
};
use super::commands::{hi8, on_data, on_drive, on_selector};
use super::drive::idle_report_again;
use super::host::long_of;
use super::model::{cd2m_bounds, sector_cyc_spec, CdState, Host, Logs};
use super::port::{Audio, Port, Xfer32};
use super::{
    CmdTrace, Drive, Handshake, HIRQ_CAUSE_READPUMP, HIRQ_CMOK, HIRQ_MPED, MAX_BLOCKS, MAX_FILTERS,
    NO_FILTER, PERIODIC_CYCLES,
};

verus! {

// ---- time -------------------------------------------------------------------

/// Whatever is due is done at once: afterwards both timers run.
proof fn due_done_settles(s: CdState)
    requires
        s.drive.wf(),
    ensures
        s.due_done().drive.wf(),
        s.due_done().drive.counter > 0,
        s.due_done().drive.periodic_idle > 0,
{
    reveal(CdState::due_done);
    let t = if s.drive.counter <= 0 {
        phase_step_settles(s);
        s.phase_stepped()
    } else {
        s
    };
    if t.drive.periodic_idle <= 0 {
        periodic_settles(t);
    }
}

proof fn phase_step_settles(s: CdState)
    requires
        s.drive.wf(),
        s.drive.counter == 0,
    ensures
        s.phase_stepped().drive.wf(),
        s.phase_stepped().drive.counter > 0,
{
    reveal(CdState::phase_stepped);
    reveal(CdState::seek_resolved);
    reveal(CdState::seek_settled);
    reveal(CdState::read_ahead_processed);
    reveal(CdState::read_ahead_filled);
    sector_cyc_bounds(s.drive.speed);
    cd2m_bounds(s.seek_distance() * 27);
}

/// A sector takes 1/75 or 1/150 of a second.
proof fn sector_cyc_bounds(speed: u32)
    requires
        speed == 1 || speed == 2,
    ensures
        100_000 <= sector_cyc_spec(speed) <= 400_000,
{
    if speed == 1 {
        assert(28_636_400int / 75int == 381_818);
    } else {
        assert(28_636_400int / 150int == 190_909);
    }
}

proof fn periodic_settles(s: CdState)
    requires
        s.drive.wf(),
        s.drive.counter > 0,
    ensures
        s.periodic().drive.wf(),
        s.periodic().drive.counter > 0,
        s.periodic().drive.periodic_idle > 0,
{
    reveal(CdState::periodic);
    reveal(CdState::transfer_supervised);
    reveal(CdState::pause_sequenced);
    reveal(CdState::range_ended);
}

proof fn nothing_is_due(s: CdState)
    requires
        s.drive.wf(),
        s.drive.counter > 0,
        s.drive.periodic_idle > 0,
    ensures
        s.due_done() == s,
{
    reveal(CdState::due_done);
}

/// Running the drive for `a + b` cycles is running it for `a` and then for `b`:
/// the outcome does not depend on how the time is sliced.
pub proof fn run_is_sliceable(s: CdState, a: int, b: int)
    requires
        s.drive.wf(),
        0 <= a,
        0 <= b,
    ensures
        s.run(a + b) == s.run(a).run(b),
        s.run(a).drive.wf(),
    decreases a,
{
    let t = s.due_done();
    due_done_settles(s);
    nothing_is_due(t);
    if a == 0 {
        assert(s.run(0) == t);
        assert(t.run(b) == s.run(b));
    } else {
        let next = t.next_event();
        if next <= a {
            let u = t.elapsed(next);
            run_is_sliceable(u, a - next, b);
            assert(s.run(a) == u.run(a - next));
            assert(s.run(a + b) == u.run(a - next + b));
        } else {
            let u = t.elapsed(a);
            nothing_is_due(u);
            assert(s.run(a) == u.run(0));
            assert(u.run(0) == u);
            if b > 0 {
                assert(u.next_event() == next - a);
                if next <= a + b {
                    assert(u.elapsed(next - a) == t.elapsed(next));
                } else {
                    assert(u.elapsed(b) == t.elapsed(a + b));
                }
            }
        }
    }
}

/// The drive never touches the logs or the disc.
proof fn due_done_frame(s: CdState)
    ensures
        s.due_done().logs == s.logs,
        s.due_done().disc == s.disc,
        s.due_done().host.link == s.host.link,
        s.due_done().host.hirq_mask == s.host.hirq_mask,
        !s.may_report() ==> {
            let (h, k) = (s.host, s.due_done().host);
            k.cr1 == h.cr1 && k.cr2 == h.cr2 && k.cr3 == h.cr3 && k.cr4 == h.cr4
        },
{
    reveal(CdState::due_done);
    reveal(CdState::phase_stepped);
    reveal(CdState::seek_resolved);
    reveal(CdState::seek_settled);
    reveal(CdState::read_ahead_processed);
    reveal(CdState::read_ahead_filled);
    reveal(CdState::periodic);
    reveal(CdState::transfer_supervised);
    reveal(CdState::pause_sequenced);
    reveal(CdState::range_ended);
}

proof fn run_frame(s: CdState, cycles: int)
    ensures
        s.run(cycles).logs == s.logs,
        s.run(cycles).disc == s.disc,
        s.run(cycles).host.link == s.host.link,
        s.run(cycles).host.hirq_mask == s.host.hirq_mask,
        !s.may_report() ==> {
            let (h, k) = (s.host, s.run(cycles).host);
            k.cr1 == h.cr1 && k.cr2 == h.cr2 && k.cr3 == h.cr3 && k.cr4 == h.cr4
        },
    decreases cycles,
{
    due_done_frame(s);
    let t = s.due_done();
    if cycles > 0 {
        let n = if t.next_event() < cycles {
            t.next_event()
        } else {
            cycles
        };
        run_frame(t.elapsed(n), cycles - n);
    }
}

proof fn disc_tick_is_sliceable(s: CdState, a: u64, b: u64)
    requires
        s.drive.wf(),
        s.disc is Some,
        a + b <= i64::MAX,
    ensures
        ({
            let (x, y) = (s.ticked(a).ticked(b), s.ticked((a + b) as u64));
            &&& x == (CdState { logs: Logs { hirq_log: x.logs.hirq_log, ..y.logs }, ..y })
            &&& !s.logs.hirq_log_on ==> x == y
        }),
{
    let way = s.run(a as int);
    let end = s.run(a + b);
    run_frame(s, a as int);
    run_frame(s, a + b);
    run_is_sliceable(s, a as int, b as int);
    assert((a + b) as u64 as i64 == a + b && a as i64 == a && b as i64 == b);
    noting_logs(way, HIRQ_CAUSE_READPUMP);
    let l = way.hirq_noted(HIRQ_CAUSE_READPUMP).logs;
    run_is_blind(way, l, b as int);
    assert(s.ticked(a) == logging(way, l));
    assert(s.ticked(a).run(b as int) == logging(end, l));
    noting_on_the_way(way, end, HIRQ_CAUSE_READPUMP);
    noting_logs(end, HIRQ_CAUSE_READPUMP);
    noting_logs(logging(end, l), HIRQ_CAUSE_READPUMP);
}

proof fn empty_tick_is_sliceable(s: CdState, a: u64, b: u64)
    requires
        s.disc is None,
        s.drive.periodic_accum + a + b <= u64::MAX,
    ensures
        s.ticked(a).ticked(b) == s.ticked((a + b) as u64),
{
    let p = PERIODIC_CYCLES as int;
    let first = s.drive.periodic_accum + a;
    let all = first + b;
    let mid = first % p;
    assert((mid + b) % p == all % p) by (nonlinear_arith)
        requires
            mid == first % p,
            all == first + b,
            p == 477_273,
    ;
    assert(first < p ==> mid == first) by (nonlinear_arith)
        requires
            mid == first % p,
            0 <= first,
            p == 477_273,
    ;
    let base = CdState {
        drive: Drive { periodic_accum: (all % p) as u64, ..s.drive },
        ..s
    };
    idle_report_again(base);
    assert(s.ticked(a).drive.periodic_accum == mid);
    assert(s.ticked(a).disc is None);
}

/// The cadence of the block is independent of how the time is sliced. Only the log of
/// HIRQ changes tells, where it is kept: each slice ends with an entry.
pub proof fn tick_is_sliceable(s: CdState, a: u64, b: u64)
    requires
        s.drive.wf(),
        s.disc is Some ==> a + b <= i64::MAX,
        s.disc is None ==> s.drive.periodic_accum + a + b <= u64::MAX,
    ensures
        ({
            let (x, y) = (s.ticked(a).ticked(b), s.ticked((a + b) as u64));
            &&& x == (CdState { logs: Logs { hirq_log: x.logs.hirq_log, ..y.logs }, ..y })
            &&& !s.logs.hirq_log_on || s.disc is None ==> x == y
        }),
{
    if s.disc is Some {
        disc_tick_is_sliceable(s, a, b);
    } else {
        empty_tick_is_sliceable(s, a, b);
    }
}

/// Passing time never replaces CR1..CR4 while no unsolicited report may be made:
/// before the host's first command (the power-on identity stays), while a
/// command's response is unread, and while the host is composing a command.
pub proof fn responses_are_safe_from_time(s: CdState, cycles: u64)
    requires
        !s.may_report(),
    ensures
        ({
            let (h, k) = (s.host, s.ticked(cycles).host);
            k.cr1 == h.cr1 && k.cr2 == h.cr2 && k.cr3 == h.cr3 && k.cr4 == h.cr4 && k.link
                == h.link
        }),
        !s.ticked(cycles).may_report(),
{
    reveal(CdState::hirq_noted);
    run_frame(s, (cycles as i64) as int);
}

// ---- HIRQ ---------------------------------------------------------------------

/// HIRQ says that there is no MPEG card.
pub open spec fn mped_held(s: CdState) -> bool {
    s.host.hirq & HIRQ_MPED != 0
}

/// How MPED fares in the ways HIRQ changes.
proof fn mped_bits()
    by (bit_vector)
    ensures
        forall|x: u16, b: u16| x & 0x0800 != 0 ==> (#[trigger] (x | b)) & 0x0800 != 0,
        forall|x: u16| x & 0x0800 != 0 ==> (#[trigger] (x & !0x0008u16)) & 0x0800 != 0,
        forall|x: u16| x & 0x0800 != 0 ==> (#[trigger] (x & !0x0001u16)) & 0x0800 != 0,
        forall|x: u16| x & 0x0800 != 0 ==> (#[trigger] (x & !0x0020u16)) & 0x0800 != 0,
        forall|x: u16| x & 0x0800 != 0 ==> (#[trigger] (x & 0xFFE5u16)) & 0x0800 != 0,
        forall|x: u16| (#[trigger] (x | 0x0800u16)) & 0x0800 != 0,
        0x0800u16 & 0x0800u16 != 0,
{
}

proof fn due_done_keeps_mped(s: CdState)
    requires
        mped_held(s),
    ensures
        mped_held(s.due_done()),
{
    reveal(CdState::due_done);
    reveal(CdState::phase_stepped);
    reveal(CdState::seek_resolved);
    reveal(CdState::seek_settled);
    reveal(CdState::read_ahead_processed);
    reveal(CdState::read_ahead_filled);
    reveal(CdState::periodic);
    reveal(CdState::transfer_supervised);
    reveal(CdState::pause_sequenced);
    reveal(CdState::range_ended);
    mped_bits();
}

proof fn run_keeps_mped(s: CdState, cycles: int)
    requires
        mped_held(s),
    ensures
        mped_held(s.run(cycles)),
    decreases cycles,
{
    due_done_keeps_mped(s);
    let t = s.due_done();
    if cycles > 0 {
        let n = if t.next_event() < cycles {
            t.next_event()
        } else {
            cycles
        };
        run_keeps_mped(t.elapsed(n), cycles - n);
    }
}

proof fn all_cleared_keeps_mped(s: CdState, n: int)
    requires
        mped_held(s),
    ensures
        mped_held(s.all_cleared(n)),
    decreases n,
{
    mped_bits();
    if n > 0 {
        all_cleared_keeps_mped(s, n - 1);
    }
}

proof fn drive_command_keeps_mped(s: CdState, command: u8)
    requires
        mped_held(s),
    ensures
        mped_held(s.drive_commanded(command)),
{
    reveal(CdState::drive_commanded);
    reveal(CdState::seek_commanded);
    mped_bits();
}

proof fn selector_command_keeps_mped(s: CdState, command: u8)
    requires
        mped_held(s),
    ensures
        mped_held(s.selector_commanded(command)),
{
    reveal(CdState::selector_commanded);
    mped_bits();
    if command == 0x48 {
        all_cleared_keeps_mped(s.filters_reset(s.host.cr1), MAX_FILTERS as int);
    }
}

proof fn data_command_keeps_mped(s: CdState, command: u8)
    requires
        mped_held(s),
    ensures
        mped_held(s.data_commanded(command)),
{
    reveal(CdState::data_commanded);
    reveal(CdState::seek_commanded);
    mped_bits();
}

proof fn command_keeps_mped(s: CdState, command: u8)
    requires
        mped_held(s),
    ensures
        mped_held(s.commanded(command)),
{
    drive_command_keeps_mped(s, command);
    selector_command_keeps_mped(s, command);
    data_command_keeps_mped(s, command);
    mped_bits();
}

/// MPED is set at power-on and held by everything that follows: time, reads and
/// writes of registers (and so commands), and changes of the disc.
pub proof fn mped_is_never_lost(
    s: CdState,
    cycles: u64,
    offset: u32,
    val: u16,
    m: Media,
)
    ensures
        mped_held(CdState::power_on()),
        mped_held(s) ==> mped_held(s.ticked(cycles)),
        mped_held(s) ==> mped_held(s.word_read(offset)),
        mped_held(s) ==> mped_held(s.word_written(offset, val)),
        mped_held(s) ==> mped_held(s.port_read()),
        mped_held(s) ==> mped_held(s.disc_inserted(m)),
        mped_held(s) ==> mped_held(s.ejected()),
{
    reveal(CdState::executed);
    reveal(CdState::hirq_noted);
    reveal(CdState::command_logged);
    mped_bits();
    if mped_held(s) {
        run_keeps_mped(s, (cycles as i64) as int);
        let t = CdState { host: Host { cr4: val, ..s.host }, ..s }.cr_marked(8);
        let u = CdState {
            host: Host {
                link: Handshake {
                    cr_written: 0,
                    host_initialized: true,
                    command_pending: true,
                    ..t.host.link
                },
                hirq: t.host.hirq & !HIRQ_CMOK,
                ..t.host
            },
            ..t
        };
        command_keeps_mped(u, hi8(u.host.cr1));
    }
}

/// How CMOK fares in the ways a command sets HIRQ.
proof fn cmok_bits()
    by (bit_vector)
    ensures
        forall|x: u16, b: u16| b & 1 == 1 ==> (#[trigger] (x | b)) & 1 == 1,
        forall|x: u16, b: u16| x & 1 == 1 ==> (#[trigger] (x | b)) & 1 == 1,
        0x0001u16 & 1 == 1,
        0x07C5u16 & 1 == 1,
{
}

proof fn drive_command_acknowledges(s: CdState, command: u8)
    ensures
        s.drive_commanded(command).host.hirq & 1 == 1,
{
    reveal(CdState::drive_commanded);
    reveal(CdState::seek_commanded);
    cmok_bits();
}

proof fn selector_command_acknowledges(s: CdState, command: u8)
    ensures
        s.selector_commanded(command).host.hirq & 1 == 1,
{
    reveal(CdState::selector_commanded);
    cmok_bits();
}

proof fn data_command_acknowledges(s: CdState, command: u8)
    ensures
        s.data_commanded(command).host.hirq & 1 == 1,
{
    reveal(CdState::data_commanded);
    reveal(CdState::seek_commanded);
    cmok_bits();
}

/// Every command acknowledges: it leaves CMOK set, whether it is rejected or not even
/// known. One that is not known is answered by a plain status report.
pub proof fn every_command_acknowledges(s: CdState, command: u8)
    ensures
        s.commanded(command).host.hirq & 1 == 1,
        !on_drive(command) && !on_selector(command) && !on_data(command) ==> s.commanded(command)
            == s.reported().raised(HIRQ_CMOK),
{
    drive_command_acknowledges(s, command);
    selector_command_acknowledges(s, command);
    data_command_acknowledges(s, command);
    cmok_bits();
}

// ---- the command history --------------------------------------------------------------

proof fn all_cleared_keeps_logs(s: CdState, n: int)
    ensures
        s.all_cleared(n).logs == s.logs,
    decreases n,
{
    if n > 0 {
        all_cleared_keeps_logs(s, n - 1);
    }
}

proof fn drive_command_keeps_logs(s: CdState, command: u8)
    ensures
        s.drive_commanded(command).logs == s.logs,
{
    reveal(CdState::drive_commanded);
    reveal(CdState::seek_commanded);
}

proof fn selector_command_keeps_logs(s: CdState, command: u8)
    ensures
        s.selector_commanded(command).logs == s.logs,
{
    reveal(CdState::selector_commanded);
    if command == 0x48 {
        all_cleared_keeps_logs(s.filters_reset(s.host.cr1), MAX_FILTERS as int);
    }
}

proof fn data_command_keeps_logs(s: CdState, command: u8)
    ensures
        s.data_commanded(command).logs == s.logs,
{
    reveal(CdState::data_commanded);
    reveal(CdState::seek_commanded);
}

/// What the history says of the command in CR1..CR4.
pub open spec fn entry_of(s: CdState) -> CmdTrace {
    let h = s.host;
    let e = s.executed();
    CmdTrace {
        caller_pc: s.logs.caller_pc,
        cmd: hi8(h.cr1),
        cr_in: [h.cr1, h.cr2, h.cr3, h.cr4],
        cr_out: [e.host.cr1, e.host.cr2, e.host.cr3, e.host.cr4],
        hirq_in: h.hirq,
        hirq_out: e.host.hirq,
        status: e.pos.status,
    }
}

/// The entries of all commands that were logged, the oldest first. `s` holds the states
/// in which commands were run. Polls of the status by one caller share an entry.
pub open spec fn all_logged(s: Seq<CdState>) -> Seq<CmdTrace>
    decreases s.len(),
{
    if s.len() == 0 {
        Seq::empty()
    } else {
        let before = all_logged(s.drop_last());
        let e = entry_of(s.last());
        if !s.last().logs.cmd_log_on {
            before
        } else if e.cmd == 0x00 && before.len() > 0 && before.last().cmd == 0x00
            && before.last().caller_pc == e.caller_pc {
            before
        } else {
            before.push(e)
        }
    }
}

/// The newest entries, at most 512.
pub open spec fn newest(l: Seq<CmdTrace>) -> Seq<CmdTrace> {
    if l.len() <= 512 {
        l
    } else {
        l.skip(l.len() - 512)
    }
}

/// A command appends its own entry to the history, if that is kept and it is not one
/// more poll of the status by one caller; the oldest entry goes where there would be
/// more than 512.
pub proof fn command_appends_its_entry(s: CdState)
    requires
        s.logs.cmd_log.len() <= 512,
    ensures
        s.executed().logs.cmd_log.len() <= 512,
        s.executed().logs.cmd_log == if !s.logs.cmd_log_on || (hi8(s.host.cr1) == 0x00
            && s.logs.cmd_log.len() > 0 && s.logs.cmd_log.last().cmd == 0x00
            && s.logs.cmd_log.last().caller_pc == s.logs.caller_pc) {
            s.logs.cmd_log
        } else {
            newest(s.logs.cmd_log.push(entry_of(s)))
        },
{
    reveal(CdState::executed);
    reveal(CdState::command_logged);
    reveal(CdState::hirq_noted);
    let h = s.host;
    let command = hi8(h.cr1);
    let t = CdState {
        host: Host {
            hirq: h.hirq & !HIRQ_CMOK,
            link: Handshake { host_initialized: true, command_pending: true, ..h.link },
            ..h
        },
        ..s
    };
    drive_command_keeps_logs(t, command);
    selector_command_keeps_logs(t, command);
    data_command_keeps_logs(t, command);
    assert(t.commanded(command).logs == s.logs);
    let l = s.logs.cmd_log;
    let e = entry_of(s);
    if l.len() >= 512 {
        assert(l.remove(0).push(e) =~= newest(l.push(e)));
    }
}

/// Command `i` finds the history as the command before it left it.
pub open spec fn history_goes_on(s: Seq<CdState>, i: int) -> bool {
    s[i].logs.cmd_log == s[i - 1].executed().logs.cmd_log
}

proof fn newest_stay_newest(l: Seq<CmdTrace>, e: CmdTrace)
    ensures
        newest(newest(l).push(e)) == newest(l.push(e)),
        l.len() > 0 ==> newest(l).len() > 0 && newest(l).last() == l.last(),
        l.len() == 0 ==> newest(l).len() == 0,
{
    assert(newest(newest(l).push(e)) =~= newest(l.push(e)));
}

/// However many commands are run, the history holds the newest of all that were logged,
/// in order and at most 512, if it was empty at first and only commands change it.
pub proof fn history_holds_the_newest(s: Seq<CdState>)
    requires
        s.len() > 0,
        s[0].logs.cmd_log == Seq::<CmdTrace>::empty(),
        forall|i: int| 0 < i < s.len() ==> #[trigger] history_goes_on(s, i),
    ensures
        s.last().executed().logs.cmd_log == newest(all_logged(s)),
        s.last().executed().logs.cmd_log.len() <= 512,
    decreases s.len(),
{
    let p = s.drop_last();
    let all = all_logged(p);
    if p.len() > 0 {
        assert forall|i: int| 0 < i < p.len() implies #[trigger] history_goes_on(p, i) by {
            assert(history_goes_on(s, i));
        }
        history_holds_the_newest(p);
        assert(history_goes_on(s, s.len() - 1));
    }
    assert(s.last().logs.cmd_log == newest(all));
    command_appends_its_entry(s.last());
    newest_stay_newest(all, entry_of(s.last()));
}

// ---- filters and the device connection ------------------------------------------

/// Splitting a register into bytes and putting them together again.
proof fn register_bytes(r: u16)
    by (bit_vector)
    ensures
        (((r >> 8) as u8) as u16) << 8 | (r as u8) as u16 == r,
        (((((r >> 8) as u8) as u16) << 8) >> 8) as u8 == (r >> 8) as u8,
{
}

/// What Get CD Device Connection reports is what Set CD Device Connection set.
pub proof fn device_connection_round_trips(s: CdState, h: Host)
    ensures
        ({
            let t = s.device_connected();
            hi8((CdState { host: h, ..t }).device_told().host.cr3) == hi8(s.host.cr3)
        }),
{
    register_bytes(s.host.cr3);
}

/// What Get Filter Subheader Conditions reports is what Set Filter Subheader
/// Conditions set, for a filter that exists.
pub proof fn filter_subheader_round_trips(s: CdState, h: Host)
    requires
        s.wf(),
        s.selector() < MAX_FILTERS,
        hi8(h.cr3) == hi8(s.host.cr3),
    ensures
        ({
            let r = (CdState { host: h, ..s.filter_subheader_set() }).filter_subheader_told().host;
            &&& r.cr1 == (s.stat_word() | (s.host.cr1 as u8) as u16)
            &&& r.cr2 == s.host.cr2
            &&& r.cr3 == (s.host.cr3 as u8) as u16
            &&& r.cr4 == s.host.cr4
        }),
{
    register_bytes(s.host.cr2);
    register_bytes(s.host.cr4);
}

/// What Get Filter Mode reports is what Set Filter Mode set, for a filter that
/// exists and a mode without the clear flag.
pub proof fn filter_mode_round_trips(s: CdState, h: Host)
    requires
        s.wf(),
        s.selector() < MAX_FILTERS,
        hi8(h.cr3) == hi8(s.host.cr3),
        (s.host.cr1 as u8) & 0x80 == 0,
    ensures
        (CdState { host: h, ..s.filter_mode_set() }).filter_mode_told().host.cr1 == (s.stat_word()
            | (s.host.cr1 as u8) as u16),
{
}

/// Setting one filter leaves every other filter as it was.
pub proof fn filters_are_independent(s: CdState, i: int)
    requires
        s.wf(),
        0 <= i < MAX_FILTERS,
        i != s.selector(),
    ensures
        s.filter_range_set().buf.filters[i] == s.buf.filters[i],
        s.filter_subheader_set().buf.filters[i] == s.buf.filters[i],
        s.filter_mode_set().buf.filters[i] == s.buf.filters[i],
        s.filter_connection_set().buf.filters[i] == s.buf.filters[i],
{
}

// ---- sectors ----------------------------------------------------------------------

/// A sector that is kept arrives at the end of its partition: the slot holds the
/// bytes read from the disc and the sector's FAD, and nothing else moves.
pub proof fn kept_sector_is_buffered(b: Buffers, m: Media, fad: u32)
    requires
        b.wf(),
        b.sector_kept(Some(m), fad),
    ensures
        ({
            let data = b.sector_bytes(m, fad)->Some_0;
            let d = b.loaded(m, fad, data).destination()->Some_0 as int;
            let r = b.sector_read(Some(m), fad);
            let n = b.partitions[d].len() as int;
            &&& r.wf()
            &&& 0 <= d < MAX_FILTERS
            &&& r.last_buffer == d
            &&& r.partitions[d].len() == n + 1
            &&& r.partitions[d].take(n) == b.partitions[d]
            &&& r.blocks[r.partitions[d][n] as int].data == data
            &&& r.blocks[r.partitions[d][n] as int].fad == fad as i32
            &&& r.blocks[r.partitions[d][n] as int].size == b.sectlenin
            &&& r.free_blocks == b.free_blocks - 1
            &&& forall|p: int|
                0 <= p < MAX_FILTERS && p != d ==> r.partitions[p] == #[trigger] b.partitions[p]
            &&& forall|p: int, i: int|
                0 <= p < MAX_FILTERS && 0 <= i < b.partitions[p].len() ==> r.blocks[
                #[trigger] b.partitions[p][i] as int] == b.blocks[b.partitions[p][i] as int]
        }),
{
    let data = b.sector_bytes(m, fad)->Some_0;
    let l = b.loaded(m, fad, data);
    let d = l.destination()->Some_0;
    first_free_props(l.blocks, 0);
    assert(l.wf());
    stored_ok(l, d);
    let r = b.sector_read(Some(m), fad);
    let n = b.partitions[d as int].len() as int;
    assert(r.partitions[d as int].take(n) =~= b.partitions[d as int]);
    b.held_bounds();
    let slot = first_free(b.blocks, 0);
    assert(r.partitions[d as int][n] == slot);
    assert forall|p: int, i: int| 0 <= p < MAX_FILTERS && 0 <= i < b.partitions[p].len() implies r.blocks[
    #[trigger] b.partitions[p][i] as int] == b.blocks[b.partitions[p][i] as int] by {
        assert(b.blocks[b.partitions[p][i] as int].size >= 0);
        assert(b.blocks[slot].size < 0);
    }
}

/// The conditions of a filter's mode that are switched on.
proof fn filter_modes(mode: u8)
    by (bit_vector)
    ensures
        (mode ^ 0x10) & 0x10 == 0 <==> mode & 0x10 != 0,
        (mode ^ 0x10) & 0x01 == mode & 0x01,
        (mode ^ 0x10) & 0x02 == mode & 0x02,
        (mode ^ 0x10) & 0x04 == mode & 0x04,
        (mode ^ 0x10) & 0x08 == mode & 0x08,
        (mode ^ 0x10) & 0x40 == mode & 0x40,
        0x0Fu8 & 0x10 == 0 && 0x0Fu8 & 0x40 == 0,
{
}

/// A sector with a subheader that the drive's filter keeps meets each condition that
/// the filter's mode switches on, and is at the end of the partition that the filter's
/// true connector names. A filter without a false connector keeps no other.
pub proof fn kept_sector_meets_its_filter(b: Buffers, m: Media, fad: u32)
    requires
        b.wf(),
        b.sector_kept(Some(m), fad),
        m.subheader_at(fad) is Some,
        b.cd_device_filter < MAX_FILTERS,
        b.filters[b.cd_device_filter as int].condfalse == NO_FILTER,
        b.filters[b.cd_device_filter as int].mode & 0x10 == 0,
        fad <= 0x7FFF_FFFF,
    ensures
        ({
            let f = b.filters[b.cd_device_filter as int];
            let (chan, fnum, subm, cinf) = m.subheader_at(fad)->Some_0;
            let r = b.sector_read(Some(m), fad);
            let last = r.blocks[r.partitions[f.condtrue as int].last() as int];
            &&& f.mode & 0x01 != 0 ==> fnum == f.fid
            &&& f.mode & 0x02 != 0 ==> chan == f.chan
            &&& f.mode & 0x04 != 0 ==> subm & f.smmask == f.smval
            &&& f.mode & 0x08 != 0 ==> cinf & f.cimask == f.cival
            &&& f.mode & 0x40 != 0 && f.fad + f.range <= u32::MAX ==> f.fad <= fad <= f.fad + f.range
            &&& r.last_buffer == f.condtrue
            &&& last.fad == fad && last.chan == chan && last.fnum == fnum && last.subm == subm
                && last.cinf == cinf
        }),
{
    kept_sector_is_buffered(b, m, fad);
    let l = b.loaded(m, fad, b.sector_bytes(m, fad)->Some_0);
    assert(l.destination() is Some);
    let f = b.filters[b.cd_device_filter as int];
    reveal_with_fuel(route, 2);
    assert(filter_hit(f, l.curblock, true));
    assert(l.destination() == Some(f.condtrue));
    first_free_props(l.blocks, 0);
}

/// A filter that is set from a sector's own subheader accepts that sector: it is stored
/// at the true connector, if the drive is connected to the filter and there is room.
pub proof fn filter_accepts_its_own_sector(b: Buffers, m: Media, fad: u32)
    requires
        b.wf(),
        !b.buf_full,
        first_free(b.blocks, 0) < b.blocks.len(),
        b.cd_device_filter < MAX_FILTERS,
        b.sector_bytes(m, fad) is Some,
        m.subheader_at(fad) is Some,
        fad <= 0x7FFF_FFFF,
        ({
            let f = b.filters[b.cd_device_filter as int];
            let (chan, fnum, subm, cinf) = m.subheader_at(fad)->Some_0;
            &&& f.mode & 0x10 == 0
            &&& f.fid == fnum
            &&& f.chan == chan
            &&& f.smval == subm & f.smmask
            &&& f.cival == cinf & f.cimask
            &&& f.mode & 0x40 != 0 ==> f.fad <= fad <= f.fad + f.range <= u32::MAX
            &&& f.condtrue < MAX_FILTERS
        }),
    ensures
        b.sector_kept(Some(m), fad),
        b.sector_read(Some(m), fad).last_buffer == b.filters[b.cd_device_filter as int].condtrue,
        ({
            let p = b.filters[b.cd_device_filter as int].condtrue as int;
            b.sector_read(Some(m), fad).partitions[p].len() == b.partitions[p].len() + 1
        }),
{
    let l = b.loaded(m, fad, b.sector_bytes(m, fad)->Some_0);
    let f = b.filters[b.cd_device_filter as int];
    assert(filter_hit(f, l.curblock, true));
    assert(l.destination() == Some(f.condtrue));
    kept_sector_is_buffered(b, m, fad);
}

/// A sector without a subheader passes by its FAD alone, and the reversal does not
/// concern it.
pub proof fn plain_sectors_pass_by_their_fad(f: Filter, b: BlockView)
    requires
        f.fad + f.range <= u32::MAX,
        b.fad >= 0,
    ensures
        f.mode & 0x40 == 0 ==> filter_hit(f, b, false),
        f.mode & 0x40 != 0 ==> (filter_hit(f, b, false) <==> f.fad <= b.fad <= f.fad + f.range),
{
}

/// Bit 4 of the mode reverses the verdict on a sector with a subheader.
pub proof fn reversal_reverses(f: Filter, b: BlockView)
    ensures
        filter_hit(Filter { mode: f.mode ^ 0x10, ..f }, b, true) == !filter_hit(f, b, true),
{
    filter_modes(f.mode);
}

/// A sector that a filter turns away goes on as if the drive were connected to the
/// filter's false connector; without one, and behind the third filter, it is dropped.
pub proof fn missed_sector_goes_on(b: Buffers, c: Buffers)
    requires
        b.filters.len() == MAX_FILTERS,
        b.cd_device_filter < MAX_FILTERS,
        !filter_hit(b.filters[b.cd_device_filter as int], b.curblock, b.curblock_mode2),
    ensures
        ({
            let next = b.filters[b.cd_device_filter as int].condfalse;
            let n = b.filters[next as int];
            &&& next >= MAX_FILTERS ==> b.destination() is None
            &&& next < MAX_FILTERS && filter_hit(n, b.curblock, b.curblock_mode2) && n.condtrue
                < MAX_FILTERS ==> b.destination() == Some(n.condtrue)
            &&& next < MAX_FILTERS && !filter_hit(n, b.curblock, b.curblock_mode2) && n.condfalse
                >= MAX_FILTERS ==> b.destination() is None
            &&& next < MAX_FILTERS && c == (Buffers { cd_device_filter: next, ..b })
                && c.destination() is None ==> b.destination() is None
        }),
{
    reveal_with_fuel(route, 4);
}

/// Deleting sectors of one partition gives back as many slots as it removes, and
/// leaves the other partitions and their sectors alone.
pub proof fn deletion_frees_its_slots(b: Buffers, p: int, ofs: int, num: int)
    requires
        b.wf(),
        0 <= p < MAX_FILTERS,
        0 <= ofs <= b.partitions[p].len(),
        0 <= num,
    ensures
        ({
            let r = b.deleted(p, ofs, num);
            let gone = b.range_end(p, ofs, num) - ofs;
            &&& r.wf()
            &&& r.partitions[p].len() == b.partitions[p].len() - gone
            &&& r.free_blocks == b.free_blocks + gone
            &&& forall|q: int|
                0 <= q < MAX_FILTERS && q != p ==> r.partitions[q] == #[trigger] b.partitions[q]
            &&& forall|q: int, i: int|
                0 <= q < MAX_FILTERS && q != p && 0 <= i < b.partitions[q].len() ==> r.blocks[
                #[trigger] b.partitions[q][i] as int] == b.blocks[b.partitions[q][i] as int]
        }),
{
    deleted_ok(b, p, ofs, num);
    b.held_bounds();
    let r = b.deleted(p, ofs, num);
    r.held_bounds();
    let end = b.range_end(p, ofs, num);
    let removed = b.partitions[p].subrange(ofs, end);
    assert forall|q: int, i: int|
        0 <= q < MAX_FILTERS && q != p && 0 <= i < b.partitions[q].len() implies r.blocks[
    #[trigger] b.partitions[q][i] as int] == b.blocks[b.partitions[q][i] as int] by {
        let x = b.partitions[q][i];
        assert(x < MAX_BLOCKS);
        if listed(removed, x as int) {
            let k = choose|k: int| 0 <= k < removed.len() && #[trigger] removed[k] == x;
            assert(removed[k] == b.partitions[p][ofs + k]);
        }
    }
}

/// A request for sector data or its deletion that is rejected changes nothing
/// but CR1..CR4 and HIRQ.
pub proof fn rejection_changes_no_buffer(s: CdState, delete: bool)
    requires
        !s.range_valid(),
    ensures
        s.transfer_armed(delete) == (CdState { host: s.transfer_armed(delete).host, ..s }),
        s.sectors_deleted() == (CdState { host: s.sectors_deleted().host, ..s }),
        s.transfer_armed(delete).host.cr1 == 0xFF00,
        s.sectors_deleted().host.cr1 == 0xFF00,
{
}

/// The state after `k` 32-bit reads of the data port.
pub open spec fn port_reads(s: CdState, k: nat) -> CdState
    decreases k,
{
    if k == 0 {
        s
    } else {
        port_reads(s, (k - 1) as nat).port_read()
    }
}

/// Longs in a sector of `size` bytes.
pub open spec fn longs_in(size: i32) -> int {
    if size <= 4 {
        1
    } else {
        (size + 3) / 4
    }
}

/// Reading on within the sector that a transfer has reached: the `k`-th long is
/// bytes `4k` to `4k + 3` of its data, and after its last one the transfer has
/// reached the next sector.
pub proof fn transfer_streams_a_sector(s: CdState, x: Xfer32, k: nat)
    requires
        s.wf(),
        s.transfer_ready(),
        s.port.xfer32 == Some(x),
        x.sect < x.num,
        x.offs == 0,
        k <= longs_in(s.transfer_sector(x).size),
    ensures
        ({
            let t = port_reads(s, k);
            let b = s.transfer_sector(x);
            let n = longs_in(b.size);
            &&& t.buf == s.buf
            &&& t.wf()
            &&& k < n ==> {
                &&& t.port.xfer32 == Some(Xfer32 { offs: (4 * k) as usize, ..x })
                &&& t.port_word() == long_of(b.data, 4 * k as int)
            }
            &&& k == n ==> t.port.xfer32 == Some(
                Xfer32 { offs: 0, sect: (x.sect + 1) as usize, ..x },
            )
        }),
    decreases k,
{
    assert(s.buf.partitions[x.part as int][x.pos + x.sect] < MAX_BLOCKS);
    if k > 0 {
        transfer_streams_a_sector(s, x, (k - 1) as nat);
    }
}

/// A request for sector data that is accepted arms a transfer whose sectors are
/// all there; reading from it keeps that so.
pub proof fn armed_transfers_are_ready(s: CdState, delete: bool)
    requires
        s.wf(),
        s.range_valid(),
    ensures
        s.transfer_armed(delete).transfer_ready(),
        s.transfer_armed(delete).transfer_whole(),
{
    s.buf.held_bounds();
}

impl CdState {
    /// Every sector that the armed transfer has yet to read is there.
    pub open spec fn transfer_whole(self) -> bool {
        self.port.xfer32 matches Some(x) ==> x.pos + x.num
            <= self.buf.partitions[x.part as int].len()
    }
}

/// Reading from a transfer whose sectors are all there leaves them there.
pub proof fn reading_keeps_transfers_whole(s: CdState)
    requires
        s.wf(),
        s.transfer_whole(),
    ensures
        s.transfer_ready(),
        s.port_read().transfer_whole(),
{
}

/// A transfer that deletes, read past its end, gives back the slots of its
/// sectors.
pub proof fn get_and_delete_frees_its_sectors(s: CdState, x: Xfer32)
    requires
        s.wf(),
        s.transfer_whole(),
        s.port.xfer32 == Some(x),
        x.delete,
        x.sect >= x.num,
    ensures
        s.port_word() == 0xFFFF_FFFF,
        s.port_read().port.xfer32 is None,
        s.port_read().buf.free_blocks == s.buf.free_blocks + x.num,
        s.port_read().buf.partitions[x.part as int].len() == s.buf.partitions[x.part as int].len()
            - x.num,
{
    deletion_frees_its_slots(s.buf, x.part as int, x.pos as int, x.num as int);
}

/// Ending a transfer that deletes before it was read to its end gives back the
/// slots just the same.
pub proof fn ending_a_transfer_frees_its_sectors(s: CdState, x: Xfer32)
    requires
        s.wf(),
        s.transfer_whole(),
        s.port.xfer32 == Some(x),
        x.delete,
    ensures
        s.transfer_ended().port.xfer32 is None,
        s.transfer_ended().buf.free_blocks == s.buf.free_blocks + x.num,
        s.transfer_ended().buf.partitions[x.part as int].len()
            == s.buf.partitions[x.part as int].len() - x.num,
{
    deletion_frees_its_slots(s.buf, x.part as int, x.pos as int, x.num as int);
}

// ---- staged bytes and audio ----------------------------------------------------------

/// The port after `k` 16-bit reads.
pub open spec fn fifo_reads(p: Port, k: nat) -> Port
    decreases k,
{
    if k == 0 {
        p
    } else {
        fifo_reads(p, (k - 1) as nat).fifo_read()
    }
}

/// Staged bytes are read back in order, two at a time, high byte first; past
/// their end the port reads 0.
pub proof fn staged_bytes_stream_in_order(p: Port, data: Seq<u8>, k: nat)
    requires
        data.len() <= usize::MAX,
    ensures
        2 * k + 1 < data.len() ==> fifo_reads(p.staged(data), k).fifo_word() == ((data[2 * (k
            as int)] as u16) << 8) | data[2 * (k as int) + 1] as u16,
        2 * k + 1 >= data.len() ==> fifo_reads(p.staged(data), k).fifo_word() == 0,
        fifo_reads(p.staged(data), k).xfer == data,
        fifo_reads(p.staged(data), k).xfer_pos == if 2 * k <= data.len() {
            2 * k as int
        } else {
            data.len() as int
        },
    decreases k,
{
    if k > 0 {
        staged_bytes_stream_in_order(p, data, (k - 1) as nat);
    }
}

/// CD-DA samples come out in order however the requests are sized.
pub proof fn audio_is_taken_in_order(a: Audio, n: nat, k: nat)
    ensures
        a.head(n + k) == a.head(n) + a.drained(n).head(k),
        a.drained(n + k) == a.drained(n).drained(k),
{
    assert(a.head(n + k) =~= a.head(n) + a.drained(n).head(k));
    assert(a.drained(n + k).fifo =~= a.drained(n).drained(k).fifo);
}

} // verus!
