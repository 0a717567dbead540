//! The drive does not look at the logs: what it does is the same whatever they hold.

use vstd::prelude::*;
use super::model::{CdState, Logs};

verus! {

/// The state with other logs.
pub open spec fn logging(s: CdState, l: Logs) -> CdState {
    CdState { logs: l, ..s }
}

proof fn processing_is_blind(s: CdState, l: Logs)
    ensures
        logging(s, l).read_ahead_processed() == logging(s.read_ahead_processed(), l),
{
    reveal(CdState::read_ahead_processed);
}

proof fn filling_is_blind(s: CdState, l: Logs)
    ensures
        logging(s, l).read_ahead_filled() == logging(s.read_ahead_filled(), l),
{
    reveal(CdState::read_ahead_filled);
}

proof fn resolving_is_blind(s: CdState, l: Logs)
    ensures
        logging(s, l).seek_resolved() == logging(s.seek_resolved(), l),
{
    reveal(CdState::seek_resolved);
}

proof fn settling_is_blind(s: CdState, l: Logs)
    ensures
        logging(s, l).seek_settled() == logging(s.seek_settled(), l),
{
    reveal(CdState::seek_settled);
}

proof fn phases_are_blind(s: CdState, l: Logs)
    ensures
        logging(s, l).phase_stepped() == logging(s.phase_stepped(), l),
{
    reveal(CdState::phase_stepped);
    resolving_is_blind(s, l);
    settling_is_blind(s, l);
    processing_is_blind(s, l);
    filling_is_blind(s.read_ahead_processed(), l);
}

proof fn pausing_is_blind(s: CdState, l: Logs)
    ensures
        logging(s, l).pause_sequenced() == logging(s.pause_sequenced(), l),
{
    reveal(CdState::pause_sequenced);
    assert(logging(s, l).end_met() == s.end_met());
}

proof fn ending_is_blind(s: CdState, l: Logs)
    ensures
        logging(s, l).range_ended() == logging(s.range_ended(), l),
{
    reveal(CdState::range_ended);
}

proof fn supervision_is_blind(s: CdState, l: Logs)
    ensures
        logging(s, l).transfer_supervised() == logging(s.transfer_supervised(), l),
{
    reveal(CdState::transfer_supervised);
    pausing_is_blind(s, l);
    ending_is_blind(s, l);
    assert(logging(s, l).end_met() == s.end_met());
}

proof fn periodic_is_blind(s: CdState, l: Logs)
    ensures
        logging(s, l).periodic() == logging(s.periodic(), l),
{
    reveal(CdState::periodic);
    let t = CdState {
        drive: super::Drive { periodic_idle: super::PERIODIC_IDLE_CYC, ..s.drive },
        ..s
    };
    supervision_is_blind(t, l);
}

proof fn due_is_blind(s: CdState, l: Logs)
    ensures
        logging(s, l).due_done() == logging(s.due_done(), l),
{
    reveal(CdState::due_done);
    phases_are_blind(s, l);
    periodic_is_blind(s, l);
    periodic_is_blind(s.phase_stepped(), l);
}

/// Running the drive leaves the logs, and does not look at them.
pub proof fn run_is_blind(s: CdState, l: Logs, cycles: int)
    ensures
        logging(s, l).run(cycles) == logging(s.run(cycles), l),
    decreases cycles,
{
    due_is_blind(s, l);
    let t = s.due_done();
    if cycles > 0 {
        let n = if t.next_event() < cycles {
            t.next_event()
        } else {
            cycles
        };
        run_is_blind(t.elapsed(n), l, cycles - n);
    }
}

/// Noting a change of HIRQ touches nothing but the log.
pub proof fn noting_logs(s: CdState, cause: u32)
    ensures
        s.hirq_noted(cause) == logging(s, s.hirq_noted(cause).logs),
        !s.logs.hirq_log_on ==> s.hirq_noted(cause) == s,
{
    reveal(CdState::hirq_noted);
}

/// Noting HIRQ on the way makes a difference to the log alone.
pub proof fn noting_on_the_way(way: CdState, end: CdState, cause: u32)
    requires
        way.logs == end.logs,
    ensures
        ({
            let (x, y) = (
                logging(end, way.hirq_noted(cause).logs).hirq_noted(cause),
                end.hirq_noted(cause),
            );
            x == (CdState { logs: Logs { hirq_log: x.logs.hirq_log, ..y.logs }, ..y })
        }),
{
    reveal(CdState::hirq_noted);
}

} // verus!
