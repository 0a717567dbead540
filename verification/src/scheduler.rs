//! The scheduler: which chip runs next.
//!
//! Every entity has a deadline, the clock at which it wants to run. The scheduler
//! always runs the one that is most behind. Ties go to the one that was added
//! first, so that a run depends on nothing but its start.

use std::collections::VecDeque;
use vstd::prelude::*;
use crate::bus::timing::AccessKind;
use crate::bus::{bus_state, cd_wf, rest_kept, Machine, SaturnBus};
use crate::cd_block::PERIODIC_CYCLES;
use crate::disc::{Disc, SectorSource};
use crate::scsp::probes::ring_with;

verus! {

/// What a [`Scheduler`] can run.
pub trait SchedEntity: Sized {
    /// What the entity works on, shared by all.
    type Context;

    /// Whether the entity is in order.
    spec fn wf(&self) -> bool;

    /// Whether the context is in order.
    spec fn admits(ctx: Self::Context) -> bool;

    /// When the entity wants to run.
    spec fn deadline(&self) -> u64;

    /// Whether a step can lead from one state of entity and context to another.
    spec fn leads(pre: Self, ctx: Self::Context, post: Self, after: Self::Context) -> bool;

    /// When the entity wants to run.
    fn next_deadline(&self) -> (r: u64)
        ensures
            r == self.deadline(),
    ;

    /// Runs a step. The deadline moves on.
    fn step(&mut self, ctx: &mut Self::Context)
        requires
            old(self).wf(),
            Self::admits(*old(ctx)),
            old(self).deadline() < u64::MAX,
        ensures
            final(self).wf(),
            Self::admits(*final(ctx)),
            final(self).deadline() > old(self).deadline(),
            Self::leads(*old(self), *old(ctx), *final(self), *final(ctx)),
    ;
}

/// A handle of an entity.
#[derive(Clone, Copy, Debug, PartialEq, Eq, Hash, Structural)]
pub struct EntityId(pub usize);

/// Runs entities in the order of their deadlines.
#[derive(Clone, Debug)]
pub struct Scheduler<E: SchedEntity> {
    pub entities: Vec<E>,
}

// ---- the order ----------------------------------------------------------------------

/// The most-behind of the first `n` entities; of several, the first.
pub open spec fn behind<E: SchedEntity>(s: Seq<E>, n: int) -> int
    decreases n,
{
    if n <= 1 {
        0
    } else {
        let b = behind(s, n - 1);
        if s[n - 1].deadline() < s[b].deadline() {
            n - 1
        } else {
            b
        }
    }
}

/// The clock: the smallest deadline.
pub open spec fn clock<E: SchedEntity>(s: Seq<E>) -> u64 {
    if s.len() == 0 {
        0
    } else {
        s[behind(s, s.len() as int)].deadline()
    }
}

/// Whether the most-behind entity can have made one step.
pub open spec fn stepped<E: SchedEntity>(
    a: Seq<E>,
    c: E::Context,
    b: Seq<E>,
    d: E::Context,
) -> bool {
    let k = behind(a, a.len() as int);
    b == a.update(k, b[k]) && E::leads(a[k], c, b[k], d)
}

/// Whether state `i` is before `target`, and the next one follows on it.
pub open spec fn follows<E: SchedEntity>(
    states: Seq<Seq<E>>,
    contexts: Seq<E::Context>,
    i: int,
    target: u64,
) -> bool {
    clock(states[i]) < target && stepped(
        states[i],
        contexts[i],
        states[i + 1],
        contexts[i + 1],
    )
}

/// Whether states of the entities and the context follow on each other, until the
/// clock has got to `target`.
pub open spec fn is_run<E: SchedEntity>(
    states: Seq<Seq<E>>,
    contexts: Seq<E::Context>,
    target: u64,
) -> bool {
    &&& states.len() > 0
    &&& states.len() == contexts.len()
    &&& clock(states.last()) >= target
    &&& forall|i: int|
        0 <= i < states.len() - 1 ==> #[trigger] follows(states, contexts, i, target)
}

/// Whether a run can lead from one state to another.
pub open spec fn runs<E: SchedEntity>(
    a: Seq<E>,
    c: E::Context,
    b: Seq<E>,
    d: E::Context,
    target: u64,
) -> bool {
    exists|s: Seq<Seq<E>>, t: Seq<E::Context>|
        #[trigger] is_run(s, t, target) && s[0] == a && t[0] == c && s.last() == b && t.last() == d
}

/// Whether `before_step` was told of step `i`: of the entity that made it, as it was
/// before, and its handle.
pub open spec fn told<E: SchedEntity, F: FnMut(&E, EntityId)>(
    before_step: F,
    states: Seq<Seq<E>>,
    i: int,
) -> bool {
    let k = behind(states[i], states[i].len() as int);
    call_ensures(before_step, (&states[i][k], EntityId(k as usize)), ())
}

/// Whether a run can lead from one state to another of which `before_step` was told
/// every step.
pub open spec fn runs_told<E: SchedEntity, F: FnMut(&E, EntityId)>(
    before_step: F,
    a: Seq<E>,
    c: E::Context,
    b: Seq<E>,
    d: E::Context,
    target: u64,
) -> bool {
    exists|s: Seq<Seq<E>>, t: Seq<E::Context>|
        #[trigger] is_run(s, t, target) && s[0] == a && t[0] == c && s.last() == b && t.last() == d
            && forall|i: int| 0 <= i < s.len() - 1 ==> #[trigger] told(before_step, s, i)
}

/// The clock that a run of `cycles` is to get to.
pub open spec fn horizon(now: u64, cycles: u64) -> u64 {
    if now + cycles > u64::MAX {
        u64::MAX
    } else {
        (now + cycles) as u64
    }
}

proof fn behind_props<E: SchedEntity>(s: Seq<E>, n: int)
    requires
        1 <= n <= s.len(),
    ensures
        0 <= behind(s, n) < n,
        forall|j: int| 0 <= j < n ==> s[behind(s, n)].deadline() <= (#[trigger] s[j]).deadline(),
        forall|j: int|
            0 <= j < behind(s, n) ==> s[behind(s, n)].deadline() < (#[trigger] s[j]).deadline(),
    decreases n,
{
    if n > 1 {
        behind_props(s, n - 1);
    }
}

/// What the first `n` entities are short of `target` altogether.
spec fn lag<E: SchedEntity>(s: Seq<E>, target: u64, n: int) -> nat
    decreases n,
{
    if n <= 0 {
        0
    } else {
        let d = s[n - 1].deadline();
        lag(s, target, n - 1) + if d < target {
            (target - d) as nat
        } else {
            0
        }
    }
}

proof fn lag_shrinks<E: SchedEntity>(s: Seq<E>, e: E, k: int, target: u64, n: int)
    requires
        0 <= k < s.len(),
        0 <= n <= s.len(),
        s[k].deadline() < target,
        e.deadline() > s[k].deadline(),
    ensures
        k < n ==> lag(s.update(k, e), target, n) < lag(s, target, n),
        k >= n ==> lag(s.update(k, e), target, n) == lag(s, target, n),
    decreases n,
{
    if n > 0 {
        lag_shrinks(s, e, k, target, n - 1);
    }
}

impl<E: SchedEntity> Default for Scheduler<E> {
    fn default() -> (r: Scheduler<E>)
        ensures
            r.entities@ == Seq::<E>::empty(),
    {
        Scheduler::new()
    }
}

impl<E: SchedEntity> Scheduler<E> {
    /// All entities are in order.
    pub open spec fn wf(&self) -> bool {
        forall|i: int| 0 <= i < self.entities@.len() ==> (#[trigger] self.entities@[i]).wf()
    }

    /// A scheduler without entities.
    pub fn new() -> (r: Scheduler<E>)
        ensures
            r.entities@ == Seq::<E>::empty(),
    {
        Scheduler { entities: Vec::new() }
    }

    /// Adds an entity behind the others.
    pub fn add(&mut self, entity: E) -> (r: EntityId)
        ensures
            final(self).entities@ == old(self).entities@.push(entity),
            r.0 == old(self).entities@.len(),
    {
        let id = EntityId(self.entities.len());
        self.entities.push(entity);
        id
    }

    /// The entity of a handle.
    pub fn entity(&self, id: EntityId) -> (r: &E)
        requires
            id.0 < self.entities@.len(),
        ensures
            *r == self.entities@[id.0 as int],
    {
        &self.entities[id.0]
    }

    /// The entity of a handle, for changing.
    pub fn entity_mut(&mut self, id: EntityId) -> (r: &mut E)
        requires
            id.0 < old(self).entities@.len(),
        ensures
            *r == old(self).entities@[id.0 as int],
            final(self).entities@ == old(self).entities@.update(id.0 as int, *final(r)),
    {
        &mut self.entities[id.0]
    }

    /// All entities.
    pub fn entities(&self) -> (r: &[E])
        ensures
            r@ == self.entities@,
    {
        self.entities.as_slice()
    }

    fn pick_behind(&self) -> (r: usize)
        requires
            self.entities@.len() > 0,
        ensures
            r == behind(self.entities@, self.entities@.len() as int),
            r < self.entities@.len(),
    {
        let n: usize = self.entities.len();
        let mut best: usize = 0;
        let mut least: u64 = self.entities[0].next_deadline();
        let mut i: usize = 1;
        while i < n
            invariant
                1 <= i <= n == self.entities@.len(),
                best < i,
                best == behind(self.entities@, i as int),
                least == self.entities@[best as int].deadline(),
            decreases n - i,
        {
            let d: u64 = self.entities[i].next_deadline();
            if d < least {
                best = i;
                least = d;
            }
            i += 1;
        }
        best
    }

    /// The clock: the smallest deadline, 0 without entities.
    pub fn now(&self) -> (r: u64)
        ensures
            r == clock(self.entities@),
    {
        if self.entities.len() == 0 {
            0
        } else {
            let i: usize = self.pick_behind();
            self.entities[i].next_deadline()
        }
    }

    /// Runs until the clock has moved on by `cycles`.
    pub fn run_for(&mut self, cycles: u64, ctx: &mut E::Context)
        requires
            old(self).wf(),
            E::admits(*old(ctx)),
        ensures
            final(self).wf(),
            E::admits(*final(ctx)),
            old(self).entities@.len() == 0 || cycles == 0 ==> final(self).entities@ == old(
                self,
            ).entities@ && *final(ctx) == *old(ctx),
            old(self).entities@.len() > 0 && cycles > 0 ==> runs(
                old(self).entities@,
                *old(ctx),
                final(self).entities@,
                *final(ctx),
                horizon(clock(old(self).entities@), cycles),
            ),
    {
        self.run_for_traced(
            cycles,
            ctx,
            |e: &E, id: EntityId| {  },
        );
    }

    /// Runs until the clock has moved on by `cycles`, and calls `before_step` before
    /// every step, with the entity and its handle.
    pub fn run_for_traced<F>(&mut self, cycles: u64, ctx: &mut E::Context, before_step: F) where
        F: FnMut(&E, EntityId),

        requires
            old(self).wf(),
            E::admits(*old(ctx)),
            forall|e: &E, id: EntityId| #[trigger] call_requires(before_step, (e, id)),
        ensures
            final(self).wf(),
            E::admits(*final(ctx)),
            old(self).entities@.len() == 0 || cycles == 0 ==> final(self).entities@ == old(
                self,
            ).entities@ && *final(ctx) == *old(ctx),
            old(self).entities@.len() > 0 && cycles > 0 ==> runs_told(
                before_step,
                old(self).entities@,
                *old(ctx),
                final(self).entities@,
                *final(ctx),
                horizon(clock(old(self).entities@), cycles),
            ),
    {
        if self.entities.len() == 0 || cycles == 0 {
            return;
        }
        let ghost given = before_step;
        let mut tell = before_step;
        let target: u64 = self.now().saturating_add(cycles);
        let ghost mut states: Seq<Seq<E>> = seq![self.entities@];
        let ghost mut contexts: Seq<E::Context> = seq![*ctx];
        let ghost count = self.entities@.len();
        while self.now() < target
            invariant
                self.wf(),
                E::admits(*ctx),
                self.entities@.len() == count,
                count > 0,
                states.len() > 0,
                states.len() == contexts.len(),
                states[0] == old(self).entities@,
                contexts[0] == *old(ctx),
                states.last() == self.entities@,
                contexts.last() == *ctx,
                forall|i: int|
                    0 <= i < states.len() - 1 ==> #[trigger] follows(states, contexts, i, target),
                forall|e: &E, id: EntityId| #[trigger] call_requires(given, (e, id)),
                tell == given,
                forall|i: int| 0 <= i < states.len() - 1 ==> #[trigger] told(given, states, i),
            decreases lag(self.entities@, target, count as int),
        {
            let k: usize = self.pick_behind();
            let ghost before = self.entities@;
            tell(&self.entities[k], EntityId(k));
            let ghost was = *ctx;
            self.entities[k].step(ctx);
            proof {
                let after = self.entities@;
                assert(after =~= before.update(k as int, after[k as int]));
                lag_shrinks(before, after[k as int], k as int, target, count as int);
                assert(stepped(before, was, after, *ctx));
                let grown = states.push(after);
                let known = contexts.push(*ctx);
                assert forall|i: int| 0 <= i < grown.len() - 1 implies #[trigger] follows(
                    grown,
                    known,
                    i,
                    target,
                ) by {
                    if i < states.len() - 1 {
                        assert(follows(states, contexts, i, target));
                        assert(grown[i] == states[i] && grown[i + 1] == states[i + 1]);
                        assert(known[i] == contexts[i] && known[i + 1] == contexts[i + 1]);
                    }
                }
                assert(call_ensures(given, (&before[k as int], EntityId(k)), ()));
                assert forall|i: int| 0 <= i < grown.len() - 1 implies #[trigger] told(
                    given,
                    grown,
                    i,
                ) by {
                    if i < states.len() - 1 {
                        assert(told(given, states, i));
                        assert(grown[i] == states[i]);
                    }
                }
                states = grown;
                contexts = known;
            }
        }
        assert(is_run(states, contexts, target));
    }
}

// ---- laws -------------------------------------------------------------------------

/// The entity that runs is one that is most behind, and of these the one that was
/// added first.
pub proof fn most_behind_runs_first<E: SchedEntity>(s: Seq<E>, j: int)
    requires
        0 <= j < s.len(),
    ensures
        ({
            let k = behind(s, s.len() as int);
            &&& 0 <= k < s.len()
            &&& s[k].deadline() <= s[j].deadline()
            &&& s[k].deadline() == s[j].deadline() ==> k <= j
        }),
{
    behind_props(s, s.len() as int);
}

/// Entities do one thing in one state: in contexts that are alike, they get to one
/// state and leave contexts that are alike.
pub open spec fn deterministic<E: SchedEntity>(
    alike: spec_fn(E::Context, E::Context) -> bool,
) -> bool {
    forall|a: E, c: E::Context, b: E, d: E::Context, g: E::Context, e: E, h: E::Context|
        #[trigger] E::leads(a, c, b, d) && #[trigger] E::leads(a, g, e, h) && alike(c, g) ==> b == e
            && alike(d, h)
}

/// A run depends on nothing but its start: if the entities do one thing in one state,
/// the scheduler does, step by step.
pub proof fn runs_are_deterministic<E: SchedEntity>(
    alike: spec_fn(E::Context, E::Context) -> bool,
    s: Seq<Seq<E>>,
    t: Seq<E::Context>,
    u: Seq<Seq<E>>,
    v: Seq<E::Context>,
    target: u64,
)
    requires
        deterministic::<E>(alike),
        is_run(s, t, target),
        is_run(u, v, target),
        s[0] == u[0],
        alike(t[0], v[0]),
    ensures
        s == u,
        t.len() == v.len(),
        forall|i: int| 0 <= i < t.len() ==> alike(#[trigger] t[i], v[i]),
{
    if s.len() <= u.len() {
        runs_agree(alike, s, t, u, v, target, s.len() as int);
        if s.len() < u.len() {
            assert(follows(u, v, s.len() - 1, target));
        }
    } else {
        runs_agree(alike, s, t, u, v, target, u.len() as int);
        assert(follows(s, t, u.len() - 1, target));
    }
    assert(s =~= u);
}

proof fn runs_agree<E: SchedEntity>(
    alike: spec_fn(E::Context, E::Context) -> bool,
    s: Seq<Seq<E>>,
    t: Seq<E::Context>,
    u: Seq<Seq<E>>,
    v: Seq<E::Context>,
    target: u64,
    n: int,
)
    requires
        deterministic::<E>(alike),
        is_run(s, t, target),
        is_run(u, v, target),
        s[0] == u[0],
        alike(t[0], v[0]),
        1 <= n <= s.len(),
        n <= u.len(),
    ensures
        forall|i: int| 0 <= i < n ==> #[trigger] s[i] == u[i],
        forall|i: int| 0 <= i < n ==> alike(#[trigger] t[i], v[i]),
    decreases n,
{
    if n > 1 {
        runs_agree(alike, s, t, u, v, target, n - 1);
        let i = n - 2;
        assert(follows(s, t, i, target) && follows(u, v, i, target));
        assert(s[i] == u[i] && alike(t[i], v[i]));
        let k = behind(s[i], s[i].len() as int);
        assert(E::leads(s[i][k], t[i], s[i + 1][k], t[i + 1]));
        assert(E::leads(u[i][k], v[i], u[i + 1][k], v[i + 1]));
        assert(s[i + 1] == s[i].update(k, s[i + 1][k]));
        assert(u[i + 1] == u[i].update(k, u[i + 1][k]));
        assert(s[n - 1] == u[n - 1] && alike(t[n - 1], v[n - 1]));
    }
}

/// A traced run is a run: that `before_step` is told of the steps changes nothing.
pub proof fn telling_changes_nothing<E: SchedEntity, F: FnMut(&E, EntityId)>(
    before_step: F,
    a: Seq<E>,
    c: E::Context,
    b: Seq<E>,
    d: E::Context,
    target: u64,
)
    requires
        runs_told(before_step, a, c, b, d, target),
    ensures
        runs(a, c, b, d, target),
{
}

/// A traced run and a plain one from one start end alike.
pub proof fn traced_and_plain_runs_end_alike<E: SchedEntity, F: FnMut(&E, EntityId)>(
    alike: spec_fn(E::Context, E::Context) -> bool,
    before_step: F,
    a: Seq<E>,
    c: E::Context,
    b: Seq<E>,
    d: E::Context,
    g: E::Context,
    e: Seq<E>,
    h: E::Context,
    target: u64,
)
    requires
        deterministic::<E>(alike),
        alike(c, g),
        runs_told(before_step, a, c, b, d, target),
        runs(a, g, e, h, target),
    ensures
        b == e,
        alike(d, h),
{
    let (s, t) = choose|s: Seq<Seq<E>>, t: Seq<E::Context>|
        #[trigger] is_run(s, t, target) && s[0] == a && t[0] == c && s.last() == b && t.last() == d;
    let (u, v) = choose|u: Seq<Seq<E>>, v: Seq<E::Context>|
        #[trigger] is_run(u, v, target) && u[0] == a && v[0] == g && u.last() == e && v.last() == h;
    runs_are_deterministic(alike, s, t, u, v, target);
    assert(alike(t[t.len() - 1], v[t.len() - 1]));
}

/// The CD-block's timer does one thing in one state of the machine.
pub proof fn timer_is_deterministic()
    ensures
        deterministic::<CdBlockEntity>(|c: SaturnBus<Disc>, g: SaturnBus<Disc>| c@ == g@),
{
}

/// The chips of the machine do, if its CPUs do.
pub proof fn machine_is_deterministic<C: SchedEntity<Context = SaturnBus<Disc>>>()
    requires
        deterministic::<C>(|c: SaturnBus<Disc>, g: SaturnBus<Disc>| c@ == g@),
    ensures
        deterministic::<SaturnEntity<C>>(|c: SaturnBus<Disc>, g: SaturnBus<Disc>| c@ == g@),
{
    timer_is_deterministic();
    let alike = |c: SaturnBus<Disc>, g: SaturnBus<Disc>| c@ == g@;
    assert forall|
        a: SaturnEntity<C>,
        c: SaturnBus<Disc>,
        b: SaturnEntity<C>,
        d: SaturnBus<Disc>,
        g: SaturnBus<Disc>,
        e: SaturnEntity<C>,
        h: SaturnBus<Disc>,
    | #[trigger] SaturnEntity::<C>::leads(a, c, b, d) && #[trigger] SaturnEntity::<C>::leads(
        a,
        g,
        e,
        h,
    ) && alike(c, g) implies b == e && alike(d, h) by {
        match (a, b, e) {
            (SaturnEntity::Sh2(x), SaturnEntity::Sh2(y), SaturnEntity::Sh2(z)) => {
                assert(C::leads(x, c, y, d) && C::leads(x, g, z, h));
            },
            (SaturnEntity::CdBlock(x), SaturnEntity::CdBlock(y), SaturnEntity::CdBlock(z)) => {
                assert(CdBlockEntity::leads(x, c, y, d) && CdBlockEntity::leads(x, g, z, h));
            },
            _ => {},
        }
    }
}

// ---- the CD-block's timer ---------------------------------------------------------

/// Runs the CD-block at regular times.
#[derive(Clone, Debug)]
pub struct CdBlockEntity {
    /// The clock of the next time.
    pub next: u64,
    /// Clocks between times.
    pub interval: u64,
}

impl CdBlockEntity {
    /// A timer that runs the CD-block every `interval` clocks.
    pub fn new(interval: u64) -> (r: CdBlockEntity)
        ensures
            r.next == interval,
            r.interval == interval,
    {
        CdBlockEntity { next: interval, interval }
    }
}

/// Whether the CD-block of a machine can be run.
pub open spec fn cd_runs(m: Machine) -> bool {
    m.wf() && m.cd.addressable() && (m.cd.disc is None ==> m.cd.drive.periodic_accum
        < PERIODIC_CYCLES)
}

impl SchedEntity for CdBlockEntity {
    type Context = SaturnBus<Disc>;

    open spec fn wf(&self) -> bool {
        0 < self.interval <= u64::MAX - PERIODIC_CYCLES
    }

    open spec fn admits(ctx: SaturnBus<Disc>) -> bool {
        cd_runs(ctx@)
    }

    open spec fn deadline(&self) -> u64 {
        self.next
    }

    open spec fn leads(
        pre: CdBlockEntity,
        ctx: SaturnBus<Disc>,
        post: CdBlockEntity,
        after: SaturnBus<Disc>,
    ) -> bool {
        &&& post.interval == pre.interval
        &&& post.next == horizon(pre.next, pre.interval)
        &&& after@ == (Machine { cd: ctx@.cd.ticked(pre.interval), ..ctx@ })
        &&& rest_kept(ctx, after)
    }

    fn next_deadline(&self) -> (r: u64) {
        self.next
    }

    fn step(&mut self, ctx: &mut SaturnBus<Disc>) {
        reveal(cd_wf);
        proof {
            bus_state(*ctx);
        }
        ctx.cd_block.tick(self.interval);
        self.next = self.next.saturating_add(self.interval);
        proof {
            bus_state(*ctx);
            assert(ctx@ == (Machine { cd: old(ctx)@.cd.ticked(self.interval), ..old(ctx)@ }));
        }
    }
}

// ---- the main CPUs ----------------------------------------------------------------

/// What the host of a main CPU keeps beside the CPU itself.
#[derive(Clone, Debug)]
pub struct Sh2Entity {
    /// The CPU is held.
    pub halted: bool,
    /// Addresses of the last instructions, if recorded.
    pub pc_trace: Option<VecDeque<u32>>,
    /// A breakpoint; and, at its first hit, the registers and the code there.
    pub bp: Option<u32>,
    pub bp_hit: Option<([u32; 16], Vec<u16>)>,
    /// The system calls of the BIOS are done natively.
    pub hle_sys_active: bool,
}

/// Limit of the recorded addresses.
pub const PC_TRACE_LIMIT: usize = 32768;

/// Words of code that a breakpoint captures.
pub const CAPTURE_WORDS: usize = 48;

/// Whether an address is recorded behind the others. Repetitions and the idle loop of
/// the BIOS are not; nothing is, once the program in work RAM has begun.
pub open spec fn is_traced(t: Seq<u32>, pc: u32) -> bool {
    &&& !(0x2B0 <= pc <= 0x2B6)
    &&& t.len() > 0 ==> t.last() != pc && !(0x0602_0000 <= t.last() < 0x0605_0000)
}

pub open spec fn pc_traced(
    a: Option<VecDeque<u32>>,
    b: Option<VecDeque<u32>>,
    pc: u32,
) -> bool {
    match (a, b) {
        (Some(x), Some(y)) => y@ == if is_traced(x@, pc) {
            ring_with(x@, pc, PC_TRACE_LIMIT as int)
        } else {
            x@
        },
        (None, None) => true,
        _ => false,
    }
}

impl Machine {
    /// 16 bits are read for a debugger.
    #[verifier::opaque]
    pub open spec fn peeked16(self, addr: u32, reply: u16, draw: u32) -> Machine {
        self.read16(addr, self.answer16(addr, reply)).done(addr, 2, false, AccessKind::Data, draw)
    }

    /// The machine after `n` words of code have been read.
    pub open spec fn code_read(self, pc: u32, replies: Seq<u16>, draw: u32, n: int) -> Machine
        decreases n,
    {
        if n <= 0 {
            self
        } else {
            self.code_read(pc, replies, draw, n - 1).peeked16(
                pc.wrapping_add((2 * (n - 1)) as u32),
                replies[n - 1],
                draw,
            )
        }
    }

    /// Word `i` of the code.
    pub open spec fn code_word(self, pc: u32, replies: Seq<u16>, draw: u32, i: int) -> u16 {
        self.code_read(pc, replies, draw, i).answer16(
            pc.wrapping_add((2 * i) as u32),
            replies[i],
        )
    }
}

impl Sh2Entity {
    /// Nothing is recorded, and no call intercepted.
    pub open spec fn is_plain(self) -> bool {
        self.pc_trace is None && self.bp is None && self.bp_hit is None && !self.hle_sys_active
    }

    /// The host of a CPU that runs.
    pub fn new() -> (r: Sh2Entity)
        ensures
            r.is_plain(),
            !r.halted,
    {
        Sh2Entity { halted: false, pc_trace: None, bp: None, bp_hit: None, hle_sys_active: false }
    }

    /// The host of a CPU that is held, as the slave is at power-on.
    pub fn new_halted() -> (r: Sh2Entity)
        ensures
            r.is_plain(),
            r.halted,
    {
        Sh2Entity { halted: true, pc_trace: None, bp: None, bp_hit: None, hle_sys_active: false }
    }

    /// Has the system calls of the BIOS done natively, or not.
    pub fn set_hle_sys(&mut self, on: bool)
        ensures
            *final(self) == (Sh2Entity { hle_sys_active: on, ..*old(self) }),
    {
        self.hle_sys_active = on;
    }

    /// Begins to record addresses.
    pub fn enable_pc_trace(&mut self)
        ensures
            final(self).pc_trace matches Some(v) && v@ == Seq::<u32>::empty(),
            *final(self) == (Sh2Entity { pc_trace: final(self).pc_trace, ..*old(self) }),
    {
        self.pc_trace = Some(VecDeque::new());
    }

    /// Takes the recorded addresses, the oldest first; the recording goes on.
    pub fn take_pc_trace(&mut self) -> (r: Vec<u32>)
        ensures
            match (old(self).pc_trace, final(self).pc_trace) {
                (Some(x), Some(y)) => r@ == x@ && y@ == Seq::<u32>::empty(),
                (None, None) => r@ == Seq::<u32>::empty(),
                _ => false,
            },
            *final(self) == (Sh2Entity { pc_trace: final(self).pc_trace, ..*old(self) }),
    {
        let mut r: Vec<u32> = Vec::new();
        if let Some(ring) = self.pc_trace.take() {
            let n: usize = ring.len();
            let mut i: usize = 0;
            while i < n
                invariant
                    i <= n == ring@.len(),
                    r@ =~= ring@.take(i as int),
                decreases n - i,
            {
                r.push(ring[i]);
                i += 1;
            }
            self.pc_trace = Some(VecDeque::new());
        }
        r
    }

    /// Whether the CPU is held.
    pub fn is_halted(&self) -> (r: bool)
        ensures
            r == self.halted,
    {
        self.halted
    }

    /// Holds or releases the CPU.
    pub fn set_halted(&mut self, halted: bool)
        ensures
            *final(self) == (Sh2Entity { halted, ..*old(self) }),
    {
        self.halted = halted;
    }

    /// Sets the breakpoint; forgets a hit.
    pub fn set_bp(&mut self, pc: u32)
        ensures
            *final(self) == (Sh2Entity { bp: Some(pc), bp_hit: None, ..*old(self) }),
    {
        self.bp = Some(pc);
        self.bp_hit = None;
    }

    /// Takes the hit of the breakpoint: registers, and code.
    pub fn take_bp_hit(&mut self) -> (r: Option<([u32; 16], Vec<u16>)>)
        ensures
            r == old(self).bp_hit,
            *final(self) == (Sh2Entity { bp_hit: None, ..*old(self) }),
    {
        self.bp_hit.take()
    }

    /// The deadline of the CPU, given its clock: never, while it is held.
    pub fn deadline_at(&self, cycles: u64) -> (r: u64)
        ensures
            r == (if self.halted {
                u64::MAX
            } else {
                cycles
            }),
    {
        if self.halted {
            u64::MAX
        } else {
            cycles
        }
    }

    /// Whether the CPU, about to run the instruction at `pc`, has a system call done
    /// natively instead.
    pub fn intercepts(&self, pc: u32, in_delay_slot: bool) -> (r: bool)
        ensures
            r == (!self.halted && self.hle_sys_active && !in_delay_slot
                && crate::bios_hle::SYS_ADDRS@.contains(pc)),
    {
        !self.halted && self.hle_sys_active && !in_delay_slot && crate::bios_hle::is_sys_addr(pc)
    }

    /// After an instruction, with the CPU at `pc`: captures registers and code at the
    /// breakpoint, and records the address. `replies` are what the SMPC or a graphics
    /// chip answers, should the code be there.
    pub fn after_step<S: SectorSource>(
        &mut self,
        pc: u32,
        r: &[u32; 16],
        bus: &mut SaturnBus<S>,
        replies: &[u16; 48],
        draw: u32,
    )
        requires
            old(bus)@.wf(),
        ensures
            ({
                let hits = old(self).bp == Some(pc) && old(self).bp_hit is None;
                &&& final(bus)@ == if hits {
                    old(bus)@.code_read(pc, replies@, draw, 48)
                } else {
                    old(bus)@
                }
                &&& if hits {
                    final(self).bp_hit matches Some((regs, code)) && regs@ == r@ && code@
                        == Seq::new(
                        48,
                        |i: int| old(bus)@.code_word(pc, replies@, draw, i),
                    )
                } else {
                    final(self).bp_hit == old(self).bp_hit
                }
            }),
            pc_traced(old(self).pc_trace, final(self).pc_trace, pc),
            final(self).halted == old(self).halted,
            final(self).bp == old(self).bp,
            final(self).hle_sys_active == old(self).hle_sys_active,
            final(bus)@.wf(),
            rest_kept(*old(bus), *final(bus)),
    {
        if let Some(bp) = self.bp {
            if bp == pc && self.bp_hit.is_none() {
                let mut code: Vec<u16> = Vec::new();
                let mut i: usize = 0;
                while i < 48
                    invariant
                        i <= 48,
                        bus@.wf(),
                        rest_kept(*old(bus), *bus),
                        bus@ == old(bus)@.code_read(pc, replies@, draw, i as int),
                        code@ =~= Seq::new(
                            i as nat,
                            |k: int| old(bus)@.code_word(pc, replies@, draw, k),
                        ),
                    decreases 48 - i,
                {
                    let word: u16 = peek16(
                        bus,
                        pc.wrapping_add(2 * i as u32),
                        replies[i],
                        draw,
                    );
                    code.push(word);
                    i += 1;
                }
                self.bp_hit = Some((*r, code));
            }
        }
        if let Some(mut ring) = self.pc_trace.take() {
            let n: usize = ring.len();
            let mut traced: bool = !(0x2B0 <= pc && pc <= 0x2B6);
            if n > 0 {
                let last: u32 = ring[n - 1];
                if last == pc || (0x0602_0000 <= last && last < 0x0605_0000) {
                    traced = false;
                }
            }
            if traced {
                ring.push_back(pc);
                if ring.len() > PC_TRACE_LIMIT {
                    let _ = ring.pop_front();
                }
            }
            self.pc_trace = Some(ring);
        }
    }
}

fn peek16<S: SectorSource>(bus: &mut SaturnBus<S>, addr: u32, reply: u16, draw: u32) -> (r: u16)
    requires
        old(bus)@.wf(),
    ensures
        r == old(bus)@.answer16(addr, reply),
        final(bus)@ == old(bus)@.peeked16(addr, reply, draw),
        final(bus)@.wf(),
        rest_kept(*old(bus), *final(bus)),
{
    reveal(Machine::peeked16);
    bus.read16(addr, AccessKind::Data, reply, draw).0
}

// ---- all of them ------------------------------------------------------------------

/// Whether an entity runs on every bus on which the CD-block does, and leaves it so.
pub open spec fn shares_bus<C: SchedEntity<Context = SaturnBus<Disc>>>() -> bool {
    forall|ctx: SaturnBus<Disc>| #[trigger] C::admits(ctx) <==> cd_runs(ctx@)
}

/// An entity of the machine: a main CPU, or the CD-block's timer.
#[derive(Clone, Debug)]
pub enum SaturnEntity<C: SchedEntity<Context = SaturnBus<Disc>>> {
    Sh2(C),
    CdBlock(CdBlockEntity),
}

impl<C: SchedEntity<Context = SaturnBus<Disc>>> SaturnEntity<C> {
    /// The main CPU.
    pub fn sh2(&self) -> (r: &C)
        requires
            self is Sh2,
        ensures
            *r == self->Sh2_0,
    {
        match self {
            SaturnEntity::Sh2(e) => e,
            SaturnEntity::CdBlock(_) => {
                assert(false);
                vstd::pervasive::unreached()
            },
        }
    }

    /// The main CPU, for changing.
    pub fn sh2_mut(&mut self) -> (r: &mut C)
        requires
            *old(self) is Sh2,
        ensures
            *r == (*old(self))->Sh2_0,
            *final(self) == SaturnEntity::Sh2(*final(r)),
    {
        match self {
            SaturnEntity::Sh2(e) => e,
            SaturnEntity::CdBlock(_) => {
                assert(false);
                vstd::pervasive::unreached()
            },
        }
    }
}

impl<C: SchedEntity<Context = SaturnBus<Disc>>> SchedEntity for SaturnEntity<C> {
    type Context = SaturnBus<Disc>;

    open spec fn wf(&self) -> bool {
        &&& shares_bus::<C>()
        &&& match self {
            SaturnEntity::Sh2(e) => e.wf(),
            SaturnEntity::CdBlock(e) => e.wf(),
        }
    }

    open spec fn admits(ctx: SaturnBus<Disc>) -> bool {
        cd_runs(ctx@)
    }

    open spec fn deadline(&self) -> u64 {
        match self {
            SaturnEntity::Sh2(e) => e.deadline(),
            SaturnEntity::CdBlock(e) => e.deadline(),
        }
    }

    open spec fn leads(
        pre: SaturnEntity<C>,
        ctx: SaturnBus<Disc>,
        post: SaturnEntity<C>,
        after: SaturnBus<Disc>,
    ) -> bool {
        match (pre, post) {
            (SaturnEntity::Sh2(a), SaturnEntity::Sh2(b)) => C::leads(a, ctx, b, after),
            (SaturnEntity::CdBlock(a), SaturnEntity::CdBlock(b)) => CdBlockEntity::leads(
                a,
                ctx,
                b,
                after,
            ),
            _ => false,
        }
    }

    fn next_deadline(&self) -> (r: u64) {
        match self {
            SaturnEntity::Sh2(e) => e.next_deadline(),
            SaturnEntity::CdBlock(e) => e.next_deadline(),
        }
    }

    fn step(&mut self, ctx: &mut SaturnBus<Disc>) {
        match self {
            SaturnEntity::Sh2(e) => e.step(ctx),
            SaturnEntity::CdBlock(e) => e.step(ctx),
        }
    }
}

} // verus!
