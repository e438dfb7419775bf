use vstd::prelude::*;

use crate::host::{apply, HostContext, InvocationError, Ledger, Outcome};
use crate::metrics::{record_of, Clock, InvocationRecord, MetricsCollector};
use crate::ops::{OpKind, Step};

verus! {

/// An execution engine that runs entry points of a loaded module against its
/// own state. `Model` is what the engine's state means; `step` says what one
/// invocation does to it.
pub trait Sandbox {
    type Model;

    spec fn model(&self) -> Self::Model;

    spec fn step(m: Self::Model, kind: OpKind, args: Seq<u64>) -> (Self::Model, Result<
        Outcome,
        InvocationError,
    >);

    fn invoke(&mut self, kind: OpKind, args: &Vec<u64>) -> (r: Result<Outcome, InvocationError>)
        ensures
            (final(self).model(), r) == Self::step(old(self).model(), kind, args@),
    ;
}

/// The emulated host's state is its ledger with its metering ceiling.
pub open spec fn host_step(m: (Ledger, nat), kind: OpKind, args: Seq<u64>) -> ((Ledger, nat), Result<
    Outcome,
    InvocationError,
>) {
    match apply(m.0, m.1, kind, args) {
        Ok((l, o)) => ((l, m.1), Ok(o)),
        Err(e) => (m, Err(e)),
    }
}

impl Sandbox for HostContext {
    type Model = (Ledger, nat);

    open spec fn model(&self) -> (Ledger, nat) {
        (self.ledger(), self.ceiling())
    }

    open spec fn step(m: (Ledger, nat), kind: OpKind, args: Seq<u64>) -> ((Ledger, nat), Result<
        Outcome,
        InvocationError,
    >) {
        host_step(m, kind, args)
    }

    fn invoke(&mut self, kind: OpKind, args: &Vec<u64>) -> (r: Result<Outcome, InvocationError>) {
        HostContext::invoke(self, kind, args)
    }
}

/// A scenario as plain values: each step's entry point and arguments.
pub open spec fn step_views(s: Seq<Step>) -> Seq<(OpKind, Seq<u64>)> {
    s.map_values(|st: Step| (st.kind, st.args@))
}

/// An engine that answers each invocation with the next of a fixed list of
/// results, whatever the entry point, and traps once the list is used up.
/// It stands in for a module whose behaviour is known in advance.
pub struct ReplaySandbox {
    script: Vec<Result<Outcome, InvocationError>>,
    next: usize,
}

/// A replay engine's state: its script and how many answers it has given.
pub open spec fn replay_step(
    m: (Seq<Result<Outcome, InvocationError>>, nat),
    kind: OpKind,
    args: Seq<u64>,
) -> ((Seq<Result<Outcome, InvocationError>>, nat), Result<Outcome, InvocationError>) {
    if m.1 < m.0.len() {
        ((m.0, m.1 + 1), m.0[m.1 as int])
    } else {
        (m, Err(InvocationError::Trap))
    }
}

impl ReplaySandbox {
    /// An engine that will answer with `script`, in order.
    pub fn new(script: Vec<Result<Outcome, InvocationError>>) -> (r: ReplaySandbox)
        ensures
            r.model() == (script@, 0nat),
    {
        ReplaySandbox { script, next: 0 }
    }

    /// How many invocations it has answered from its script.
    pub fn answered(&self) -> (r: usize)
        ensures
            r as nat == self.model().1,
    {
        self.next
    }
}

impl Sandbox for ReplaySandbox {
    type Model = (Seq<Result<Outcome, InvocationError>>, nat);

    closed spec fn model(&self) -> (Seq<Result<Outcome, InvocationError>>, nat) {
        (self.script@, self.next as nat)
    }

    open spec fn step(
        m: (Seq<Result<Outcome, InvocationError>>, nat),
        kind: OpKind,
        args: Seq<u64>,
    ) -> ((Seq<Result<Outcome, InvocationError>>, nat), Result<Outcome, InvocationError>) {
        replay_step(m, kind, args)
    }

    fn invoke(&mut self, kind: OpKind, args: &Vec<u64>) -> (r: Result<Outcome, InvocationError>) {
        if self.next < self.script.len() {
            let r = self.script[self.next];
            self.next = self.next + 1;
            r
        } else {
            Err(InvocationError::Trap)
        }
    }
}

/// What running a scenario does: the final state, the outcomes of the steps
/// that succeeded, and the cause of the step that failed, if one did. Steps
/// run in order and the first failure ends the run.
pub ghost struct Trace<M> {
    pub model: M,
    pub outcomes: Seq<Outcome>,
    pub failure: Option<InvocationError>,
}

pub open spec fn run_model<S: Sandbox>(m: S::Model, steps: Seq<(OpKind, Seq<u64>)>) -> Trace<S::Model>
    decreases steps.len(),
{
    if steps.len() == 0 {
        Trace { model: m, outcomes: Seq::empty(), failure: None }
    } else {
        let (m1, r) = S::step(m, steps[0].0, steps[0].1);
        match r {
            Err(e) => Trace { model: m1, outcomes: Seq::empty(), failure: Some(e) },
            Ok(o) => {
                let rest = run_model::<S>(m1, steps.drop_first());
                Trace { model: rest.model, outcomes: seq![o].add(rest.outcomes), failure: rest.failure }
            },
        }
    }
}

/// A run completes every step, or fails at a step that exists.
pub proof fn lemma_run_length<S: Sandbox>(m: S::Model, steps: Seq<(OpKind, Seq<u64>)>)
    ensures
        run_model::<S>(m, steps).failure is None ==> run_model::<S>(m, steps).outcomes.len()
            == steps.len(),
        run_model::<S>(m, steps).failure is Some ==> run_model::<S>(m, steps).outcomes.len()
            < steps.len(),
    decreases steps.len(),
{
    if steps.len() > 0 {
        let (m1, r) = S::step(m, steps[0].0, steps[0].1);
        lemma_run_length::<S>(m1, steps.drop_first());
    }
}

/// A module that succeeds on its first invocation and fails on its second
/// stops any scenario of two or more steps at the second step: the run keeps
/// exactly the first outcome and reports the second failure.
pub proof fn lemma_replay_fails_at_second(
    first: Outcome,
    cause: InvocationError,
    later: Seq<Result<Outcome, InvocationError>>,
    steps: Seq<(OpKind, Seq<u64>)>,
)
    requires
        steps.len() >= 2,
    ensures
        ({
            let script = seq![Ok(first), Err(cause)] + later;
            let t = run_model::<ReplaySandbox>((script, 0nat), steps);
            &&& t.failure == Some(cause)
            &&& t.outcomes == seq![first]
        }),
{
    let script = seq![Ok::<Outcome, InvocationError>(first), Err(cause)] + later;
    assert(script[0] == Ok::<Outcome, InvocationError>(first));
    assert(script[1] == Err::<Outcome, InvocationError>(cause));
    let s1 = steps.drop_first();
    assert(s1.len() >= 1);
    reveal_with_fuel(run_model, 3);
    assert(seq![first].add(Seq::<Outcome>::empty()) =~= seq![first]);
}

/// A scenario that stopped at step `step` with `cause`; `completed` holds the
/// outcomes of the steps before it.
#[derive(Clone, Debug)]
pub struct BenchmarkError {
    pub step: usize,
    pub cause: InvocationError,
    pub completed: Vec<Outcome>,
}

/// The records a run adds: one per attempted step, in scenario order, timed
/// around the call, carrying the step's units when it succeeded.
pub open spec fn records_match(
    recs: Seq<InvocationRecord>,
    steps: Seq<(OpKind, Seq<u64>)>,
    outcomes: Seq<Outcome>,
    failure: Option<InvocationError>,
) -> bool {
    &&& recs.len() == outcomes.len() + if failure is Some {
        1int
    } else {
        0int
    }
    &&& forall|i: int|
        0 <= i < recs.len() ==> {
            &&& (#[trigger] recs[i]).op == steps[i].0
            &&& recs[i].wf()
            &&& i < outcomes.len() ==> recs[i].succeeded && recs[i].units == outcomes[i].units
        }
    &&& failure is Some ==> !recs[outcomes.len() as int].succeeded && recs[outcomes.len() as int].units == 0
}

proof fn lemma_records_push(
    recs: Seq<InvocationRecord>,
    steps: Seq<(OpKind, Seq<u64>)>,
    outcomes: Seq<Outcome>,
    rec: InvocationRecord,
    res: Result<Outcome, InvocationError>,
)
    requires
        records_match(recs, steps, outcomes, None),
        outcomes.len() < steps.len(),
        rec.op == steps[outcomes.len() as int].0,
        rec.wf(),
        rec.succeeded == res is Ok,
        rec.units == match res {
            Ok(o) => o.units,
            Err(_) => 0,
        },
    ensures
        match res {
            Ok(o) => records_match(recs.push(rec), steps, outcomes.push(o), None),
            Err(e) => records_match(recs.push(rec), steps, outcomes, Some(e)),
        },
{
    let r2 = recs.push(rec);
    let o2 = match res {
        Ok(o) => outcomes.push(o),
        Err(_) => outcomes,
    };
    assert forall|i: int| 0 <= i < r2.len() implies {
        &&& (#[trigger] r2[i]).op == steps[i].0
        &&& r2[i].wf()
        &&& i < o2.len() ==> r2[i].succeeded && r2[i].units == o2[i].units
    } by {
        if i < recs.len() {
            assert(r2[i] == recs[i]);
            assert(i < outcomes.len() ==> o2[i] == outcomes[i]);
        } else {
            assert(r2[i] == rec);
        }
    }
}

/// Drives `scenario` against `host` strictly in order, recording each call in
/// `metrics`. The first failing step ends the run; the outcomes of the steps
/// before it are kept in the error.
pub fn run<S: Sandbox>(
    host: &mut S,
    scenario: &Vec<Step>,
    metrics: &mut MetricsCollector,
    clock: &Clock,
) -> (r: Result<Vec<Outcome>, BenchmarkError>)
    ensures
        ({
            let t = run_model::<S>(old(host).model(), step_views(scenario@));
            let n = old(metrics)@.len();
            &&& final(host).model() == t.model
            &&& final(metrics)@.subrange(0, n as int) == old(metrics)@
            &&& records_match(
                final(metrics)@.subrange(n as int, final(metrics)@.len() as int),
                step_views(scenario@),
                t.outcomes,
                t.failure,
            )
            &&& match r {
                Ok(v) => t.failure is None && v@ == t.outcomes && v@.len() == scenario@.len(),
                Err(e) => t.failure == Some(e.cause) && e.completed@ == t.outcomes && e.step
                    == t.outcomes.len() && e.step < scenario@.len(),
            }
        }),
{
    let ghost m0 = host.model();
    let ghost n = metrics@.len();
    let mut outcomes: Vec<Outcome> = Vec::new();
    let mut i: usize = 0;
    proof {
        assert(step_views(scenario@).skip(0) =~= step_views(scenario@));
    }
    while i < scenario.len()
        invariant
            i <= scenario@.len(),
            outcomes@.len() == i,
            metrics@.len() == n + i,
            metrics@.subrange(0, n as int) == old(metrics)@,
            n == old(metrics)@.len(),
            m0 == old(host).model(),
            ({
                let rest = run_model::<S>(host.model(), step_views(scenario@).skip(i as int));
                let t = run_model::<S>(m0, step_views(scenario@));
                &&& t.model == rest.model
                &&& t.outcomes == outcomes@ + rest.outcomes
                &&& t.failure == rest.failure
            }),
            records_match(
                metrics@.subrange(n as int, metrics@.len() as int),
                step_views(scenario@),
                outcomes@,
                None,
            ),
        decreases scenario@.len() - i,
    {
        let ghost before = host.model();
        let ghost recs0 = metrics@;
        let step = &scenario[i];
        let start = clock.now();
        let res = host.invoke(step.kind, &step.args);
        let end = clock.now();
        metrics.record(step.kind, start, end, &res);
        proof {
            let rest = step_views(scenario@).skip(i as int);
            assert(rest[0] == (step.kind, step.args@));
            lemma_records_push(
                recs0.subrange(n as int, recs0.len() as int),
                step_views(scenario@),
                outcomes@,
                record_of(step.kind, start, end, res),
                res,
            );
            assert(rest.drop_first() =~= step_views(scenario@).skip(i + 1));
            assert(metrics@.subrange(0, n as int) =~= recs0.subrange(0, n as int));
            assert(metrics@.subrange(n as int, metrics@.len() as int) =~= recs0.subrange(
                n as int,
                recs0.len() as int,
            ).push(record_of(step.kind, start, end, res)));
        }
        match res {
            Err(cause) => {
                proof {
                    assert(outcomes@ + Seq::<Outcome>::empty() =~= outcomes@);
                    lemma_run_length::<S>(m0, step_views(scenario@));
                }
                return Err(BenchmarkError { step: i, cause, completed: outcomes });
            },
            Ok(o) => {
                proof {
                    let rest = run_model::<S>(before, step_views(scenario@).skip(i as int));
                    let rest1 = run_model::<S>(host.model(), step_views(scenario@).skip(i + 1));
                    assert(rest.outcomes == seq![o].add(rest1.outcomes));
                    assert(outcomes@.push(o) + rest1.outcomes =~= outcomes@ + rest.outcomes);
                }
                outcomes.push(o);
            },
        }
        i = i + 1;
    }
    proof {
        assert(step_views(scenario@).skip(i as int) =~= Seq::<(OpKind, Seq<u64>)>::empty());
        assert(outcomes@ + Seq::<Outcome>::empty() =~= outcomes@);
    }
    Ok(outcomes)
}

} // verus!
