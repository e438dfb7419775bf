use vstd::prelude::*;

use crate::host::{cost, fresh_ledger, HostContext, Ledger, Outcome, DEFAULT_CEILING};
use crate::loader::{check_result, LoadError};
use crate::metrics::{Clock, InvocationRecord, MetricsCollector};
use crate::ops::{OpKind, Step};
use crate::report::{groups_for, report_order, summarize, total_of, Report};
use crate::runner::{records_match, run, run_model, step_views, BenchmarkError, Sandbox, Trace};

verus! {

/// Account that initializes the token.
pub const ADMIN: u64 = 1;
/// Account that receives the mint and sends the transfer.
pub const SENDER: u64 = 2;
/// Account that receives the transfer.
pub const RECEIVER: u64 = 3;
/// Amount minted to the sender.
pub const MINT_AMOUNT: u64 = 100;
/// Amount transferred to the receiver.
pub const TRANSFER_AMOUNT: u64 = 30;

/// The token scenario: initialize with `admin`, mint `mint` to `a`, transfer
/// `amount` from `a` to `b`, query the balance of `b`.
pub open spec fn token_steps(admin: u64, a: u64, b: u64, mint: u64, amount: u64) -> Seq<
    (OpKind, Seq<u64>),
> {
    seq![
        (OpKind::Initialize, seq![admin]),
        (OpKind::Mint, seq![a, mint]),
        (OpKind::Transfer, seq![a, b, amount]),
        (OpKind::Balance, seq![b]),
    ]
}

/// Resource units the token scenario consumes when every step succeeds.
pub open spec fn token_scenario_cost() -> nat {
    cost(OpKind::Initialize) + cost(OpKind::Mint) + cost(OpKind::Transfer) + cost(
        OpKind::Balance,
    )
}

/// The benchmark's scenario over the given accounts.
pub fn token_scenario(admin: u64, a: u64, b: u64) -> (r: Vec<Step>)
    ensures
        step_views(r@) == token_steps(admin, a, b, MINT_AMOUNT, TRANSFER_AMOUNT),
{
    let i_args: Vec<u64> = vec![admin];
    let m_args: Vec<u64> = vec![a, MINT_AMOUNT];
    let t_args: Vec<u64> = vec![a, b, TRANSFER_AMOUNT];
    let b_args: Vec<u64> = vec![b];
    assert(i_args@ =~= seq![admin]);
    assert(m_args@ =~= seq![a, MINT_AMOUNT]);
    assert(t_args@ =~= seq![a, b, TRANSFER_AMOUNT]);
    assert(b_args@ =~= seq![b]);
    let r = vec![
        Step { kind: OpKind::Initialize, args: i_args },
        Step { kind: OpKind::Mint, args: m_args },
        Step { kind: OpKind::Transfer, args: t_args },
        Step { kind: OpKind::Balance, args: b_args },
    ];
    assert(step_views(r@) =~= token_steps(admin, a, b, MINT_AMOUNT, TRANSFER_AMOUNT));
    r
}

/// On a fresh ledger whose ceiling covers the scenario, a transfer of
/// `amount` out of a mint of `mint` to `a` is visible to the balance query of
/// another account `b`: every step succeeds and the query returns `amount`.
pub proof fn lemma_balance_after_transfer(
    admin: u64,
    a: u64,
    b: u64,
    mint: u64,
    amount: u64,
    ceiling: nat,
)
    requires
        a != b,
        amount <= mint,
        ceiling >= token_scenario_cost(),
    ensures
        ({
            let t = run_model::<HostContext>((fresh_ledger(), ceiling), token_steps(admin, a, b, mint, amount));
            &&& t.failure is None
            &&& t.outcomes.len() == 4
            &&& t.outcomes[3].value == Some(amount)
        }),
{
    let s = token_steps(admin, a, b, mint, amount);
    let s1 = s.drop_first();
    let s2 = s1.drop_first();
    let s3 = s2.drop_first();
    let s4 = s3.drop_first();
    assert(s4.len() == 0);
    reveal_with_fuel(run_model, 5);
    assert(s3[0] == (OpKind::Balance, seq![b]));
    assert(s2[0] == (OpKind::Transfer, seq![a, b, amount]));
    assert(s1[0] == (OpKind::Mint, seq![a, mint]));
    let l = fresh_ledger();
    assert(!l.balances.contains_key(a));
}

/// Two host contexts freshly constructed with the same ceiling run any
/// scenario to the same final state and outcomes: no run sees state that
/// another run left behind.
pub proof fn lemma_fresh_contexts_agree(
    h1: HostContext,
    h2: HostContext,
    steps: Seq<(OpKind, Seq<u64>)>,
)
    requires
        h1.ledger() == fresh_ledger(),
        h2.ledger() == fresh_ledger(),
        h1.ceiling() == h2.ceiling(),
    ensures
        run_model::<HostContext>(h1.model(), steps) == run_model::<HostContext>(h2.model(), steps),
{
}

/// Why a benchmark run did not complete.
#[derive(Clone, Debug)]
pub enum BenchmarkFailure {
    /// The module could not be made ready.
    Load(LoadError),
    /// A scenario step failed; `records` holds the calls measured up to and
    /// including the failing one.
    Step { error: BenchmarkError, records: Vec<InvocationRecord> },
}

/// A completed benchmark run: the steps' outcomes, one record per step, and
/// the report reduced from the records.
#[derive(Clone, Debug)]
pub struct BenchmarkRun {
    pub outcomes: Vec<Outcome>,
    pub records: Vec<InvocationRecord>,
    pub report: Report,
}

/// What the token scenario does on a freshly constructed host context.
pub open spec fn token_trace() -> Trace<(Ledger, nat)> {
    run_model::<HostContext>(
        (fresh_ledger(), DEFAULT_CEILING as nat),
        token_steps(ADMIN, SENDER, RECEIVER, MINT_AMOUNT, TRANSFER_AMOUNT),
    )
}

/// Loads `module` into a fresh host context, runs the token scenario on it
/// and reduces the records to a report. A well-formed module with the token
/// interface always completes the run, and the final balance query reports
/// the transferred amount.
pub fn run_token_benchmark(module: Vec<u8>, clock: &Clock) -> (r: Result<BenchmarkRun, BenchmarkFailure>)
    ensures
        ({
            let t = token_trace();
            match r {
                Ok(b) => {
                    &&& check_result(module@) == Ok::<(), LoadError>(())
                    &&& b.outcomes@ == t.outcomes
                    &&& b.outcomes@.len() == 4
                    &&& b.outcomes@[3].value == Some(TRANSFER_AMOUNT)
                    &&& records_match(b.records@, token_steps(ADMIN, SENDER, RECEIVER, MINT_AMOUNT, TRANSFER_AMOUNT), t.outcomes, None)
                    &&& b.report.groups@ == groups_for(b.records@, report_order())
                    &&& b.report.total_units as nat == total_of(b.records@)
                },
                Err(BenchmarkFailure::Load(e)) => check_result(module@) == Err::<(), LoadError>(e),
                Err(BenchmarkFailure::Step { .. }) => false,
            }
        }),
{
    let mut host = match HostContext::construct(module, DEFAULT_CEILING) {
        Ok(h) => h,
        Err(e) => {
            return Err(BenchmarkFailure::Load(e));
        },
    };
    let scenario = token_scenario(ADMIN, SENDER, RECEIVER);
    let mut metrics = MetricsCollector::new();
    proof {
        lemma_balance_after_transfer(ADMIN, SENDER, RECEIVER, MINT_AMOUNT, TRANSFER_AMOUNT, DEFAULT_CEILING as nat);
    }
    let res = run(&mut host, &scenario, &mut metrics, clock);
    let records = metrics.records().clone();
    proof {
        assert(metrics@.subrange(0, metrics@.len() as int) =~= metrics@);
    }
    match res {
        Ok(outcomes) => {
            let report = summarize(&records);
            Ok(BenchmarkRun { outcomes, records, report })
        },
        Err(error) => Err(BenchmarkFailure::Step { error, records }),
    }
}

} // verus!
