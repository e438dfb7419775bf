use soroscope_core::{
    check_module, exports, first_existing, run, run_token_benchmark, summarize, summarize_kind,
    token_scenario, BenchmarkFailure, Clock, HostContext, InvocationError, InvocationRecord,
    LoadError, MetricsCollector, OpKind, Outcome, ReplaySandbox, Step, DEFAULT_CEILING,
};

fn export_entry(name: &str, index: u8) -> Vec<u8> {
    let mut v = vec![name.len() as u8];
    v.extend_from_slice(name.as_bytes());
    v.push(0);
    v.push(index);
    v
}

fn header() -> Vec<u8> {
    vec![0x00, 0x61, 0x73, 0x6d, 0x01, 0x00, 0x00, 0x00]
}

fn token_module() -> Vec<u8> {
    let mut m = header();
    m.extend_from_slice(&[7, 0x20, 4]);
    for (i, n) in ["initialize", "mint", "transfer", "balance"].iter().enumerate() {
        m.extend(export_entry(n, i as u8));
    }
    m
}

fn ready_host(ceiling: u64) -> HostContext {
    HostContext::construct(token_module(), ceiling).unwrap()
}

fn rec(op: OpKind, start: u64, end: u64, units: u64) -> InvocationRecord {
    InvocationRecord { op, start, end, units, succeeded: true }
}

#[test]
fn first_existing_takes_first_present_candidate() {
    assert_eq!(first_existing(&vec![false, true, true]), Ok(1));
    assert_eq!(first_existing(&vec![true, false]), Ok(0));
}

#[test]
fn missing_everywhere_is_not_found() {
    assert_eq!(first_existing(&vec![false, false]), Err(LoadError::NotFound));
    assert_eq!(first_existing(&vec![]), Err(LoadError::NotFound));
}

#[test]
fn module_without_header_is_invalid() {
    assert_eq!(check_module(&vec![1, 2, 3]), Err(LoadError::InvalidModule));
    let mut m = token_module();
    m[1] = 0x62;
    assert_eq!(check_module(&m), Err(LoadError::InvalidModule));
    assert!(matches!(HostContext::construct(vec![], DEFAULT_CEILING), Err(LoadError::InvalidModule)));
}

#[test]
fn module_missing_an_entry_point_is_unsupported() {
    let mut m = header();
    m.extend(export_entry("initialize", 0));
    m.extend(export_entry("mint", 1));
    m.extend(export_entry("balance", 2));
    assert_eq!(check_module(&m), Err(LoadError::UnsupportedInterface));
    assert_eq!(check_module(&header()), Err(LoadError::UnsupportedInterface));
}

#[test]
fn full_token_module_is_accepted() {
    assert_eq!(check_module(&token_module()), Ok(()));
}

#[test]
fn export_needs_length_prefix_and_function_tag() {
    let mut m = header();
    m.extend_from_slice(b"mint");
    assert!(!exports(&m, &b"mint".to_vec()));
    let mut m = header();
    m.extend_from_slice(&[4, b'm', b'i', b'n', b't', 1]);
    assert!(!exports(&m, &b"mint".to_vec()));
    let mut m = header();
    m.extend_from_slice(&[4, b'm', b'i', b'n', b't', 0]);
    assert!(exports(&m, &b"mint".to_vec()));
}

#[test]
fn fresh_host_has_empty_ledger() {
    let h = ready_host(DEFAULT_CEILING);
    assert_eq!(h.balance(2), 0);
    assert_eq!(h.meter(), 0);
}

#[test]
fn calls_before_initialize_trap() {
    let mut h = ready_host(DEFAULT_CEILING);
    assert_eq!(h.invoke(OpKind::Mint, &vec![2, 10]), Err(InvocationError::Trap));
    assert_eq!(h.invoke(OpKind::Balance, &vec![2]), Err(InvocationError::Trap));
    assert_eq!(h.meter(), 0);
}

#[test]
fn second_initialize_traps() {
    let mut h = ready_host(DEFAULT_CEILING);
    assert_eq!(h.invoke(OpKind::Initialize, &vec![1]), Ok(Outcome { units: 400, value: None }));
    assert_eq!(h.invoke(OpKind::Initialize, &vec![1]), Err(InvocationError::Trap));
}

#[test]
fn wrong_argument_count_is_invalid() {
    let mut h = ready_host(DEFAULT_CEILING);
    assert_eq!(h.invoke(OpKind::Initialize, &vec![]), Err(InvocationError::InvalidArguments));
    assert_eq!(h.invoke(OpKind::Transfer, &vec![1, 2]), Err(InvocationError::InvalidArguments));
}

#[test]
fn ceiling_exhausts_resources() {
    let mut h = ready_host(1000);
    assert!(h.invoke(OpKind::Initialize, &vec![1]).is_ok());
    assert_eq!(h.invoke(OpKind::Mint, &vec![2, 5]), Err(InvocationError::ResourceExhausted));
    assert_eq!(h.meter(), 400);
    assert_eq!(h.balance(2), 0);
}

#[test]
fn overdrawn_transfer_traps_and_keeps_balances() {
    let mut h = ready_host(DEFAULT_CEILING);
    h.invoke(OpKind::Initialize, &vec![1]).unwrap();
    h.invoke(OpKind::Mint, &vec![2, 10]).unwrap();
    assert_eq!(h.invoke(OpKind::Transfer, &vec![2, 3, 11]), Err(InvocationError::Trap));
    assert_eq!(h.balance(2), 10);
    assert_eq!(h.balance(3), 0);
}

#[test]
fn mint_overflow_traps() {
    let mut h = ready_host(DEFAULT_CEILING);
    h.invoke(OpKind::Initialize, &vec![1]).unwrap();
    h.invoke(OpKind::Mint, &vec![2, u64::MAX]).unwrap();
    assert_eq!(h.invoke(OpKind::Mint, &vec![2, 1]), Err(InvocationError::Trap));
}

#[test]
fn transfer_to_self_keeps_balance() {
    let mut h = ready_host(DEFAULT_CEILING);
    h.invoke(OpKind::Initialize, &vec![1]).unwrap();
    h.invoke(OpKind::Mint, &vec![2, 10]).unwrap();
    assert!(h.invoke(OpKind::Transfer, &vec![2, 2, 7]).is_ok());
    assert_eq!(h.balance(2), 10);
    assert_eq!(h.meter(), 400 + 650 + 900);
}

#[test]
fn balance_query_sees_earlier_transfer() {
    let mut h = ready_host(DEFAULT_CEILING);
    let mut metrics = MetricsCollector::new();
    let clock = Clock::start();
    let outcomes = run(&mut h, &token_scenario(1, 2, 3), &mut metrics, &clock).unwrap();
    assert_eq!(outcomes.len(), 4);
    assert_eq!(outcomes[3].value, Some(30));
    assert_eq!(h.balance(2), 70);
    assert_eq!(h.balance(3), 30);
}

#[test]
fn run_records_one_entry_per_step_in_order() {
    let mut h = ready_host(DEFAULT_CEILING);
    let mut metrics = MetricsCollector::new();
    let clock = Clock::start();
    let outcomes = run(&mut h, &token_scenario(1, 2, 3), &mut metrics, &clock).unwrap();
    let records = metrics.records();
    let ops: Vec<OpKind> = records.iter().map(|r| r.op).collect();
    assert_eq!(ops, vec![OpKind::Initialize, OpKind::Mint, OpKind::Transfer, OpKind::Balance]);
    for (r, o) in records.iter().zip(outcomes.iter()) {
        assert!(r.start <= r.end);
        assert_eq!(r.units, o.units);
        assert!(r.succeeded);
    }
}

#[test]
fn trap_on_second_step_reports_index_one() {
    let ok = Ok(Outcome { units: 5, value: None });
    let mut host = ReplaySandbox::new(vec![ok, Err(InvocationError::Trap), ok, ok]);
    let mut metrics = MetricsCollector::new();
    let clock = Clock::start();
    let err = run(&mut host, &token_scenario(1, 2, 3), &mut metrics, &clock).unwrap_err();
    assert_eq!(err.step, 1);
    assert_eq!(err.cause, InvocationError::Trap);
    assert_eq!(err.completed, vec![Outcome { units: 5, value: None }]);
    assert_eq!(host.answered(), 2);
    let records = metrics.records();
    assert_eq!(records.len(), 2);
    assert!(records[0].succeeded);
    assert!(!records[1].succeeded);
    assert_eq!(records[1].units, 0);
}

#[test]
fn failed_step_stops_the_host_scenario() {
    let mut h = ready_host(DEFAULT_CEILING);
    let steps = vec![
        Step { kind: OpKind::Initialize, args: vec![1] },
        Step { kind: OpKind::Transfer, args: vec![2, 3, 30] },
        Step { kind: OpKind::Balance, args: vec![3] },
    ];
    let mut metrics = MetricsCollector::new();
    let err = run(&mut h, &steps, &mut metrics, &Clock::start()).unwrap_err();
    assert_eq!(err.step, 1);
    assert_eq!(err.cause, InvocationError::Trap);
    assert_eq!(err.completed.len(), 1);
    assert_eq!(metrics.records().len(), 2);
}

#[test]
fn empty_summary_has_no_groups() {
    let report = summarize(&vec![]);
    assert!(report.groups.is_empty());
    assert_eq!(report.total_units, 0);
}

#[test]
fn summary_groups_by_operation() {
    let records = vec![
        rec(OpKind::Mint, 0, 10, 100),
        rec(OpKind::Balance, 10, 13, 7),
        rec(OpKind::Mint, 20, 24, 50),
        rec(OpKind::Mint, 30, 31, 61),
    ];
    let report = summarize(&records);
    assert_eq!(report.total_units, 218);
    assert_eq!(report.groups.len(), 2);
    let m = report.groups[0];
    assert_eq!(m.op, OpKind::Mint);
    assert_eq!(m.count, 3);
    assert_eq!((m.min_units, m.max_units, m.mean_units), (50, 100, 70));
    assert_eq!((m.min_elapsed, m.max_elapsed, m.mean_elapsed), (1, 10, 5));
    let b = report.groups[1];
    assert_eq!(b.op, OpKind::Balance);
    assert_eq!(b.count, 1);
    assert_eq!((b.min_units, b.max_units, b.mean_units), (7, 7, 7));
    assert_eq!((b.min_elapsed, b.max_elapsed, b.mean_elapsed), (3, 3, 3));
}

#[test]
fn summary_of_absent_kind_is_none() {
    let records = vec![rec(OpKind::Mint, 0, 1, 1)];
    assert_eq!(summarize_kind(&records, OpKind::Transfer), None);
}

#[test]
fn summary_total_does_not_overflow() {
    let records = vec![rec(OpKind::Mint, 0, 0, u64::MAX), rec(OpKind::Mint, 0, 0, u64::MAX)];
    let report = summarize(&records);
    assert_eq!(report.total_units, 2 * (u64::MAX as u128));
    assert_eq!(report.groups[0].mean_units, u64::MAX);
}

#[test]
fn end_before_start_is_clamped() {
    let mut metrics = MetricsCollector::new();
    metrics.record(OpKind::Mint, 50, 40, &Err(InvocationError::Trap));
    let r = metrics.records()[0];
    assert_eq!((r.start, r.end, r.units, r.succeeded), (50, 50, 0, false));
    assert_eq!(r.elapsed(), 0);
    assert_eq!(rec(OpKind::Mint, 3, 10, 0).elapsed(), 7);
}

#[test]
fn token_benchmark_completes_on_valid_module() {
    let run = run_token_benchmark(token_module(), &Clock::start()).unwrap();
    assert_eq!(run.outcomes[3].value, Some(30));
    assert_eq!(run.records.len(), 4);
    assert_eq!(run.report.groups.len(), 4);
    assert_eq!(run.report.total_units, 400 + 650 + 900 + 150);
    assert!(run.report.groups.iter().all(|g| g.count == 1));
}

#[test]
fn token_benchmark_rejects_bad_module() {
    match run_token_benchmark(vec![0, 1, 2], &Clock::start()) {
        Err(BenchmarkFailure::Load(e)) => assert_eq!(e, LoadError::InvalidModule),
        other => panic!("unexpected {:?}", other.is_ok()),
    }
}

#[test]
fn two_runs_share_no_state() {
    let first = run_token_benchmark(token_module(), &Clock::start()).unwrap();
    let second = run_token_benchmark(token_module(), &Clock::start()).unwrap();
    assert_eq!(first.outcomes, second.outcomes);
    let mut h1 = ready_host(DEFAULT_CEILING);
    let mut h2 = ready_host(DEFAULT_CEILING);
    let s = token_scenario(1, 2, 3);
    let a = run(&mut h1, &s, &mut MetricsCollector::new(), &Clock::start()).unwrap();
    let b = run(&mut h2, &s, &mut MetricsCollector::new(), &Clock::start()).unwrap();
    assert_eq!(a, b);
    assert_eq!(h1.balance(3), 30);
}

#[test]
fn replay_traps_after_script_ends() {
    let mut host = ReplaySandbox::new(vec![Ok(Outcome { units: 1, value: Some(9) })]);
    let mut metrics = MetricsCollector::new();
    let err = run(&mut host, &token_scenario(1, 2, 3), &mut metrics, &Clock::start()).unwrap_err();
    assert_eq!(err.step, 1);
    assert_eq!(err.completed, vec![Outcome { units: 1, value: Some(9) }]);
    assert_eq!(metrics.records()[0].units, 1);
}
