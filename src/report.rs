use vstd::prelude::*;

use crate::metrics::InvocationRecord;
use crate::ops::OpKind;

verus! {

/// A record's measured quantity: elapsed time when `elapsed`, else resource
/// units.
pub open spec fn metric(r: InvocationRecord, elapsed: bool) -> nat {
    if elapsed {
        r.elapsed_spec()
    } else {
        r.units as nat
    }
}

/// How many records name `k`.
pub open spec fn count_of(s: Seq<InvocationRecord>, k: OpKind) -> nat
    decreases s.len(),
{
    if s.len() == 0 {
        0
    } else {
        count_of(s.drop_last(), k) + if s.last().op == k {
            1nat
        } else {
            0nat
        }
    }
}

/// The sum of a quantity over the records that name `k`.
pub open spec fn sum_of(s: Seq<InvocationRecord>, k: OpKind, elapsed: bool) -> nat
    decreases s.len(),
{
    if s.len() == 0 {
        0
    } else {
        sum_of(s.drop_last(), k, elapsed) + if s.last().op == k {
            metric(s.last(), elapsed)
        } else {
            0nat
        }
    }
}

/// The least value of a quantity over the records that name `k`
/// (`u64::MAX` when there are none).
pub open spec fn min_of(s: Seq<InvocationRecord>, k: OpKind, elapsed: bool) -> nat
    decreases s.len(),
{
    if s.len() == 0 {
        u64::MAX as nat
    } else {
        let m = min_of(s.drop_last(), k, elapsed);
        if s.last().op == k && metric(s.last(), elapsed) < m {
            metric(s.last(), elapsed)
        } else {
            m
        }
    }
}

/// The greatest value of a quantity over the records that name `k` (zero
/// when there are none).
pub open spec fn max_of(s: Seq<InvocationRecord>, k: OpKind, elapsed: bool) -> nat
    decreases s.len(),
{
    if s.len() == 0 {
        0
    } else {
        let m = max_of(s.drop_last(), k, elapsed);
        if s.last().op == k && metric(s.last(), elapsed) > m {
            metric(s.last(), elapsed)
        } else {
            m
        }
    }
}

/// The resource units of all records together.
pub open spec fn total_of(s: Seq<InvocationRecord>) -> nat
    decreases s.len(),
{
    if s.len() == 0 {
        0
    } else {
        total_of(s.drop_last()) + s.last().units as nat
    }
}

/// Count, least, greatest and mean (rounded down) of both quantities over
/// the records of one entry point.
#[derive(Clone, Copy, Debug, PartialEq, Eq, Structural)]
pub struct OpSummary {
    pub op: OpKind,
    pub count: usize,
    pub min_units: u64,
    pub max_units: u64,
    pub mean_units: u64,
    pub min_elapsed: u64,
    pub max_elapsed: u64,
    pub mean_elapsed: u64,
}

/// The summary of the records that name `k`, where there is at least one.
pub open spec fn summary_of(s: Seq<InvocationRecord>, k: OpKind) -> OpSummary {
    let c = count_of(s, k);
    OpSummary {
        op: k,
        count: c as usize,
        min_units: min_of(s, k, false) as u64,
        max_units: max_of(s, k, false) as u64,
        mean_units: (sum_of(s, k, false) / c) as u64,
        min_elapsed: min_of(s, k, true) as u64,
        max_elapsed: max_of(s, k, true) as u64,
        mean_elapsed: (sum_of(s, k, true) / c) as u64,
    }
}

/// The entry points in the order in which a report lists them.
pub open spec fn report_order() -> Seq<OpKind> {
    seq![OpKind::Initialize, OpKind::Mint, OpKind::Transfer, OpKind::Balance]
}

/// The summaries of the entry points in `kinds` that have records, in order.
pub open spec fn groups_for(s: Seq<InvocationRecord>, kinds: Seq<OpKind>) -> Seq<OpSummary>
    decreases kinds.len(),
{
    if kinds.len() == 0 {
        Seq::empty()
    } else {
        let rest = groups_for(s, kinds.drop_last());
        if count_of(s, kinds.last()) > 0 {
            rest.push(summary_of(s, kinds.last()))
        } else {
            rest
        }
    }
}

/// The aggregate of a run's records: one group per entry point that has
/// records, and the grand total of resource units.
#[derive(Clone, Debug)]
pub struct Report {
    pub groups: Vec<OpSummary>,
    pub total_units: u128,
}

proof fn lemma_bounds(s: Seq<InvocationRecord>, k: OpKind, elapsed: bool)
    ensures
        count_of(s, k) <= s.len(),
        sum_of(s, k, elapsed) <= count_of(s, k) * (u64::MAX as nat),
        min_of(s, k, elapsed) <= u64::MAX,
        max_of(s, k, elapsed) <= u64::MAX,
        count_of(s, k) > 0 ==> min_of(s, k, elapsed) <= max_of(s, k, elapsed),
        total_of(s) <= s.len() * (u64::MAX as nat),
    decreases s.len(),
{
    if s.len() > 0 {
        let p = s.drop_last();
        lemma_bounds(p, k, elapsed);
        assert(metric(s.last(), elapsed) <= u64::MAX);
        assert(count_of(s, k) * (u64::MAX as nat) == count_of(p, k) * (u64::MAX as nat) + if s.last().op
            == k {
            u64::MAX as nat
        } else {
            0nat
        }) by (nonlinear_arith)
            requires
                count_of(s, k) == count_of(p, k) + if s.last().op == k {
                    1nat
                } else {
                    0nat
                },
        ;
        assert(s.len() * (u64::MAX as nat) == p.len() * (u64::MAX as nat) + u64::MAX) by (nonlinear_arith)
            requires
                s.len() == p.len() + 1,
        ;
        if count_of(s, k) > 0 && count_of(p, k) == 0 {
            lemma_none_extremes(p, k, elapsed);
        }
    }
}

proof fn lemma_none_extremes(s: Seq<InvocationRecord>, k: OpKind, elapsed: bool)
    requires
        count_of(s, k) == 0,
    ensures
        min_of(s, k, elapsed) == u64::MAX,
        max_of(s, k, elapsed) == 0,
    decreases s.len(),
{
    if s.len() > 0 {
        lemma_none_extremes(s.drop_last(), k, elapsed);
    }
}

proof fn lemma_mean_fits(sum: nat, c: nat)
    requires
        c > 0,
        sum <= c * (u64::MAX as nat),
    ensures
        sum / c <= u64::MAX,
{
    assert(sum / c <= u64::MAX) by (nonlinear_arith)
        requires
            c > 0,
            sum <= c * (u64::MAX as nat),
    ;
}

/// Summarizes the records of entry point `k`; `None` when there are none.
pub fn summarize_kind(records: &Vec<InvocationRecord>, k: OpKind) -> (r: Option<OpSummary>)
    ensures
        count_of(records@, k) == 0 ==> r is None,
        count_of(records@, k) > 0 ==> r == Some(summary_of(records@, k)),
{
    let ghost s = records@;
    let mut count: usize = 0;
    let mut sum_u: u128 = 0;
    let mut min_u: u64 = u64::MAX;
    let mut max_u: u64 = 0;
    let mut sum_e: u128 = 0;
    let mut min_e: u64 = u64::MAX;
    let mut max_e: u64 = 0;
    let mut i: usize = 0;
    proof {
        assert(s.subrange(0, 0) =~= Seq::<InvocationRecord>::empty());
    }
    while i < records.len()
        invariant
            s == records@,
            i <= s.len(),
            ({
                let p = s.subrange(0, i as int);
                &&& count as nat == count_of(p, k)
                &&& sum_u as nat == sum_of(p, k, false)
                &&& min_u as nat == min_of(p, k, false)
                &&& max_u as nat == max_of(p, k, false)
                &&& sum_e as nat == sum_of(p, k, true)
                &&& min_e as nat == min_of(p, k, true)
                &&& max_e as nat == max_of(p, k, true)
            }),
        decreases s.len() - i,
    {
        let ghost p = s.subrange(0, i as int);
        let ghost q = s.subrange(0, i + 1);
        proof {
            assert(q.drop_last() =~= p);
            assert(q.last() == s[i as int]);
            lemma_bounds(p, k, false);
            lemma_bounds(p, k, true);
            assert(count_of(p, k) * (u64::MAX as nat) <= (usize::MAX as nat) * (u64::MAX as nat))
                by (nonlinear_arith)
                requires
                    count_of(p, k) <= usize::MAX,
            ;
        }
        let r = &records[i];
        if r.op == k {
            let e = r.elapsed();
            count = count + 1;
            sum_u = sum_u + r.units as u128;
            sum_e = sum_e + e as u128;
            if r.units < min_u {
                min_u = r.units;
            }
            if r.units > max_u {
                max_u = r.units;
            }
            if e < min_e {
                min_e = e;
            }
            if e > max_e {
                max_e = e;
            }
        }
        i = i + 1;
    }
    proof {
        assert(s.subrange(0, s.len() as int) =~= s);
        lemma_bounds(s, k, false);
        lemma_bounds(s, k, true);
    }
    if count == 0 {
        return None;
    }
    proof {
        lemma_mean_fits(sum_of(s, k, false), count as nat);
        lemma_mean_fits(sum_of(s, k, true), count as nat);
    }
    Some(
        OpSummary {
            op: k,
            count,
            min_units: min_u,
            max_units: max_u,
            mean_units: (sum_u / count as u128) as u64,
            min_elapsed: min_e,
            max_elapsed: max_e,
            mean_elapsed: (sum_e / count as u128) as u64,
        },
    )
}

fn total_units(records: &Vec<InvocationRecord>) -> (r: u128)
    ensures
        r as nat == total_of(records@),
{
    let ghost s = records@;
    let mut total: u128 = 0;
    let mut i: usize = 0;
    while i < records.len()
        invariant
            s == records@,
            i <= s.len(),
            total as nat == total_of(s.subrange(0, i as int)),
        decreases s.len() - i,
    {
        proof {
            let p = s.subrange(0, i as int);
            assert(s.subrange(0, i + 1).drop_last() =~= p);
            lemma_bounds(p, OpKind::Balance, false);
            assert(p.len() * (u64::MAX as nat) <= (usize::MAX as nat) * (u64::MAX as nat))
                by (nonlinear_arith)
                requires
                    p.len() <= usize::MAX,
            ;
        }
        total = total + records[i].units as u128;
        i = i + 1;
    }
    proof {
        assert(s.subrange(0, s.len() as int) =~= s);
    }
    total
}

/// Groups the records by entry point and reduces each group to its count,
/// least, greatest and mean units and elapsed time; totals the units of all
/// records. An empty record set gives no groups and a zero total.
pub fn summarize(records: &Vec<InvocationRecord>) -> (r: Report)
    ensures
        r.groups@ == groups_for(records@, report_order()),
        r.total_units as nat == total_of(records@),
{
    let kinds: Vec<OpKind> = vec![OpKind::Initialize, OpKind::Mint, OpKind::Transfer, OpKind::Balance];
    assert(kinds@ =~= report_order());
    let mut groups: Vec<OpSummary> = Vec::new();
    let mut j: usize = 0;
    proof {
        assert(kinds@.subrange(0, 0) =~= Seq::<OpKind>::empty());
    }
    while j < kinds.len()
        invariant
            kinds@ == report_order(),
            j <= kinds@.len(),
            groups@ == groups_for(records@, kinds@.subrange(0, j as int)),
        decreases kinds@.len() - j,
    {
        proof {
            let q = kinds@.subrange(0, j + 1);
            assert(q.drop_last() =~= kinds@.subrange(0, j as int));
            assert(q.last() == kinds@[j as int]);
        }
        match summarize_kind(records, kinds[j]) {
            Some(g) => groups.push(g),
            None => {},
        }
        j = j + 1;
    }
    proof {
        assert(kinds@.subrange(0, 4) =~= kinds@);
    }
    Report { groups, total_units: total_units(records) }
}

/// Summarizing no records yields no groups and a total of zero units.
pub proof fn lemma_empty_summary()
    ensures
        groups_for(Seq::<InvocationRecord>::empty(), report_order()) == Seq::<OpSummary>::empty(),
        total_of(Seq::<InvocationRecord>::empty()) == 0,
{
    let s = Seq::<InvocationRecord>::empty();
    let o = report_order();
    reveal_with_fuel(groups_for, 5);
    assert(o.drop_last().drop_last().drop_last().drop_last().len() == 0);
    assert(count_of(s, OpKind::Initialize) == 0);
    assert(count_of(s, OpKind::Mint) == 0);
    assert(count_of(s, OpKind::Transfer) == 0);
    assert(count_of(s, OpKind::Balance) == 0);
}

} // verus!
