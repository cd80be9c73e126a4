//! The aggregator: reduces a collection of diffs (or raw results) into
//! per-metric totals, means and improvement counts. Combination is an
//! ordinary per-metric sum, so it is associative and commutative on the
//! numeric metrics; non-numeric fields have no meaningful sum and are
//! dropped.

use vstd::prelude::*;
use crate::metrics::{Direction, spec_is_improvement, tdiv};
use crate::diff::{Diff, diff_wf, REL_LIMIT};
use crate::search_result::SearchResult;

verus! {

/// Aggregated numbers for one metric: sums of both runs' values, the sum
/// of the relative changes, and how many diffs moved in the metric's
/// direction of improvement.
#[derive(PartialEq, Eq, Structural, Copy, Clone, Debug)]
pub struct MetricAgg {
    pub sum_first: i128,
    pub sum_second: i128,
    pub sum_relative: i128,
    pub improved: usize,
}

/// Aggregation of many diffs: a count and one `MetricAgg` per metric.
#[derive(PartialEq, Eq, Structural, Copy, Clone, Debug)]
pub struct Report {
    pub count: usize,
    pub nodes: MetricAgg,
    pub time: MetricAgg,
    pub nps: MetricAgg,
    pub score: MetricAgg,
    pub branching_factor: MetricAgg,
}

/// Mathematical model of an aggregation for one metric.
#[verifier::ext_equal]
pub ghost struct MetricModel {
    pub sum_first: int,
    pub sum_second: int,
    pub sum_relative: int,
    pub improved: int,
}

/// Mathematical model of a report.
#[verifier::ext_equal]
pub ghost struct ReportModel {
    pub count: int,
    pub nodes: MetricModel,
    pub time: MetricModel,
    pub nps: MetricModel,
    pub score: MetricModel,
    pub branching_factor: MetricModel,
}

impl View for MetricAgg {
    type V = MetricModel;

    open spec fn view(&self) -> MetricModel {
        MetricModel {
            sum_first: self.sum_first as int,
            sum_second: self.sum_second as int,
            sum_relative: self.sum_relative as int,
            improved: self.improved as int,
        }
    }
}

impl View for Report {
    type V = ReportModel;

    open spec fn view(&self) -> ReportModel {
        ReportModel {
            count: self.count as int,
            nodes: self.nodes@,
            time: self.time@,
            nps: self.nps@,
            score: self.score@,
            branching_factor: self.branching_factor@,
        }
    }
}

/// The all-zero aggregation of one metric.
pub open spec fn zero_metric() -> MetricModel {
    MetricModel { sum_first: 0, sum_second: 0, sum_relative: 0, improved: 0 }
}

/// The all-zero report, what aggregating nothing yields.
pub open spec fn zero_report() -> ReportModel {
    ReportModel {
        count: 0,
        nodes: zero_metric(),
        time: zero_metric(),
        nps: zero_metric(),
        score: zero_metric(),
        branching_factor: zero_metric(),
    }
}

/// The aggregation of a single metric comparison.
pub open spec fn metric_item(first: int, second: int, relative: int, d: Direction) -> MetricModel {
    MetricModel {
        sum_first: first,
        sum_second: second,
        sum_relative: relative,
        improved: if spec_is_improvement(d, first, second) { 1 } else { 0 },
    }
}

/// The aggregation of a single diff.
pub open spec fn report_item(d: Diff) -> ReportModel {
    ReportModel {
        count: 1,
        nodes: metric_item(
            d.nodes.first.0 as int,
            d.nodes.second.0 as int,
            d.nodes.relative as int,
            Direction::LowerIsBetter,
        ),
        time: metric_item(
            d.time.first.0 as int,
            d.time.second.0 as int,
            d.time.relative as int,
            Direction::LowerIsBetter,
        ),
        nps: metric_item(
            d.nps.first.0 as int,
            d.nps.second.0 as int,
            d.nps.relative as int,
            Direction::HigherIsBetter,
        ),
        score: metric_item(
            d.score.first.0 as int,
            d.score.second.0 as int,
            d.score.relative as int,
            Direction::HigherIsBetter,
        ),
        branching_factor: metric_item(
            d.branching_factor.first.0 as int,
            d.branching_factor.second.0 as int,
            d.branching_factor.relative as int,
            Direction::LowerIsBetter,
        ),
    }
}

/// Per-metric sum of two aggregations.
pub open spec fn combine_metric(a: MetricModel, b: MetricModel) -> MetricModel {
    MetricModel {
        sum_first: a.sum_first + b.sum_first,
        sum_second: a.sum_second + b.sum_second,
        sum_relative: a.sum_relative + b.sum_relative,
        improved: a.improved + b.improved,
    }
}

/// Per-metric sum of two reports.
pub open spec fn combine_report(a: ReportModel, b: ReportModel) -> ReportModel {
    ReportModel {
        count: a.count + b.count,
        nodes: combine_metric(a.nodes, b.nodes),
        time: combine_metric(a.time, b.time),
        nps: combine_metric(a.nps, b.nps),
        score: combine_metric(a.score, b.score),
        branching_factor: combine_metric(a.branching_factor, b.branching_factor),
    }
}

/// What aggregating a sequence of diffs yields: the fold of the items'
/// aggregations under `combine_report`, starting from the zero report.
pub open spec fn spec_aggregate(ds: Seq<Diff>) -> ReportModel
    decreases ds.len(),
{
    if ds.len() == 0 {
        zero_report()
    } else {
        combine_report(spec_aggregate(ds.drop_last()), report_item(ds.last()))
    }
}

/// Aggregating nothing yields the zero-valued report with a zero count;
/// nothing is divided by anything to produce it.
pub proof fn lemma_aggregate_empty()
    ensures
        spec_aggregate(Seq::<Diff>::empty()) == zero_report(),
{
}

/// Combination of reports is commutative.
pub proof fn lemma_combine_commutative(a: ReportModel, b: ReportModel)
    ensures
        combine_report(a, b) == combine_report(b, a),
{
}

/// Combination of reports is associative.
pub proof fn lemma_combine_associative(a: ReportModel, b: ReportModel, c: ReportModel)
    ensures
        combine_report(combine_report(a, b), c) == combine_report(a, combine_report(b, c)),
{
}

/// Aggregation is a homomorphism: aggregating a concatenation combines the
/// two aggregations.
pub proof fn lemma_aggregate_concat(a: Seq<Diff>, b: Seq<Diff>)
    ensures
        spec_aggregate(a + b) == combine_report(spec_aggregate(a), spec_aggregate(b)),
    decreases b.len(),
{
    if b.len() == 0 {
        assert(a + b =~= a);
    } else {
        lemma_aggregate_concat(a, b.drop_last());
        assert((a + b).drop_last() =~= a + b.drop_last());
        assert((a + b).len() > 0);
        assert((a + b).last() == b.last());
        lemma_combine_associative(
            spec_aggregate(a),
            spec_aggregate(b.drop_last()),
            report_item(b.last()),
        );
    }
}


/// Combining the zero report changes nothing.
pub proof fn lemma_combine_zero(r: ReportModel)
    ensures
        combine_report(zero_report(), r) == r,
{
    assert(combine_report(zero_report(), r) =~= r);
}

/// Removing the item at `j` splits one combination off the aggregation.
proof fn lemma_aggregate_remove(b: Seq<Diff>, j: int)
    requires
        0 <= j < b.len(),
    ensures
        spec_aggregate(b) == combine_report(spec_aggregate(b.remove(j)), report_item(b[j])),
{
    let x = b[j];
    let pre = b.subrange(0, j);
    let post = b.subrange(j + 1, b.len() as int);
    assert(b =~= pre + (seq![x] + post));
    lemma_aggregate_concat(pre, seq![x] + post);
    lemma_aggregate_concat(seq![x], post);
    assert(seq![x].drop_last() =~= Seq::<Diff>::empty());
    assert(spec_aggregate(Seq::<Diff>::empty()) == zero_report());
    assert(spec_aggregate(seq![x]) == combine_report(zero_report(), report_item(x)));
    lemma_combine_zero(report_item(x));
    assert(b.remove(j) =~= pre + post);
    lemma_aggregate_concat(pre, post);
    let a1 = spec_aggregate(pre);
    let a2 = spec_aggregate(post);
    let ix = report_item(x);
    lemma_combine_commutative(ix, a2);
    lemma_combine_associative(a1, ix, a2);
    lemma_combine_associative(a1, a2, ix);
}

/// Aggregation is insensitive to the order of its items in full
/// generality: any two sequences holding the same diffs the same number of
/// times aggregate to the same report.
pub proof fn lemma_aggregate_permutation(a: Seq<Diff>, b: Seq<Diff>)
    requires
        a.to_multiset() == b.to_multiset(),
    ensures
        spec_aggregate(a) == spec_aggregate(b),
    decreases a.len(),
{
    broadcast use vstd::seq_lib::group_to_multiset_ensures;

    if a.len() == 0 {
        assert(b.to_multiset().len() == 0);
        assert(b.len() == 0);
    } else {
        let x = a.last();
        assert(a[a.len() - 1] == x);
        assert(a.contains(x));
        assert(b.to_multiset().count(x) > 0);
        assert(b.contains(x));
        let j = choose|i: int| 0 <= i < b.len() && b[i] == x;
        assert(0 <= j < b.len() && b[j] == x);
        assert(a.remove(a.len() - 1) =~= a.drop_last());
        assert(a.drop_last().to_multiset() =~= a.to_multiset().remove(x)) by {
            assert(a.remove(a.len() - 1).to_multiset() =~= a.to_multiset().remove(x));
        }
        assert(b.remove(j).to_multiset() =~= b.to_multiset().remove(x));
        lemma_aggregate_permutation(a.drop_last(), b.remove(j));
        lemma_aggregate_remove(b, j);
    }
}

/// Aggregation is insensitive to the order of its items: rotating three
/// diffs leaves every aggregated metric unchanged.
pub proof fn lemma_aggregate_rotation(a: Diff, b: Diff, c: Diff)
    ensures
        spec_aggregate(seq![a, b, c]) == spec_aggregate(seq![c, a, b]),
{
    reveal_with_fuel(spec_aggregate, 5);
    let s1 = seq![a, b, c];
    let s2 = seq![c, a, b];
    assert(s1.drop_last() =~= seq![a, b]);
    assert(s1.drop_last().drop_last() =~= seq![a]);
    assert(s1.drop_last().drop_last().drop_last() =~= Seq::<Diff>::empty());
    assert(s2.drop_last() =~= seq![c, a]);
    assert(s2.drop_last().drop_last() =~= seq![c]);
    assert(s2.drop_last().drop_last().drop_last() =~= Seq::<Diff>::empty());
    assert(spec_aggregate(seq![a]) == combine_report(zero_report(), report_item(a)));
    assert(spec_aggregate(seq![c]) == combine_report(zero_report(), report_item(c)));
    assert(spec_aggregate(s1) == combine_report(
        combine_report(combine_report(zero_report(), report_item(a)), report_item(b)),
        report_item(c),
    ));
    assert(spec_aggregate(s2) == combine_report(
        combine_report(combine_report(zero_report(), report_item(c)), report_item(a)),
        report_item(b),
    ));
}

impl Report {
    /// The all-zero report.
    pub fn zero() -> (r: Report)
        ensures
            r@ == zero_report(),
    {
        let z = MetricAgg { sum_first: 0, sum_second: 0, sum_relative: 0, improved: 0 };
        Report { count: 0, nodes: z, time: z, nps: z, score: z, branching_factor: z }
    }

    /// The divisor for means: the item count, or one for an empty report,
    /// so that means of an empty aggregation are zero rather than
    /// undefined.
    pub fn divisor(&self) -> (r: usize)
        ensures
            r == if self.count == 0 { 1int } else { self.count as int },
            r > 0,
    {
        if self.count == 0 { 1 } else { self.count }
    }
}

impl MetricAgg {
    /// Mean of the baseline values over `n` items.
    pub fn mean_first(&self, n: usize) -> (r: i128)
        requires
            n > 0,
        ensures
            r == tdiv(self.sum_first as int, n as int),
    {
        tdiv_i128(self.sum_first, n)
    }

    /// Mean of the fresh values over `n` items.
    pub fn mean_second(&self, n: usize) -> (r: i128)
        requires
            n > 0,
        ensures
            r == tdiv(self.sum_second as int, n as int),
    {
        tdiv_i128(self.sum_second, n)
    }

    /// Mean relative change over `n` items.
    pub fn mean_relative(&self, n: usize) -> (r: i128)
        requires
            n > 0,
        ensures
            r == tdiv(self.sum_relative as int, n as int),
    {
        tdiv_i128(self.sum_relative, n)
    }
}

/// Truncated division of a signed accumulator by a positive count.
fn tdiv_i128(a: i128, n: usize) -> (r: i128)
    requires
        n > 0,
    ensures
        r == tdiv(a as int, n as int),
{
    if a >= 0 {
        ((a as u128) / (n as u128)) as i128
    } else {
        let m: u128 = if a == i128::MIN {
            0x8000_0000_0000_0000_0000_0000_0000_0000u128
        } else {
            (-a) as u128
        };
        let q: u128 = m / (n as u128);
        assert(q < 0x8000_0000_0000_0000_0000_0000_0000_0000u128 || n == 1) by {
            if n > 1 {
                vstd::arithmetic::div_mod::lemma_div_is_ordered_by_denominator(
                    m as int,
                    2,
                    n as int,
                );
            }
        };
        if q == 0x8000_0000_0000_0000_0000_0000_0000_0000u128 {
            i128::MIN
        } else {
            -(q as i128)
        }
    }
}

/// Every relative change recorded in the diff lies strictly within
/// `REL_LIMIT`; what `Diff::new` constructs always satisfies this.
pub open spec fn all_wf(ds: Seq<Diff>) -> bool {
    forall|i: int| 0 <= i < ds.len() ==> diff_wf(#[trigger] ds[i])
}

/// Folds a collection of diffs into totals and improvement counts, one
/// pass, matching the mathematical aggregation exactly.
pub fn aggregate(diffs: &Vec<Diff>) -> (r: Report)
    requires
        diffs@.len() <= 0x1_0000_0000,
        all_wf(diffs@),
    ensures
        r@ == spec_aggregate(diffs@),
{
    let mut r = Report::zero();
    let mut i: usize = 0;
    proof {
        assert(diffs@.subrange(0, 0) =~= Seq::<Diff>::empty());
    }
    while i < diffs.len()
        invariant
            i <= diffs@.len() <= 0x1_0000_0000,
            all_wf(diffs@),
            r@ == spec_aggregate(diffs@.subrange(0, i as int)),
            r.count == i,
            metric_in_range(r.nodes, i as int),
            metric_in_range(r.time, i as int),
            metric_in_range(r.nps, i as int),
            metric_in_range(r.score, i as int),
            metric_in_range(r.branching_factor, i as int),
        decreases diffs@.len() - i,
    {
        let d = &diffs[i];
        let nodes = add_metric(
            r.nodes,
            d.nodes.first.0 as i128,
            d.nodes.second.0 as i128,
            d.nodes.relative,
            crate::metrics::Nodes::direction(),
            i,
        );
        let time = add_metric(
            r.time,
            d.time.first.0 as i128,
            d.time.second.0 as i128,
            d.time.relative,
            crate::metrics::Time::direction(),
            i,
        );
        let nps = add_metric(
            r.nps,
            d.nps.first.0 as i128,
            d.nps.second.0 as i128,
            d.nps.relative,
            crate::metrics::Nps::direction(),
            i,
        );
        let score = add_metric(
            r.score,
            d.score.first.0 as i128,
            d.score.second.0 as i128,
            d.score.relative,
            crate::metrics::Score::direction(),
            i,
        );
        let branching_factor = add_metric(
            r.branching_factor,
            d.branching_factor.first.0 as i128,
            d.branching_factor.second.0 as i128,
            d.branching_factor.relative,
            crate::metrics::BFactor::direction(),
            i,
        );
        r = Report { count: r.count + 1, nodes, time, nps, score, branching_factor };
        proof {
            assert(diffs@.subrange(0, i + 1).drop_last() =~= diffs@.subrange(0, i as int));
            assert(diffs@.subrange(0, i + 1).last() == diffs@[i as int]);
        }
        i = i + 1;
    }
    proof {
        assert(diffs@.subrange(0, diffs@.len() as int) =~= diffs@);
    }
    r
}

/// Bounds kept by the aggregation loop: after `n` items each sum is at
/// most `n` times the per-item bound.
pub open spec fn metric_in_range(m: MetricAgg, n: int) -> bool {
    &&& abs_i128(m.sum_first) <= n * 0x1_0000_0000_0000_0000
    &&& abs_i128(m.sum_second) <= n * 0x1_0000_0000_0000_0000
    &&& abs_i128(m.sum_relative) <= n * REL_LIMIT
    &&& m.improved <= n
}

/// Magnitude of a signed accumulator value.
pub open spec fn abs_i128(x: i128) -> int {
    if x >= 0 { x as int } else { -(x as int) }
}

/// Adds one metric comparison into a running aggregation.
fn add_metric(acc: MetricAgg, first: i128, second: i128, relative: i128, d: Direction, n: usize) -> (r:
    MetricAgg)
    requires
        n < 0x1_0000_0000,
        n < usize::MAX,
        metric_in_range(acc, n as int),
        -0x1_0000_0000_0000_0000 <= first <= 0x1_0000_0000_0000_0000,
        -0x1_0000_0000_0000_0000 <= second <= 0x1_0000_0000_0000_0000,
        -REL_LIMIT < relative < REL_LIMIT,
        acc.improved <= n,
    ensures
        r@ == combine_metric(acc@, metric_item(first as int, second as int, relative as int, d)),
        metric_in_range(r, n + 1),
{
    let imp: usize = if crate::metrics::is_improvement(d, first, second) {
        1
    } else {
        0
    };
    MetricAgg {
        sum_first: acc.sum_first + first,
        sum_second: acc.sum_second + second,
        sum_relative: acc.sum_relative + relative,
        improved: acc.improved + imp,
    }
}

/// Mathematical model of per-metric sums over raw results.
pub ghost struct ResultSums {
    pub nodes: int,
    pub time: int,
    pub nps: int,
    pub score: int,
    pub branching_factor: int,
}

/// Per-metric sums of a sequence of results.
pub open spec fn spec_result_sums(rs: Seq<SearchResult>) -> ResultSums
    decreases rs.len(),
{
    if rs.len() == 0 {
        ResultSums { nodes: 0, time: 0, nps: 0, score: 0, branching_factor: 0 }
    } else {
        let p = spec_result_sums(rs.drop_last());
        let l = rs.last();
        ResultSums {
            nodes: p.nodes + l.nodes.0,
            time: p.time + l.time.0,
            nps: p.nps + l.nps.0,
            score: p.score + l.score.0,
            branching_factor: p.branching_factor + l.branching_factor.0,
        }
    }
}

/// The mean result of a suite run: each metric is the truncated mean over
/// the results, and the non-numeric fields, which have no meaningful sum,
/// are blank. An empty input yields the all-zero result.
pub fn mean_result(results: &Vec<SearchResult>) -> (r: SearchResult)
    ensures
        ({
            let n = if results@.len() == 0 { 1int } else { results@.len() as int };
            let sums = spec_result_sums(results@);
            &&& r.position@ == Seq::<char>::empty()
            &&& r.depth == 0
            &&& r.nodes.0 == sums.nodes / n
            &&& r.time.0 == sums.time / n
            &&& r.nps.0 == sums.nps / n
            &&& r.score.0 == tdiv(sums.score, n)
            &&& r.branching_factor.0 == sums.branching_factor / n
            &&& r.best_move@ == Seq::<char>::empty()
        }),
{
    let mut sum_nodes: u128 = 0;
    let mut sum_time: u128 = 0;
    let mut sum_nps: u128 = 0;
    let mut sum_score: i128 = 0;
    let mut sum_bf: u128 = 0;
    let mut i: usize = 0;
    proof {
        assert(results@.subrange(0, 0) =~= Seq::<SearchResult>::empty());
    }
    while i < results.len()
        invariant
            i <= results@.len(),
            ({
                let sums = spec_result_sums(results@.subrange(0, i as int));
                &&& sum_nodes == sums.nodes
                &&& sum_time == sums.time
                &&& sum_nps == sums.nps
                &&& sum_score == sums.score
                &&& sum_bf == sums.branching_factor
            }),
            sum_nodes <= i * 0xFFFF_FFFF,
            sum_time <= i * 0xFFFF_FFFF_FFFF_FFFF,
            sum_nps <= i * 0xFFFF_FFFF,
            -(i * 0x8000_0000) <= sum_score <= i * 0x7FFF_FFFF,
            sum_bf <= i * 0xFFFF_FFFF,
        decreases results@.len() - i,
    {
        let x = &results[i];
        proof {
            assert(results@.subrange(0, i + 1).drop_last() =~= results@.subrange(0, i as int));
            assert(results@.subrange(0, i + 1).last() == results@[i as int]);
        }
        sum_nodes = sum_nodes + (x.nodes.0 as u128);
        sum_time = sum_time + (x.time.0 as u128);
        sum_nps = sum_nps + (x.nps.0 as u128);
        sum_score = sum_score + (x.score.0 as i128);
        sum_bf = sum_bf + (x.branching_factor.0 as u128);
        i = i + 1;
    }
    proof {
        assert(results@.subrange(0, results@.len() as int) =~= results@);
    }
    let n: usize = if results.len() == 0 { 1 } else { results.len() };
    let mean_nodes: u128 = sum_nodes / (n as u128);
    let mean_time: u128 = sum_time / (n as u128);
    let mean_nps: u128 = sum_nps / (n as u128);
    let mean_score: i128 = tdiv_i128(sum_score, n);
    let mean_bf: u128 = sum_bf / (n as u128);
    proof {
        let len = results@.len() as int;
        lemma_mean_fits(sum_nodes as int, len, 0xFFFF_FFFF);
        lemma_mean_fits(sum_time as int, len, 0xFFFF_FFFF_FFFF_FFFF);
        lemma_mean_fits(sum_nps as int, len, 0xFFFF_FFFF);
        lemma_mean_fits(sum_bf as int, len, 0xFFFF_FFFF);
        if sum_score >= 0 {
            lemma_mean_fits(sum_score as int, len, 0x7FFF_FFFF);
        } else {
            lemma_mean_fits(-(sum_score as int), len, 0x8000_0000);
        }
    }
    SearchResult {
        position: String::new(),
        depth: 0,
        nodes: crate::metrics::Nodes(mean_nodes as u32),
        time: crate::metrics::Time(mean_time as u64),
        nps: crate::metrics::Nps(mean_nps as u32),
        score: crate::metrics::Score(mean_score as i32),
        branching_factor: crate::metrics::BFactor(mean_bf as u32),
        best_move: String::new(),
    }
}

/// A sum of `n` values each at most `bound` divides by `max(n, 1)` to a
/// mean of at most `bound`.
proof fn lemma_mean_fits(sum: int, len: int, bound: int)
    requires
        0 <= sum,
        0 <= len,
        0 < bound,
        sum <= len * bound,
    ensures
        sum / (if len == 0 { 1int } else { len }) <= bound,
{
    if len == 0 {
    } else {
        assert(sum / len <= bound) by (nonlinear_arith)
            requires 0 < len && 0 < bound && 0 <= sum <= len * bound;
    }
}

} // verus!
