//! The diff engine: a structured per-metric comparison between a baseline
//! and a fresh result for the same position. Each metric comparison keeps
//! both values and their relative change; best move and position are only
//! compared for equality.

use vstd::prelude::*;
use crate::metrics::{Nodes, Time, Nps, Score, BFactor, Direction, spec_is_improvement};
use crate::metrics::{nodes_chars, time_chars, nps_chars, bfactor_chars, score_chars};
use crate::numeric::{digits_of, two_digits};
use crate::tabulator::pad_left;
use crate::fields::{Fields, Extract};
use crate::search_result::SearchResult;

verus! {

/// Scale of relative changes: a relative change is stored in units of
/// `1/10000` of the baseline, so `150` means `+1.50%`.
pub const REL_SCALE: u64 = 10000;

/// A relative change never exceeds this bound (`2^84`) when it was
/// computed by a diff constructor: `|second - first| * 10000 / first` with
/// `first >= 1` stays below `2^64 * 10000`.
pub const REL_LIMIT: i128 = 0x100000_00000000_00000000;

/// Error raised when a diff is requested between results that cannot be
/// compared.
#[derive(PartialEq, Eq, Structural, Copy, Clone, Debug)]
pub enum DiffError {
    /// The two results describe different positions.
    PositionMismatch,
    /// A metric has a zero baseline and a nonzero fresh value, so its
    /// relative change has no finite value.
    UndefinedRelativeChange,
}

/// Magnitude of an integer.
pub open spec fn abs(x: int) -> int {
    if x >= 0 { x } else { -x }
}

/// The relative change from `first` to `second` in units of `1/10000`
/// of `first`: `(second - first) * 10000 / first`, with the division
/// truncated toward zero (magnitudes divided, sign reapplied).
pub open spec fn rel_change(first: int, second: int) -> int
    recommends
        first != 0,
{
    let num = (second - first) * (REL_SCALE as int);
    let mag = abs(num) / abs(first);
    if (num >= 0) == (first >= 0) { mag } else { -mag }
}

/// The relative change recorded in a diff: zero where both values are
/// zero; a zero baseline with a nonzero fresh value has no finite relative
/// change and never reaches this function's meaningful domain.
pub open spec fn spec_relative(first: int, second: int) -> int {
    if first == 0 { 0 } else { rel_change(first, second) }
}

/// The one undefined case of a relative change: a zero baseline against a
/// nonzero fresh value.
pub open spec fn undef_relative(first: int, second: int) -> bool {
    first == 0 && second != 0
}

/// What a per-metric diff holds when it was correctly constructed from two
/// values.
pub open spec fn rel_ok(first: int, second: int, relative: int) -> bool {
    &&& relative == spec_relative(first, second)
    &&& -REL_LIMIT < relative < REL_LIMIT
}

/// Executable relative change on unsigned values.
fn rel_of_u64(first: u64, second: u64) -> (r: i128)
    requires
        first > 0,
    ensures
        r == rel_change(first as int, second as int),
        -REL_LIMIT < r < REL_LIMIT,
{
    if second >= first {
        let d: u64 = second - first;
        let q: u128 = (d as u128) * (REL_SCALE as u128) / (first as u128);
        proof {
            assert(q < REL_LIMIT) by (nonlinear_arith)
                requires
                    q == (d as int) * 10000 / (first as int),
                    0 < first as int,
                    0 <= d as int <= 0x1_0000_0000_0000_0000,
                    REL_LIMIT == 0x100000_00000000_00000000;
        }
        q as i128
    } else {
        let d: u64 = first - second;
        let q: u128 = (d as u128) * (REL_SCALE as u128) / (first as u128);
        proof {
            assert(q < REL_LIMIT) by (nonlinear_arith)
                requires
                    q == (d as int) * 10000 / (first as int),
                    0 < first as int,
                    0 <= d as int <= 0x1_0000_0000_0000_0000,
                    REL_LIMIT == 0x100000_00000000_00000000;
        }
        -(q as i128)
    }
}

/// Executable relative change on signed values.
fn rel_of_i64(first: i64, second: i64) -> (r: i128)
    requires
        first != 0,
    ensures
        r == rel_change(first as int, second as int),
        -REL_LIMIT < r < REL_LIMIT,
{
    let num_neg: bool = second < first;
    let d: u64 = if second >= first {
        (second as i128 - first as i128) as u64
    } else {
        (first as i128 - second as i128) as u64
    };
    let fm: u64 = if first >= 0 {
        first as u64
    } else {
        (-(first as i128)) as u64
    };
    let q: u128 = (d as u128) * (REL_SCALE as u128) / (fm as u128);
    proof {
        assert(q < REL_LIMIT) by (nonlinear_arith)
            requires
                q == (d as int) * 10000 / (fm as int),
                0 < fm as int,
                0 <= d as int <= 0x1_0000_0000_0000_0000,
                REL_LIMIT == 0x100000_00000000_00000000;
    }
    if num_neg == (first < 0) {
        q as i128
    } else {
        -(q as i128)
    }
}

/// Per-metric comparison of node counts.
#[derive(Clone, Copy, Debug)]
pub struct NodeDiff {
    pub first: Nodes,
    pub second: Nodes,
    pub relative: i128,
}

impl NodeDiff {
    /// Pairs a baseline and a fresh node count with their relative change.
    pub fn new(first: Nodes, second: Nodes) -> (r: Result<NodeDiff, DiffError>)
        ensures
            undef_relative(first.0 as int, second.0 as int) <==> r is Err,
            r matches Ok(d) ==> d.first == first && d.second == second && rel_ok(
                first.0 as int,
                second.0 as int,
                d.relative as int,
            ),
            r matches Err(e) ==> e == DiffError::UndefinedRelativeChange,
    {
        if first.0 == 0 && second.0 != 0 {
            Err(DiffError::UndefinedRelativeChange)
        } else if first.0 == 0 {
            Ok(NodeDiff { first, second, relative: 0 })
        } else {
            Ok(NodeDiff { first, second, relative: rel_of_u64(first.0 as u64, second.0 as u64) })
        }
    }
}

/// Per-metric comparison of elapsed times.
#[derive(Clone, Copy, Debug)]
pub struct TimeDiff {
    pub first: Time,
    pub second: Time,
    pub relative: i128,
}

impl TimeDiff {
    /// Pairs a baseline and a fresh time with their relative change.
    pub fn new(first: Time, second: Time) -> (r: Result<TimeDiff, DiffError>)
        ensures
            undef_relative(first.0 as int, second.0 as int) <==> r is Err,
            r matches Ok(d) ==> d.first == first && d.second == second && rel_ok(
                first.0 as int,
                second.0 as int,
                d.relative as int,
            ),
            r matches Err(e) ==> e == DiffError::UndefinedRelativeChange,
    {
        if first.0 == 0 && second.0 != 0 {
            Err(DiffError::UndefinedRelativeChange)
        } else if first.0 == 0 {
            Ok(TimeDiff { first, second, relative: 0 })
        } else {
            Ok(TimeDiff { first, second, relative: rel_of_u64(first.0, second.0) })
        }
    }
}

/// Per-metric comparison of search speeds.
#[derive(Clone, Copy, Debug)]
pub struct NpsDiff {
    pub first: Nps,
    pub second: Nps,
    pub relative: i128,
}

impl NpsDiff {
    /// Pairs a baseline and a fresh speed with their relative change.
    pub fn new(first: Nps, second: Nps) -> (r: Result<NpsDiff, DiffError>)
        ensures
            undef_relative(first.0 as int, second.0 as int) <==> r is Err,
            r matches Ok(d) ==> d.first == first && d.second == second && rel_ok(
                first.0 as int,
                second.0 as int,
                d.relative as int,
            ),
            r matches Err(e) ==> e == DiffError::UndefinedRelativeChange,
    {
        if first.0 == 0 && second.0 != 0 {
            Err(DiffError::UndefinedRelativeChange)
        } else if first.0 == 0 {
            Ok(NpsDiff { first, second, relative: 0 })
        } else {
            Ok(NpsDiff { first, second, relative: rel_of_u64(first.0 as u64, second.0 as u64) })
        }
    }
}

/// Per-metric comparison of scores.
#[derive(Clone, Copy, Debug)]
pub struct ScoreDiff {
    pub first: Score,
    pub second: Score,
    pub relative: i128,
}

impl ScoreDiff {
    /// Pairs a baseline and a fresh score with their relative change.
    pub fn new(first: Score, second: Score) -> (r: Result<ScoreDiff, DiffError>)
        ensures
            undef_relative(first.0 as int, second.0 as int) <==> r is Err,
            r matches Ok(d) ==> d.first == first && d.second == second && rel_ok(
                first.0 as int,
                second.0 as int,
                d.relative as int,
            ),
            r matches Err(e) ==> e == DiffError::UndefinedRelativeChange,
    {
        if first.0 == 0 && second.0 != 0 {
            Err(DiffError::UndefinedRelativeChange)
        } else if first.0 == 0 {
            Ok(ScoreDiff { first, second, relative: 0 })
        } else {
            Ok(ScoreDiff { first, second, relative: rel_of_i64(first.0 as i64, second.0 as i64) })
        }
    }
}

/// Per-metric comparison of branching factors.
#[derive(Clone, Copy, Debug)]
pub struct BFactorDiff {
    pub first: BFactor,
    pub second: BFactor,
    pub relative: i128,
}

impl BFactorDiff {
    /// Pairs a baseline and a fresh branching factor with their relative
    /// change.
    pub fn new(first: BFactor, second: BFactor) -> (r: Result<BFactorDiff, DiffError>)
        ensures
            undef_relative(first.0 as int, second.0 as int) <==> r is Err,
            r matches Ok(d) ==> d.first == first && d.second == second && rel_ok(
                first.0 as int,
                second.0 as int,
                d.relative as int,
            ),
            r matches Err(e) ==> e == DiffError::UndefinedRelativeChange,
    {
        if first.0 == 0 && second.0 != 0 {
            Err(DiffError::UndefinedRelativeChange)
        } else if first.0 == 0 {
            Ok(BFactorDiff { first, second, relative: 0 })
        } else {
            Ok(BFactorDiff { first, second, relative: rel_of_u64(first.0 as u64, second.0 as u64) })
        }
    }
}

/// The best moves of the two runs, compared for equality only: a changed
/// best move is flagged as a difference, never as an improvement or a
/// regression.
#[derive(Clone, Debug)]
pub struct MoveDiff {
    pub first: String,
    pub second: String,
}

impl MoveDiff {
    /// Did the best move change between the two runs?
    pub fn changed(&self) -> (r: bool)
        ensures
            r == (self.first@ != self.second@),
    {
        !self.first.eq(&self.second)
    }
}

/// Would a diff of these two results have a metric with a zero baseline
/// and a nonzero fresh value?
pub open spec fn undef_any(first: SearchResult, second: SearchResult) -> bool {
    ||| undef_relative(first.nodes.0 as int, second.nodes.0 as int)
    ||| undef_relative(first.time.0 as int, second.time.0 as int)
    ||| undef_relative(first.nps.0 as int, second.nps.0 as int)
    ||| undef_relative(first.score.0 as int, second.score.0 as int)
    ||| undef_relative(first.branching_factor.0 as int, second.branching_factor.0 as int)
}

/// A per-metric comparison of a baseline and a fresh result for one
/// position.
#[derive(Clone, Debug)]
pub struct Diff {
    pub position: String,
    pub depth: usize,
    pub nodes: NodeDiff,
    pub time: TimeDiff,
    pub nps: NpsDiff,
    pub score: ScoreDiff,
    pub branching_factor: BFactorDiff,
    pub best_move: MoveDiff,
}

/// Every relative change of this diff was computed from its two values.
pub open spec fn diff_wf(d: Diff) -> bool {
    &&& rel_ok(d.nodes.first.0 as int, d.nodes.second.0 as int, d.nodes.relative as int)
    &&& rel_ok(d.time.first.0 as int, d.time.second.0 as int, d.time.relative as int)
    &&& rel_ok(d.nps.first.0 as int, d.nps.second.0 as int, d.nps.relative as int)
    &&& rel_ok(d.score.first.0 as int, d.score.second.0 as int, d.score.relative as int)
    &&& rel_ok(
        d.branching_factor.first.0 as int,
        d.branching_factor.second.0 as int,
        d.branching_factor.relative as int,
    )
}

impl Diff {
    /// Compares a baseline and a fresh result for the same position,
    /// metric by metric. Results of different positions cannot be
    /// compared; a metric whose baseline is zero against a nonzero fresh
    /// value has no finite relative change.
    pub fn new(first: &SearchResult, second: &SearchResult) -> (r: Result<Diff, DiffError>)
        ensures
            first.position@ != second.position@ <==> r == Result::<Diff, DiffError>::Err(
                DiffError::PositionMismatch,
            ),
            (first.position@ == second.position@ && undef_any(*first, *second)) <==> r
                == Result::<Diff, DiffError>::Err(DiffError::UndefinedRelativeChange),
            r matches Ok(d) ==> {
                &&& d.position@ == first.position@
                &&& d.depth == first.depth
                &&& d.nodes.first == first.nodes && d.nodes.second == second.nodes
                &&& d.time.first == first.time && d.time.second == second.time
                &&& d.nps.first == first.nps && d.nps.second == second.nps
                &&& d.score.first == first.score && d.score.second == second.score
                &&& d.branching_factor.first == first.branching_factor
                    && d.branching_factor.second == second.branching_factor
                &&& d.best_move.first@ == first.best_move@
                &&& d.best_move.second@ == second.best_move@
                &&& diff_wf(d)
            },
    {
        if !first.position.eq(&second.position) {
            return Err(DiffError::PositionMismatch);
        }
        let nodes = match NodeDiff::new(first.nodes, second.nodes) {
            Ok(v) => v,
            Err(e) => { return Err(e); },
        };
        let time = match TimeDiff::new(first.time, second.time) {
            Ok(v) => v,
            Err(e) => { return Err(e); },
        };
        let nps = match NpsDiff::new(first.nps, second.nps) {
            Ok(v) => v,
            Err(e) => { return Err(e); },
        };
        let score = match ScoreDiff::new(first.score, second.score) {
            Ok(v) => v,
            Err(e) => { return Err(e); },
        };
        let branching_factor = match BFactorDiff::new(
            first.branching_factor,
            second.branching_factor,
        ) {
            Ok(v) => v,
            Err(e) => { return Err(e); },
        };
        Ok(Diff {
            position: first.position.clone(),
            depth: first.depth,
            nodes,
            time,
            nps,
            score,
            branching_factor,
            best_move: MoveDiff { first: first.best_move.clone(), second: second.best_move.clone() },
        })
    }
}

/// A diff of a result against itself always succeeds — the positions
/// match, and a zero baseline only ever faces a zero fresh value — and
/// every recorded relative change is zero, with no best-move difference.
pub proof fn lemma_diff_self(r: SearchResult)
    ensures
        !undef_any(r, r),
        spec_relative(r.nodes.0 as int, r.nodes.0 as int) == 0,
        spec_relative(r.time.0 as int, r.time.0 as int) == 0,
        spec_relative(r.nps.0 as int, r.nps.0 as int) == 0,
        spec_relative(r.score.0 as int, r.score.0 as int) == 0,
        spec_relative(r.branching_factor.0 as int, r.branching_factor.0 as int) == 0,
{
    lemma_relative_self(r.nodes.0 as int);
    lemma_relative_self(r.time.0 as int);
    lemma_relative_self(r.nps.0 as int);
    lemma_relative_self(r.score.0 as int);
    lemma_relative_self(r.branching_factor.0 as int);
}

/// The relative change of any value against itself is zero.
pub proof fn lemma_relative_self(v: int)
    ensures
        spec_relative(v, v) == 0,
{
    if v != 0 {
        assert((v - v) * (REL_SCALE as int) == 0);
        assert(abs(0) / abs(v) == 0) by {
            assert(abs(v) >= 1);
        }
    }
}

/// How a relative change prints: a signed percentage with two decimals in
/// parentheses, e.g. `(+1.50%)` for a stored change of `150`.
pub open spec fn rel_cell(rel: int) -> Seq<char> {
    let m = abs(rel);
    seq!['('] + (if rel >= 0 { seq!['+'] } else { seq!['-'] }) + digits_of((m / 100) as nat)
        + seq!['.'] + two_digits(m % 100) + seq!['%', ')']
}

/// One metric's diff cell: both values right-aligned in `w`, then the
/// relative change right-aligned in `wr`.
pub open spec fn pair_cell(first: Seq<char>, second: Seq<char>, rel: int, w: int, wr: int) -> Seq<
    char,
> {
    pad_left(first, w) + seq![' '] + pad_left(second, w) + seq![' '] + pad_left(rel_cell(rel), wr)
}

/// Renders a relative change as a parenthesized signed percentage.
fn render_rel_cell(rel: i128) -> (r: String)
    ensures
        r@ == rel_cell(rel as int),
{
    proof {
        reveal_strlit("(+");
        reveal_strlit("(-");
        reveal_strlit(".");
        reveal_strlit("%)");
    }
    let mut s = if rel >= 0 {
        String::from_str("(+")
    } else {
        String::from_str("(-")
    };
    let m: u128 = if rel >= 0 {
        rel as u128
    } else if rel == i128::MIN {
        0x8000_0000_0000_0000_0000_0000_0000_0000u128
    } else {
        (-rel) as u128
    };
    let whole = crate::numeric::render_u128(m / 100);
    s.append(whole.as_str());
    s.append(".");
    let frac = crate::numeric::render_two_digits((m % 100) as u64);
    s.append(frac.as_str());
    s.append("%)");
    proof {
        assert(s@ =~= rel_cell(rel as int));
    }
    s
}

/// Renders one metric's diff cell from its rendered values.
fn render_pair_cell(first: String, second: String, rel: i128, w: usize, wr: usize) -> (r: String)
    ensures
        r@ == pair_cell(first@, second@, rel as int, w as int, wr as int),
{
    proof {
        reveal_strlit(" ");
    }
    let mut s = crate::tabulator::pad_left_str(first.as_str(), w);
    s.append(" ");
    let b = crate::tabulator::pad_left_str(second.as_str(), w);
    s.append(b.as_str());
    s.append(" ");
    let rc = render_rel_cell(rel);
    let rcp = crate::tabulator::pad_left_str(rc.as_str(), wr);
    s.append(rcp.as_str());
    proof {
        assert(s@ =~= pair_cell(first@, second@, rel as int, w as int, wr as int));
    }
    s
}

/// The kind of change one cell shows, used to color the output: movement
/// in a metric's direction of improvement, against it, no movement, or a
/// cell (the position) that is no comparison at all.
#[derive(PartialEq, Eq, Structural, Copy, Clone, Debug)]
pub enum ChangeKind {
    Improvement,
    Regression,
    Unchanged,
    Plain,
}

/// The change kind of one metric comparison under its direction.
pub open spec fn class_of(d: Direction, first: int, second: int) -> ChangeKind {
    if first == second {
        ChangeKind::Unchanged
    } else if spec_is_improvement(d, first, second) {
        ChangeKind::Improvement
    } else {
        ChangeKind::Regression
    }
}

/// The change kind of one metric comparison, computed through the
/// direction tag.
fn classify(d: Direction, first: i128, second: i128) -> (r: ChangeKind)
    ensures
        r == class_of(d, first as int, second as int),
{
    if first == second {
        ChangeKind::Unchanged
    } else if crate::metrics::is_improvement(d, first, second) {
        ChangeKind::Improvement
    } else {
        ChangeKind::Regression
    }
}

impl Diff {
    /// The change kinds of this diff's row, aligned cell for cell with
    /// `extract`: the position cell is plain, every metric cell is
    /// classified through its metric's direction of improvement.
    pub open spec fn classes_model(&self, fields: Fields) -> Seq<ChangeKind> {
        seq![ChangeKind::Plain] + (if fields.nodes {
            seq![
                class_of(
                    Direction::LowerIsBetter,
                    self.nodes.first.0 as int,
                    self.nodes.second.0 as int,
                ),
            ]
        } else {
            Seq::empty()
        }) + (if fields.time {
            seq![
                class_of(
                    Direction::LowerIsBetter,
                    self.time.first.0 as int,
                    self.time.second.0 as int,
                ),
            ]
        } else {
            Seq::empty()
        }) + (if fields.nps {
            seq![
                class_of(
                    Direction::HigherIsBetter,
                    self.nps.first.0 as int,
                    self.nps.second.0 as int,
                ),
            ]
        } else {
            Seq::empty()
        }) + (if fields.branching {
            seq![
                class_of(
                    Direction::LowerIsBetter,
                    self.branching_factor.first.0 as int,
                    self.branching_factor.second.0 as int,
                ),
            ]
        } else {
            Seq::empty()
        }) + (if fields.score {
            seq![
                class_of(
                    Direction::HigherIsBetter,
                    self.score.first.0 as int,
                    self.score.second.0 as int,
                ),
            ]
        } else {
            Seq::empty()
        })
    }

    /// Classifies each cell of this diff's row for coloring.
    #[verifier::rlimit(50)]
    pub fn classes(&self, fields: &Fields) -> (r: Vec<ChangeKind>)
        ensures
            r@ == self.classes_model(*fields),
    {
        let mut v: Vec<ChangeKind> = Vec::new();
        v.push(ChangeKind::Plain);
        if fields.nodes {
            v.push(classify(
                Nodes::direction(),
                self.nodes.first.0 as i128,
                self.nodes.second.0 as i128,
            ));
        }
        if fields.time {
            v.push(classify(
                Time::direction(),
                self.time.first.0 as i128,
                self.time.second.0 as i128,
            ));
        }
        if fields.nps {
            v.push(classify(
                Nps::direction(),
                self.nps.first.0 as i128,
                self.nps.second.0 as i128,
            ));
        }
        if fields.branching {
            v.push(classify(
                BFactor::direction(),
                self.branching_factor.first.0 as i128,
                self.branching_factor.second.0 as i128,
            ));
        }
        if fields.score {
            v.push(classify(
                Score::direction(),
                self.score.first.0 as i128,
                self.score.second.0 as i128,
            ));
        }
        proof {
            assert(v@ =~= self.classes_model(*fields));
        }
        v
    }
}

impl Extract for Diff {
    /// The row of a snapshot comparison: the position, then for each
    /// selected metric both runs' values and the relative change, aligned
    /// in fixed sub-columns.
    open spec fn extract_model(&self, fields: Fields) -> Seq<Seq<char>> {
        seq![self.position@] + (if fields.nodes {
            seq![
                pair_cell(
                    nodes_chars(self.nodes.first.0),
                    nodes_chars(self.nodes.second.0),
                    self.nodes.relative as int,
                    15,
                    20,
                ),
            ]
        } else {
            Seq::empty()
        }) + (if fields.time {
            seq![
                pair_cell(
                    time_chars(self.time.first.0),
                    time_chars(self.time.second.0),
                    self.time.relative as int,
                    7,
                    20,
                ),
            ]
        } else {
            Seq::empty()
        }) + (if fields.nps {
            seq![
                pair_cell(
                    nps_chars(self.nps.first.0),
                    nps_chars(self.nps.second.0),
                    self.nps.relative as int,
                    8,
                    20,
                ),
            ]
        } else {
            Seq::empty()
        }) + (if fields.branching {
            seq![
                pair_cell(
                    bfactor_chars(self.branching_factor.first.0),
                    bfactor_chars(self.branching_factor.second.0),
                    self.branching_factor.relative as int,
                    5,
                    20,
                ),
            ]
        } else {
            Seq::empty()
        }) + (if fields.score {
            seq![
                pad_left(score_chars(self.score.first.0), 6) + seq![' '] + pad_left(
                    score_chars(self.score.second.0),
                    6,
                ),
            ]
        } else {
            Seq::empty()
        })
    }

    fn extract(&self, fields: &Fields) -> (r: Vec<String>)
    {
        let mut values: Vec<String> = Vec::new();
        values.push(self.position.clone());
        if fields.nodes {
            values.push(render_pair_cell(
                self.nodes.first.render(),
                self.nodes.second.render(),
                self.nodes.relative,
                15,
                20,
            ));
        }
        if fields.time {
            values.push(render_pair_cell(
                self.time.first.render(),
                self.time.second.render(),
                self.time.relative,
                7,
                20,
            ));
        }
        if fields.nps {
            values.push(render_pair_cell(
                self.nps.first.render(),
                self.nps.second.render(),
                self.nps.relative,
                8,
                20,
            ));
        }
        if fields.branching {
            values.push(render_pair_cell(
                self.branching_factor.first.render(),
                self.branching_factor.second.render(),
                self.branching_factor.relative,
                5,
                20,
            ));
        }
        if fields.score {
            proof {
                reveal_strlit(" ");
            }
            let a = self.score.first.render();
            let mut cell = crate::tabulator::pad_left_str(a.as_str(), 6);
            cell.append(" ");
            let b = self.score.second.render();
            let bp = crate::tabulator::pad_left_str(b.as_str(), 6);
            cell.append(bp.as_str());
            proof {
                assert(cell@ =~= pad_left(score_chars(self.score.first.0), 6) + seq![' ']
                    + pad_left(score_chars(self.score.second.0), 6));
            }
            values.push(cell);
        }
        proof {
            assert(values@.map_values(|v: String| v@) =~= self.extract_model(*fields));
        }
        values
    }
}

} // verus!
