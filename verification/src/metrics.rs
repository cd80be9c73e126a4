//! Metric value types: node count, elapsed time, speed, score and branching
//! factor. Each wraps a primitive numeric value and carries a fixed direction
//! of improvement; aggregation goes through `combine` (ordinary sum) and
//! `scale_down` (division by a positive count), never through comparison.

use vstd::prelude::*;
use vstd::arithmetic::power::pow;
use vstd::arithmetic::power::lemma_pow_positive;
use vstd::arithmetic::mul::lemma_mul_inequality;

verus! {

/// Which way a change of a metric counts as an improvement. Coloring and
/// improvement counting must go through this tag; the natural numeric
/// ordering of a metric stays the mathematically usual one.
#[derive(PartialEq, Eq, Structural, Copy, Clone, Debug)]
pub enum Direction {
    LowerIsBetter,
    HigherIsBetter,
}

/// Error raised by a metric computation on an input outside its domain:
/// a zero divisor for a rate (speed with zero elapsed time) or a ratio
/// (branching factor with zero depth).
#[derive(PartialEq, Eq, Structural, Copy, Clone, Debug)]
pub enum MetricError {
    InvalidMetricInput,
}

/// Count of search-tree nodes explored for one search.
#[derive(PartialEq, Eq, Structural, PartialOrd, Ord, Copy, Clone, Debug)]
pub struct Nodes(pub u32);

/// Elapsed search time in milliseconds.
#[derive(PartialEq, Eq, Structural, PartialOrd, Ord, Copy, Clone, Debug)]
pub struct Time(pub u64);

/// Search speed in thousands of nodes per second (nodes per millisecond).
#[derive(PartialEq, Eq, Structural, PartialOrd, Ord, Copy, Clone, Debug)]
pub struct Nps(pub u32);

/// The engine's evaluation of the position, in engine-defined units
/// (hundredths of a pawn).
#[derive(PartialEq, Eq, Structural, PartialOrd, Ord, Copy, Clone, Debug)]
pub struct Score(pub i32);

/// Effective branching factor of the search tree: the integer part of
/// `nodes^(1/depth)`.
#[derive(PartialEq, Eq, Structural, PartialOrd, Ord, Copy, Clone, Debug)]
pub struct BFactor(pub u32);

impl Nodes {
    /// Ordinary arithmetic sum, used only for aggregation.
    pub fn combine(self, rhs: Nodes) -> (r: Nodes)
        requires
            self.0 + rhs.0 <= u32::MAX,
        ensures
            r.0 == self.0 + rhs.0,
    {
        Nodes(self.0 + rhs.0)
    }

    /// Division by a positive count, used to compute means.
    pub fn scale_down(self, n: usize) -> (r: Nodes)
        requires
            n > 0,
        ensures
            r.0 == self.0 as int / n as int,
    {
        Nodes(((self.0 as u64) / (n as u64)) as u32)
    }

    /// Fewer nodes for the same search is an improvement.
    pub fn direction() -> (d: Direction)
        ensures
            d == Direction::LowerIsBetter,
    {
        Direction::LowerIsBetter
    }
}

impl Time {
    /// Ordinary arithmetic sum, used only for aggregation.
    pub fn combine(self, rhs: Time) -> (r: Time)
        requires
            self.0 + rhs.0 <= u64::MAX,
        ensures
            r.0 == self.0 + rhs.0,
    {
        Time(self.0 + rhs.0)
    }

    /// Division by a positive count, used to compute means.
    pub fn scale_down(self, n: usize) -> (r: Time)
        requires
            n > 0,
        ensures
            r.0 == self.0 as int / n as int,
    {
        Time(self.0 / (n as u64))
    }

    /// Less time for the same search is an improvement.
    pub fn direction() -> (d: Direction)
        ensures
            d == Direction::LowerIsBetter,
    {
        Direction::LowerIsBetter
    }
}

impl Nps {
    /// Ordinary arithmetic sum, used only for aggregation.
    pub fn combine(self, rhs: Nps) -> (r: Nps)
        requires
            self.0 + rhs.0 <= u32::MAX,
        ensures
            r.0 == self.0 + rhs.0,
    {
        Nps(self.0 + rhs.0)
    }

    /// Division by a positive count, used to compute means.
    pub fn scale_down(self, n: usize) -> (r: Nps)
        requires
            n > 0,
        ensures
            r.0 == self.0 as int / n as int,
    {
        Nps(((self.0 as u64) / (n as u64)) as u32)
    }

    /// Higher speed is an improvement.
    pub fn direction() -> (d: Direction)
        ensures
            d == Direction::HigherIsBetter,
    {
        Direction::HigherIsBetter
    }
}

impl Score {
    /// Ordinary arithmetic sum, used only for aggregation.
    pub fn combine(self, rhs: Score) -> (r: Score)
        requires
            i32::MIN <= self.0 + rhs.0 <= i32::MAX,
        ensures
            r.0 == self.0 + rhs.0,
    {
        Score(self.0 + rhs.0)
    }

    /// Division by a positive count, used to compute means.
    pub fn scale_down(self, n: usize) -> (r: Score)
        requires
            n > 0,
        ensures
            r.0 == crate::metrics::tdiv(self.0 as int, n as int),
    {
        if self.0 >= 0 {
            let q: u64 = (self.0 as u64) / (n as u64);
            Score(q as i32)
        } else {
            let m: u64 = (-(self.0 as i64)) as u64;
            let q: u64 = m / (n as u64);
            Score((-(q as i64)) as i32)
        }
    }

    /// A higher evaluation is an improvement.
    pub fn direction() -> (d: Direction)
        ensures
            d == Direction::HigherIsBetter,
    {
        Direction::HigherIsBetter
    }
}

impl BFactor {
    /// Ordinary arithmetic sum, used only for aggregation.
    pub fn combine(self, rhs: BFactor) -> (r: BFactor)
        requires
            self.0 + rhs.0 <= u32::MAX,
        ensures
            r.0 == self.0 + rhs.0,
    {
        BFactor(self.0 + rhs.0)
    }

    /// Division by a positive count, used to compute means.
    pub fn scale_down(self, n: usize) -> (r: BFactor)
        requires
            n > 0,
        ensures
            r.0 == self.0 as int / n as int,
    {
        BFactor(((self.0 as u64) / (n as u64)) as u32)
    }

    /// A narrower search tree is an improvement.
    pub fn direction() -> (d: Direction)
        ensures
            d == Direction::LowerIsBetter,
    {
        Direction::LowerIsBetter
    }
}

/// Truncated integer division (rounds toward zero), the division the
/// executable code performs on signed values.
pub open spec fn tdiv(a: int, b: int) -> int
    recommends
        b != 0,
{
    if a >= 0 {
        a / b
    } else {
        -((-a) / b)
    }
}

/// Direction-aware comparison: does the fresh value improve on the baseline?
pub open spec fn spec_is_improvement(d: Direction, baseline: int, fresh: int) -> bool {
    match d {
        Direction::LowerIsBetter => fresh < baseline,
        Direction::HigherIsBetter => fresh > baseline,
    }
}

/// The single comparison that all improvement flagging and coloring goes
/// through; natural ordering of the metric types is never consulted for it.
pub fn is_improvement(d: Direction, baseline: i128, fresh: i128) -> (r: bool)
    ensures
        r == spec_is_improvement(d, baseline as int, fresh as int),
{
    match d {
        Direction::LowerIsBetter => fresh < baseline,
        Direction::HigherIsBetter => fresh > baseline,
    }
}

/// Speed in thousands of nodes per second: `nodes / time_ms`. A zero
/// elapsed time has no defined rate and is rejected.
pub fn compute_nps(nodes: u32, time_ms: u64) -> (r: Result<Nps, MetricError>)
    ensures
        time_ms > 0 <==> r is Ok,
        r matches Ok(v) ==> v.0 == nodes as int / time_ms as int,
        r matches Err(e) ==> e == MetricError::InvalidMetricInput,
{
    if time_ms == 0 {
        Err(MetricError::InvalidMetricInput)
    } else {
        let q: u64 = (nodes as u64) / time_ms;
        assert(q <= nodes) by {
            assert((nodes as u64) / time_ms <= nodes as u64) by (nonlinear_arith)
                requires time_ms >= 1;
        }
        Ok(Nps(q as u32))
    }
}

/// One unfolding of the (opaque) `pow` definition.
proof fn lemma_pow_unfold(b: int, e: nat)
    requires
        e >= 1,
    ensures
        pow(b, e) == b * pow(b, (e - 1) as nat),
{
    reveal(pow);
}

/// `pow` of a nonnegative base is nonnegative.
proof fn lemma_pow_nonneg(b: int, e: nat)
    requires
        b >= 0,
    ensures
        pow(b, e) >= 0,
    decreases e,
{
    reveal(pow);
    if e > 0 {
        lemma_pow_nonneg(b, (e - 1) as nat);
        vstd::arithmetic::mul::lemma_mul_nonnegative(b, pow(b, (e - 1) as nat));
    }
}

/// Decides `base^e <= limit` without overflowing, by accumulating the power
/// and stopping as soon as it exceeds the limit.
fn pow_leq(base: u64, e: usize, limit: u64) -> (r: bool)
    requires
        base <= 0x1_0000_0000,
        limit < 0x1_0000_0000,
    ensures
        r == (pow(base as int, e as nat) <= limit),
{
    let mut acc: u64 = 1;
    let mut i: usize = 0;
    if limit == 0 && base == 0 && e > 0 {
        assert(pow(base as int, e as nat) == 0) by {
            vstd::arithmetic::power::lemma0_pow(e as nat);
        }
        return true;
    }
    if limit == 0 {
        // base >= 1 or e == 0: the power is at least 1.
        assert(pow(base as int, e as nat) >= 1) by {
            if e == 0 {
                vstd::arithmetic::power::lemma_pow0(base as int);
            } else {
                lemma_pow_positive(base as int, e as nat);
            }
        }
        return false;
    }
    proof {
        vstd::arithmetic::power::lemma_pow0(base as int);
    }
    while i < e
        invariant
            i <= e,
            1 <= limit < 0x1_0000_0000,
            base <= 0x1_0000_0000,
            acc == pow(base as int, i as nat),
            acc <= limit,
        decreases e - i,
    {
        proof {
            // acc * base <= 2^32 * 2^32, so the wide product stays in range.
            lemma_mul_inequality(acc as int, 0x1_0000_0000, base as int);
        }
        let wide: u128 = (acc as u128) * (base as u128);
        proof {
            lemma_pow_unfold(base as int, (i + 1) as nat);
            assert(((i + 1) as nat - 1) as nat == i as nat);
            assert(pow(base as int, (i + 1) as nat) == base as int * pow(base as int, i as nat));
            assert(wide == acc * base);
        }
        if wide > limit as u128 {
            assert(pow(base as int, e as nat) >= wide) by {
                if base == 0 {
                    assert(wide == acc * 0);
                    vstd::arithmetic::mul::lemma_mul_by_zero_is_zero(acc as int);
                } else {
                    vstd::arithmetic::power::lemma_pow_increases(
                        base as nat,
                        (i + 1) as nat,
                        e as nat,
                    );
                }
            }
            return false;
        }
        acc = wide as u64;
        i = i + 1;
    }
    true
}

/// Effective branching factor: the integer part of `nodes^(1/depth)`, that
/// is the greatest `b` with `b^depth <= nodes`. A zero depth has no defined
/// root and is rejected.
pub fn compute_bfactor(nodes: u32, depth: usize) -> (r: Result<BFactor, MetricError>)
    ensures
        depth > 0 <==> r is Ok,
        r matches Ok(v) ==> {
            &&& pow(v.0 as int, depth as nat) <= nodes
            &&& nodes < pow(v.0 + 1 as int, depth as nat)
        },
        r matches Err(e) ==> e == MetricError::InvalidMetricInput,
{
    if depth == 0 {
        return Err(MetricError::InvalidMetricInput);
    }
    let mut lo: u64 = 0;
    let mut hi: u64 = nodes as u64 + 1;
    proof {
        vstd::arithmetic::power::lemma0_pow(depth as nat);
        // nodes + 1 >= 1, so pow(nodes + 1, depth) >= nodes + 1 > nodes.
        lemma_pow_self_bound((nodes + 1) as nat, depth as nat);
    }
    while hi - lo > 1
        invariant
            depth > 0,
            lo < hi <= nodes + 1,
            pow(lo as int, depth as nat) <= nodes,
            nodes < pow(hi as int, depth as nat),
        decreases hi - lo,
    {
        let mid: u64 = lo + (hi - lo) / 2;
        if pow_leq(mid, depth, nodes as u64) {
            lo = mid;
        } else {
            hi = mid;
        }
    }
    assert(hi == lo + 1);
    Ok(BFactor(lo as u32))
}

/// How a node count prints: the count and its unit.
pub open spec fn nodes_chars(n: u32) -> Seq<char> {
    crate::numeric::digits_of(n as nat) + " nodes"@
}

/// How an elapsed time prints: milliseconds and their unit.
pub open spec fn time_chars(t: u64) -> Seq<char> {
    crate::numeric::digits_of(t as nat) + "ms"@
}

/// How a speed prints: thousands of nodes per second and their unit.
pub open spec fn nps_chars(n: u32) -> Seq<char> {
    crate::numeric::digits_of(n as nat) + "knps"@
}

/// How a branching factor prints: its integer value.
pub open spec fn bfactor_chars(b: u32) -> Seq<char> {
    crate::numeric::digits_of(b as nat)
}

/// How a score prints: pawns with an explicit sign and two decimals,
/// converted from the engine's hundredths.
pub open spec fn score_chars(v: i32) -> Seq<char> {
    let m = if v >= 0 { v as int } else { -(v as int) };
    (if v >= 0 { seq!['+'] } else { seq!['-'] }) + crate::numeric::digits_of((m / 100) as nat)
        + seq!['.'] + crate::numeric::two_digits(m % 100)
}

impl Nodes {
    /// The count with its unit, e.g. `8855 nodes`.
    pub fn render(&self) -> (r: String)
        ensures
            r@ == nodes_chars(self.0),
    {
        let mut s = crate::numeric::render_u64(self.0 as u64);
        s.append(" nodes");
        s
    }
}

impl Time {
    /// The time with its unit, e.g. `35ms`.
    pub fn render(&self) -> (r: String)
        ensures
            r@ == time_chars(self.0),
    {
        let mut s = crate::numeric::render_u64(self.0);
        s.append("ms");
        s
    }
}

impl Nps {
    /// The speed with its unit, e.g. `253knps`.
    pub fn render(&self) -> (r: String)
        ensures
            r@ == nps_chars(self.0),
    {
        let mut s = crate::numeric::render_u64(self.0 as u64);
        s.append("knps");
        s
    }
}

impl BFactor {
    /// The integer branching factor, e.g. `2`.
    pub fn render(&self) -> (r: String)
        ensures
            r@ == bfactor_chars(self.0),
    {
        crate::numeric::render_u64(self.0 as u64)
    }
}

impl Score {
    /// The score in signed pawns with two decimals, e.g. `+0.15`.
    pub fn render(&self) -> (r: String)
        ensures
            r@ == score_chars(self.0),
    {
        let neg = self.0 < 0;
        let m: u64 = if self.0 >= 0 {
            self.0 as u64
        } else {
            (-(self.0 as i64)) as u64
        };
        proof {
            reveal_strlit("+");
            reveal_strlit("-");
            reveal_strlit(".");
        }
        let mut s = if neg {
            String::from_str("-")
        } else {
            String::from_str("+")
        };
        let whole = crate::numeric::render_u64(m / 100);
        s.append(whole.as_str());
        s.append(".");
        let frac = crate::numeric::render_two_digits(m % 100);
        s.append(frac.as_str());
        proof {
            assert(s@ =~= score_chars(self.0));
        }
        s
    }
}

/// For every `e >= 1` and `b >= 0`: `b <= b^e`.
proof fn lemma_pow_self_bound(b: nat, e: nat)
    requires
        e >= 1,
    ensures
        b <= pow(b as int, e),
    decreases e,
{
    if e == 1 {
        vstd::arithmetic::power::lemma_pow1(b as int);
    } else {
        lemma_pow_self_bound(b, (e - 1) as nat);
        lemma_pow_unfold(b as int, e);
        if b == 0 {
            lemma_pow_nonneg(b as int, e);
        } else {
            // b * pow(b, e - 1) >= b * 1 because pow(b, e - 1) >= 1.
            lemma_pow_positive(b as int, (e - 1) as nat);
            lemma_mul_inequality(1, pow(b as int, (e - 1) as nat), b as int);
        }
    }
}

} // verus!
