//! One search outcome for a position at a given depth, with its derived
//! metrics (speed and branching factor) computed at construction.

use vstd::prelude::*;
use vstd::arithmetic::power::pow;
use crate::metrics::{Nodes, Time, Nps, Score, BFactor, MetricError, tdiv};
use crate::metrics::{nodes_chars, time_chars, nps_chars, bfactor_chars, score_chars};
use crate::fields::{Fields, Extract};

verus! {

/// `b` is the integer part of the `d`-th root of `n`.
pub open spec fn is_root_floor(b: int, n: int, d: nat) -> bool {
    pow(b, d) <= n < pow(b + 1, d)
}

/// One search outcome: the position searched, the depth limit, and the
/// metrics the engine reported or that were derived from them.
#[derive(Clone, Debug)]
pub struct SearchResult {
    pub position: String,
    pub depth: usize,
    pub nodes: Nodes,
    pub time: Time,
    pub nps: Nps,
    pub score: Score,
    pub branching_factor: BFactor,
    pub best_move: String,
}

impl SearchResult {
    /// Builds a result from the reported raw metrics, deriving speed
    /// (`nodes / time_ms`) and branching factor (integer part of
    /// `nodes^(1/depth)`). A zero elapsed time or a zero depth leaves a
    /// rate or root undefined and is rejected.
    pub fn new(
        position: String,
        depth: usize,
        nodes: u32,
        time_ms: u64,
        score: i32,
        best_move: String,
    ) -> (r: Result<SearchResult, MetricError>)
        ensures
            (time_ms > 0 && depth > 0) <==> r is Ok,
            r matches Ok(sr) ==> {
                &&& sr.position@ == position@
                &&& sr.depth == depth
                &&& sr.nodes.0 == nodes
                &&& sr.time.0 == time_ms
                &&& sr.nps.0 == nodes as int / time_ms as int
                &&& sr.score.0 == score
                &&& is_root_floor(sr.branching_factor.0 as int, nodes as int, depth as nat)
                &&& sr.best_move@ == best_move@
            },
            r matches Err(e) ==> e == MetricError::InvalidMetricInput,
    {
        let nps = match crate::metrics::compute_nps(nodes, time_ms) {
            Ok(v) => v,
            Err(e) => { return Err(e); },
        };
        let branching_factor = match crate::metrics::compute_bfactor(nodes, depth) {
            Ok(v) => v,
            Err(e) => { return Err(e); },
        };
        Ok(SearchResult {
            position,
            depth,
            nodes: Nodes(nodes),
            time: Time(time_ms),
            nps,
            score: Score(score),
            branching_factor,
            best_move,
        })
    }

    /// Ordinary per-metric sum, used only for aggregation. As with any
    /// combination of results, the non-numeric fields (position, best move)
    /// have no meaningful sum and are blanked.
    pub fn combine(self, rhs: SearchResult) -> (r: SearchResult)
        requires
            self.nodes.0 + rhs.nodes.0 <= u32::MAX,
            self.time.0 + rhs.time.0 <= u64::MAX,
            self.nps.0 + rhs.nps.0 <= u32::MAX,
            i32::MIN <= self.score.0 + rhs.score.0 <= i32::MAX,
            self.branching_factor.0 + rhs.branching_factor.0 <= u32::MAX,
        ensures
            r.position@ == Seq::<char>::empty(),
            r.depth == self.depth,
            r.nodes.0 == self.nodes.0 + rhs.nodes.0,
            r.time.0 == self.time.0 + rhs.time.0,
            r.nps.0 == self.nps.0 + rhs.nps.0,
            r.score.0 == self.score.0 + rhs.score.0,
            r.branching_factor.0 == self.branching_factor.0 + rhs.branching_factor.0,
            r.best_move@ == Seq::<char>::empty(),
    {
        SearchResult {
            position: String::new(),
            depth: self.depth,
            nodes: self.nodes.combine(rhs.nodes),
            time: self.time.combine(rhs.time),
            nps: self.nps.combine(rhs.nps),
            score: self.score.combine(rhs.score),
            branching_factor: self.branching_factor.combine(rhs.branching_factor),
            best_move: String::new(),
        }
    }

    /// Per-metric division by a positive count, used to compute means.
    pub fn scale_down(self, n: usize) -> (r: SearchResult)
        requires
            n > 0,
        ensures
            r.position@ == self.position@,
            r.depth == self.depth,
            r.nodes.0 == self.nodes.0 as int / n as int,
            r.time.0 == self.time.0 as int / n as int,
            r.nps.0 == self.nps.0 as int / n as int,
            r.score.0 == tdiv(self.score.0 as int, n as int),
            r.branching_factor.0 == self.branching_factor.0 as int / n as int,
            r.best_move@ == self.best_move@,
    {
        SearchResult {
            position: self.position,
            depth: self.depth,
            nodes: self.nodes.scale_down(n),
            time: self.time.scale_down(n),
            nps: self.nps.scale_down(n),
            score: self.score.scale_down(n),
            branching_factor: self.branching_factor.scale_down(n),
            best_move: self.best_move,
        }
    }
}

impl Extract for SearchResult {
    /// The row of a suite run: the position, then each selected metric's
    /// rendered value in column order.
    open spec fn extract_model(&self, fields: Fields) -> Seq<Seq<char>> {
        seq![self.position@] + (if fields.nodes {
            seq![nodes_chars(self.nodes.0)]
        } else {
            Seq::empty()
        }) + (if fields.time {
            seq![time_chars(self.time.0)]
        } else {
            Seq::empty()
        }) + (if fields.nps {
            seq![nps_chars(self.nps.0)]
        } else {
            Seq::empty()
        }) + (if fields.branching {
            seq![bfactor_chars(self.branching_factor.0)]
        } else {
            Seq::empty()
        }) + (if fields.score {
            seq![score_chars(self.score.0)]
        } else {
            Seq::empty()
        })
    }

    fn extract(&self, fields: &Fields) -> (r: Vec<String>)
    {
        let mut values: Vec<String> = Vec::new();
        values.push(self.position.clone());
        if fields.nodes {
            values.push(self.nodes.render());
        }
        if fields.time {
            values.push(self.time.render());
        }
        if fields.nps {
            values.push(self.nps.render());
        }
        if fields.branching {
            values.push(self.branching_factor.render());
        }
        if fields.score {
            values.push(self.score.render());
        }
        proof {
            assert(values@.map_values(|v: String| v@) =~= self.extract_model(*fields));
        }
        values
    }
}

} // verus!
