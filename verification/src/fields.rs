//! Which metric columns a run reports, chosen once from the command-line
//! flags and passed to everything that renders.

use vstd::prelude::*;
use crate::cli::Cli;

verus! {

/// The metric columns to include in the output.
#[derive(PartialEq, Eq, Structural, Copy, Clone, Debug)]
pub struct Fields {
    pub nodes: bool,
    pub time: bool,
    pub nps: bool,
    pub branching: bool,
    pub score: bool,
    pub best_move: bool,
}

impl Default for Fields {
    /// With no selection every column is shown.
    fn default() -> (r: Fields)
        ensures
            r == (Fields {
                nodes: true,
                time: true,
                nps: true,
                branching: true,
                score: true,
                best_move: true,
            }),
    {
        Fields { nodes: true, time: true, nps: true, branching: true, score: true, best_move: true }
    }
}

impl Fields {
    /// The columns a command line asks for: each per-metric flag, or all
    /// of them at once under the all flag.
    pub fn from_cli(value: &Cli) -> (r: Fields)
        ensures
            r.nodes == (value.all || value.nodes),
            r.time == (value.all || value.time),
            r.nps == (value.all || value.nps),
            r.branching == (value.all || value.branching),
            r.score == (value.all || value.score),
            r.best_move == (value.all || value.best_move),
    {
        Fields {
            nodes: value.all || value.nodes,
            time: value.all || value.time,
            nps: value.all || value.nps,
            branching: value.all || value.branching,
            score: value.all || value.score,
            best_move: value.all || value.best_move,
        }
    }
}

/// Extraction of a table row: the values of the selected columns, in
/// column order. `extract_model` is the mathematical row; `extract`
/// produces exactly it.
pub trait Extract {
    /// The row as a sequence of cell texts.
    spec fn extract_model(&self, fields: Fields) -> Seq<Seq<char>>;

    /// Renders the row.
    fn extract(&self, fields: &Fields) -> (r: Vec<String>)
        ensures
            r@.map_values(|v: String| v@) == self.extract_model(*fields),
    ;
}

} // verus!
