//! The run configuration: the engine binary, the search depth, the
//! snapshot and suite paths, and the per-metric column flags. Parsing the
//! command line into this value is the caller's job.

use vstd::prelude::*;

verus! {

/// One run's configuration.
#[derive(Clone, Debug)]
pub struct Cli {
    /// The location of the engine binary.
    pub engine: String,
    /// The depth to which to search each position. Ignored when comparing
    /// against a snapshot, which fixes each position's depth.
    pub depth: usize,
    /// The file to write the snapshot to.
    pub output: String,
    /// A suite of positions to use instead of the built-in set.
    pub fens: Option<String>,
    /// An existing snapshot to compare against.
    pub snapshot: String,
    /// Write the snapshot to the output file at the end of the run.
    pub save: bool,
    /// Output all of the available metrics at once.
    pub all: bool,
    /// Include the node count in the output.
    pub nodes: bool,
    /// Include the elapsed time in the output.
    pub time: bool,
    /// Include the speed in the output.
    pub nps: bool,
    /// Include the branching factor in the output.
    pub branching: bool,
    /// Include the score in the output.
    pub score: bool,
    /// Include the best move in the output.
    pub best_move: bool,
}

} // verus!
