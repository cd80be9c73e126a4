//! The process driver's state machine. The driver is strictly synchronous:
//! it sends commands, then consumes lines until the awaited message class
//! arrives, one outstanding search at a time. This module holds every
//! protocol decision; performing the I/O — spawning the subprocess,
//! writing the command lines and reading the reply lines — is the caller's
//! job, so that each transition here is a pure, checked step.

use vstd::prelude::*;
use crate::codec::{Command, EngineMessage, MessageModel, Progress, spec_parse_line, parse_line};
use crate::metrics::MetricError;
use crate::search_result::{SearchResult, is_root_floor};

verus! {

/// The driver's lifecycle: `Unstarted -> Handshaking -> Ready ->
/// Searching -> Ready` (looping once per position), and `Closed` from any
/// state on shutdown.
#[derive(PartialEq, Eq, Structural, Copy, Clone, Debug)]
pub enum EngineState {
    Unstarted,
    Handshaking,
    Ready,
    Searching,
    Closed,
}

/// Fatal driver errors.
#[derive(PartialEq, Eq, Structural, Copy, Clone, Debug)]
pub enum EngineError {
    /// The subprocess could not be started at all.
    ProcessSpawnFailure,
    /// The subprocess started but one of its pipes could not be attached.
    PipeAttachFailure,
    /// The subprocess's output closed while the driver was still waiting
    /// for a message.
    EngineUnavailable,
}

/// What a finished search produced: the constructed result (or the metric
/// error that voided it), and which fields the subprocess actually
/// reported — a field it never sent was defaulted to zero rather than
/// silently invented.
pub struct SearchOutcome {
    pub result: Result<SearchResult, MetricError>,
    pub nodes_reported: bool,
    pub time_reported: bool,
    pub score_reported: bool,
}

impl EngineError {
    /// The operator-facing description of this error.
    pub fn describe(&self) -> (r: String)
        ensures
            r@ == match *self {
                EngineError::ProcessSpawnFailure => "the engine process could not be started"@,
                EngineError::PipeAttachFailure => "an engine pipe could not be attached"@,
                EngineError::EngineUnavailable => {
                    "the engine closed its output while a reply was awaited"@
                },
            },
    {
        match self {
            EngineError::ProcessSpawnFailure => {
                String::from_str("the engine process could not be started")
            },
            EngineError::PipeAttachFailure => {
                String::from_str("an engine pipe could not be attached")
            },
            EngineError::EngineUnavailable => {
                String::from_str("the engine closed its output while a reply was awaited")
            },
        }
    }
}

/// Last-write-wins merge of a progress snapshot: a field present in the
/// update overwrites, an absent field keeps its prior value.
pub open spec fn merge_progress(prior: Progress, update: Progress) -> Progress {
    Progress {
        nodes: if update.nodes is Some { update.nodes } else { prior.nodes },
        time_ms: if update.time_ms is Some { update.time_ms } else { prior.time_ms },
        score: if update.score is Some { update.score } else { prior.score },
    }
}

/// A reported value, or zero where the subprocess never reported one.
pub open spec fn or_zero_u32(x: Option<u32>) -> u32 {
    match x {
        Some(v) => v,
        None => 0,
    }
}

/// A reported value, or zero where the subprocess never reported one.
pub open spec fn or_zero_u64(x: Option<u64>) -> u64 {
    match x {
        Some(v) => v,
        None => 0,
    }
}

/// A reported value, or zero where the subprocess never reported one.
pub open spec fn or_zero_i32(x: Option<i32>) -> i32 {
    match x {
        Some(v) => v,
        None => 0,
    }
}

/// The protocol driver: the current lifecycle state, the position and
/// depth of the search in flight, and the latest progress snapshot.
pub struct Engine {
    pub state: EngineState,
    pub position: String,
    pub depth: usize,
    pub progress: Progress,
}

impl Engine {
    /// A fresh driver; nothing has been sent yet.
    pub fn new() -> (e: Engine)
        ensures
            e.state == EngineState::Unstarted,
            e.position@ == Seq::<char>::empty(),
            e.depth == 0,
            e.progress == (Progress { nodes: None, time_ms: None, score: None }),
    {
        Engine {
            state: EngineState::Unstarted,
            position: String::new(),
            depth: 0,
            progress: Progress::empty(),
        }
    }

    /// Opens the session: the returned command must be sent to the
    /// subprocess, after which the driver waits for the handshake
    /// acknowledgement.
    pub fn start(&mut self) -> (c: Command)
        requires
            old(self).state == EngineState::Unstarted,
        ensures
            final(self).state == EngineState::Handshaking,
            final(self).position == old(self).position,
            final(self).depth == old(self).depth,
            final(self).progress == old(self).progress,
            c == Command::StartHandshake,
    {
        self.state = EngineState::Handshaking;
        Command::StartHandshake
    }

    /// Consumes one line while handshaking. Everything except the
    /// handshake acknowledgement is discarded; the driver becomes ready on
    /// the first acknowledgement, and only then.
    pub fn on_handshake_line(&mut self, line: &str) -> (ready: bool)
        requires
            old(self).state == EngineState::Handshaking,
        ensures
            final(self).state == if spec_parse_line(line@) == Some(MessageModel::Ack) {
                EngineState::Ready
            } else {
                EngineState::Handshaking
            },
            ready == (final(self).state == EngineState::Ready),
            final(self).position == old(self).position,
            final(self).depth == old(self).depth,
            final(self).progress == old(self).progress,
    {
        match parse_line(line) {
            Some(EngineMessage::HandshakeAck) => {
                self.state = EngineState::Ready;
                true
            },
            _ => false,
        }
    }

    /// The command sequence that announces a position: a session reset,
    /// then the position itself (with no move history).
    pub fn set_position(&mut self, position: &str) -> (cmds: Vec<Command>)
        requires
            old(self).state == EngineState::Ready,
        ensures
            *final(self) == *old(self),
            cmds@.len() == 2,
            cmds@[0] == Command::ResetSession,
            cmds@[1] matches Command::SetPosition { position: p, moves } && p@ == position@
                && moves@.len() == 0,
    {
        let mut cmds: Vec<Command> = Vec::new();
        cmds.push(Command::ResetSession);
        cmds.push(Command::SetPosition { position: position.to_owned(), moves: Vec::new() });
        cmds
    }

    /// Begins a search for `(position, depth)`: the driver records what it
    /// is searching, clears the progress snapshot, and hands back the
    /// commands to send — reset, position, then the depth-limited search
    /// start. Only a ready driver may start a search, so no search command
    /// can ever be emitted before the handshake completed.
    pub fn search(&mut self, position: &str, depth: usize) -> (cmds: Vec<Command>)
        requires
            old(self).state == EngineState::Ready,
        ensures
            final(self).state == EngineState::Searching,
            final(self).position@ == position@,
            final(self).depth == depth,
            final(self).progress == (Progress { nodes: None, time_ms: None, score: None }),
            cmds@.len() == 3,
            cmds@[0] == Command::ResetSession,
            cmds@[1] matches Command::SetPosition { position: p, moves } && p@ == position@
                && moves@.len() == 0,
            cmds@[2] == (Command::StartSearch { depth }),
    {
        let mut cmds = self.set_position(position);
        cmds.push(Command::StartSearch { depth });
        self.state = EngineState::Searching;
        self.position = position.to_owned();
        self.depth = depth;
        self.progress = Progress::empty();
        cmds
    }

    /// Consumes one line while searching. A progress update overwrites the
    /// snapshot field by field (last write wins per field, not per
    /// message); the final-move line ends the search, returns the driver
    /// to ready, and yields the outcome: a result built from the last
    /// snapshot, with never-reported fields defaulted to zero and flagged.
    pub fn on_search_line(&mut self, line: &str) -> (outcome: Option<SearchOutcome>)
        requires
            old(self).state == EngineState::Searching,
        ensures
            final(self).position == old(self).position,
            final(self).depth == old(self).depth,
            match spec_parse_line(line@) {
                Some(MessageModel::Info(p)) => {
                    &&& final(self).state == EngineState::Searching
                    &&& final(self).progress == merge_progress(old(self).progress, p)
                    &&& outcome is None
                },
                Some(MessageModel::Final(mv)) => {
                    &&& final(self).state == EngineState::Ready
                    &&& outcome matches Some(o) && {
                        let nodes = or_zero_u32(old(self).progress.nodes);
                        let time_ms = or_zero_u64(old(self).progress.time_ms);
                        let score = or_zero_i32(old(self).progress.score);
                        &&& o.nodes_reported == (old(self).progress.nodes is Some)
                        &&& o.time_reported == (old(self).progress.time_ms is Some)
                        &&& o.score_reported == (old(self).progress.score is Some)
                        &&& ((time_ms > 0 && old(self).depth > 0) <==> o.result is Ok)
                        &&& (o.result matches Ok(sr) ==> {
                            &&& sr.position@ == old(self).position@
                            &&& sr.depth == old(self).depth
                            &&& sr.nodes.0 == nodes
                            &&& sr.time.0 == time_ms
                            &&& sr.nps.0 == nodes as int / time_ms as int
                            &&& sr.score.0 == score
                            &&& is_root_floor(
                                sr.branching_factor.0 as int,
                                nodes as int,
                                old(self).depth as nat,
                            )
                            &&& sr.best_move@ == mv
                        })
                        &&& (o.result matches Err(e) ==> e == MetricError::InvalidMetricInput)
                    }
                },
                _ => {
                    &&& final(self).state == EngineState::Searching
                    &&& final(self).progress == old(self).progress
                    &&& outcome is None
                },
            },
    {
        match parse_line(line) {
            Some(EngineMessage::ProgressInfo(p)) => {
                self.progress = Progress {
                    nodes: if p.nodes.is_some() { p.nodes } else { self.progress.nodes },
                    time_ms: if p.time_ms.is_some() { p.time_ms } else { self.progress.time_ms },
                    score: if p.score.is_some() { p.score } else { self.progress.score },
                };
                None
            },
            Some(EngineMessage::FinalMove(mv)) => {
                self.state = EngineState::Ready;
                let nodes: u32 = match self.progress.nodes {
                    Some(v) => v,
                    None => 0,
                };
                let time_ms: u64 = match self.progress.time_ms {
                    Some(v) => v,
                    None => 0,
                };
                let score: i32 = match self.progress.score {
                    Some(v) => v,
                    None => 0,
                };
                let result = SearchResult::new(
                    self.position.clone(),
                    self.depth,
                    nodes,
                    time_ms,
                    score,
                    mv,
                );
                Some(SearchOutcome {
                    result,
                    nodes_reported: self.progress.nodes.is_some(),
                    time_reported: self.progress.time_ms.is_some(),
                    score_reported: self.progress.score.is_some(),
                })
            },
            _ => None,
        }
    }

    /// The subprocess's output stream closed. The driver is finished
    /// either way; if it was still waiting for a message — the handshake
    /// acknowledgement or a search's final move — that wait can never end,
    /// which is fatal.
    pub fn on_stream_closed(&mut self) -> (r: Option<EngineError>)
        ensures
            final(self).state == EngineState::Closed,
            r == if old(self).state == EngineState::Handshaking || old(self).state
                == EngineState::Searching {
                Some(EngineError::EngineUnavailable)
            } else {
                Option::<EngineError>::None
            },
    {
        let failed = match self.state {
            EngineState::Handshaking => true,
            EngineState::Searching => true,
            _ => false,
        };
        self.state = EngineState::Closed;
        if failed {
            Some(EngineError::EngineUnavailable)
        } else {
            None
        }
    }

    /// Shuts the driver down; the caller releases the subprocess and its
    /// pipes.
    pub fn close(&mut self)
        ensures
            final(self).state == EngineState::Closed,
    {
        self.state = EngineState::Closed;
    }
}

} // verus!
