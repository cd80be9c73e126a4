//! The protocol codec: serializes outgoing commands to newline-terminated
//! text lines, and parses incoming lines into typed messages. Parsing is
//! pure and tolerant: only the recognized field tokens of a line are
//! extracted, and a line that carries none of them is simply unrecognized.

use vstd::prelude::*;
use crate::numeric::{digits_of, spec_parse_uint, parse_u64_at};

verus! {

/// One outgoing command of the driver's fixed command set.
#[derive(Clone, Debug)]
pub enum Command {
    /// Opens the session; the subprocess answers with a handshake
    /// acknowledgement line.
    StartHandshake,
    /// Clears any per-position engine state before a new search.
    ResetSession,
    /// Announces the position to search, with an optional move history.
    SetPosition { position: String, moves: Vec<String> },
    /// Starts a search limited to the given depth.
    StartSearch { depth: usize },
}

/// The latest-progress snapshot accumulated from progress lines; every
/// field is optional because each progress line may carry any subset.
#[derive(PartialEq, Eq, Structural, Copy, Clone, Debug)]
pub struct Progress {
    pub nodes: Option<u32>,
    pub time_ms: Option<u64>,
    pub score: Option<i32>,
}

impl Progress {
    /// The empty snapshot: nothing observed yet.
    pub fn empty() -> (r: Progress)
        ensures
            r == (Progress { nodes: None, time_ms: None, score: None }),
    {
        Progress { nodes: None, time_ms: None, score: None }
    }
}

/// One parsed incoming line.
#[derive(PartialEq, Eq, Clone, Debug)]
pub enum EngineMessage {
    /// The subprocess finished the handshake.
    HandshakeAck,
    /// A progress update; only the fields present on the line are set.
    ProgressInfo(Progress),
    /// The search finished with this best move.
    FinalMove(String),
}

/// Mathematical model of a parsed line.
pub ghost enum MessageModel {
    Ack,
    Info(Progress),
    Final(Seq<char>),
}

/// Is `c` the token separator?
pub open spec fn is_space(c: char) -> bool {
    c == ' '
}

/// The first index at or after `i` that is out of range or not a space.
pub open spec fn skip_spaces(s: Seq<char>, i: int) -> int
    decreases s.len() - i,
{
    if i < 0 || i >= s.len() || !is_space(s[i]) {
        i
    } else {
        skip_spaces(s, i + 1)
    }
}

/// The first index at or after `i` that is out of range or a space: the
/// end of the token starting at `i`.
pub open spec fn token_end(s: Seq<char>, i: int) -> int
    decreases s.len() - i,
{
    if i < 0 || i >= s.len() || is_space(s[i]) {
        i
    } else {
        token_end(s, i + 1)
    }
}

/// Shape of `skip_spaces`: it lands on the first non-space.
pub proof fn lemma_skip_spaces(s: Seq<char>, i: int)
    requires
        0 <= i <= s.len(),
    ensures
        i <= skip_spaces(s, i) <= s.len(),
        forall|k: int| i <= k < skip_spaces(s, i) ==> is_space(#[trigger] s[k]),
        skip_spaces(s, i) < s.len() ==> !is_space(s[skip_spaces(s, i)]),
    decreases s.len() - i,
{
    if i < s.len() && is_space(s[i]) {
        lemma_skip_spaces(s, i + 1);
    }
}

/// Shape of `token_end`: it lands on the first space after the token.
pub proof fn lemma_token_end(s: Seq<char>, i: int)
    requires
        0 <= i <= s.len(),
    ensures
        i <= token_end(s, i) <= s.len(),
        forall|k: int| i <= k < token_end(s, i) ==> !is_space(#[trigger] s[k]),
        token_end(s, i) < s.len() ==> is_space(s[token_end(s, i)]),
    decreases s.len() - i,
{
    if i < s.len() && !is_space(s[i]) {
        lemma_token_end(s, i + 1);
    }
}

/// An unsigned decimal field value: the token `[j, k)` of `s` read as a
/// number, provided the digits span the whole token.
pub open spec fn field_u64(s: Seq<char>, j: int, k: int) -> Option<u64> {
    match spec_parse_uint(s, j, u64::MAX as nat) {
        Some((v, end)) => if end == k { Some(v as u64) } else { None },
        None => None,
    }
}

/// A node-count field value: an unsigned field in `u32` range.
pub open spec fn field_nodes(s: Seq<char>, j: int, k: int) -> Option<u32> {
    match field_u64(s, j, k) {
        Some(v) => if v <= u32::MAX { Some(v as u32) } else { None },
        None => None,
    }
}

/// A score field value: an optional minus sign and digits spanning the
/// whole token, in `i32` range.
pub open spec fn field_score(s: Seq<char>, j: int, k: int) -> Option<i32> {
    if 0 <= j < s.len() && s[j] == '-' {
        match field_u64(s, j + 1, k) {
            Some(v) => if v <= 0x8000_0000 { Some((-(v as int)) as i32) } else { None },
            None => None,
        }
    } else {
        match field_u64(s, j, k) {
            Some(v) => if v <= i32::MAX as u64 { Some(v as i32) } else { None },
            None => None,
        }
    }
}

/// Walks the tokens of a line from position `i`, reading each recognized
/// `nodes`, `time` or `score` key whose following token is a well-formed
/// number in range, later occurrences overwriting earlier ones; every
/// other token is ignored.
pub open spec fn scan_fields(s: Seq<char>, i: int, acc: Progress) -> Progress
    decreases s.len() - i,
    when 0 <= i
    via scan_fields_decreases
{
    if i >= s.len() {
        acc
    } else if is_space(s[i]) {
        scan_fields(s, i + 1, acc)
    } else {
        let k = token_end(s, i);
        let tok = s.subrange(i, k);
        let j2 = skip_spaces(s, k);
        let m = token_end(s, j2);
        if tok == "nodes"@ {
            match field_nodes(s, j2, m) {
                Some(v) => scan_fields(s, m, Progress { nodes: Some(v), time_ms: acc.time_ms, score: acc.score }),
                None => scan_fields(s, k, acc),
            }
        } else if tok == "time"@ {
            match field_u64(s, j2, m) {
                Some(v) => scan_fields(s, m, Progress { nodes: acc.nodes, time_ms: Some(v), score: acc.score }),
                None => scan_fields(s, k, acc),
            }
        } else if tok == "score"@ {
            match field_score(s, j2, m) {
                Some(v) => scan_fields(s, m, Progress { nodes: acc.nodes, time_ms: acc.time_ms, score: Some(v) }),
                None => scan_fields(s, k, acc),
            }
        } else {
            scan_fields(s, k, acc)
        }
    }
}

#[via_fn]
proof fn scan_fields_decreases(s: Seq<char>, i: int, acc: Progress) {
    if 0 <= i < s.len() && !is_space(s[i]) {
        lemma_token_end(s, i);
        assert(token_end(s, i) == token_end(s, i + 1));
        lemma_token_end(s, i + 1);
        let k = token_end(s, i);
        lemma_skip_spaces(s, k);
        lemma_token_end(s, skip_spaces(s, k));
    }
}

/// What one incoming line means. A line whose first token is
/// `handshake-ack` acknowledges the handshake; one whose first token is
/// `best-move` carries the final move as its second token; any other line
/// is a progress update if it carries at least one recognized field, and
/// unrecognized otherwise.
pub open spec fn spec_parse_line(s: Seq<char>) -> Option<MessageModel> {
    let j = skip_spaces(s, 0);
    let k = token_end(s, j);
    if j >= s.len() {
        None
    } else if s.subrange(j, k) == "handshake-ack"@ {
        Some(MessageModel::Ack)
    } else if s.subrange(j, k) == "best-move"@ {
        let j2 = skip_spaces(s, k);
        let m = token_end(s, j2);
        if j2 < s.len() {
            Some(MessageModel::Final(s.subrange(j2, m)))
        } else {
            None
        }
    } else {
        let p = scan_fields(s, 0, Progress { nodes: None, time_ms: None, score: None });
        if p == (Progress { nodes: None, time_ms: None, score: None }) {
            None
        } else {
            Some(MessageModel::Info(p))
        }
    }
}

/// Character-wise string equality.
fn str_eq(a: &str, b: &str) -> (r: bool)
    ensures
        r == (a@ == b@),
{
    let la = a.unicode_len();
    let lb = b.unicode_len();
    if la != lb {
        return false;
    }
    let mut i: usize = 0;
    while i < la
        invariant
            la == a@.len() == b@.len(),
            i <= la,
            forall|k: int| 0 <= k < i ==> a@[k] == b@[k],
        decreases la - i,
    {
        if a.get_char(i) != b.get_char(i) {
            return false;
        }
        i = i + 1;
    }
    proof {
        assert(a@ =~= b@);
    }
    true
}

/// Finds the first non-space at or after `i`.
fn skip_spaces_at(s: &str, i: usize) -> (j: usize)
    requires
        i <= s@.len(),
    ensures
        j == skip_spaces(s@, i as int),
        i <= j <= s@.len(),
{
    let n = s.unicode_len();
    let mut j: usize = i;
    while j < n && s.get_char(j) == ' '
        invariant
            i <= j <= n,
            n == s@.len(),
            skip_spaces(s@, i as int) == skip_spaces(s@, j as int),
        decreases n - j,
    {
        j = j + 1;
    }
    proof {
        lemma_skip_spaces(s@, i as int);
    }
    j
}

/// Finds the end of the token starting at `i`.
fn token_end_at(s: &str, i: usize) -> (j: usize)
    requires
        i <= s@.len(),
    ensures
        j == token_end(s@, i as int),
        i <= j <= s@.len(),
{
    let n = s.unicode_len();
    let mut j: usize = i;
    while j < n && s.get_char(j) != ' '
        invariant
            i <= j <= n,
            n == s@.len(),
            token_end(s@, i as int) == token_end(s@, j as int),
        decreases n - j,
    {
        j = j + 1;
    }
    proof {
        lemma_token_end(s@, i as int);
    }
    j
}

/// Reads the token `[j, k)` as an unsigned decimal field value.
fn parse_field_u64(s: &str, j: usize, k: usize) -> (r: Option<u64>)
    requires
        j <= s@.len(),
        k <= s@.len(),
    ensures
        r == field_u64(s@, j as int, k as int),
{
    match parse_u64_at(s, j) {
        Some((v, end)) => if end == k { Some(v) } else { None },
        None => None,
    }
}

/// Reads the token `[j, k)` as a signed decimal score field value.
fn parse_field_score(s: &str, j: usize, k: usize) -> (r: Option<i32>)
    requires
        j <= s@.len(),
        k <= s@.len(),
    ensures
        r == field_score(s@, j as int, k as int),
{
    let n = s.unicode_len();
    if j < n && s.get_char(j) == '-' {
        match parse_u64_at(s, j + 1) {
            Some((v, end)) => if end == k && v <= 0x8000_0000 {
                Some((-(v as i64)) as i32)
            } else {
                None
            },
            None => None,
        }
    } else {
        match parse_u64_at(s, j) {
            Some((v, end)) => if end == k && v <= i32::MAX as u64 {
                Some(v as i32)
            } else {
                None
            },
            None => None,
        }
    }
}

/// Parses one incoming line. Returns `None` for a line that carries no
/// recognized content; such a line is skipped, never an error.
pub fn parse_line(line: &str) -> (r: Option<EngineMessage>)
    ensures
        ({
            let sp = spec_parse_line(line@);
            match r {
                None => sp is None,
                Some(m) => match m {
                    EngineMessage::HandshakeAck => sp == Some(MessageModel::Ack),
                    EngineMessage::ProgressInfo(p) => sp == Some(MessageModel::Info(p)),
                    EngineMessage::FinalMove(mv) => sp matches Some(MessageModel::Final(t))
                        && mv@ == t,
                },
            }
        }),
{
    let n = line.unicode_len();
    let j = skip_spaces_at(line, 0);
    if j == n {
        return None;
    }
    let k = token_end_at(line, j);
    let tok = line.substring_char(j, k);
    if str_eq(tok, "handshake-ack") {
        return Some(EngineMessage::HandshakeAck);
    }
    if str_eq(tok, "best-move") {
        let j2 = skip_spaces_at(line, k);
        if j2 == n {
            return None;
        }
        let m = token_end_at(line, j2);
        let mv = line.substring_char(j2, m);
        return Some(EngineMessage::FinalMove(mv.to_owned()));
    }
    let mut p = Progress::empty();
    let mut i: usize = 0;
    let ghost init = Progress { nodes: None, time_ms: None, score: None };
    while i < n
        invariant
            i <= n,
            n == line@.len(),
            scan_fields(line@, 0, init) == scan_fields(line@, i as int, p),
        decreases n - i,
    {
        if line.get_char(i) == ' ' {
            i = i + 1;
        } else {
            let k2 = token_end_at(line, i);
            let tok2 = line.substring_char(i, k2);
            let j2 = skip_spaces_at(line, k2);
            let m = token_end_at(line, j2);
            proof {
                lemma_token_end(line@, i as int);
            }
            if str_eq(tok2, "nodes") {
                match parse_field_u64(line, j2, m) {
                    Some(v) => if v <= u32::MAX as u64 {
                        p = Progress { nodes: Some(v as u32), time_ms: p.time_ms, score: p.score };
                        i = m;
                    } else {
                        i = k2;
                    },
                    None => { i = k2; },
                }
            } else if str_eq(tok2, "time") {
                match parse_field_u64(line, j2, m) {
                    Some(v) => {
                        p = Progress { nodes: p.nodes, time_ms: Some(v), score: p.score };
                        i = m;
                    },
                    None => { i = k2; },
                }
            } else if str_eq(tok2, "score") {
                match parse_field_score(line, j2, m) {
                    Some(v) => {
                        p = Progress { nodes: p.nodes, time_ms: p.time_ms, score: Some(v) };
                        i = m;
                    },
                    None => { i = k2; },
                }
            } else {
                i = k2;
            }
        }
    }
    if p.nodes.is_none() && p.time_ms.is_none() && p.score.is_none() {
        None
    } else {
        Some(EngineMessage::ProgressInfo(p))
    }
}

/// The move tokens of a position command, each preceded by one space.
pub open spec fn joined_moves(ms: Seq<Seq<char>>) -> Seq<char>
    decreases ms.len(),
{
    if ms.len() == 0 {
        Seq::empty()
    } else {
        joined_moves(ms.drop_last()) + seq![' '] + ms.last()
    }
}

/// The exact line a command serializes to, newline-terminated.
pub open spec fn command_line(c: Command) -> Seq<char> {
    match c {
        Command::StartHandshake => "start-handshake\n"@,
        Command::ResetSession => "reset-session\n"@,
        Command::SetPosition { position, moves } => "set-position "@ + position@ + joined_moves(
            moves.deep_view(),
        ) + "\n"@,
        Command::StartSearch { depth } => "start-search depth "@ + digits_of(depth as nat)
            + "\n"@,
    }
}

/// Serializes one outgoing command as a single newline-terminated line.
pub fn render_command(c: &Command) -> (r: String)
    ensures
        r@ == command_line(*c),
{
    match c {
        Command::StartHandshake => String::from_str("start-handshake\n"),
        Command::ResetSession => String::from_str("reset-session\n"),
        Command::SetPosition { position, moves } => {
            let mut s = String::from_str("set-position ");
            s.append(position.as_str());
            let mut i: usize = 0;
            proof {
                assert(moves.deep_view().subrange(0, 0) =~= Seq::<Seq<char>>::empty());
                reveal_strlit(" ");
            }
            while i < moves.len()
                invariant
                    i <= moves@.len(),
                    moves.deep_view().len() == moves@.len(),
                    forall|q: int| 0 <= q < moves@.len() ==> moves.deep_view()[q] == #[trigger] moves@[q]@,
                    s@ == "set-position "@ + position@ + joined_moves(
                        moves.deep_view().subrange(0, i as int),
                    ),
                decreases moves@.len() - i,
            {
                s.append(" ");
                s.append(moves[i].as_str());
                proof {
                    reveal_strlit(" ");
                    assert(moves.deep_view().subrange(0, i + 1).drop_last() =~= moves.deep_view()
                        .subrange(0, i as int));
                    assert(moves.deep_view().subrange(0, i + 1).last() == moves.deep_view()[
                        i as int]);
                }
                i = i + 1;
            }
            proof {
                assert(moves.deep_view().subrange(0, moves.deep_view().len() as int)
                    =~= moves.deep_view());
            }
            s.append("\n");
            s
        },
        Command::StartSearch { depth } => {
            let mut s = String::from_str("start-search depth ");
            let d = crate::numeric::render_u64(*depth as u64);
            s.append(d.as_str());
            s.append("\n");
            s
        },
    }
}

} // verus!
