//! The snapshot codec: an ordered sequence of results serialized as a JSON
//! array, one object per benchmarked position, and the strict parser for
//! that form. Reading back what was written yields field-for-field
//! identical results, which is proved below.

use vstd::prelude::*;
use crate::numeric::{digits_of, int_digits_of, val_of, spec_parse_uint, parse_u64_at, lemma_digits_of, lemma_digit_run_end_is, is_digit_char, render_u64, render_i128};
use crate::metrics::{Nodes, Time, Nps, Score, BFactor};
use crate::search_result::SearchResult;

verus! {

/// Mathematical model of one snapshot record.
pub ghost struct RecordModel {
    pub position: Seq<char>,
    pub depth: usize,
    pub nodes: u32,
    pub time: u64,
    pub nps: u32,
    pub score: i32,
    pub branching_factor: u32,
    pub best_move: Seq<char>,
}

impl View for SearchResult {
    type V = RecordModel;

    open spec fn view(&self) -> RecordModel {
        RecordModel {
            position: self.position@,
            depth: self.depth,
            nodes: self.nodes.0,
            time: self.time.0,
            nps: self.nps.0,
            score: self.score.0,
            branching_factor: self.branching_factor.0,
            best_move: self.best_move@,
        }
    }
}

/// One character as it stands inside a JSON string: quote and backslash
/// escaped, everything else verbatim.
pub open spec fn esc_char(c: char) -> Seq<char> {
    if c == '"' || c == '\\' {
        seq!['\\', c]
    } else {
        seq![c]
    }
}

/// A text as it stands inside a JSON string.
pub open spec fn esc(s: Seq<char>) -> Seq<char>
    decreases s.len(),
{
    if s.len() == 0 {
        Seq::empty()
    } else {
        esc_char(s.first()) + esc(s.drop_first())
    }
}

/// The exact serialized form of one record.
pub open spec fn record_chars(m: RecordModel) -> Seq<char> {
    "{\"position\":\""@ + esc(m.position) + seq!['"'] + ",\"depth\":"@ + digits_of(m.depth as nat)
        + ",\"nodes\":"@ + digits_of(m.nodes as nat) + ",\"time\":"@ + digits_of(m.time as nat)
        + ",\"nps\":"@ + digits_of(m.nps as nat) + ",\"score\":"@ + int_digits_of(m.score as int)
        + ",\"branching_factor\":"@ + digits_of(m.branching_factor as nat) + ",\"best_move\":\""@
        + esc(m.best_move) + seq!['"'] + "}"@
}

/// The serialized records after the first, each preceded by a comma.
pub open spec fn rest_chars(ms: Seq<RecordModel>) -> Seq<char>
    decreases ms.len(),
{
    if ms.len() == 0 {
        Seq::empty()
    } else {
        seq![','] + record_chars(ms.first()) + rest_chars(ms.drop_first())
    }
}

/// The exact serialized form of a whole snapshot.
pub open spec fn snapshot_chars(ms: Seq<RecordModel>) -> Seq<char> {
    if ms.len() == 0 {
        "[]"@
    } else {
        seq!['['] + record_chars(ms.first()) + rest_chars(ms.drop_first()) + seq![']']
    }
}

/// Parses the body of a JSON string starting at `i` (after the opening
/// quote): the unescaped content and the position after the closing quote.
pub open spec fn sp_string(s: Seq<char>, i: int) -> Option<(Seq<char>, int)>
    decreases s.len() - i,
{
    if i < 0 || i >= s.len() {
        None
    } else if s[i] == '"' {
        Some((Seq::empty(), i + 1))
    } else if s[i] == '\\' {
        if i + 1 < s.len() && (s[i + 1] == '"' || s[i + 1] == '\\') {
            match sp_string(s, i + 2) {
                Some((t, j)) => Some((seq![s[i + 1]] + t, j)),
                None => None,
            }
        } else {
            None
        }
    } else {
        match sp_string(s, i + 1) {
            Some((t, j)) => Some((seq![s[i]] + t, j)),
            None => None,
        }
    }
}

/// Consumes an exact literal at `i`.
pub open spec fn sp_expect(s: Seq<char>, i: int, lit: Seq<char>) -> Option<int> {
    if 0 <= i && i + lit.len() <= s.len() && s.subrange(i, i + lit.len()) == lit {
        Some(i + lit.len())
    } else {
        None
    }
}

/// Parses a signed decimal at `i` in `i32` range.
pub open spec fn sp_i32(s: Seq<char>, i: int) -> Option<(i32, int)> {
    if 0 <= i < s.len() && s[i] == '-' {
        match spec_parse_uint(s, i + 1, 0x8000_0000) {
            Some((v, j)) => Some(((-(v as int)) as i32, j)),
            None => None,
        }
    } else {
        match spec_parse_uint(s, i, i32::MAX as nat) {
            Some((v, j)) => Some((v as i32, j)),
            None => None,
        }
    }
}

/// Parses one record at `i`: strictly the canonical serialized form.
pub open spec fn sp_record(s: Seq<char>, i: int) -> Option<(RecordModel, int)> {
    match sp_expect(s, i, "{\"position\":\""@) {
        None => None,
        Some(i1) => match sp_string(s, i1) {
            None => None,
            Some((position, i2)) => match sp_expect(s, i2, ",\"depth\":"@) {
                None => None,
                Some(i3) => match spec_parse_uint(s, i3, usize::MAX as nat) {
                    None => None,
                    Some((depth, i4)) => match sp_expect(s, i4, ",\"nodes\":"@) {
                        None => None,
                        Some(i5) => match spec_parse_uint(s, i5, u32::MAX as nat) {
                            None => None,
                            Some((nodes, i6)) => match sp_expect(s, i6, ",\"time\":"@) {
                                None => None,
                                Some(i7) => match spec_parse_uint(s, i7, u64::MAX as nat) {
                                    None => None,
                                    Some((time, i8)) => match sp_expect(s, i8, ",\"nps\":"@) {
                                        None => None,
                                        Some(i9) => match spec_parse_uint(s, i9, u32::MAX as nat) {
                                            None => None,
                                            Some((nps, i10)) => match sp_expect(
                                                s,
                                                i10,
                                                ",\"score\":"@,
                                            ) {
                                                None => None,
                                                Some(i11) => match sp_i32(s, i11) {
                                                    None => None,
                                                    Some((score, i12)) => match sp_expect(
                                                        s,
                                                        i12,
                                                        ",\"branching_factor\":"@,
                                                    ) {
                                                        None => None,
                                                        Some(i13) => match spec_parse_uint(
                                                            s,
                                                            i13,
                                                            u32::MAX as nat,
                                                        ) {
                                                            None => None,
                                                            Some((bf, i14)) => match sp_expect(
                                                                s,
                                                                i14,
                                                                ",\"best_move\":\""@,
                                                            ) {
                                                                None => None,
                                                                Some(i15) => match sp_string(
                                                                    s,
                                                                    i15,
                                                                ) {
                                                                    None => None,
                                                                    Some((best_move, i16)) => match sp_expect(
                                                                        s,
                                                                        i16,
                                                                        "}"@,
                                                                    ) {
                                                                        None => None,
                                                                        Some(i17) => Some(
                                                                            (
                                                                                RecordModel {
                                                                                    position,
                                                                                    depth: depth as usize,
                                                                                    nodes: nodes as u32,
                                                                                    time: time as u64,
                                                                                    nps: nps as u32,
                                                                                    score,
                                                                                    branching_factor: bf as u32,
                                                                                    best_move,
                                                                                },
                                                                                i17,
                                                                            ),
                                                                        ),
                                                                    },
                                                                },
                                                            },
                                                        },
                                                    },
                                                },
                                            },
                                        },
                                    },
                                },
                            },
                        },
                    },
                },
            },
        },
    }
}

/// `sp_string` consumes at least the closing quote and stays in range.
pub proof fn lemma_sp_string_advances(s: Seq<char>, i: int)
    ensures
        match sp_string(s, i) {
            Some((t, j)) => i < j <= s.len(),
            None => true,
        },
    decreases s.len() - i,
{
    if 0 <= i < s.len() {
        if s[i] == '"' {
        } else if s[i] == '\\' {
            if i + 1 < s.len() && (s[i + 1] == '"' || s[i + 1] == '\\') {
                lemma_sp_string_advances(s, i + 2);
            }
        } else {
            lemma_sp_string_advances(s, i + 1);
        }
    }
}

/// A successful record parse consumes at least one character and stays in
/// range.
pub proof fn lemma_sp_record_advances(s: Seq<char>, i: int)
    ensures
        match sp_record(s, i) {
            Some((m, j)) => i < j <= s.len(),
            None => true,
        },
{
    let i1 = sp_expect(s, i, "{\"position\":\""@)->Some_0;
    lemma_sp_string_advances(s, i1);
    let i2 = sp_string(s, i1)->Some_0.1;
    let i3 = sp_expect(s, i2, ",\"depth\":"@)->Some_0;
    lemma_sp_uint_advances(s, i3, usize::MAX as nat);
    let i4 = spec_parse_uint(s, i3, usize::MAX as nat)->Some_0.1;
    let i5 = sp_expect(s, i4, ",\"nodes\":"@)->Some_0;
    lemma_sp_uint_advances(s, i5, u32::MAX as nat);
    let i6 = spec_parse_uint(s, i5, u32::MAX as nat)->Some_0.1;
    let i7 = sp_expect(s, i6, ",\"time\":"@)->Some_0;
    lemma_sp_uint_advances(s, i7, u64::MAX as nat);
    let i8 = spec_parse_uint(s, i7, u64::MAX as nat)->Some_0.1;
    let i9 = sp_expect(s, i8, ",\"nps\":"@)->Some_0;
    lemma_sp_uint_advances(s, i9, u32::MAX as nat);
    let i10 = spec_parse_uint(s, i9, u32::MAX as nat)->Some_0.1;
    let i11 = sp_expect(s, i10, ",\"score\":"@)->Some_0;
    lemma_sp_uint_advances(s, i11, 0x8000_0000);
    lemma_sp_uint_advances(s, i11 + 1, 0x8000_0000);
    lemma_sp_uint_advances(s, i11, i32::MAX as nat);
    let i12 = sp_i32(s, i11)->Some_0.1;
    let i13 = sp_expect(s, i12, ",\"branching_factor\":"@)->Some_0;
    lemma_sp_uint_advances(s, i13, u32::MAX as nat);
    let i14 = spec_parse_uint(s, i13, u32::MAX as nat)->Some_0.1;
    let i15 = sp_expect(s, i14, ",\"best_move\":\""@)->Some_0;
    lemma_sp_string_advances(s, i15);
}

/// A successful number parse consumes at least one character and stays in
/// range.
pub proof fn lemma_sp_uint_advances(s: Seq<char>, i: int, max: nat)
    ensures
        match spec_parse_uint(s, i, max) {
            Some((v, j)) => i < j <= s.len(),
            None => true,
        },
{
    if 0 <= i <= s.len() {
        crate::numeric::lemma_digit_run_end(s, i);
    }
}

/// Parses the records of a non-empty snapshot array, comma-separated.
pub open spec fn sp_records(s: Seq<char>, i: int) -> Option<(Seq<RecordModel>, int)>
    decreases s.len() - i,
    when 0 <= i
    via sp_records_decreases
{
    match sp_record(s, i) {
        None => None,
        Some((m, j)) => if 0 <= j < s.len() && s[j] == ',' {
            match sp_records(s, j + 1) {
                Some((ms, k)) => Some((seq![m] + ms, k)),
                None => None,
            }
        } else {
            Some((seq![m], j))
        },
    }
}

#[via_fn]
proof fn sp_records_decreases(s: Seq<char>, i: int) {
    lemma_sp_record_advances(s, i);
}

/// Parses a whole snapshot: a JSON array of records and nothing after it.
pub open spec fn sp_snapshot(s: Seq<char>) -> Option<Seq<RecordModel>> {
    if s == "[]"@ {
        Some(Seq::empty())
    } else if s.len() >= 1 && s[0] == '[' {
        match sp_records(s, 1) {
            Some((ms, j)) => if j + 1 == s.len() && s[j] == ']' {
                Some(ms)
            } else {
                None
            },
            None => None,
        }
    } else {
        None
    }
}

/// Escaping distributes over concatenation.
pub proof fn lemma_esc_concat(x: Seq<char>, y: Seq<char>)
    ensures
        esc(x + y) == esc(x) + esc(y),
    decreases x.len(),
{
    if x.len() == 0 {
        assert(x + y =~= y);
        assert(esc(x) + esc(y) =~= esc(y));
    } else {
        assert((x + y).first() == x.first());
        assert((x + y).drop_first() =~= x.drop_first() + y);
        lemma_esc_concat(x.drop_first(), y);
        assert(esc(x + y) =~= esc(x) + esc(y));
    }
}

/// Escapes the text of a JSON string value.
fn esc_str(s: &str) -> (r: String)
    ensures
        r@ == esc(s@),
{
    let n = s.unicode_len();
    let mut r = String::new();
    let mut i: usize = 0;
    proof {
        assert(s@.subrange(0, 0) =~= Seq::<char>::empty());
    }
    while i < n
        invariant
            i <= n,
            n == s@.len(),
            r@ == esc(s@.subrange(0, i as int)),
        decreases n - i,
    {
        let c = s.get_char(i);
        if c == '"' {
            r.append("\\\"");
            proof {
                reveal_strlit("\\\"");
            }
        } else if c == '\\' {
            r.append("\\\\");
            proof {
                reveal_strlit("\\\\");
            }
        } else {
            let piece = s.substring_char(i, i + 1);
            r.append(piece);
        }
        proof {
            let pre = s@.subrange(0, i as int);
            let one = s@.subrange(i as int, i + 1);
            assert(one =~= seq![s@[i as int]]);
            assert(s@.subrange(0, i + 1) =~= pre + one);
            lemma_esc_concat(pre, one);
            assert(one.drop_first() =~= Seq::<char>::empty());
            assert(one.first() == s@[i as int]);
            assert(esc(Seq::<char>::empty()) =~= Seq::<char>::empty());
            assert(esc(one) =~= esc_char(one.first()) + esc(one.drop_first()));
            assert(esc(one) =~= esc_char(s@[i as int]));
            assert(r@ =~= esc(s@.subrange(0, i + 1)));
        }
        i = i + 1;
    }
    proof {
        assert(s@.subrange(0, n as int) =~= s@);
    }
    r
}

/// Serializes one record in the canonical form.
fn render_record(r: &SearchResult) -> (out: String)
    ensures
        out@ == record_chars(r@),
{
    let mut s = String::from_str("{\"position\":\"");
    let p = esc_str(r.position.as_str());
    s.append(p.as_str());
    s.append("\"");
    s.append(",\"depth\":");
    let d = render_u64(r.depth as u64);
    s.append(d.as_str());
    s.append(",\"nodes\":");
    let n = render_u64(r.nodes.0 as u64);
    s.append(n.as_str());
    s.append(",\"time\":");
    let t = render_u64(r.time.0);
    s.append(t.as_str());
    s.append(",\"nps\":");
    let np = render_u64(r.nps.0 as u64);
    s.append(np.as_str());
    s.append(",\"score\":");
    let sc = render_i128(r.score.0 as i128);
    s.append(sc.as_str());
    s.append(",\"branching_factor\":");
    let bf = render_u64(r.branching_factor.0 as u64);
    s.append(bf.as_str());
    s.append(",\"best_move\":\"");
    let bm = esc_str(r.best_move.as_str());
    s.append(bm.as_str());
    s.append("\"");
    s.append("}");
    proof {
        reveal_strlit("\"");
        assert(s@ =~= record_chars(r@));
    }
    s
}

/// Serializes a whole snapshot: a JSON array with one record per result,
/// in order.
pub fn render_snapshot(results: &Vec<SearchResult>) -> (out: String)
    ensures
        out@ == snapshot_chars(results@.map_values(|r: SearchResult| r@)),
{
    let ghost ms = results@.map_values(|r: SearchResult| r@);
    if results.len() == 0 {
        return String::from_str("[]");
    }
    let mut s = String::from_str("[");
    let first = render_record(&results[0]);
    s.append(first.as_str());
    proof {
        reveal_strlit("[");
        assert(rest_chars(ms.drop_first().subrange(0, 0)) =~= Seq::<char>::empty());
        assert(s@ =~= seq!['['] + record_chars(ms.first()) + rest_chars(
            ms.drop_first().subrange(0, 0),
        ));
    }
    let mut i: usize = 1;
    while i < results.len()
        invariant
            1 <= i <= results@.len(),
            ms == results@.map_values(|r: SearchResult| r@),
            ms.len() == results@.len(),
            s@ == seq!['['] + record_chars(ms.first()) + rest_chars(
                ms.drop_first().subrange(0, i - 1),
            ),
        decreases results@.len() - i,
    {
        s.append(",");
        let rec = render_record(&results[i]);
        s.append(rec.as_str());
        proof {
            reveal_strlit(",");
            let tail = ms.drop_first();
            lemma_rest_concat(tail.subrange(0, i - 1), tail.subrange(i - 1, i as int));
            assert(tail.subrange(0, i as int) =~= tail.subrange(0, i - 1) + tail.subrange(
                i - 1,
                i as int,
            ));
            let one = tail.subrange(i - 1, i as int);
            assert(one.len() == 1);
            assert(one.first() == ms[i as int]);
            assert(one.drop_first() =~= Seq::<RecordModel>::empty());
            assert(rest_chars(Seq::<RecordModel>::empty()) =~= Seq::<char>::empty());
            assert(rest_chars(one) =~= seq![','] + record_chars(one.first()) + rest_chars(
                one.drop_first(),
            ));
            assert(rest_chars(one) =~= seq![','] + record_chars(ms[i as int]));
            assert(ms[i as int] == results@[i as int]@);
            assert(s@ =~= seq!['['] + record_chars(ms.first()) + rest_chars(
                tail.subrange(0, i as int),
            ));
        }
        i = i + 1;
    }
    s.append("]");
    proof {
        reveal_strlit("]");
        assert(ms.drop_first().subrange(0, ms.drop_first().len() as int) =~= ms.drop_first());
        assert(s@ =~= snapshot_chars(ms));
    }
    s
}

/// Serialization of the records after the first distributes over
/// concatenation.
pub proof fn lemma_rest_concat(a: Seq<RecordModel>, b: Seq<RecordModel>)
    ensures
        rest_chars(a + b) == rest_chars(a) + rest_chars(b),
    decreases a.len(),
{
    if a.len() == 0 {
        assert(a + b =~= b);
        assert(rest_chars(a) + rest_chars(b) =~= rest_chars(b));
    } else {
        assert((a + b).first() == a.first());
        assert((a + b).drop_first() =~= a.drop_first() + b);
        lemma_rest_concat(a.drop_first(), b);
        assert(rest_chars(a + b) =~= rest_chars(a) + rest_chars(b));
    }
}

/// Consumes the exact literal `lit` at position `i` of `s`.
fn expect_at(s: &str, i: usize, lit: &str) -> (r: Option<usize>)
    ensures
        match r {
            Some(j) => sp_expect(s@, i as int, lit@) == Some(j as int) && i <= j <= s@.len(),
            None => sp_expect(s@, i as int, lit@) is None,
        },
{
    let n = s.unicode_len();
    let ll = lit.unicode_len();
    if i > n || ll > n - i {
        return None;
    }
    let mut q: usize = 0;
    while q < ll
        invariant
            q <= ll,
            i + ll <= n,
            n == s@.len(),
            ll == lit@.len(),
            forall|k: int| 0 <= k < q ==> s@[i + k] == lit@[k],
        decreases ll - q,
    {
        if s.get_char(i + q) != lit.get_char(q) {
            proof {
                assert(s@.subrange(i as int, i + ll) != lit@) by {
                    assert(s@.subrange(i as int, i + ll)[q as int] == s@[i + q]);
                }
            }
            return None;
        }
        q = q + 1;
    }
    proof {
        assert(s@.subrange(i as int, i + ll) =~= lit@);
    }
    Some(i + ll)
}

/// Prefixes the content of a string parse.
pub open spec fn prepend_str(p: Seq<char>, o: Option<(Seq<char>, int)>) -> Option<(Seq<char>, int)> {
    match o {
        Some((t, j)) => Some((p + t, j)),
        None => None,
    }
}

/// Prefixing distributes over itself.
proof fn lemma_prepend_str(a: Seq<char>, b: Seq<char>, o: Option<(Seq<char>, int)>)
    ensures
        prepend_str(a, prepend_str(b, o)) == prepend_str(a + b, o),
{
    match o {
        Some((t, j)) => {
            assert(a + (b + t) =~= (a + b) + t);
        },
        None => {},
    }
}

/// Parses a JSON string body at `i` (after the opening quote).
fn parse_string_at(s: &str, i: usize) -> (r: Option<(String, usize)>)
    requires
        i <= s@.len(),
    ensures
        match r {
            Some((t, j)) => sp_string(s@, i as int) == Some((t@, j as int)) && i < j <= s@.len(),
            None => sp_string(s@, i as int) is None,
        },
{
    let n = s.unicode_len();
    let mut acc = String::new();
    let mut cur: usize = i;
    proof {
        lemma_sp_string_advances(s@, i as int);
        assert(prepend_str(acc@, sp_string(s@, cur as int)) == sp_string(s@, i as int)) by {
            match sp_string(s@, cur as int) {
                Some((t, j)) => {
                    assert(acc@ + t =~= t);
                },
                None => {},
            }
        }
    }
    loop
        invariant
            i <= cur <= n,
            n == s@.len(),
            prepend_str(acc@, sp_string(s@, cur as int)) == sp_string(s@, i as int),
        decreases n - cur,
    {
        if cur == n {
            return None;
        }
        let c = s.get_char(cur);
        if c == '"' {
            proof {
                assert(sp_string(s@, cur as int) == Some((Seq::<char>::empty(), cur + 1)));
                assert(acc@ + Seq::<char>::empty() =~= acc@);
                lemma_sp_string_advances(s@, i as int);
            }
            return Some((acc, cur + 1));
        }
        if c == '\\' {
            if cur + 1 < n {
                let e = s.get_char(cur + 1);
                if e == '"' || e == '\\' {
                    let piece = s.substring_char(cur + 1, cur + 2);
                    acc.append(piece);
                    proof {
                        let ghost old_acc = acc@.subrange(0, acc@.len() - 1);
                        assert(s@.subrange(cur + 1, cur + 2) =~= seq![s@[cur + 1]]);
                        lemma_prepend_str(
                            old_acc,
                            seq![s@[cur + 1]],
                            sp_string(s@, cur + 2),
                        );
                        assert(old_acc + seq![s@[cur + 1]] =~= acc@);
                    }
                    cur = cur + 2;
                    continue;
                }
            }
            proof {
                assert(sp_string(s@, cur as int) is None);
            }
            return None;
        }
        let piece = s.substring_char(cur, cur + 1);
        acc.append(piece);
        proof {
            let ghost old_acc = acc@.subrange(0, acc@.len() - 1);
            assert(s@.subrange(cur as int, cur + 1) =~= seq![s@[cur as int]]);
            lemma_prepend_str(old_acc, seq![s@[cur as int]], sp_string(s@, cur + 1));
            assert(old_acc + seq![s@[cur as int]] =~= acc@);
        }
        cur = cur + 1;
    }
}

/// Parses a signed decimal at `i` in `i32` range.
fn parse_i32_at(s: &str, i: usize) -> (r: Option<(i32, usize)>)
    requires
        i <= s@.len(),
    ensures
        match r {
            Some((v, j)) => sp_i32(s@, i as int) == Some((v, j as int)) && i < j <= s@.len(),
            None => sp_i32(s@, i as int) is None,
        },
{
    let n = s.unicode_len();
    proof {
        lemma_sp_uint_advances(s@, i as int, i32::MAX as nat);
        lemma_sp_uint_advances(s@, i + 1, 0x8000_0000);
    }
    if i < n && s.get_char(i) == '-' {
        match parse_u64_at(s, i + 1) {
            Some((v, j)) => if v <= 0x8000_0000 {
                Some(((-(v as i64)) as i32, j))
            } else {
                None
            },
            None => None,
        }
    } else {
        match parse_u64_at(s, i) {
            Some((v, j)) => if v <= i32::MAX as u64 {
                Some((v as i32, j))
            } else {
                None
            },
            None => None,
        }
    }
}

/// Parses an unsigned decimal at `i` with the given inclusive bound.
fn parse_uint_at(s: &str, i: usize, max: u64) -> (r: Option<(u64, usize)>)
    requires
        i <= s@.len(),
    ensures
        match r {
            Some((v, j)) => spec_parse_uint(s@, i as int, max as nat) == Some((v as nat, j as int))
                && i < j <= s@.len(),
            None => spec_parse_uint(s@, i as int, max as nat) is None,
        },
{
    match parse_u64_at(s, i) {
        Some((v, j)) => if v <= max {
            Some((v, j))
        } else {
            None
        },
        None => None,
    }
}

/// Parses one record at `i`: strictly the canonical serialized form.
fn parse_record_at(s: &str, i: usize) -> (r: Option<(SearchResult, usize)>)
    requires
        i <= s@.len(),
    ensures
        match r {
            Some((sr, j)) => sp_record(s@, i as int) == Some((sr@, j as int)) && i < j <= s@.len(),
            None => sp_record(s@, i as int) is None,
        },
{
    let i1 = match expect_at(s, i, "{\"position\":\"") {
        Some(v) => v,
        None => { return None; },
    };
    let (position, i2) = match parse_string_at(s, i1) {
        Some(v) => v,
        None => { return None; },
    };
    let i3 = match expect_at(s, i2, ",\"depth\":") {
        Some(v) => v,
        None => { return None; },
    };
    let (depth, i4) = match parse_uint_at(s, i3, usize::MAX as u64) {
        Some(v) => v,
        None => { return None; },
    };
    let i5 = match expect_at(s, i4, ",\"nodes\":") {
        Some(v) => v,
        None => { return None; },
    };
    let (nodes, i6) = match parse_uint_at(s, i5, u32::MAX as u64) {
        Some(v) => v,
        None => { return None; },
    };
    let i7 = match expect_at(s, i6, ",\"time\":") {
        Some(v) => v,
        None => { return None; },
    };
    let (time, i8) = match parse_uint_at(s, i7, u64::MAX) {
        Some(v) => v,
        None => { return None; },
    };
    let i9 = match expect_at(s, i8, ",\"nps\":") {
        Some(v) => v,
        None => { return None; },
    };
    let (nps, i10) = match parse_uint_at(s, i9, u32::MAX as u64) {
        Some(v) => v,
        None => { return None; },
    };
    let i11 = match expect_at(s, i10, ",\"score\":") {
        Some(v) => v,
        None => { return None; },
    };
    let (score, i12) = match parse_i32_at(s, i11) {
        Some(v) => v,
        None => { return None; },
    };
    let i13 = match expect_at(s, i12, ",\"branching_factor\":") {
        Some(v) => v,
        None => { return None; },
    };
    let (bf, i14) = match parse_uint_at(s, i13, u32::MAX as u64) {
        Some(v) => v,
        None => { return None; },
    };
    let i15 = match expect_at(s, i14, ",\"best_move\":\"") {
        Some(v) => v,
        None => { return None; },
    };
    let (best_move, i16) = match parse_string_at(s, i15) {
        Some(v) => v,
        None => { return None; },
    };
    let i17 = match expect_at(s, i16, "}") {
        Some(v) => v,
        None => { return None; },
    };
    Some((
        SearchResult {
            position,
            depth: depth as usize,
            nodes: Nodes(nodes as u32),
            time: Time(time),
            nps: Nps(nps as u32),
            score: Score(score),
            branching_factor: BFactor(bf as u32),
            best_move,
        },
        i17,
    ))
}

/// Prefixes the records of a record-sequence parse.
pub open spec fn prepend_recs(
    p: Seq<RecordModel>,
    o: Option<(Seq<RecordModel>, int)>,
) -> Option<(Seq<RecordModel>, int)> {
    match o {
        Some((ms, k)) => Some((p + ms, k)),
        None => None,
    }
}

/// Parses a whole snapshot text: a JSON array of records and nothing after
/// it. The parser is strict: it reads exactly the canonical form the
/// serializer writes.
pub fn parse_snapshot(s: &str) -> (r: Option<Vec<SearchResult>>)
    ensures
        match r {
            Some(v) => sp_snapshot(s@) matches Some(ms) && v@.len() == ms.len() && (forall|q: int|
                0 <= q < ms.len() ==> (#[trigger] v@[q])@ == ms[q]),
            None => sp_snapshot(s@) is None,
        },
{
    let n = s.unicode_len();
    if n == 2 && s.get_char(0) == '[' && s.get_char(1) == ']' {
        proof {
            reveal_strlit("[]");
            assert(s@ =~= "[]"@);
        }
        return Some(Vec::new());
    }
    if n == 0 || s.get_char(0) != '[' {
        proof {
            reveal_strlit("[]");
            if s@ == "[]"@ {
                assert(s@.len() == 2);
                assert(s@[0] == '[');
            }
        }
        return None;
    }
    proof {
        reveal_strlit("[]");
        if s@ == "[]"@ {
            assert(s@[1] == ']');
        }
    }
    let mut out: Vec<SearchResult> = Vec::new();
    let mut cur: usize = 1;
    loop
        invariant
            1 <= cur <= n,
            n == s@.len(),
            s@ != "[]"@,
            s@[0] == '[',
            prepend_recs(
                out@.map_values(|x: SearchResult| x@),
                sp_records(s@, cur as int),
            ) == sp_records(s@, 1),
        decreases n - cur,
    {
        let (sr, j) = match parse_record_at(s, cur) {
            Some(v) => v,
            None => {
                return None;
            },
        };
        let ghost old_models = out@.map_values(|x: SearchResult| x@);
        out.push(sr);
        proof {
            assert(out@.map_values(|x: SearchResult| x@) =~= old_models.push(sr@));
        }
        if j < n && s.get_char(j) == ',' {
            proof {
                let tail = sp_records(s@, j + 1);
                assert(sp_records(s@, cur as int) == prepend_recs(seq![sr@], tail));
                match tail {
                    Some((ms, k)) => {
                        assert(old_models + (seq![sr@] + ms) =~= (old_models.push(sr@)) + ms);
                    },
                    None => {},
                }
            }
            cur = j + 1;
        } else {
            proof {
                assert(sp_records(s@, cur as int) == Some((seq![sr@], j as int)));
                assert(old_models + seq![sr@] =~= old_models.push(sr@));
                assert(sp_records(s@, 1) == Some(
                    (out@.map_values(|x: SearchResult| x@), j as int),
                ));
            }
            if j < n && j + 1 == n && s.get_char(j) == ']' {
                return Some(out);
            }
            return None;
        }
    }
}

/// A subrange of an embedded text equals the matching subrange of the
/// text itself.
proof fn lemma_subrange_part(s: Seq<char>, i: int, whole: Seq<char>, a: int, b: int)
    requires
        0 <= i,
        i + whole.len() <= s.len(),
        s.subrange(i, i + whole.len()) == whole,
        0 <= a <= b <= whole.len(),
    ensures
        s.subrange(i + a, i + b) == whole.subrange(a, b),
{
    assert(s.subrange(i + a, i + b) =~= whole.subrange(a, b)) by {
        assert(forall|q: int| 0 <= q < whole.len() ==> s[i + q] == #[trigger] whole[q]) by {
            assert(forall|q: int| 0 <= q < whole.len() ==> #[trigger] whole[q] == s.subrange(
                i,
                i + whole.len(),
            )[q]);
        }
    }
}

/// An exact literal at `i` is consumed by `sp_expect`.
proof fn lemma_expect_rt(s: Seq<char>, i: int, lit: Seq<char>)
    requires
        0 <= i,
        i + lit.len() <= s.len(),
        s.subrange(i, i + lit.len()) == lit,
    ensures
        sp_expect(s, i, lit) == Some(i + lit.len()),
{
}

/// The decimal digits of `n` at `i`, followed by a non-digit, parse back
/// to `n`.
proof fn lemma_uint_rt(s: Seq<char>, i: int, n: nat, max: nat)
    requires
        0 <= i,
        i + digits_of(n).len() < s.len(),
        s.subrange(i, i + digits_of(n).len()) == digits_of(n),
        !is_digit_char(s[i + digits_of(n).len()]),
        n <= max,
    ensures
        spec_parse_uint(s, i, max) == Some((n, i + digits_of(n).len())),
{
    lemma_digits_of(n);
    let d = digits_of(n);
    let j = i + d.len();
    assert forall|k: int| i <= k < j implies is_digit_char(#[trigger] s[k]) by {
        assert(s.subrange(i, j)[k - i] == s[k]);
        assert(d[k - i] == s.subrange(i, j)[k - i]);
        assert(is_digit_char(d[k - i]));
    }
    lemma_digit_run_end_is(s, i, j);
    assert(val_of(s.subrange(i, j)) == n);
}

/// The escaped text of `x` at `i`, followed by a closing quote, parses
/// back to `x`.
proof fn lemma_string_rt(s: Seq<char>, i: int, x: Seq<char>)
    requires
        0 <= i,
        i + esc(x).len() + 1 <= s.len(),
        s.subrange(i, i + esc(x).len() + 1) == esc(x) + seq!['"'],
    ensures
        sp_string(s, i) == Some((x, i + esc(x).len() + 1)),
    decreases x.len(),
{
    let whole = esc(x) + seq!['"'];
    assert forall|q: int| 0 <= q < whole.len() implies s[i + q] == #[trigger] whole[q] by {
        assert(whole[q] == s.subrange(i, i + whole.len())[q]);
        assert(s.subrange(i, i + whole.len())[q] == s[i + q]);
    }
    if x.len() == 0 {
        assert(esc(x) =~= Seq::<char>::empty());
        assert(s[i] == '"') by {
            assert(whole[0] == '"');
            assert(s[i + 0] == whole[0]);
        }
    } else {
        let c = x.first();
        let rest = x.drop_first();
        assert(esc(x) == esc_char(c) + esc(rest));
        if c == '"' || c == '\\' {
            assert(s[i] == '\\') by {
                assert(whole[0] == '\\');
                assert(s[i + 0] == whole[0]);
            }
            assert(s[i + 1] == c) by {
                assert(whole[1] == c);
                assert(s[i + 1] == whole[1]);
            }
            assert(s.subrange(i + 2, i + 2 + esc(rest).len() + 1) == esc(rest) + seq!['"']) by {
                lemma_subrange_part(s, i, whole, 2, whole.len() as int);
                assert(whole.subrange(2, whole.len() as int) =~= esc(rest) + seq!['"']);
            }
            lemma_string_rt(s, i + 2, rest);
            assert(seq![s[i + 1]] + rest =~= x);
        } else {
            assert(s[i] == c) by {
                assert(whole[0] == c);
                assert(s[i + 0] == whole[0]);
            }
            assert(s[i] != '"' && s[i] != '\\');
            assert(s.subrange(i + 1, i + 1 + esc(rest).len() + 1) == esc(rest) + seq!['"']) by {
                lemma_subrange_part(s, i, whole, 1, whole.len() as int);
                assert(whole.subrange(1, whole.len() as int) =~= esc(rest) + seq!['"']);
            }
            lemma_string_rt(s, i + 1, rest);
            assert(seq![s[i]] + rest =~= x);
        }
    }
}

/// The signed decimal digits of `v` at `i`, followed by a non-digit, parse
/// back to `v`.
proof fn lemma_i32_rt(s: Seq<char>, i: int, v: i32)
    requires
        0 <= i,
        i + int_digits_of(v as int).len() < s.len(),
        s.subrange(i, i + int_digits_of(v as int).len()) == int_digits_of(v as int),
        !is_digit_char(s[i + int_digits_of(v as int).len()]),
    ensures
        sp_i32(s, i) == Some((v, i + int_digits_of(v as int).len())),
{
    let w = int_digits_of(v as int);
    assert forall|q: int| 0 <= q < w.len() implies s[i + q] == #[trigger] w[q] by {
        assert(w[q] == s.subrange(i, i + w.len())[q]);
        assert(s.subrange(i, i + w.len())[q] == s[i + q]);
    }
    if v < 0 {
        let n = (-(v as int)) as nat;
        lemma_digits_of(n);
        assert(w == seq!['-'] + digits_of(n));
        assert(s[i] == '-') by {
            assert(w[0] == '-');
            assert(s[i + 0] == w[0]);
        }
        assert(s.subrange(i + 1, i + 1 + digits_of(n).len()) == digits_of(n)) by {
            lemma_subrange_part(s, i, w, 1, w.len() as int);
            assert(w.subrange(1, w.len() as int) =~= digits_of(n));
        }
        lemma_uint_rt(s, i + 1, n, 0x8000_0000);
    } else {
        let n = v as nat;
        lemma_digits_of(n);
        assert(w == digits_of(n));
        assert(is_digit_char(s[i])) by {
            assert(s[i + 0] == w[0]);
            assert(is_digit_char(w[0]));
        }
        assert(s[i] != '-');
        lemma_uint_rt(s, i, n, i32::MAX as nat);
    }
}

/// A serialized record at `i` parses back to its model, consuming exactly
/// its own text.
#[verifier::rlimit(100)]
proof fn lemma_record_rt(s: Seq<char>, i: int, m: RecordModel)
    requires
        0 <= i,
        i + record_chars(m).len() <= s.len(),
        s.subrange(i, i + record_chars(m).len()) == record_chars(m),
    ensures
        sp_record(s, i) == Some((m, i + record_chars(m).len())),
{
    reveal_strlit("{\"position\":\"");
    reveal_strlit(",\"depth\":");
    reveal_strlit(",\"nodes\":");
    reveal_strlit(",\"time\":");
    reveal_strlit(",\"nps\":");
    reveal_strlit(",\"score\":");
    reveal_strlit(",\"branching_factor\":");
    reveal_strlit(",\"best_move\":\"");
    reveal_strlit("}");
    let w = record_chars(m);
    let l0 = "{\"position\":\""@;
    let ld = ",\"depth\":"@;
    let ln = ",\"nodes\":"@;
    let lt = ",\"time\":"@;
    let lp = ",\"nps\":"@;
    let ls = ",\"score\":"@;
    let lb = ",\"branching_factor\":"@;
    let lm = ",\"best_move\":\""@;
    let lc = "}"@;
    let e1 = esc(m.position);
    let d1 = digits_of(m.depth as nat);
    let d2 = digits_of(m.nodes as nat);
    let d3 = digits_of(m.time as nat);
    let d4 = digits_of(m.nps as nat);
    let d5 = int_digits_of(m.score as int);
    let d6 = digits_of(m.branching_factor as nat);
    let e2 = esc(m.best_move);
    let o1 = l0.len() as int;
    let o2 = o1 + e1.len() + 1;
    let o3 = o2 + ld.len();
    let o4 = o3 + d1.len();
    let o5 = o4 + ln.len();
    let o6 = o5 + d2.len();
    let o7 = o6 + lt.len();
    let o8 = o7 + d3.len();
    let o9 = o8 + lp.len();
    let o10 = o9 + d4.len();
    let o11 = o10 + ls.len();
    let o12 = o11 + d5.len();
    let o13 = o12 + lb.len();
    let o14 = o13 + d6.len();
    let o15 = o14 + lm.len();
    let o16 = o15 + e2.len() + 1;
    let o17 = o16 + lc.len();
    assert(w.len() == o17);
    assert(w.subrange(0, o1) =~= l0) by {}
    assert(w.subrange(o1, o2) =~= e1 + seq!['"']) by {}
    assert(w.subrange(o2, o3) =~= ld) by {}
    assert(w.subrange(o3, o4) =~= d1) by {}
    assert(w.subrange(o4, o5) =~= ln) by {}
    assert(w.subrange(o5, o6) =~= d2) by {}
    assert(w.subrange(o6, o7) =~= lt) by {}
    assert(w.subrange(o7, o8) =~= d3) by {}
    assert(w.subrange(o8, o9) =~= lp) by {}
    assert(w.subrange(o9, o10) =~= d4) by {}
    assert(w.subrange(o10, o11) =~= ls) by {}
    assert(w.subrange(o11, o12) =~= d5) by {}
    assert(w.subrange(o12, o13) =~= lb) by {}
    assert(w.subrange(o13, o14) =~= d6) by {}
    assert(w.subrange(o14, o15) =~= lm) by {}
    assert(w.subrange(o15, o16) =~= e2 + seq!['"']) by {}
    assert(w.subrange(o16, o17) =~= lc) by {}
    lemma_subrange_part(s, i, w, 0, o1);
    lemma_subrange_part(s, i, w, o1, o2);
    lemma_subrange_part(s, i, w, o2, o3);
    lemma_subrange_part(s, i, w, o3, o4);
    lemma_subrange_part(s, i, w, o4, o5);
    lemma_subrange_part(s, i, w, o5, o6);
    lemma_subrange_part(s, i, w, o6, o7);
    lemma_subrange_part(s, i, w, o7, o8);
    lemma_subrange_part(s, i, w, o8, o9);
    lemma_subrange_part(s, i, w, o9, o10);
    lemma_subrange_part(s, i, w, o10, o11);
    lemma_subrange_part(s, i, w, o11, o12);
    lemma_subrange_part(s, i, w, o12, o13);
    lemma_subrange_part(s, i, w, o13, o14);
    lemma_subrange_part(s, i, w, o14, o15);
    lemma_subrange_part(s, i, w, o15, o16);
    lemma_subrange_part(s, i, w, o16, o17);
    lemma_expect_rt(s, i, l0);
    lemma_string_rt(s, i + o1, m.position);
    lemma_expect_rt(s, i + o2, ld);
    proof_first_char(s, i + o4, ln, ',');
    lemma_uint_rt(s, i + o3, m.depth as nat, usize::MAX as nat);
    lemma_expect_rt(s, i + o4, ln);
    proof_first_char(s, i + o6, lt, ',');
    lemma_uint_rt(s, i + o5, m.nodes as nat, u32::MAX as nat);
    lemma_expect_rt(s, i + o6, lt);
    proof_first_char(s, i + o8, lp, ',');
    lemma_uint_rt(s, i + o7, m.time as nat, u64::MAX as nat);
    lemma_expect_rt(s, i + o8, lp);
    proof_first_char(s, i + o10, ls, ',');
    lemma_uint_rt(s, i + o9, m.nps as nat, u32::MAX as nat);
    lemma_expect_rt(s, i + o10, ls);
    proof_first_char(s, i + o12, lb, ',');
    lemma_i32_rt(s, i + o11, m.score);
    lemma_expect_rt(s, i + o12, lb);
    proof_first_char(s, i + o14, lm, ',');
    lemma_uint_rt(s, i + o13, m.branching_factor as nat, u32::MAX as nat);
    lemma_expect_rt(s, i + o14, lm);
    lemma_string_rt(s, i + o15, m.best_move);
    lemma_expect_rt(s, i + o16, lc);
}

/// The character standing at `j` is the first character of the literal
/// that was embedded there, which is no digit.
proof fn proof_first_char(s: Seq<char>, j: int, lit: Seq<char>, c: char)
    requires
        0 <= j,
        j + lit.len() <= s.len(),
        s.subrange(j, j + lit.len()) == lit,
        lit.len() >= 1,
        lit[0] == c,
        !is_digit_char(c),
    ensures
        j < s.len(),
        s[j] == c,
        !is_digit_char(s[j]),
{
    assert(s[j] == s.subrange(j, j + lit.len())[0]);
}

/// A serialized record sequence at `i`, followed by anything but a comma,
/// parses back to exactly those records.
proof fn lemma_records_rt(s: Seq<char>, i: int, ms: Seq<RecordModel>)
    requires
        ms.len() >= 1,
        0 <= i,
        i + record_chars(ms.first()).len() + rest_chars(ms.drop_first()).len() < s.len(),
        s.subrange(
            i,
            i + record_chars(ms.first()).len() + rest_chars(ms.drop_first()).len(),
        ) == record_chars(ms.first()) + rest_chars(ms.drop_first()),
        s[i + record_chars(ms.first()).len() + rest_chars(ms.drop_first()).len()] != ',',
    ensures
        sp_records(s, i) == Some(
            (ms, i + record_chars(ms.first()).len() + rest_chars(ms.drop_first()).len()),
        ),
    decreases ms.len(),
{
    let w = record_chars(ms.first()) + rest_chars(ms.drop_first());
    let r0 = record_chars(ms.first());
    let rr = rest_chars(ms.drop_first());
    assert(w.subrange(0, r0.len() as int) =~= r0);
    lemma_subrange_part(s, i, w, 0, r0.len() as int);
    lemma_record_rt(s, i, ms.first());
    let j = i + r0.len();
    if ms.len() == 1 {
        assert(ms.drop_first() =~= Seq::<RecordModel>::empty());
        assert(rr =~= Seq::<char>::empty());
        assert(s[j] != ',');
        assert(seq![ms.first()] =~= ms);
    } else {
        let tail = ms.drop_first();
        assert(rr == seq![','] + record_chars(tail.first()) + rest_chars(tail.drop_first()));
        assert(s[j] == ',') by {
            assert(w[r0.len() as int] == ',');
            assert(s[j] == s.subrange(i, i + w.len())[r0.len() as int]);
        }
        assert(s.subrange(j + 1, i + w.len()) == record_chars(tail.first()) + rest_chars(
            tail.drop_first(),
        )) by {
            lemma_subrange_part(s, i, w, r0.len() as int + 1, w.len() as int);
            assert(w.subrange(r0.len() as int + 1, w.len() as int) =~= record_chars(tail.first())
                + rest_chars(tail.drop_first()));
        }
        lemma_records_rt(s, j + 1, tail);
        assert(seq![ms.first()] + tail =~= ms);
    }
}

/// Reading a serialized snapshot back yields field-for-field identical
/// records: the parser inverts the serializer on every record sequence.
pub proof fn lemma_snapshot_round_trip(ms: Seq<RecordModel>)
    ensures
        sp_snapshot(snapshot_chars(ms)) == Some(ms),
{
    let s = snapshot_chars(ms);
    reveal_strlit("[]");
    if ms.len() == 0 {
    } else {
        let body = record_chars(ms.first()) + rest_chars(ms.drop_first());
        assert(s == seq!['['] + body + seq![']']);
        assert(s[0] == '[');
        assert(record_chars(ms.first()).len() >= 1) by {
            reveal_strlit("{\"position\":\"");
        }
        assert(s.len() >= 3);
        assert(s != "[]"@) by {
            assert("[]"@.len() == 2);
        }
        assert(s.subrange(1, 1 + body.len() as int) =~= body);
        assert(s[1 + body.len() as int] == ']');
        lemma_records_rt(s, 1, ms);
    }
}

} // verus!
