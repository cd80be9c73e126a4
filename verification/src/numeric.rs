//! Verified decimal rendering and parsing of unsigned and signed integers,
//! shared by the protocol codec, the snapshot codec and the table cells.

use vstd::prelude::*;

verus! {

/// Is `c` a decimal digit?
pub open spec fn is_digit_char(c: char) -> bool {
    '0' <= c && c <= '9'
}

/// Numeric value of a decimal digit character.
pub open spec fn digit_val(c: char) -> int {
    c as int - '0' as int
}

/// The decimal digit character for a value in `0..=9`.
pub open spec fn digit_char(d: int) -> char {
    if d == 0 { '0' }
    else if d == 1 { '1' }
    else if d == 2 { '2' }
    else if d == 3 { '3' }
    else if d == 4 { '4' }
    else if d == 5 { '5' }
    else if d == 6 { '6' }
    else if d == 7 { '7' }
    else if d == 8 { '8' }
    else { '9' }
}

/// The decimal digit string of `n`, most significant digit first, with no
/// leading zeros (`0` renders as "0").
pub open spec fn digits_of(n: nat) -> Seq<char>
    decreases n,
{
    if n < 10 {
        seq![digit_char(n as int)]
    } else {
        digits_of(n / 10).push(digit_char((n % 10) as int))
    }
}

/// The decimal digit string of a signed value: a minus sign on negatives.
pub open spec fn int_digits_of(v: int) -> Seq<char> {
    if v < 0 {
        seq!['-'] + digits_of((-v) as nat)
    } else {
        digits_of(v as nat)
    }
}

/// Every character of `s` is a decimal digit.
pub open spec fn all_digits(s: Seq<char>) -> bool {
    forall|i: int| 0 <= i < s.len() ==> is_digit_char(#[trigger] s[i])
}

/// The numeric value of a digit string, most significant digit first.
pub open spec fn val_of(s: Seq<char>) -> nat
    decreases s.len(),
{
    if s.len() == 0 {
        0
    } else {
        val_of(s.drop_last()) * 10 + if 0 <= digit_val(s.last()) { digit_val(s.last()) as nat } else { 0 }
    }
}

/// `digits_of` produces digits only, at least one of them, whose value is
/// the number itself; a leading zero appears only for zero itself.
pub proof fn lemma_digits_of(n: nat)
    ensures
        all_digits(digits_of(n)),
        digits_of(n).len() >= 1,
        val_of(digits_of(n)) == n,
        digits_of(n)[0] == '0' ==> n == 0,
    decreases n,
{
    if n < 10 {
        assert(digits_of(n) =~= seq![digit_char(n as int)]);
        assert(digits_of(n).drop_last() =~= Seq::<char>::empty());
        assert(val_of(Seq::<char>::empty()) == 0);
        assert(digits_of(n).last() == digit_char(n as int));
        assert(digit_val(digit_char(n as int)) == n);
    } else {
        lemma_digits_of(n / 10);
        let d = digits_of(n / 10);
        let whole = digits_of(n);
        assert(whole == d.push(digit_char((n % 10) as int)));
        assert(whole.drop_last() =~= d);
        assert(whole.last() == digit_char((n % 10) as int));
        assert(val_of(whole) == val_of(d) * 10 + n % 10);
        assert(forall|i: int| 0 <= i < whole.len() ==> is_digit_char(#[trigger] whole[i])) by {
            assert(forall|i: int| 0 <= i < d.len() ==> whole[i] == #[trigger] d[i]);
        }
        assert(whole[0] == d[0]);
    }
}

/// The end of the run of digits starting at `i`: the first index at or
/// after `i` that is out of range or holds a non-digit.
pub open spec fn digit_run_end(s: Seq<char>, i: int) -> int
    recommends
        0 <= i <= s.len(),
    decreases s.len() - i,
{
    if i < 0 || i >= s.len() || !is_digit_char(s[i]) {
        i
    } else {
        digit_run_end(s, i + 1)
    }
}

/// Basic shape of a digit run: it starts at `i`, every character inside it
/// is a digit, and it stops at the end of the string or at a non-digit.
pub proof fn lemma_digit_run_end(s: Seq<char>, i: int)
    requires
        0 <= i <= s.len(),
    ensures
        i <= digit_run_end(s, i) <= s.len(),
        forall|k: int| i <= k < digit_run_end(s, i) ==> is_digit_char(#[trigger] s[k]),
        digit_run_end(s, i) < s.len() ==> !is_digit_char(s[digit_run_end(s, i)]),
    decreases s.len() - i,
{
    if i < s.len() && is_digit_char(s[i]) {
        lemma_digit_run_end(s, i + 1);
    }
}

/// A run of digits from `i` to `j` (with `j` at the string end or at a
/// non-digit) is exactly what `digit_run_end` finds.
pub proof fn lemma_digit_run_end_is(s: Seq<char>, i: int, j: int)
    requires
        0 <= i <= j <= s.len(),
        forall|k: int| i <= k < j ==> is_digit_char(#[trigger] s[k]),
        j == s.len() || !is_digit_char(s[j]),
    ensures
        digit_run_end(s, i) == j,
    decreases j - i,
{
    if i < j {
        lemma_digit_run_end_is(s, i + 1, j);
    }
}

/// Appending digits never lowers the value of a digit string.
pub proof fn lemma_val_of_append(s: Seq<char>, t: Seq<char>)
    ensures
        val_of(s) <= val_of(s + t),
    decreases t.len(),
{
    if t.len() == 0 {
        assert(s + t =~= s);
    } else {
        lemma_val_of_append(s, t.drop_last());
        assert((s + t).drop_last() =~= s + t.drop_last());
        assert(val_of(s + t) == val_of(s + t.drop_last()) * 10 + if 0 <= digit_val((s
            + t).last()) {
            digit_val((s + t).last()) as nat
        } else {
            0
        });
        assert(val_of(s + t.drop_last()) * 10 >= val_of(s + t.drop_last())) by (nonlinear_arith);
    }
}

/// The parse of an unsigned decimal at position `i` of `s`: the value and
/// the position after the digit run, or nothing where no digit stands at
/// `i` or the run's value exceeds `max`.
pub open spec fn spec_parse_uint(s: Seq<char>, i: int, max: nat) -> Option<(nat, int)> {
    let j = digit_run_end(s, i);
    if j == i {
        None
    } else if val_of(s.subrange(i, j)) <= max {
        Some((val_of(s.subrange(i, j)), j))
    } else {
        None
    }
}

/// A digit character, matched in executable code.
pub fn is_digit(c: char) -> (r: bool)
    ensures
        r == is_digit_char(c),
{
    c >= '0' && c <= '9'
}

/// Parses the run of decimal digits starting at character position `i` of
/// `s` as a `u64`.
pub fn parse_u64_at(s: &str, i: usize) -> (r: Option<(u64, usize)>)
    requires
        i <= s@.len(),
    ensures
        match r {
            Some((v, j)) => spec_parse_uint(s@, i as int, u64::MAX as nat) == Some(
                (v as nat, j as int),
            ) && i < j <= s@.len(),
            None => spec_parse_uint(s@, i as int, u64::MAX as nat) is None,
        },
{
    let n = s.unicode_len();
    proof {
        lemma_digit_run_end(s@, i as int);
    }
    let ghost end = digit_run_end(s@, i as int);
    if i == n || !is_digit(s.get_char(i)) {
        return None;
    }
    proof {
        // The first character is a digit, so the run is nonempty.
        if end == i {
            assert(!is_digit_char(s@[i as int]));
        }
    }
    let mut j: usize = i;
    let mut acc: u64 = 0;
    while j < n && is_digit(s.get_char(j))
        invariant
            i <= j <= n,
            n == s@.len(),
            j <= end,
            i < end,
            end == digit_run_end(s@, i as int),
            end <= s@.len(),
            forall|k: int| i <= k < end ==> is_digit_char(#[trigger] s@[k]),
            end < s@.len() ==> !is_digit_char(s@[end]),
            acc == val_of(s@.subrange(i as int, j as int)),
        decreases n - j,
    {
        let c = s.get_char(j);
        proof {
            // j lies strictly inside the digit run.
            if j >= end {
                assert(j == end);
                assert(!is_digit_char(s@[j as int]));
            }
        }
        let d: u64 = (c as u32 - '0' as u32) as u64;
        let wide: u128 = (acc as u128) * 10 + (d as u128);
        proof {
            assert(s@.subrange(i as int, j + 1).drop_last() =~= s@.subrange(i as int, j as int));
            assert(s@.subrange(i as int, j + 1).last() == s@[j as int]);
        }
        if wide > u64::MAX as u128 {
            // The value of the whole run is at least the value of this
            // prefix, so the run is out of range.
            proof {
                let run = s@.subrange(i as int, end);
                let pre = s@.subrange(i as int, j + 1);
                assert(run =~= pre + s@.subrange(j + 1, end));
                lemma_val_of_append(pre, s@.subrange(j + 1, end));
            }
            return None;
        }
        acc = wide as u64;
        j = j + 1;
    }
    proof {
        lemma_digit_run_end_is(s@, i as int, j as int);
    }
    Some((acc, j))
}

/// One decimal digit as a string slice.
fn digit_str(d: u64) -> (r: &'static str)
    requires
        d <= 9,
    ensures
        r@ =~= seq![digit_char(d as int)],
{
    proof {
        reveal_strlit("0");
        reveal_strlit("1");
        reveal_strlit("2");
        reveal_strlit("3");
        reveal_strlit("4");
        reveal_strlit("5");
        reveal_strlit("6");
        reveal_strlit("7");
        reveal_strlit("8");
        reveal_strlit("9");
    }
    if d == 0 { "0" }
    else if d == 1 { "1" }
    else if d == 2 { "2" }
    else if d == 3 { "3" }
    else if d == 4 { "4" }
    else if d == 5 { "5" }
    else if d == 6 { "6" }
    else if d == 7 { "7" }
    else if d == 8 { "8" }
    else { "9" }
}

/// Renders `n` in decimal, most significant digit first, no leading zeros.
pub fn render_u128(n: u128) -> (r: String)
    ensures
        r@ == digits_of(n as nat),
    decreases n,
{
    if n < 10 {
        String::from_str(digit_str(n as u64))
    } else {
        let mut s = render_u128(n / 10);
        s.append(digit_str((n % 10) as u64));
        proof {
            assert(s@ =~= digits_of((n / 10) as nat).push(digit_char((n % 10) as int)));
        }
        s
    }
}

/// Renders `n` in decimal.
pub fn render_u64(n: u64) -> (r: String)
    ensures
        r@ == digits_of(n as nat),
{
    render_u128(n as u128)
}

/// A value below one hundred as exactly two digits, zero-padded.
pub open spec fn two_digits(d: int) -> Seq<char> {
    seq![digit_char(d / 10), digit_char(d % 10)]
}

/// Renders `d < 100` as exactly two digits, zero-padded.
pub fn render_two_digits(d: u64) -> (r: String)
    requires
        d < 100,
    ensures
        r@ == two_digits(d as int),
{
    if d < 10 {
        proof {
            reveal_strlit("0");
        }
        let mut s = String::from_str("0");
        s.append(digit_str(d));
        proof {
            assert(s@ =~= two_digits(d as int));
        }
        s
    } else {
        let r = render_u64(d);
        proof {
            assert(digits_of((d / 10) as nat) =~= seq![digit_char(d as int / 10)]);
            assert(r@ =~= two_digits(d as int));
        }
        r
    }
}

/// Renders a signed value in decimal, with a minus sign on negatives.
pub fn render_i128(v: i128) -> (r: String)
    requires
        v > i128::MIN,
    ensures
        r@ == int_digits_of(v as int),
{
    if v >= 0 {
        render_u128(v as u128)
    } else {
        proof {
            reveal_strlit("-");
        }
        let mut s = String::from_str("-");
        let m = render_u128((-v) as u128);
        s.append(m.as_str());
        proof {
            assert(s@ =~= seq!['-'] + digits_of((-v) as nat));
        }
        s
    }
}

} // verus!
