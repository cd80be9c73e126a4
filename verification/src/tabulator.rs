//! Plain-text table rendering: box-drawn header, rows and footer with
//! fixed column widths. Cell padding measures the visible width of a cell
//! — ANSI color codes are stripped before counting — so colored cells line
//! up with plain ones.

use vstd::prelude::*;
use crate::ansi::{stripped_of, strip_codes};

verus! {

/// Characters between two cells: a separator bar with one space on each
/// side.
pub const SEP_WIDTH: usize = 3;

/// `c` repeated `n` times.
pub open spec fn repeat_char(c: char, n: int) -> Seq<char>
    decreases n,
{
    if n <= 0 {
        Seq::empty()
    } else {
        repeat_char(c, n - 1).push(c)
    }
}

/// `s` padded with spaces on the left to `w` characters (never truncated).
pub open spec fn pad_left(s: Seq<char>, w: int) -> Seq<char> {
    repeat_char(' ', w - s.len()) + s
}

/// `s` padded with spaces on the right to `w` characters (never
/// truncated).
pub open spec fn pad_right(s: Seq<char>, w: int) -> Seq<char> {
    s + repeat_char(' ', w - s.len())
}

/// `s` centered in `w` characters, the extra space on the right (never
/// truncated).
pub open spec fn pad_center(s: Seq<char>, w: int) -> Seq<char> {
    let left = (w - s.len()) / 2;
    repeat_char(' ', left) + s + repeat_char(' ', w - s.len() - left)
}

/// The filled cells of a horizontal rule from column `i` on: each column
/// is `width + 2` fill characters, and a separator stands between
/// consecutive columns (`cols` is the column count the separators go by).
pub open spec fn rule_cells(widths: Seq<usize>, cols: int, i: int, fill: char, sep: char) -> Seq<
    char,
>
    decreases widths.len() - i,
{
    if i < 0 || i >= widths.len() {
        Seq::empty()
    } else {
        repeat_char(fill, widths[i] + 2) + (if i < cols - 1 {
            seq![sep]
        } else {
            Seq::empty()
        }) + rule_cells(widths, cols, i + 1, fill, sep)
    }
}

/// A whole horizontal rule: corner, filled cells, corner.
pub open spec fn rule_line(
    widths: Seq<usize>,
    cols: int,
    left: char,
    fill: char,
    sep: char,
    right: char,
) -> Seq<char> {
    seq![left] + rule_cells(widths, cols, 0, fill, sep) + seq![right]
}

/// The heading cells from column `i` on: each name centered in its column,
/// separated by ` │ `.
pub open spec fn heading_cells(names: Seq<Seq<char>>, widths: Seq<usize>, i: int) -> Seq<char>
    decreases names.len() - i,
{
    if i < 0 || i >= names.len() || i >= widths.len() {
        Seq::empty()
    } else {
        (if i > 0 {
            seq![' ', '│', ' ']
        } else {
            Seq::empty()
        }) + pad_center(names[i], widths[i] as int) + heading_cells(names, widths, i + 1)
    }
}

/// The data cells from column `i` on: the first column is left-aligned,
/// the others right-aligned, and each cell is padded to its column width
/// plus the length its invisible escape codes take up, so its visible part
/// fills the column.
pub open spec fn row_cells(values: Seq<Seq<char>>, widths: Seq<usize>, i: int) -> Seq<char>
    decreases values.len() - i,
{
    if i < 0 || i >= values.len() || i >= widths.len() {
        Seq::empty()
    } else {
        let target = widths[i] + values[i].len() - stripped_of(values[i]).len();
        (if i > 0 {
            seq![' ', '│', ' ']
        } else {
            Seq::empty()
        }) + (if i == 0 {
            pad_right(values[i], target)
        } else {
            pad_left(values[i], target)
        }) + row_cells(values, widths, i + 1)
    }
}

/// Helper struct that prints tabulated data: an ordered list of column
/// widths and headings, built up front, then used to render each line.
pub struct Tabulator {
    pub cols: usize,
    pub widths: Vec<usize>,
    pub names: Vec<String>,
}

/// The views of a vector of strings.
pub open spec fn names_view(names: Seq<String>) -> Seq<Seq<char>> {
    names.map_values(|s: String| s@)
}

impl Tabulator {
    /// An empty table: no columns yet.
    pub fn new() -> (r: Tabulator)
        ensures
            r.cols == 0,
            r.widths@ =~= Seq::<usize>::empty(),
            r.names@ =~= Seq::<String>::empty(),
    {
        Tabulator { cols: 0, widths: Vec::new(), names: Vec::new() }
    }

    /// Sets the number of columns.
    pub fn cols(self, cols: usize) -> (r: Tabulator)
        ensures
            r.cols == cols,
            r.widths == self.widths,
            r.names == self.names,
    {
        Tabulator { cols, widths: self.widths, names: self.names }
    }

    /// Sets the column widths by cycling the given widths up to the column
    /// count.
    pub fn widths(self, widths: &[usize]) -> (r: Tabulator)
        ensures
            r.cols == self.cols,
            r.names == self.names,
            r.widths@.len() == if widths@.len() == 0 { 0int } else { self.cols as int },
            forall|i: int| 0 <= i < r.widths@.len() ==> r.widths@[i] == widths@[i % widths@.len() as int],
    {
        let mut out: Vec<usize> = Vec::new();
        if widths.len() > 0 {
            let mut i: usize = 0;
            while i < self.cols
                invariant
                    widths@.len() > 0,
                    i <= self.cols,
                    out@.len() == i,
                    forall|q: int| 0 <= q < i ==> out@[q] == widths@[q % widths@.len() as int],
                decreases self.cols - i,
            {
                out.push(widths[i % widths.len()]);
                i = i + 1;
            }
        }
        Tabulator { cols: self.cols, widths: out, names: self.names }
    }

    /// Sets the column headings, padded with empty names or truncated to
    /// the column count.
    pub fn headings(self, headings: &[&str]) -> (r: Tabulator)
        ensures
            r.cols == self.cols,
            r.widths == self.widths,
            r.names@.len() == self.cols,
            forall|i: int| 0 <= i < self.cols ==> names_view(r.names@)[i] == if i
                < headings@.len() {
                headings@[i]@
            } else {
                Seq::<char>::empty()
            },
    {
        let mut out: Vec<String> = Vec::new();
        let mut i: usize = 0;
        while i < self.cols
            invariant
                i <= self.cols,
                out@.len() == i,
                forall|q: int| 0 <= q < i ==> (#[trigger] out@[q])@ == if q < headings@.len() {
                    headings@[q]@
                } else {
                    Seq::<char>::empty()
                },
            decreases self.cols - i,
        {
            if i < headings.len() {
                out.push(headings[i].to_owned());
            } else {
                out.push(String::new());
            }
            i = i + 1;
        }
        proof {
            assert(forall|q: int| 0 <= q < out@.len() ==> names_view(out@)[q] == (#[trigger] out@[
                q])@);
        }
        Tabulator { cols: self.cols, widths: self.widths, names: out }
    }

    /// Adds one column with its heading and width.
    pub fn add_col(&mut self, name: &str, width: usize)
        requires
            old(self).cols < usize::MAX,
        ensures
            final(self).cols == old(self).cols + 1,
            final(self).widths@ == old(self).widths@.push(width),
            names_view(final(self).names@) =~= names_view(old(self).names@).push(name@),
    {
        let ghost orig = self.names@;
        self.cols = self.cols + 1;
        self.widths.push(width);
        self.names.push(name.to_owned());
        proof {
            assert(forall|q: int| 0 <= q < orig.len() ==> names_view(self.names@)[q]
                == names_view(orig)[q]);
        }
    }
}

/// `c` (a one-character string) repeated `n` times.
fn repeat_str(c: &str, n: usize) -> (r: String)
    requires
        c@.len() == 1,
    ensures
        r@ == repeat_char(c@[0], n as int),
{
    let mut r = String::new();
    let mut i: usize = 0;
    while i < n
        invariant
            i <= n,
            c@.len() == 1,
            r@ == repeat_char(c@[0], i as int),
        decreases n - i,
    {
        r.append(c);
        proof {
            assert(r@ =~= repeat_char(c@[0], i as int).push(c@[0]));
        }
        i = i + 1;
    }
    r
}

impl Tabulator {
    /// One horizontal rule with the given corner, fill and separator
    /// glyphs.
    fn rule(&self, left: &str, fill: &str, sep: &str, right: &str) -> (r: String)
        requires
            left@.len() == 1,
            fill@.len() == 1,
            sep@.len() == 1,
            right@.len() == 1,
        ensures
            r@ == rule_line(self.widths@, self.cols as int, left@[0], fill@[0], sep@[0], right@[0]),
    {
        let mut r = String::from_str(left);
        proof {
            assert(r@ =~= seq![left@[0]]);
        }
        let mut i: usize = 0;
        while i < self.widths.len()
            invariant
                i <= self.widths@.len(),
                left@.len() == 1,
                fill@.len() == 1,
                sep@.len() == 1,
                right@.len() == 1,
                seq![left@[0]] + rule_cells(
                    self.widths@,
                    self.cols as int,
                    0,
                    fill@[0],
                    sep@[0],
                ) =~= r@ + rule_cells(self.widths@, self.cols as int, i as int, fill@[0], sep@[0]),
            decreases self.widths@.len() - i,
        {
            let w = self.widths[i];
            let cell = repeat_str(fill, w);
            r.append(cell.as_str());
            r.append(fill);
            r.append(fill);
            proof {
                assert(repeat_char(fill@[0], w as int + 1) =~= repeat_char(fill@[0], w as int)
                    .push(fill@[0]));
                assert(repeat_char(fill@[0], w as int + 2) =~= repeat_char(fill@[0], w as int + 1)
                    .push(fill@[0]));
            }
            if self.cols >= 1 && i < self.cols - 1 {
                r.append(sep);
            }
            proof {
                assert(seq![left@[0]] + rule_cells(
                    self.widths@,
                    self.cols as int,
                    0,
                    fill@[0],
                    sep@[0],
                ) =~= r@ + rule_cells(self.widths@, self.cols as int, i + 1, fill@[0], sep@[0]));
            }
            i = i + 1;
        }
        r.append(right);
        proof {
            assert(rule_cells(self.widths@, self.cols as int, self.widths@.len() as int, fill@[0],
                sep@[0]) =~= Seq::<char>::empty());
            assert(r@ =~= rule_line(
                self.widths@,
                self.cols as int,
                left@[0],
                fill@[0],
                sep@[0],
                right@[0],
            ));
        }
        r
    }

    /// The separator rule drawn between the data rows and the summary row.
    pub fn row_separator(&self) -> (r: String)
        ensures
            r@ == rule_line(self.widths@, self.cols as int, '├', '─', '┼', '┤'),
    {
        proof {
            reveal_strlit("├");
            reveal_strlit("─");
            reveal_strlit("┼");
            reveal_strlit("┤");
        }
        self.rule("├", "─", "┼", "┤")
    }

    /// The table footer: the bottom rule, newline-terminated.
    pub fn footer(&self) -> (r: String)
        ensures
            r@ == rule_line(self.widths@, self.cols as int, '└', '─', '┴', '┘') + seq!['\n'],
    {
        proof {
            reveal_strlit("└");
            reveal_strlit("─");
            reveal_strlit("┴");
            reveal_strlit("┘");
            reveal_strlit("\n");
        }
        let mut r = self.rule("└", "─", "┴", "┘");
        r.append("\n");
        r
    }

    /// The table header: the top rule, the centered headings, and the rule
    /// under them.
    pub fn header(&self) -> (r: String)
        ensures
            r@ == rule_line(self.widths@, self.cols as int, '┌', '─', '┬', '┐') + seq!['\n']
                + seq!['│', ' '] + heading_cells(names_view(self.names@), self.widths@, 0) + seq![
                ' ',
                '│',
                '\n',
            ] + rule_line(self.widths@, self.cols as int, '├', '─', '┼', '┤'),
    {
        proof {
            reveal_strlit("┌");
            reveal_strlit("─");
            reveal_strlit("┬");
            reveal_strlit("┐");
            reveal_strlit("\n");
            reveal_strlit("│ ");
            reveal_strlit(" │");
            reveal_strlit(" │ ");
        }
        let mut r = self.rule("┌", "─", "┬", "┐");
        r.append("\n");
        r.append("│ ");
        let n = if self.names.len() <= self.widths.len() {
            self.names.len()
        } else {
            self.widths.len()
        };
        let ghost nv = names_view(self.names@);
        let ghost target = rule_line(self.widths@, self.cols as int, '┌', '─', '┬', '┐') + seq![
            '\n',
        ] + seq!['│', ' '];
        proof {
            assert(r@ =~= target);
        }
        let mut i: usize = 0;
        while i < n
            invariant
                i <= n,
                nv == names_view(self.names@),
                nv.len() == self.names@.len(),
                n == if self.names@.len() <= self.widths@.len() {
                    self.names@.len()
                } else {
                    self.widths@.len()
                },
                forall|q: int| 0 <= q < nv.len() ==> nv[q] == #[trigger] self.names@[q]@,
                target + heading_cells(nv, self.widths@, 0) =~= r@ + heading_cells(
                    nv,
                    self.widths@,
                    i as int,
                ),
            decreases n - i,
        {
            if i > 0 {
                r.append(" │ ");
                proof {
                    reveal_strlit(" │ ");
                    assert(" │ "@ =~= seq![' ', '│', ' ']);
                }
            }
            let cell = pad_center_str(self.names[i].as_str(), self.widths[i]);
            r.append(cell.as_str());
            proof {
                assert(target + heading_cells(nv, self.widths@, 0) =~= r@ + heading_cells(
                    nv,
                    self.widths@,
                    i + 1,
                ));
            }
            i = i + 1;
        }
        proof {
            assert(heading_cells(nv, self.widths@, n as int) =~= Seq::<char>::empty());
        }
        r.append(" │");
        r.append("\n");
        let sep = self.row_separator();
        r.append(sep.as_str());
        proof {
            assert(r@ =~= rule_line(self.widths@, self.cols as int, '┌', '─', '┬', '┐') + seq![
                '\n',
            ] + seq!['│', ' '] + heading_cells(names_view(self.names@), self.widths@, 0) + seq![
                ' ',
                '│',
                '\n',
            ] + rule_line(self.widths@, self.cols as int, '├', '─', '┼', '┤'));
        }
        r
    }

    /// One data row: each value padded to its column's width plus the
    /// width its invisible escape codes take up, the first column
    /// left-aligned and the rest right-aligned.
    pub fn row(&self, values: &Vec<String>) -> (r: String)
        requires
            forall|i: int| 0 <= i < values@.len() ==> (#[trigger] values@[i])@.len()
                + self.widths@[i] <= usize::MAX || i >= self.widths@.len(),
        ensures
            r@ == seq!['│', ' '] + row_cells(
                values@.map_values(|v: String| v@),
                self.widths@,
                0,
            ) + seq![' ', '│'],
    {
        proof {
            reveal_strlit("│ ");
            reveal_strlit(" │");
            reveal_strlit(" │ ");
        }
        let mut r = String::from_str("│ ");
        let n = if values.len() <= self.widths.len() {
            values.len()
        } else {
            self.widths.len()
        };
        let ghost vv = values@.map_values(|v: String| v@);
        proof {
            assert(r@ =~= seq!['│', ' ']);
            assert(seq!['│', ' '] + row_cells(vv, self.widths@, 0) =~= r@ + row_cells(
                vv,
                self.widths@,
                0,
            ));
        }
        let mut i: usize = 0;
        while i < n
            invariant
                i <= n,
                vv == values@.map_values(|v: String| v@),
                vv.len() == values@.len(),
                n == if values@.len() <= self.widths@.len() {
                    values@.len()
                } else {
                    self.widths@.len()
                },
                forall|q: int| 0 <= q < values@.len() ==> (#[trigger] values@[q])@.len()
                    + self.widths@[q] <= usize::MAX || q >= self.widths@.len(),
                seq!['│', ' '] + row_cells(vv, self.widths@, 0) =~= r@ + row_cells(
                    vv,
                    self.widths@,
                    i as int,
                ),
            decreases n - i,
        {
            if i > 0 {
                r.append(" │ ");
                proof {
                    reveal_strlit(" │ ");
                    assert(" │ "@ =~= seq![' ', '│', ' ']);
                }
            }
            let value = &values[i];
            let stripped = strip_codes(value.as_str());
            let visible = stripped.as_str().unicode_len();
            let len = value.as_str().unicode_len();
            let delta: usize = len - visible;
            let target: usize = self.widths[i] + delta;
            let cell = if i == 0 {
                pad_right_str(value.as_str(), target)
            } else {
                pad_left_str(value.as_str(), target)
            };
            r.append(cell.as_str());
            proof {
                assert(vv[i as int] == values@[i as int]@);
                assert(seq!['│', ' '] + row_cells(vv, self.widths@, 0) =~= r@ + row_cells(
                    vv,
                    self.widths@,
                    i + 1,
                ));
            }
            i = i + 1;
        }
        proof {
            assert(row_cells(vv, self.widths@, n as int) =~= Seq::<char>::empty());
        }
        r.append(" │");
        proof {
            assert(r@ =~= seq!['│', ' '] + row_cells(vv, self.widths@, 0) + seq![' ', '│']);
        }
        r
    }

    /// Total width of a rendered row in characters.
    pub fn width(&self) -> (r: usize)
        requires
            widths_total(self.widths@, 0) + self.cols + self.cols * SEP_WIDTH <= usize::MAX,
        ensures
            r == widths_total(self.widths@, 0) + self.cols + self.cols * SEP_WIDTH,
    {
        let mut total: usize = 0;
        let mut i: usize = 0;
        proof {
            lemma_widths_total_bounds(self.widths@, 0);
        }
        while i < self.widths.len()
            invariant
                i <= self.widths@.len(),
                total == widths_total(self.widths@, 0) - widths_total(self.widths@, i as int),
                widths_total(self.widths@, 0) + self.cols + self.cols * SEP_WIDTH <= usize::MAX,
                self.cols * SEP_WIDTH == self.cols * 3,
            decreases self.widths@.len() - i,
        {
            proof {
                lemma_widths_total_bounds(self.widths@, i as int);
                lemma_widths_total_bounds(self.widths@, i + 1);
                lemma_widths_total_prefix(self.widths@, i as int);
            }
            total = total + self.widths[i];
            i = i + 1;
        }
        proof {
            assert(widths_total(self.widths@, self.widths@.len() as int) == 0);
        }
        total + self.cols + self.cols * 3
    }
}

/// The sum of the widths from index `i` on.
pub open spec fn widths_total(widths: Seq<usize>, i: int) -> int
    decreases widths.len() - i,
{
    if i < 0 || i >= widths.len() {
        0
    } else {
        widths[i] + widths_total(widths, i + 1)
    }
}

/// Width sums are nonnegative.
proof fn lemma_widths_total_bounds(widths: Seq<usize>, i: int)
    ensures
        widths_total(widths, i) >= 0,
    decreases widths.len() - i,
{
    if 0 <= i < widths.len() {
        lemma_widths_total_bounds(widths, i + 1);
    }
}

/// Splitting a width sum at `i`.
proof fn lemma_widths_total_prefix(widths: Seq<usize>, i: int)
    requires
        0 <= i < widths.len(),
    ensures
        widths_total(widths, 0) - widths_total(widths, i) + widths[i] == widths_total(widths, 0)
            - widths_total(widths, i + 1),
{
}

/// `s` padded with spaces on the left to `w` characters.
pub(crate) fn pad_left_str(s: &str, w: usize) -> (r: String)
    ensures
        r@ == pad_left(s@, w as int),
{
    proof {
        reveal_strlit(" ");
    }
    let len = s.unicode_len();
    let pad = if len >= w { 0 } else { w - len };
    let mut r = repeat_str(" ", pad);
    r.append(s);
    proof {
        assert(r@ =~= pad_left(s@, w as int));
    }
    r
}

/// `s` padded with spaces on the right to `w` characters.
pub(crate) fn pad_right_str(s: &str, w: usize) -> (r: String)
    ensures
        r@ == pad_right(s@, w as int),
{
    proof {
        reveal_strlit(" ");
    }
    let len = s.unicode_len();
    let pad = if len >= w { 0 } else { w - len };
    let mut r = String::from_str(s);
    let tail = repeat_str(" ", pad);
    r.append(tail.as_str());
    proof {
        assert(r@ =~= pad_right(s@, w as int));
    }
    r
}

/// `s` centered in `w` characters, the extra space on the right.
fn pad_center_str(s: &str, w: usize) -> (r: String)
    ensures
        r@ == pad_center(s@, w as int),
{
    proof {
        reveal_strlit(" ");
    }
    let len = s.unicode_len();
    let total = if len >= w { 0 } else { w - len };
    let left = total / 2;
    let right = total - left;
    let mut r = repeat_str(" ", left);
    r.append(s);
    let tail = repeat_str(" ", right);
    r.append(tail.as_str());
    proof {
        assert(r@ =~= pad_center(s@, w as int));
    }
    r
}

/// The column widths of a snapshot-comparison table: one position column,
/// then one column per selected metric.
pub open spec fn diff_column_widths(fields: crate::fields::Fields) -> Seq<usize> {
    seq![72usize] + (if fields.nodes {
        seq![45usize]
    } else {
        Seq::empty()
    }) + (if fields.time {
        seq![30usize]
    } else {
        Seq::empty()
    }) + (if fields.nps {
        seq![30usize]
    } else {
        Seq::empty()
    }) + (if fields.branching {
        seq![25usize]
    } else {
        Seq::empty()
    }) + (if fields.score {
        seq![15usize]
    } else {
        Seq::empty()
    })
}

/// The column headings of a snapshot-comparison table.
pub open spec fn diff_column_names(fields: crate::fields::Fields) -> Seq<Seq<char>> {
    seq!["FEN"@] + (if fields.nodes {
        seq!["Nodes"@]
    } else {
        Seq::empty()
    }) + (if fields.time {
        seq!["Time"@]
    } else {
        Seq::empty()
    }) + (if fields.nps {
        seq!["Nps"@]
    } else {
        Seq::empty()
    }) + (if fields.branching {
        seq!["Branching Factor"@]
    } else {
        Seq::empty()
    }) + (if fields.score {
        seq!["Score"@]
    } else {
        Seq::empty()
    })
}

/// The column widths of a suite-run table.
pub open spec fn suite_column_widths(fields: crate::fields::Fields) -> Seq<usize> {
    seq![72usize] + (if fields.nodes {
        seq![20usize]
    } else {
        Seq::empty()
    }) + (if fields.time {
        seq![10usize]
    } else {
        Seq::empty()
    }) + (if fields.nps {
        seq![10usize]
    } else {
        Seq::empty()
    }) + (if fields.branching {
        seq![10usize]
    } else {
        Seq::empty()
    }) + (if fields.score {
        seq![10usize]
    } else {
        Seq::empty()
    })
}

/// The column headings of a suite-run table.
pub open spec fn suite_column_names(fields: crate::fields::Fields) -> Seq<Seq<char>> {
    seq!["FEN"@] + (if fields.nodes {
        seq!["Nodes"@]
    } else {
        Seq::empty()
    }) + (if fields.time {
        seq!["Time"@]
    } else {
        Seq::empty()
    }) + (if fields.nps {
        seq!["Nps"@]
    } else {
        Seq::empty()
    }) + (if fields.branching {
        seq!["Branching"@]
    } else {
        Seq::empty()
    }) + (if fields.score {
        seq!["Score"@]
    } else {
        Seq::empty()
    })
}

/// The table for a snapshot-comparison run: the explicit column
/// configuration the selected fields ask for, built once up front.
pub fn diff_table(fields: &crate::fields::Fields) -> (r: Tabulator)
    ensures
        r.widths@ == diff_column_widths(*fields),
        names_view(r.names@) == diff_column_names(*fields),
        r.cols == diff_column_widths(*fields).len(),
{
    let mut t = Tabulator::new();
    t.add_col("FEN", 72);
    if fields.nodes {
        t.add_col("Nodes", 45);
    }
    if fields.time {
        t.add_col("Time", 30);
    }
    if fields.nps {
        t.add_col("Nps", 30);
    }
    if fields.branching {
        t.add_col("Branching Factor", 25);
    }
    if fields.score {
        t.add_col("Score", 15);
    }
    proof {
        assert(t.widths@ =~= diff_column_widths(*fields));
        assert(names_view(t.names@) =~= diff_column_names(*fields));
    }
    t
}

/// The table for a suite run: the explicit column configuration the
/// selected fields ask for, built once up front.
pub fn suite_table(fields: &crate::fields::Fields) -> (r: Tabulator)
    ensures
        r.widths@ == suite_column_widths(*fields),
        names_view(r.names@) == suite_column_names(*fields),
        r.cols == suite_column_widths(*fields).len(),
{
    let mut t = Tabulator::new();
    t.add_col("FEN", 72);
    if fields.nodes {
        t.add_col("Nodes", 20);
    }
    if fields.time {
        t.add_col("Time", 10);
    }
    if fields.nps {
        t.add_col("Nps", 10);
    }
    if fields.branching {
        t.add_col("Branching", 10);
    }
    if fields.score {
        t.add_col("Score", 10);
    }
    proof {
        assert(t.widths@ =~= suite_column_widths(*fields));
        assert(names_view(t.names@) =~= suite_column_names(*fields));
    }
    t
}

} // verus!
