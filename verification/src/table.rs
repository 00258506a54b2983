//! The table sub-parser: a header row, a delimiter row that leaves no
//! trace, and the rows of the body.

use vstd::prelude::*;
use crate::inline::{inline_html, inline_patterns_compile};
use crate::lines::{pieces, pieces_of, push_chars, push_str, split_on, texts};
use crate::parser::MarkdownParser;
use crate::text::{contains_char, strip, stripped, trim, trimmed, CharClass};

verus! {

/// The cells of a row: the line without the white space and then the `|`
/// at its ends, split at each `|` that is left.
pub open spec fn row_cells(line: Seq<char>) -> Seq<Seq<char>> {
    pieces_of(stripped(trimmed(line), CharClass::Only('|')), '|')
}

/// The HTML of one cell: its formatted text, without the white space round
/// it, in `th` for the header and in `td` for the body.
pub open spec fn cell_html(cell: Seq<char>, header: bool) -> Seq<char> {
    if header {
        "<th>"@ + inline_html(trimmed(cell)) + "</th>\n"@
    } else {
        "<td>"@ + inline_html(trimmed(cell)) + "</td>\n"@
    }
}

/// The HTML of the cells of a row, in their order.
pub open spec fn cells_html(cells: Seq<Seq<char>>, header: bool) -> Seq<char>
    decreases cells.len(),
{
    if cells.len() == 0 {
        Seq::empty()
    } else {
        cells_html(cells.drop_last(), header) + cell_html(cells.last(), header)
    }
}

/// The HTML of one row.
pub open spec fn row_html(line: Seq<char>, header: bool) -> Seq<char> {
    "<tr>\n"@ + cells_html(row_cells(line), header) + "</tr>\n"@
}

/// The HTML of the rows of the body, in their order.
pub open spec fn rows_html(lines: Seq<Seq<char>>) -> Seq<char>
    decreases lines.len(),
{
    if lines.len() == 0 {
        Seq::empty()
    } else {
        rows_html(lines.drop_last()) + row_html(lines.last(), false)
    }
}

/// Whether `line` is taken for the row that sets the header off: it holds
/// a `|` and a `-`.
pub open spec fn is_delimiter_row(line: Seq<char>) -> bool {
    line.contains('|') && line.contains('-')
}

/// Number of lines at the start of `lines` that hold a `|`.
pub open spec fn row_run(lines: Seq<Seq<char>>) -> nat
    decreases lines.len(),
{
    if lines.len() > 0 && lines[0].contains('|') {
        1 + row_run(lines.drop_first())
    } else {
        0
    }
}

/// Number of lines before the body: the header row, and the delimiter row
/// where the line after the header is one.
pub open spec fn head_len(lines: Seq<Seq<char>>) -> nat {
    if lines.len() == 0 {
        0
    } else if lines.len() > 1 && is_delimiter_row(lines[1]) {
        2
    } else {
        1
    }
}

/// The rows of the body: the lines after the head up to the first that
/// holds no `|`.
pub open spec fn body_rows(lines: Seq<Seq<char>>) -> Seq<Seq<char>> {
    let after = lines.skip(head_len(lines) as int);
    after.take(row_run(after) as int)
}

/// Number of lines that the table takes.
pub open spec fn table_len(lines: Seq<Seq<char>>) -> nat {
    head_len(lines) + body_rows(lines).len()
}

/// The HTML of the table that starts at the first of `lines`.
pub open spec fn table_html(lines: Seq<Seq<char>>) -> Seq<char> {
    "<table>\n"@ + (if lines.len() > 0 {
        "<thead>\n"@ + row_html(lines[0], true) + "</thead>\n"@
    } else {
        Seq::empty()
    }) + "<tbody>\n"@ + rows_html(body_rows(lines)) + "</tbody>\n</table>\n"@
}

/// The lines with a `|` at the start of `lines` end at `n`.
pub proof fn lemma_row_run(lines: Seq<Seq<char>>, n: int)
    requires
        0 <= n <= lines.len(),
        forall|j: int| 0 <= j < n ==> (#[trigger] lines[j]).contains('|'),
        n < lines.len() ==> !lines[n].contains('|'),
    ensures
        row_run(lines) == n,
    decreases n,
{
    if n > 0 {
        let rest = lines.drop_first();
        assert forall|j: int| 0 <= j < n - 1 implies (#[trigger] rest[j]).contains('|') by {}
        lemma_row_run(rest, n - 1);
    }
}

/// A table takes no more lines than there are.
pub proof fn lemma_table_len(lines: Seq<Seq<char>>)
    ensures
        table_len(lines) <= lines.len(),
        lines.len() > 0 ==> table_len(lines) >= 1,
{
    lemma_row_run_bound(lines.skip(head_len(lines) as int));
}

/// No more lines hold a `|` than there are.
pub proof fn lemma_row_run_bound(lines: Seq<Seq<char>>)
    ensures
        row_run(lines) <= lines.len(),
    decreases lines.len(),
{
    if lines.len() > 0 && lines[0].contains('|') {
        lemma_row_run_bound(lines.drop_first());
    }
}

impl MarkdownParser {
    /// Splits a row into its cells.
    pub fn split_table_row<'a>(&self, line: &'a [char]) -> (r: Vec<&'a [char]>)
        ensures
            pieces(r@) == row_cells(line@),
    {
        split_on(strip(trim(line), CharClass::Only('|')), '|')
    }

    /// Appends the HTML of one row.
    pub fn push_row(&self, out: &mut Vec<char>, line: &[char], header: bool)
        requires
            inline_patterns_compile(),
        ensures
            final(out)@ == old(out)@ + row_html(line@, header),
    {
        let ghost before = out@;
        let cells = self.split_table_row(line);
        push_str(out, "<tr>\n");
        let mut i: usize = 0;
        while i < cells.len()
            invariant
                inline_patterns_compile(),
                i <= cells.len(),
                out@ == before + "<tr>\n"@ + cells_html(pieces(cells@).take(i as int), header),
            decreases cells.len() - i,
        {
            proof {
                let done = pieces(cells@).take(i + 1);
                assert(done.drop_last() == pieces(cells@).take(i as int));
            }
            let text = self.parse_inline(trim(cells[i]));
            if header {
                push_str(out, "<th>");
                push_chars(out, text.as_slice());
                push_str(out, "</th>\n");
            } else {
                push_str(out, "<td>");
                push_chars(out, text.as_slice());
                push_str(out, "</td>\n");
            }
            i += 1;
        }
        proof {
            assert(pieces(cells@).take(cells.len() as int) == pieces(cells@));
        }
        push_str(out, "</tr>\n");
    }

    /// Renders the table that starts at the first of `lines` and tells how
    /// many lines it took.
    pub fn parse_table(&self, lines: &[Vec<char>]) -> (r: (Vec<char>, usize))
        requires
            inline_patterns_compile(),
        ensures
            r.0@ == table_html(texts(lines@)),
            r.1 == table_len(texts(lines@)),
            r.1 <= lines@.len(),
            lines@.len() > 0 ==> r.1 >= 1,
    {
        let ghost all = texts(lines@);
        let mut out: Vec<char> = Vec::new();
        let mut consumed: usize = 0;
        push_str(&mut out, "<table>\n");
        if consumed < lines.len() {
            push_str(&mut out, "<thead>\n");
            self.push_row(&mut out, lines[consumed].as_slice(), true);
            push_str(&mut out, "</thead>\n");
            consumed += 1;
        }
        if consumed < lines.len() && contains_char(lines[consumed].as_slice(), '|') && contains_char(
            lines[consumed].as_slice(),
            '-',
        ) {
            consumed += 1;
        }
        push_str(&mut out, "<tbody>\n");
        let head = consumed;
        let ghost after = all.skip(head as int);
        let ghost start = out@;
        while consumed < lines.len() && contains_char(lines[consumed].as_slice(), '|')
            invariant
                inline_patterns_compile(),
                all == texts(lines@),
                after == all.skip(head as int),
                head <= consumed <= lines.len(),
                forall|j: int| 0 <= j < consumed - head ==> (#[trigger] after[j]).contains('|'),
                out@ == start + rows_html(after.take(consumed - head)),
            decreases lines.len() - consumed,
        {
            proof {
                let done = after.take(consumed - head + 1);
                assert(done.drop_last() == after.take(consumed - head));
            }
            self.push_row(&mut out, lines[consumed].as_slice(), false);
            consumed += 1;
        }
        proof {
            lemma_row_run(after, consumed - head);
        }
        push_str(&mut out, "</tbody>\n</table>\n");
        (out, consumed)
    }
}

} // verus!
