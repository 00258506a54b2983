//! The math block sub-parser: the lines between two `$$` fences, kept as
//! they are.

use vstd::prelude::*;
use crate::fence::{fenced_len, fenced_lines, find_fence, is_closed, Fence};
use crate::lines::{push_chars, push_str, texts};
use crate::parser::MarkdownParser;
use crate::text::{trim, trimmed};

verus! {

/// `lines` in a row, each ended by a line feed.
pub open spec fn joined(lines: Seq<Seq<char>>) -> Seq<char>
    decreases lines.len(),
{
    if lines.len() == 0 {
        Seq::empty()
    } else {
        joined(lines.drop_last()) + lines.last() + seq!['\n']
    }
}

/// The HTML of the math block among `lines`: where a second fence closes
/// the block, the lines between the fences, without the white space round
/// them, between `$$` in a `div`. A block that is not closed gives no
/// output.
pub open spec fn math_block_html(lines: Seq<Seq<char>>) -> Seq<char> {
    if is_closed(Fence::Math, lines) {
        "<div class=\"math-block\">$$"@ + trimmed(joined(fenced_lines(Fence::Math, lines)))
            + "$$</div>\n"@
    } else {
        Seq::empty()
    }
}

impl MarkdownParser {
    /// Renders the math block among `lines` and tells how many lines it
    /// took: all up to the closing fence, or all there are.
    pub fn parse_math_block(&self, lines: &[Vec<char>]) -> (r: (Vec<char>, usize))
        ensures
            r.0@ == math_block_html(texts(lines@)),
            r.1 == fenced_len(Fence::Math, texts(lines@)),
            r.1 <= lines@.len(),
            lines@.len() > 0 ==> r.1 >= 1,
    {
        let ghost all = texts(lines@);
        let mut out: Vec<char> = Vec::new();
        proof {
            assert(all.skip(0) == all);
        }
        let open = find_fence(Fence::Math, lines, 0);
        if open >= lines.len() {
            return (out, lines.len());
        }
        let close = find_fence(Fence::Math, lines, open + 1);
        if close >= lines.len() {
            return (out, lines.len());
        }
        let ghost after = all.skip(open + 1);
        let mut content: Vec<char> = Vec::new();
        let mut i: usize = open + 1;
        while i < close
            invariant
                all == texts(lines@),
                after == all.skip(open + 1),
                open < i <= close < lines.len(),
                content@ == joined(after.take(i - open - 1)),
            decreases close - i,
        {
            proof {
                assert(after.take(i - open).drop_last() == after.take(i - open - 1));
            }
            push_chars(&mut content, lines[i].as_slice());
            content.push('\n');
            i += 1;
        }
        push_str(&mut out, "<div class=\"math-block\">$$");
        push_chars(&mut out, trim(content.as_slice()));
        push_str(&mut out, "$$</div>\n");
        (out, close + 1)
    }
}

} // verus!
