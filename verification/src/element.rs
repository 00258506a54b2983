//! The line classifier: which element a line opens.

use vstd::prelude::*;
use crate::parser::MarkdownParser;
use crate::pattern::{is_match, pattern_compiles, pattern_matches};
use crate::text::{
    count_leading, is_white_space, leading, lemma_leading, lemma_leading_run, white_space,
    CharClass,
};

verus! {

/// What a line opens.
#[derive(Clone, Copy, Debug, PartialEq, Eq, Structural)]
pub enum Element {
    /// A heading and its level, 1 to 6.
    Heading(usize),
    /// A list of unnumbered items.
    UnorderedList,
    /// A list of numbered items.
    OrderedList,
    /// A fenced block of code.
    CodeBlock,
    /// A table.
    Table,
    /// Running text.
    Paragraph,
    /// A line of a quotation.
    Blockquote,
    /// A rule across the page.
    HorizontalRule,
    /// A fenced block of mathematics.
    MathBlock,
}

/// A numbered item: white space, then decimal digits, a full stop and a
/// white-space character. What counts as a decimal digit is the `regex`
/// crate's to say.
pub const ORDERED_LIST_PATTERN: &'static str = r"^[\s]*\d+\.\s";

/// One to six `#`, then a white-space character.
pub open spec fn is_heading(line: Seq<char>) -> bool {
    let n = leading(line, CharClass::Only('#'));
    1 <= n <= 6 && n < line.len() && is_white_space(line[n as int])
}

/// `>`, then a white-space character.
pub open spec fn is_blockquote(line: Seq<char>) -> bool {
    line.len() >= 2 && line[0] == '>' && is_white_space(line[1])
}

/// `line` holds `c` and nothing else, at least `least` times.
pub open spec fn is_run_of(line: Seq<char>, c: char, least: nat) -> bool {
    line.len() >= least && forall|i: int| 0 <= i < line.len() ==> #[trigger] line[i] == c
}

/// Three or more `-`, three or more `_` or three or more `*`, and nothing
/// else.
pub open spec fn is_horizontal_rule(line: Seq<char>) -> bool {
    is_run_of(line, '-', 3) || is_run_of(line, '_', 3) || is_run_of(line, '*', 3)
}

/// White space, then `-` or `*`, then a white-space character.
pub open spec fn is_unordered_item(line: Seq<char>) -> bool {
    let k = leading(line, CharClass::WhiteSpace) as int;
    k + 1 < line.len() && (line[k] == '-' || line[k] == '*') && is_white_space(line[k + 1])
}

/// A line that the pattern of numbered items matches.
pub open spec fn is_ordered_item(line: Seq<char>) -> bool {
    pattern_matches(ORDERED_LIST_PATTERN@, line)
}

/// Three backticks at the start.
pub open spec fn is_code_fence(line: Seq<char>) -> bool {
    line.len() >= 3 && line[0] == '`' && line[1] == '`' && line[2] == '`'
}

/// `|` at the start and at the end, and no line feed between them.
pub open spec fn is_table_row(line: Seq<char>) -> bool {
    &&& line.len() >= 2
    &&& line[0] == '|'
    &&& line.last() == '|'
    &&& forall|i: int| 0 < i < line.len() - 1 ==> #[trigger] line[i] != '\n'
}

/// Two dollar signs at the start.
pub open spec fn is_math_fence(line: Seq<char>) -> bool {
    line.len() >= 2 && line[0] == '$' && line[1] == '$'
}

/// The element that `line` opens: the first of heading, blockquote,
/// horizontal rule, unordered list, ordered list, code block, table and
/// math block whose test the line passes, and a paragraph where it passes
/// none.
pub open spec fn element_of(line: Seq<char>) -> Element {
    if is_heading(line) {
        Element::Heading(leading(line, CharClass::Only('#')) as usize)
    } else if is_blockquote(line) {
        Element::Blockquote
    } else if is_horizontal_rule(line) {
        Element::HorizontalRule
    } else if is_unordered_item(line) {
        Element::UnorderedList
    } else if is_ordered_item(line) {
        Element::OrderedList
    } else if is_code_fence(line) {
        Element::CodeBlock
    } else if is_table_row(line) {
        Element::Table
    } else if is_math_fence(line) {
        Element::MathBlock
    } else {
        Element::Paragraph
    }
}

/// Tells whether `line` holds `c` and nothing else, at least `least` times.
pub fn run_of(line: &[char], c: char, least: usize) -> (r: bool)
    ensures
        r == is_run_of(line@, c, least as nat),
{
    let n = count_leading(line, CharClass::Only(c));
    proof {
        lemma_leading_run(line@, CharClass::Only(c));
        if forall|i: int| 0 <= i < line@.len() ==> #[trigger] line@[i] == c {
            lemma_leading(line@, CharClass::Only(c), line@.len() as int);
        }
    }
    n == line.len() && line.len() >= least
}

/// Tells whether `line` is a table row.
pub fn table_row(line: &[char]) -> (r: bool)
    ensures
        r == is_table_row(line@),
{
    if line.len() < 2 || line[0] != '|' || line[line.len() - 1] != '|' {
        return false;
    }
    let mut i: usize = 1;
    while i < line.len() - 1
        invariant
            line.len() >= 2,
            1 <= i <= line.len() - 1,
            forall|j: int| 0 < j < i ==> #[trigger] line@[j] != '\n',
        decreases line.len() - i,
    {
        if line[i] == '\n' {
            return false;
        }
        i += 1;
    }
    true
}

/// Tells whether `line` is an unnumbered item.
pub fn unordered_item(line: &[char]) -> (r: bool)
    ensures
        r == is_unordered_item(line@),
{
    let indent = count_leading(line, CharClass::WhiteSpace);
    indent < line.len() && indent + 1 < line.len() && (line[indent] == '-' || line[indent] == '*')
        && white_space(line[indent + 1])
}

/// Tells whether `line` is a numbered item.
pub fn ordered_item(line: &[char]) -> (r: bool)
    requires
        pattern_compiles(ORDERED_LIST_PATTERN@),
    ensures
        r == is_ordered_item(line@),
{
    is_match(ORDERED_LIST_PATTERN, line)
}

impl MarkdownParser {
    /// Classifies one line.
    pub fn identify_element(&self, line: &[char]) -> (r: Element)
        requires
            pattern_compiles(ORDERED_LIST_PATTERN@),
        ensures
            r == element_of(line@),
    {
        let hashes = count_leading(line, CharClass::Only('#'));
        if 1 <= hashes && hashes <= 6 && hashes < line.len() && white_space(line[hashes]) {
            return Element::Heading(hashes);
        }
        if line.len() >= 2 && line[0] == '>' && white_space(line[1]) {
            return Element::Blockquote;
        }
        if run_of(line, '-', 3) || run_of(line, '_', 3) || run_of(line, '*', 3) {
            return Element::HorizontalRule;
        }
        if unordered_item(line) {
            return Element::UnorderedList;
        }
        if ordered_item(line) {
            return Element::OrderedList;
        }
        if line.len() >= 3 && line[0] == '`' && line[1] == '`' && line[2] == '`' {
            return Element::CodeBlock;
        }
        if table_row(line) {
            return Element::Table;
        }
        if line.len() >= 2 && line[0] == '$' && line[1] == '$' {
            return Element::MathBlock;
        }
        Element::Paragraph
    }
}

} // verus!
