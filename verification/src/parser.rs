//! The block parser: one pass over the lines of a document.

use vstd::prelude::*;
use vstd::slice::slice_subrange;
use vstd::string::StringExecFns;
use crate::code_block::code_block_html;
use crate::element::{element_of, Element, ORDERED_LIST_PATTERN};
use crate::error::ConverterError;
use crate::fence::{fenced_len, Fence};
use crate::inline::{inline_html, inline_patterns_compile, inline_patterns_ready};
use crate::lines::{collect_string, lines_of, push_chars, push_str, split_lines, texts, to_chars};
use crate::list::{lemma_item_run, list_html, list_len};
use crate::math_block::math_block_html;
use crate::pattern::{compiles, pattern_compiles};
use crate::table::{lemma_table_len, table_html, table_len};
use crate::text::{decimal, push_decimal, strip_start, stripped_start, trim, trimmed, CharClass};

verus! {

/// Turns Markdown into HTML. A parser holds no state: every call of
/// `parse` stands alone.
pub struct MarkdownParser {}

/// What the error says where a pattern of the parser does not compile.
pub const PATTERN_FAILURE: &'static str = "a pattern of the parser does not compile";

/// Whether the `regex` crate compiles every pattern that the parser hands
/// to it.
pub open spec fn patterns_compile() -> bool {
    inline_patterns_compile() && pattern_compiles(ORDERED_LIST_PATTERN@)
}

/// The HTML of a heading line: the text after the `#`, without the white
/// space round it and unformatted, in the tag of its level.
pub open spec fn heading_html(line: Seq<char>, level: nat) -> Seq<char> {
    "<h"@ + decimal(level) + ">"@ + trimmed(stripped_start(line, CharClass::Only('#'))) + "</h"@
        + decimal(level) + ">\n"@
}

/// The HTML of a paragraph line.
pub open spec fn paragraph_html(line: Seq<char>) -> Seq<char> {
    "<p>"@ + inline_html(line) + "</p>\n"@
}

/// The HTML of a quotation.
pub open spec fn blockquote_html(content: Seq<char>) -> Seq<char> {
    "<blockquote>"@ + inline_html(content) + "</blockquote>\n"@
}

/// What a quotation holds after one more of its lines: the line without
/// its two-character marker, after a line break where the quotation had
/// begun before.
pub open spec fn quoted(quote: Option<Seq<char>>, line: Seq<char>) -> Seq<char> {
    match quote {
        Some(content) => content + "<br>"@ + line.skip(2),
        None => line.skip(2),
    }
}

/// Number of lines that the element opened by the first of `lines` takes:
/// what its sub-parser takes from these lines, and one line for an element
/// without a sub-parser.
pub open spec fn block_len(lines: Seq<Seq<char>>, element: Element) -> nat {
    match element {
        Element::UnorderedList => list_len(lines, false),
        Element::OrderedList => list_len(lines, true),
        Element::CodeBlock => fenced_len(Fence::Code, lines),
        Element::Table => table_len(lines),
        Element::MathBlock => fenced_len(Fence::Math, lines),
        _ => 1,
    }
}

/// The HTML of the element opened by the first of `lines`. A rule, a
/// heading and a paragraph are made from that line without the white space
/// round it, and a blank line makes no paragraph; a sub-parser sees the
/// lines as they are. A line of a quotation gives no HTML of its own.
pub open spec fn block_html(lines: Seq<Seq<char>>, element: Element) -> Seq<char> {
    let line = trimmed(lines[0]);
    match element {
        Element::Blockquote => Seq::empty(),
        Element::HorizontalRule => "<hr>\n"@,
        Element::Heading(level) => heading_html(line, level as nat),
        Element::UnorderedList => list_html(lines, false),
        Element::OrderedList => list_html(lines, true),
        Element::CodeBlock => code_block_html(lines),
        Element::Table => table_html(lines),
        Element::MathBlock => math_block_html(lines),
        Element::Paragraph => if line.len() > 0 {
            paragraph_html(line)
        } else {
            Seq::empty()
        },
    }
}

/// The HTML of the lines from `at` on. `quote` is `None` while the parser
/// scans, and holds the quotation gathered so far while it is inside one.
///
/// A blank line inside a quotation ends and emits it. Otherwise the line,
/// without the white space round it, is classified: a line of a quotation
/// joins the quotation, and every other element is emitted and the lines
/// that it took are passed over. Other elements do not end a quotation: it
/// is emitted at the next blank line, or at the end of the document.
pub open spec fn document_from(lines: Seq<Seq<char>>, at: int, quote: Option<Seq<char>>) -> Seq<
    char,
>
    decreases lines.len() - at,
    via document_from_decreases
{
    if at < 0 || at >= lines.len() {
        match quote {
            Some(content) => if content.len() > 0 {
                blockquote_html(content)
            } else {
                Seq::empty()
            },
            None => Seq::empty(),
        }
    } else {
        let line = trimmed(lines[at]);
        let element = element_of(line);
        let rest = lines.skip(at);
        if line.len() == 0 && quote is Some {
            blockquote_html(quote.unwrap()) + document_from(lines, at + 1, None)
        } else if element is Blockquote {
            document_from(lines, at + 1, Some(quoted(quote, line)))
        } else {
            block_html(rest, element) + document_from(lines, at + block_len(rest, element), quote)
        }
    }
}

#[via_fn]
proof fn document_from_decreases(lines: Seq<Seq<char>>, at: int, quote: Option<Seq<char>>) {
    if 0 <= at < lines.len() {
        lemma_block_len(lines.skip(at), element_of(trimmed(lines[at])));
    }
}

/// Every element takes at least the line that opened it, and no more lines
/// than there are.
pub proof fn lemma_block_len(lines: Seq<Seq<char>>, element: Element)
    requires
        lines.len() > 0,
    ensures
        1 <= block_len(lines, element) <= lines.len(),
{
    lemma_item_run(lines.drop_first(), false, 0);
    lemma_item_run(lines.drop_first(), true, 0);
    lemma_table_len(lines);
}

/// The HTML of a document.
pub open spec fn document_html(content: Seq<char>) -> Seq<char> {
    document_from(lines_of(content), 0, None)
}

/// Whether `result` is what parsing `content` gives: the HTML of the
/// document where the patterns of the parser compile, and otherwise a
/// `ParsingError` that says so.
pub open spec fn is_parse_of(result: Result<String, ConverterError>, content: Seq<char>) -> bool {
    match result {
        Ok(html) => patterns_compile() && html@ == document_html(content),
        Err(ConverterError::ParsingError(detail)) => !patterns_compile() && detail@
            == PATTERN_FAILURE@,
        Err(_) => false,
    }
}

/// Parsing is a function of the document: two results for the same
/// document hold the same HTML, or fail with the same message.
pub proof fn lemma_parse_is_deterministic(
    first: Result<String, ConverterError>,
    second: Result<String, ConverterError>,
    content: Seq<char>,
)
    requires
        is_parse_of(first, content),
        is_parse_of(second, content),
    ensures
        first is Ok <==> second is Ok,
        first is Ok ==> first->Ok_0@ == second->Ok_0@,
        first is Err ==> first->Err_0->ParsingError_0@ == second->Err_0->ParsingError_0@,
{
}

impl MarkdownParser {
    /// A parser.
    pub fn new() -> (r: Self)
        ensures
            r == (MarkdownParser {  }),
    {
        Self {  }
    }

    /// Tells whether the patterns of the parser compile.
    pub fn ready(&self) -> (r: bool)
        ensures
            r == patterns_compile(),
    {
        inline_patterns_ready() && compiles(ORDERED_LIST_PATTERN)
    }

    /// Renders a heading line.
    pub fn parse_heading(&self, line: &[char], level: usize) -> (r: Vec<char>)
        ensures
            r@ == heading_html(line@, level as nat),
    {
        let content = trim(strip_start(line, CharClass::Only('#')));
        let mut out: Vec<char> = Vec::new();
        push_str(&mut out, "<h");
        push_decimal(&mut out, level);
        push_str(&mut out, ">");
        push_chars(&mut out, content);
        push_str(&mut out, "</h");
        push_decimal(&mut out, level);
        push_str(&mut out, ">\n");
        out
    }

    /// Renders a paragraph line.
    pub fn parse_paragraph(&self, line: &[char]) -> (r: Vec<char>)
        requires
            inline_patterns_compile(),
        ensures
            r@ == paragraph_html(line@),
    {
        let text = self.parse_inline(line);
        let mut out: Vec<char> = Vec::new();
        push_str(&mut out, "<p>");
        push_chars(&mut out, text.as_slice());
        push_str(&mut out, "</p>\n");
        out
    }

    /// Appends a quotation.
    pub fn push_blockquote(&self, out: &mut Vec<char>, content: &[char])
        requires
            inline_patterns_compile(),
        ensures
            final(out)@ == old(out)@ + blockquote_html(content@),
    {
        let text = self.parse_inline(content);
        push_str(out, "<blockquote>");
        push_chars(out, text.as_slice());
        push_str(out, "</blockquote>\n");
    }

    /// Renders the element opened by the first of `lines` and tells how many
    /// lines it took.
    pub fn parse_block(&self, lines: &[Vec<char>], element: Element) -> (r: (Vec<char>, usize))
        requires
            patterns_compile(),
            lines@.len() > 0,
        ensures
            r.0@ == block_html(texts(lines@), element),
            r.1 == block_len(texts(lines@), element),
            1 <= r.1 <= lines@.len(),
    {
        let line = trim(lines[0].as_slice());
        match element {
            Element::Blockquote => (Vec::new(), 1),
            Element::HorizontalRule => {
                let mut out: Vec<char> = Vec::new();
                push_str(&mut out, "<hr>\n");
                (out, 1)
            },
            Element::Heading(level) => (self.parse_heading(line, level), 1),
            Element::UnorderedList => self.parse_list(lines, false),
            Element::OrderedList => self.parse_list(lines, true),
            Element::CodeBlock => self.parse_code_block(lines),
            Element::Table => self.parse_table(lines),
            Element::MathBlock => self.parse_math_block(lines),
            Element::Paragraph => {
                if line.len() > 0 {
                    (self.parse_paragraph(line), 1)
                } else {
                    (Vec::new(), 1)
                }
            },
        }
    }

    /// Renders the lines of a document.
    pub fn parse_lines(&self, lines: &[Vec<char>]) -> (r: Vec<char>)
        requires
            patterns_compile(),
        ensures
            r@ == document_from(texts(lines@), 0, None),
    {
        let ghost all = texts(lines@);
        let mut out: Vec<char> = Vec::new();
        let mut i: usize = 0;
        let mut in_blockquote = false;
        let mut blockquote_content: Vec<char> = Vec::new();
        while i < lines.len()
            invariant
                patterns_compile(),
                all == texts(lines@),
                i <= lines.len(),
                !in_blockquote ==> blockquote_content@.len() == 0,
                out@ + document_from(
                    all,
                    i as int,
                    if in_blockquote {
                        Some(blockquote_content@)
                    } else {
                        None
                    },
                ) == document_from(all, 0, None),
            decreases lines.len() - i,
        {
            let line = trim(lines[i].as_slice());
            if line.len() == 0 && in_blockquote {
                self.push_blockquote(&mut out, blockquote_content.as_slice());
                blockquote_content.clear();
                in_blockquote = false;
                i += 1;
                continue ;
            }
            let element = self.identify_element(line);
            match element {
                Element::Blockquote => {
                    if in_blockquote {
                        push_str(&mut blockquote_content, "<br>");
                    }
                    in_blockquote = true;
                    push_chars(&mut blockquote_content, slice_subrange(line, 2, line.len()));
                    i += 1;
                },
                _ => {
                    let rest = slice_subrange(lines, i, lines.len());
                    proof {
                        assert(texts(rest@) == all.skip(i as int));
                    }
                    let (parsed, consumed) = self.parse_block(rest, element);
                    push_chars(&mut out, parsed.as_slice());
                    i += consumed;
                },
            }
        }
        if in_blockquote && blockquote_content.len() > 0 {
            self.push_blockquote(&mut out, blockquote_content.as_slice());
        }
        out
    }

    /// Renders a document. Nothing that a document holds makes this fail:
    /// text that fits no element becomes a paragraph. The one error is a
    /// `ParsingError`, for a pattern of the parser that does not compile.
    pub fn parse(&self, content: &str) -> (r: Result<String, ConverterError>)
        ensures
            is_parse_of(r, content@),
    {
        if !self.ready() {
            return Err(ConverterError::ParsingError(String::from_str(PATTERN_FAILURE)));
        }
        let text = to_chars(content);
        let lines = split_lines(text.as_slice());
        let html = self.parse_lines(lines.as_slice());
        Ok(collect_string(html.as_slice()))
    }
}

} // verus!
