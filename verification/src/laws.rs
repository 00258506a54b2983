//! What holds of the HTML of whole families of documents.

use vstd::prelude::*;
use crate::code_block::{code_block_html, code_body, escaped, escaped_char, language_of};
use crate::element::{element_of, is_code_fence, is_heading, is_run_of, is_unordered_item, Element};
use crate::list::list_html;
use crate::math_block::{joined, math_block_html};
use crate::nesting::{
    is_marked, is_plain_text, items_html, lemma_marked_run, lemma_plain_items, plain_items_html,
};
use crate::fence::{fenced_len, fenced_lines, is_closed, is_fence, lemma_first_fence, Fence};
use crate::lines::lines_of;
use crate::parser::{block_html, block_len, document_from, document_html, heading_html};
use crate::text::{
    decimal, digit, is_blank, is_white_space, lemma_first_of, lemma_leading, lemma_stripped,
    lemma_stripped_part, stripped_start, trimmed, CharClass,
};

verus! {

/// `n` times `#`.
pub open spec fn hashes(n: nat) -> Seq<char> {
    Seq::new(n, |i: int| '#')
}

/// A document of one line that holds one to six `#`, a space and a text
/// becomes a heading of that level, with the text, without the white space
/// round it, between the tags.
pub proof fn lemma_heading_line(n: nat, text: Seq<char>)
    requires
        1 <= n <= 6,
        !text.contains('\n'),
        !is_blank(text),
    ensures
        document_html(hashes(n) + seq![' '] + text) == "<h"@ + seq![digit(n)] + ">"@ + trimmed(text)
            + "</h"@ + seq![digit(n)] + ">\n"@,
{
    let content = hashes(n) + seq![' '] + text;
    let ws = CharClass::WhiteSpace;
    let hash = CharClass::Only('#');
    assert forall|j: int| 0 <= j < content.len() implies !CharClass::Only('\n').holds(
        #[trigger] content[j],
    ) by {
        if j > n {
            assert(content[j] == text[j - n - 1]);
            assert(text.contains(text[j - n - 1]));
        }
    }
    lemma_first_of(content, CharClass::Only('\n'), content.len() as int);
    let lines = lines_of(content);
    assert(lines == seq![content]);
    let (a, b) = lemma_stripped_part(text, ws);
    assert(a < b);
    let end = n + 1 + b;
    assert forall|j: int| end <= j < content.len() implies ws.holds(#[trigger] content[j]) by {
        assert(content[j] == text[j - n - 1]);
    }
    assert(content[end - 1] == text[b - 1]);
    lemma_stripped(content, ws, 0, end);
    let line = content.subrange(0, end);
    assert(trimmed(lines[0]) == line);
    lemma_leading(line, hash, n as int);
    assert(line[n as int] == ' ');
    assert(is_heading(line));
    assert(element_of(line) == Element::Heading(n as usize));
    let after = stripped_start(line, hash);
    assert(after == line.skip(n as int));
    assert forall|j: int| 0 <= j < 1 + a implies ws.holds(#[trigger] after[j]) by {
        if j > 0 {
            assert(after[j] == text[j - 1]);
        }
    }
    assert(after[1 + a] == text[a]);
    assert(after[b] == text[b - 1]);
    lemma_stripped(after, ws, 1 + a, 1 + b);
    assert(after.subrange(1 + a, 1 + b) == text.subrange(a, b));
    assert(decimal(n) == seq![digit(n)]);
    assert(lines.skip(0) == lines);
    assert(block_len(lines, Element::Heading(n as usize)) == 1);
    assert(block_html(lines, Element::Heading(n as usize)) == heading_html(line, n));
    assert(document_from(lines, 1, None) == Seq::<char>::empty());
    assert(document_from(lines, 0, None) == heading_html(line, n) + Seq::<char>::empty());
}

/// A document of lines that all hold `-` or `*` and a space after the same
/// indentation, the first of them with text behind the marker, becomes one
/// list with one item for each line, and nothing else.
pub proof fn lemma_list_document(lines: Seq<Seq<char>>, indent: nat)
    requires
        lines.len() > 0,
        indent <= usize::MAX,
        forall|i: int| 0 <= i < lines.len() ==> is_marked(#[trigger] lines[i], indent),
        !is_blank(lines[0].skip(indent as int + 2)),
    ensures
        document_from(lines, 0, None) == "<ul>\n"@ + items_html(lines, false) + "</ul>\n"@,
{
    let ws = CharClass::WhiteSpace;
    let first = lines[0];
    let text = first.skip(indent as int + 2);
    assert(is_marked(first, indent));
    let (a, b) = lemma_stripped_part(first, ws);
    assert(a == indent) by {
        if a > indent {
            assert(ws.holds(first[indent as int]));
        }
        if a < indent {
            assert(ws.holds(first[a]));
        }
    }
    assert(b >= indent + 3) by {
        if b < indent + 3 {
            assert forall|j: int| 0 <= j < text.len() implies is_white_space(#[trigger] text[j]) by {
                assert(text[j] == first[j + indent + 2]);
            }
        }
    }
    let line = first.subrange(indent as int, b);
    assert(trimmed(first) == line);
    assert(line[0] == first[indent as int] && line[1] == ' ');
    lemma_leading(line, CharClass::Only('#'), 0);
    lemma_leading(line, ws, 0);
    assert(!is_run_of(line, '-', 3) && !is_run_of(line, '_', 3) && !is_run_of(line, '*', 3)) by {
        assert(line[1] == ' ');
    }
    assert(is_unordered_item(line));
    assert(element_of(line) == Element::UnorderedList);
    lemma_marked_run(lines, indent);
    assert(lines.skip(0) == lines);
    assert(block_html(lines, Element::UnorderedList) == list_html(lines, false));
    assert(block_len(lines, Element::UnorderedList) == lines.len());
    assert(document_from(lines, lines.len() as int, None) == Seq::<char>::empty());
    assert(document_from(lines, 0, None) == list_html(lines, false) + Seq::<char>::empty());
}

/// A document of lines that all hold `-` or `*`, a space and plain text
/// after the same indentation becomes one list that holds the texts, one
/// item for each line and in the order of the lines, and nothing else.
pub proof fn lemma_plain_list_document(lines: Seq<Seq<char>>, indent: nat)
    requires
        lines.len() > 0,
        indent <= usize::MAX,
        forall|i: int|
            0 <= i < lines.len() ==> is_marked(#[trigger] lines[i], indent) && is_plain_text(
                lines[i].skip(indent as int + 2),
            ),
    ensures
        document_from(lines, 0, None) == "<ul>\n"@ + plain_items_html(lines, indent) + "</ul>\n"@,
{
    let text = lines[0].skip(indent as int + 2);
    assert(!is_white_space(text[0]));
    lemma_list_document(lines, indent);
    lemma_plain_items(lines, indent);
}

/// Whether `c` is one of the characters that escaping replaces.
pub open spec fn is_markup(c: char) -> bool {
    c == '&' || c == '<' || c == '>' || c == '"' || c == '\''
}

/// Escaped text holds no `<`, `>`, `"` or `'`.
pub proof fn lemma_escaped_holds_no_markup(s: Seq<char>)
    ensures
        forall|i: int|
            0 <= i < escaped(s).len() ==> {
                let c = #[trigger] escaped(s)[i];
                c != '<' && c != '>' && c != '"' && c != '\''
            },
    decreases s.len(),
{
    if s.len() > 0 {
        lemma_escaped_holds_no_markup(s.drop_first());
        reveal_strlit("&amp;");
        reveal_strlit("&lt;");
        reveal_strlit("&gt;");
        reveal_strlit("&quot;");
        reveal_strlit("&#39;");
        let head = escaped_char(s[0]);
        let tail = escaped(s.drop_first());
        assert forall|i: int| 0 <= i < escaped(s).len() implies {
            let c = #[trigger] escaped(s)[i];
            c != '<' && c != '>' && c != '"' && c != '\''
        } by {
            if i >= head.len() {
                assert(escaped(s)[i] == tail[i - head.len()]);
            } else {
                assert(escaped(s)[i] == head[i]);
            }
        }
    }
}

/// Escaping leaves text without markup characters as it is.
pub proof fn lemma_escaped_plain_text(s: Seq<char>)
    requires
        forall|i: int| 0 <= i < s.len() ==> !is_markup(#[trigger] s[i]),
    ensures
        escaped(s) == s,
    decreases s.len(),
{
    if s.len() > 0 {
        let rest = s.drop_first();
        assert forall|i: int| 0 <= i < rest.len() implies !is_markup(#[trigger] rest[i]) by {
            assert(rest[i] == s[i + 1]);
        }
        lemma_escaped_plain_text(rest);
        assert(!is_markup(s[0]));
        assert(seq![s[0]] + rest == s);
    }
}

/// Three backticks.
pub open spec fn backticks() -> Seq<char> {
    seq!['`', '`', '`']
}

/// A fence with a language, lines of code and a closing fence become one
/// code block that takes all these lines: the language, as it is, in the
/// class of the opening tag, and between the tags each line escaped.
pub proof fn lemma_fenced_code(language: Seq<char>, code: Seq<Seq<char>>)
    requires
        language.len() > 0,
        language[0] != '`',
        !is_white_space(language[0]),
        !is_white_space(language.last()),
        forall|i: int| 0 <= i < code.len() ==> !is_code_fence(#[trigger] code[i]),
    ensures
        code_block_html(seq![backticks() + language] + code + seq![backticks()])
            == "<pre><code class=\"language-"@ + language + "\">"@ + code_body(code)
            + "</code></pre>\n"@,
        fenced_len(Fence::Code, seq![backticks() + language] + code + seq![backticks()])
            == code.len() + 2,
{
    let open = backticks() + language;
    let lines = seq![open] + code + seq![backticks()];
    let tick = CharClass::Only('`');
    lemma_first_fence(Fence::Code, lines, 0);
    let after = lines.skip(1);
    assert(after == code + seq![backticks()]);
    assert forall|j: int| 0 <= j < code.len() implies !is_fence(Fence::Code, #[trigger] after[j]) by {
        assert(after[j] == code[j]);
    }
    assert(after[code.len() as int] == backticks());
    lemma_first_fence(Fence::Code, after, code.len() as int);
    assert(after.take(code.len() as int) == code);
    assert(is_closed(Fence::Code, lines));
    assert(fenced_lines(Fence::Code, lines) == code);
    lemma_leading(open, tick, 3);
    assert(stripped_start(open, tick) == language);
    lemma_stripped(language, CharClass::WhiteSpace, 0, language.len() as int);
    assert(language.subrange(0, language.len() as int) == language);
    assert(language_of(lines[0]) == language);
}

/// Two dollar signs.
pub open spec fn dollars() -> Seq<char> {
    seq!['$', '$']
}

/// A fence, lines of mathematics and a closing fence become one math block
/// that takes all these lines: the lines, each ended by a line feed and
/// all of it without the white space round it, between the delimiters.
pub proof fn lemma_fenced_math(inner: Seq<Seq<char>>)
    requires
        forall|i: int| 0 <= i < inner.len() ==> !is_fence(Fence::Math, #[trigger] inner[i]),
    ensures
        math_block_html(seq![dollars()] + inner + seq![dollars()]) == "<div class=\"math-block\">$$"@
            + trimmed(joined(inner)) + "$$</div>\n"@,
        fenced_len(Fence::Math, seq![dollars()] + inner + seq![dollars()]) == inner.len() + 2,
{
    let lines = seq![dollars()] + inner + seq![dollars()];
    lemma_stripped(dollars(), CharClass::WhiteSpace, 0, 2);
    assert(dollars().subrange(0, 2) == dollars());
    assert(is_fence(Fence::Math, dollars()));
    lemma_first_fence(Fence::Math, lines, 0);
    let after = lines.skip(1);
    assert(after == inner + seq![dollars()]);
    assert forall|j: int| 0 <= j < inner.len() implies !is_fence(Fence::Math, #[trigger] after[j]) by {
        assert(after[j] == inner[j]);
    }
    assert(after[inner.len() as int] == dollars());
    lemma_first_fence(Fence::Math, after, inner.len() as int);
    assert(after.take(inner.len() as int) == inner);
    assert(is_closed(Fence::Math, lines));
    assert(fenced_lines(Fence::Math, lines) == inner);
}

} // verus!
