//! The code block sub-parser: the lines between two fences, escaped and
//! otherwise untouched.

use vstd::prelude::*;
use crate::fence::{fenced_len, fenced_lines, find_fence, first_fence, is_closed, Fence};
use crate::lines::{push_chars, push_str, texts};
use crate::parser::MarkdownParser;
use crate::text::{strip_start, stripped_start, trim, trimmed, CharClass};

verus! {

/// What stands for `c` in HTML text: an entity for `&`, `<`, `>`, `"` and
/// `'`, and the character itself for every other.
pub open spec fn escaped_char(c: char) -> Seq<char> {
    if c == '&' {
        "&amp;"@
    } else if c == '<' {
        "&lt;"@
    } else if c == '>' {
        "&gt;"@
    } else if c == '"' {
        "&quot;"@
    } else if c == '\'' {
        "&#39;"@
    } else {
        seq![c]
    }
}

/// `s` with each character escaped.
pub open spec fn escaped(s: Seq<char>) -> Seq<char>
    decreases s.len(),
{
    if s.len() == 0 {
        Seq::empty()
    } else {
        escaped_char(s[0]) + escaped(s.drop_first())
    }
}

/// The language named on an opening fence: what follows the backticks,
/// without the white space round it.
pub open spec fn language_of(fence: Seq<char>) -> Seq<char> {
    trimmed(stripped_start(fence, CharClass::Only('`')))
}

/// The tags that open a code block; the language goes into the class
/// unescaped, and without a language there is no class.
pub open spec fn code_open_tag(fence: Seq<char>) -> Seq<char> {
    if language_of(fence).len() > 0 {
        "<pre><code class=\"language-"@ + language_of(fence) + "\">"@
    } else {
        "<pre><code>"@
    }
}

/// The lines of code: each escaped and ended by a line feed.
pub open spec fn code_body(lines: Seq<Seq<char>>) -> Seq<char>
    decreases lines.len(),
{
    if lines.len() == 0 {
        Seq::empty()
    } else {
        code_body(lines.drop_last()) + escaped(lines.last()) + seq!['\n']
    }
}

/// The HTML of the code block among `lines`: the opening tags, the escaped
/// lines between the fences, and the closing tags where a second fence
/// closes the block. Lines before the first fence leave no trace, and
/// without any fence there is no output.
pub open spec fn code_block_html(lines: Seq<Seq<char>>) -> Seq<char> {
    let open = first_fence(Fence::Code, lines) as int;
    if open >= lines.len() {
        Seq::empty()
    } else {
        code_open_tag(lines[open]) + code_body(fenced_lines(Fence::Code, lines)) + if is_closed(
            Fence::Code,
            lines,
        ) {
            "</code></pre>\n"@
        } else {
            Seq::empty()
        }
    }
}

/// Escaping goes character by character.
pub proof fn lemma_escaped_push(s: Seq<char>, c: char)
    ensures
        escaped(s.push(c)) == escaped(s) + escaped_char(c),
    decreases s.len(),
{
    if s.len() == 0 {
        reveal_with_fuel(escaped, 2);
    } else {
        assert(s.push(c).drop_first() == s.drop_first().push(c));
        lemma_escaped_push(s.drop_first(), c);
    }
}

/// Appends what stands for `c` in HTML text.
pub fn push_escaped_char(out: &mut Vec<char>, c: char)
    ensures
        final(out)@ == old(out)@ + escaped_char(c),
{
    if c == '&' {
        push_str(out, "&amp;");
    } else if c == '<' {
        push_str(out, "&lt;");
    } else if c == '>' {
        push_str(out, "&gt;");
    } else if c == '"' {
        push_str(out, "&quot;");
    } else if c == '\'' {
        push_str(out, "&#39;");
    } else {
        out.push(c);
    }
}

/// Appends `s` with each character escaped.
pub fn push_escaped(out: &mut Vec<char>, s: &[char])
    ensures
        final(out)@ == old(out)@ + escaped(s@),
{
    let ghost before = out@;
    let mut i: usize = 0;
    while i < s.len()
        invariant
            i <= s.len(),
            out@ == before + escaped(s@.take(i as int)),
        decreases s.len() - i,
    {
        proof {
            lemma_escaped_push(s@.take(i as int), s@[i as int]);
            assert(s@.take(i + 1) == s@.take(i as int).push(s@[i as int]));
        }
        push_escaped_char(out, s[i]);
        i += 1;
    }
    proof {
        assert(s@.take(s.len() as int) == s@);
    }
}

impl MarkdownParser {
    /// Renders the code block among `lines` and tells how many lines it
    /// took: all up to the closing fence, or all there are.
    pub fn parse_code_block(&self, lines: &[Vec<char>]) -> (r: (Vec<char>, usize))
        ensures
            r.0@ == code_block_html(texts(lines@)),
            r.1 == fenced_len(Fence::Code, texts(lines@)),
            r.1 <= lines@.len(),
            lines@.len() > 0 ==> r.1 >= 1,
    {
        let ghost all = texts(lines@);
        let mut out: Vec<char> = Vec::new();
        proof {
            assert(all.skip(0) == all);
        }
        let open = find_fence(Fence::Code, lines, 0);
        if open >= lines.len() {
            return (out, lines.len());
        }
        let language = trim(strip_start(lines[open].as_slice(), CharClass::Only('`')));
        if language.len() > 0 {
            push_str(&mut out, "<pre><code class=\"language-");
            push_chars(&mut out, language);
            push_str(&mut out, "\">");
        } else {
            push_str(&mut out, "<pre><code>");
        }
        let close = find_fence(Fence::Code, lines, open + 1);
        let ghost after = all.skip(open + 1);
        let mut i: usize = open + 1;
        while i < close
            invariant
                all == texts(lines@),
                after == all.skip(open + 1),
                open < i <= close <= lines.len(),
                out@ == code_open_tag(all[open as int]) + code_body(after.take(i - open - 1)),
            decreases close - i,
        {
            proof {
                assert(after.take(i - open).drop_last() == after.take(i - open - 1));
            }
            push_escaped(&mut out, lines[i].as_slice());
            out.push('\n');
            i += 1;
        }
        if close < lines.len() {
            push_str(&mut out, "</code></pre>\n");
            (out, close + 1)
        } else {
            (out, lines.len())
        }
    }
}

} // verus!
