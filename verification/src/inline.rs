//! The inline formatter: the rewriting passes that turn the markup inside
//! one piece of text into HTML, always in the same order.
//!
//! Every pattern of the formatter holds one of six characters as a
//! literal, so no pass can match in text that holds none of them. Such
//! text is plain: the formatter returns it as it is and spares the passes.

use vstd::prelude::*;
use vstd::slice::slice_to_vec;
use crate::lines::{push_chars, push_str, texts};
use crate::parser::MarkdownParser;
use crate::pattern::{
    captures_all, compiles, group, group_text, group_texts, interleave, interleaved,
    pattern_captures, pattern_compiles, pattern_gaps, pattern_replaced, replace_all, split,
};
use crate::text::contains_char;

verus! {

/// Inline math: text between two dollar signs.
pub const MATH_PATTERN: &'static str = r"\$([^$]+?)\$";

/// What inline math becomes.
pub const MATH_TEMPLATE: &'static str = r#"<span class="math-inline">$$$1$$</span>"#;

/// An image: an exclamation mark, the alternative text in square brackets
/// and the source in round brackets.
pub const IMAGE_PATTERN: &'static str = r"!\[(.+?)\]\((.+?)\)";

/// What an image becomes.
pub const IMAGE_TEMPLATE: &'static str = r#"<img src="$2" alt="$1">"#;

/// Bold text: between doubled asterisks or doubled underscores.
pub const BOLD_PATTERN: &'static str = r"\*\*(.+?)\*\*|__(.+?)__";

/// What bold text becomes.
pub const BOLD_TEMPLATE: &'static str = "<strong>$1$2</strong>";

/// Italic text: between asterisks or underscores.
pub const ITALIC_PATTERN: &'static str = r"\*(.+?)\*|_(.+?)_";

/// What italic text becomes.
pub const ITALIC_TEMPLATE: &'static str = "<em>$1$2</em>";

/// A code span: between backticks.
pub const CODE_PATTERN: &'static str = r"`(.+?)`";

/// What a code span becomes.
pub const CODE_TEMPLATE: &'static str = "<code>$1</code>";

/// A link: the text in square brackets and the target in round brackets.
pub const LINK_PATTERN: &'static str = r"\[(.+?)\]\((.+?)\)";

/// What a link becomes.
pub const LINK_TEMPLATE: &'static str = r#"<a href="$2">$1</a>"#;

/// Struck-out text: between doubled tildes.
pub const STRIKETHROUGH_PATTERN: &'static str = r"~~(.+?)~~";

/// What struck-out text becomes.
pub const STRIKETHROUGH_TEMPLATE: &'static str = "<del>$1</del>";

/// A task: the whole text, where it starts with a box that is ticked or
/// empty.
pub const TASK_PATTERN: &'static str = r"^\[([x ])\](.+)$";

/// Whether the `regex` crate compiles every pattern of the inline formatter.
pub open spec fn inline_patterns_compile() -> bool {
    &&& pattern_compiles(MATH_PATTERN@)
    &&& pattern_compiles(IMAGE_PATTERN@)
    &&& pattern_compiles(BOLD_PATTERN@)
    &&& pattern_compiles(ITALIC_PATTERN@)
    &&& pattern_compiles(CODE_PATTERN@)
    &&& pattern_compiles(LINK_PATTERN@)
    &&& pattern_compiles(STRIKETHROUGH_PATTERN@)
    &&& pattern_compiles(TASK_PATTERN@)
}

/// The checkbox that stands for one matched task: disabled, checked where
/// the box holds an `x`, and followed by the text of the task.
pub open spec fn task_box_html(groups: Seq<Option<Seq<char>>>) -> Seq<char> {
    "<input type=\"checkbox\" disabled"@ + (if group_text(groups, 1).contains('x') {
        " checked"@
    } else {
        Seq::empty()
    }) + ">"@ + group_text(groups, 2)
}

/// `text` with each matched task replaced by its checkbox.
pub open spec fn task_boxes_html(text: Seq<char>) -> Seq<char> {
    interleaved(
        pattern_gaps(TASK_PATTERN@, text),
        pattern_captures(TASK_PATTERN@, text).map_values(
            |groups: Seq<Option<Seq<char>>>| task_box_html(groups),
        ),
    )
}

/// Whether `c` is one of the characters that inline markup is made with:
/// `$`, `*`, `_`, a backtick, `[` and `~`.
pub open spec fn is_inline_markup(c: char) -> bool {
    c == '$' || c == '*' || c == '_' || c == '`' || c == '[' || c == '~'
}

/// Whether `text` holds no character of inline markup.
pub open spec fn is_plain(text: Seq<char>) -> bool {
    forall|i: int| 0 <= i < text.len() ==> !is_inline_markup(#[trigger] text[i])
}

/// What the passes make of `text`. They run in this order: inline math,
/// images, bold, italic, code spans, links, strikethrough, and the checkbox
/// of a task last. Each pass works on what the pass before it returned.
pub open spec fn passes_html(text: Seq<char>) -> Seq<char> {
    let math = pattern_replaced(MATH_PATTERN@, text, MATH_TEMPLATE@);
    let image = pattern_replaced(IMAGE_PATTERN@, math, IMAGE_TEMPLATE@);
    let bold = pattern_replaced(BOLD_PATTERN@, image, BOLD_TEMPLATE@);
    let italic = pattern_replaced(ITALIC_PATTERN@, bold, ITALIC_TEMPLATE@);
    let code = pattern_replaced(CODE_PATTERN@, italic, CODE_TEMPLATE@);
    let link = pattern_replaced(LINK_PATTERN@, code, LINK_TEMPLATE@);
    let strikethrough = pattern_replaced(STRIKETHROUGH_PATTERN@, link, STRIKETHROUGH_TEMPLATE@);
    task_boxes_html(strikethrough)
}

/// The HTML of one piece of text: the text itself where it is plain, and
/// otherwise what the passes make of it.
pub open spec fn inline_html(text: Seq<char>) -> Seq<char> {
    if is_plain(text) {
        text
    } else {
        passes_html(text)
    }
}

/// Tells whether every pattern of the inline formatter compiles.
pub fn inline_patterns_ready() -> (r: bool)
    ensures
        r == inline_patterns_compile(),
{
    compiles(MATH_PATTERN) && compiles(IMAGE_PATTERN) && compiles(BOLD_PATTERN) && compiles(
        ITALIC_PATTERN,
    ) && compiles(CODE_PATTERN) && compiles(LINK_PATTERN) && compiles(STRIKETHROUGH_PATTERN)
        && compiles(TASK_PATTERN)
}

/// Renders the checkbox for one matched task.
pub fn task_box(groups: &Vec<Option<Vec<char>>>) -> (r: Vec<char>)
    ensures
        r@ == task_box_html(group_texts(groups@)),
{
    let mut out: Vec<char> = Vec::new();
    push_str(&mut out, "<input type=\"checkbox\" disabled");
    if contains_char(group(groups, 1), 'x') {
        push_str(&mut out, " checked");
    }
    push_str(&mut out, ">");
    push_chars(&mut out, group(groups, 2));
    out
}

/// Replaces each matched task in `text` by its checkbox.
pub fn task_boxes(text: &[char]) -> (r: Vec<char>)
    requires
        pattern_compiles(TASK_PATTERN@),
    ensures
        r@ == task_boxes_html(text@),
{
    let found = captures_all(TASK_PATTERN, text);
    let gaps = split(TASK_PATTERN, text);
    let mut reps: Vec<Vec<char>> = Vec::new();
    let mut i: usize = 0;
    while i < found.len()
        invariant
            i <= found.len(),
            reps.len() == i,
            forall|j: int|
                0 <= j < i ==> (#[trigger] reps@[j])@ == task_box_html(group_texts(found@[j]@)),
        decreases found.len() - i,
    {
        reps.push(task_box(&found[i]));
        i += 1;
    }
    proof {
        assert(texts(reps@) == pattern_captures(TASK_PATTERN@, text@).map_values(
            |groups: Seq<Option<Seq<char>>>| task_box_html(groups),
        )) by {}
    }
    interleave(&gaps, &reps)
}

/// Tells whether `c` is a character of inline markup.
pub fn inline_markup(c: char) -> (r: bool)
    ensures
        r == is_inline_markup(c),
{
    c == '$' || c == '*' || c == '_' || c == '`' || c == '[' || c == '~'
}

/// Tells whether `text` holds no character of inline markup.
pub fn plain(text: &[char]) -> (r: bool)
    ensures
        r == is_plain(text@),
{
    let mut i: usize = 0;
    while i < text.len()
        invariant
            i <= text.len(),
            forall|j: int| 0 <= j < i ==> !is_inline_markup(#[trigger] text@[j]),
        decreases text.len() - i,
    {
        if inline_markup(text[i]) {
            return false;
        }
        i += 1;
    }
    true
}

impl MarkdownParser {
    /// Formats the markup inside one piece of text.
    pub fn parse_inline(&self, text: &[char]) -> (r: Vec<char>)
        requires
            inline_patterns_compile(),
        ensures
            r@ == inline_html(text@),
    {
        if plain(text) {
            return slice_to_vec(text);
        }
        let math = replace_all(MATH_PATTERN, text, MATH_TEMPLATE);
        let image = replace_all(IMAGE_PATTERN, math.as_slice(), IMAGE_TEMPLATE);
        let bold = replace_all(BOLD_PATTERN, image.as_slice(), BOLD_TEMPLATE);
        let italic = replace_all(ITALIC_PATTERN, bold.as_slice(), ITALIC_TEMPLATE);
        let code = replace_all(CODE_PATTERN, italic.as_slice(), CODE_TEMPLATE);
        let link = replace_all(LINK_PATTERN, code.as_slice(), LINK_TEMPLATE);
        let strikethrough = replace_all(
            STRIKETHROUGH_PATTERN,
            link.as_slice(),
            STRIKETHROUGH_TEMPLATE,
        );
        task_boxes(strikethrough.as_slice())
    }
}

} // verus!
