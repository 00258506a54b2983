//! Syntax highlighting: each code block of a page that names a language is
//! handed to the `syntect` crate, and keeps its place in the page.

use vstd::prelude::*;
use crate::converter::MarkdownConverter;
use crate::lines::{collect_string, texts, to_chars};
use crate::pattern::{
    captures_all, group, group_text, group_texts, interleave, interleaved, pattern_captures,
    pattern_compiles, pattern_gaps, split,
};

verus! {

/// A code block with a language: the language in the first group, the code
/// in the second.
pub const CODE_BLOCK_PATTERN: &'static str =
    r#"<pre><code class="language-(\w+)">([\s\S]*?)</code></pre>"#;

/// The name of the theme that colours the code.
pub const THEME: &'static str = "base16-ocean.dark";

/// The HTML that `syntect` makes of `code` in the language that it knows
/// by the token `language`, coloured by the one of its themes that is
/// called `theme`; `None` where it knows no such language or theme, or
/// fails on the code.
pub uninterp spec fn highlighted_code(
    theme: Seq<char>,
    language: Seq<char>,
    code: Seq<char>,
) -> Option<Seq<char>>;

/// What takes the place of one matched code block: the highlighted code,
/// or the block as it was where there is none.
pub open spec fn highlighted_block(groups: Seq<Option<Seq<char>>>) -> Seq<char> {
    match highlighted_code(THEME@, group_text(groups, 1), group_text(groups, 2)) {
        Some(html) => html,
        None => group_text(groups, 0),
    }
}

/// A page with its code blocks highlighted.
pub open spec fn highlighted_page(html: Seq<char>) -> Seq<char> {
    interleaved(
        pattern_gaps(CODE_BLOCK_PATTERN@, html),
        pattern_captures(CODE_BLOCK_PATTERN@, html).map_values(
            |groups: Seq<Option<Seq<char>>>| highlighted_block(groups),
        ),
    )
}

/// The characters of an optional text.
pub open spec fn text_of(t: Option<Vec<char>>) -> Option<Seq<char>> {
    match t {
        Some(v) => Some(v@),
        None => None,
    }
}

/// `syntect::html::highlighted_html_for_string` on `code`, with the syntax
/// that `SyntaxSet::find_syntax_by_token` finds for `language` among the
/// crate's default syntaxes, and with the theme called `theme` among its
/// default themes. `None` where no syntax or no theme is found, or the
/// crate reports an error.
#[verifier::external_body]
pub(crate) fn highlight(theme: &str, language: &[char], code: &[char]) -> (r: Option<Vec<char>>)
    ensures
        text_of(r) == highlighted_code(theme@, language@, code@),
{
    let syntaxes = syntect::parsing::SyntaxSet::load_defaults_newlines();
    let themes = syntect::highlighting::ThemeSet::load_defaults();
    let token = String::from_iter(language.iter());
    let source = String::from_iter(code.iter());
    let syntax = syntaxes.find_syntax_by_token(&token)?;
    let theme = themes.themes.get(theme)?;
    let html = syntect::html::highlighted_html_for_string(&source, &syntaxes, syntax, theme).ok()?;
    Some(html.chars().collect())
}

/// Renders what takes the place of one matched code block.
pub fn highlight_block(groups: &Vec<Option<Vec<char>>>) -> (r: Vec<char>)
    ensures
        r@ == highlighted_block(group_texts(groups@)),
{
    match highlight(THEME, group(groups, 1), group(groups, 2)) {
        Some(html) => html,
        None => vstd::slice::slice_to_vec(group(groups, 0)),
    }
}

impl MarkdownConverter {
    /// Highlights the code blocks of a page.
    pub fn apply_syntax_highlighting(&self, html: &str) -> (r: String)
        requires
            pattern_compiles(CODE_BLOCK_PATTERN@),
        ensures
            r@ == highlighted_page(html@),
    {
        let text = to_chars(html);
        let found = captures_all(CODE_BLOCK_PATTERN, text.as_slice());
        let gaps = split(CODE_BLOCK_PATTERN, text.as_slice());
        let mut reps: Vec<Vec<char>> = Vec::new();
        let mut i: usize = 0;
        while i < found.len()
            invariant
                i <= found.len(),
                reps.len() == i,
                forall|j: int|
                    0 <= j < i ==> (#[trigger] reps@[j])@ == highlighted_block(
                        group_texts(found@[j]@),
                    ),
            decreases found.len() - i,
        {
            reps.push(highlight_block(&found[i]));
            i += 1;
        }
        proof {
            assert(texts(reps@) == pattern_captures(CODE_BLOCK_PATTERN@, text@).map_values(
                |groups: Seq<Option<Seq<char>>>| highlighted_block(groups),
            ));
        }
        let out = interleave(&gaps, &reps);
        collect_string(out.as_slice())
    }
}

} // verus!
