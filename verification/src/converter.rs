//! The converter: what turns the text of a Markdown file into the text of
//! an HTML page.

use vstd::prelude::*;
use vstd::string::StringExecFns;
use std::path::PathBuf;
use crate::error::ConverterError;
use crate::highlight::{highlighted_page, CODE_BLOCK_PATTERN};
use crate::lines::{
    collect_string, lines_of, push_chars, split_lines, texts, to_chars, without_carriage_return,
};
use crate::parser::{document_html, patterns_compile, MarkdownParser, PATTERN_FAILURE};
use crate::pattern::{compiles, pattern_compiles};
use crate::text::{
    first_of, lemma_first_of_found, lemma_stripped_part, trim, trimmed, CharClass,
};
use crate::toc::{with_contents, HEADING_PATTERN};

verus! {

/// A path in the file system, as the standard library holds it. Nothing is
/// known here of what it holds.
#[verifier::external_type_specification]
#[verifier::external_body]
pub struct ExPathBuf(PathBuf);

/// A page up to its style sheet.
pub const PAGE_HEAD: &'static str = r#"<!DOCTYPE html>
<html>
<head>
    <meta charset="UTF-8">
    <link rel="stylesheet" href="https://cdn.jsdelivr.net/npm/katex@0.16.9/dist/katex.min.css">
    <script src="https://cdn.jsdelivr.net/npm/katex@0.16.9/dist/katex.min.js"></script>
    <script src="https://cdn.jsdelivr.net/npm/katex@0.16.9/dist/contrib/auto-render.min.js"></script>
    <style>
        "#;

/// A page between its style sheet and its body.
pub const PAGE_MIDDLE: &'static str = r#"
    </style>
    <script>
        document.addEventListener("DOMContentLoaded", function() {
            renderMathInElement(document.body, {
                delimiters: [
                    {left: "$$", right: "$$", display: true},
                    {left: "$", right: "$", display: false}
                ],
                throwOnError: false,
                fleqn: false,
                leqno: false,
                strict: false,
                trust: true,
                macros: {
                    "\\mathbf": "\\boldsymbol"
                }
            });
        });
    </script>
</head>
<body>
"#;

/// A page after its body.
pub const PAGE_TAIL: &'static str = r#"
</body>
</html>"#;

/// Converts one Markdown file into one HTML page.
pub struct MarkdownConverter {
    input_path: PathBuf,
    output_path: PathBuf,
    css_path: Option<PathBuf>,
    syntax_highlight: bool,
    generate_toc: bool,
    minify: bool,
}

/// The page round a body: the style sheet in the head, the body in the
/// body.
pub open spec fn page_html(css: Seq<char>, body: Seq<char>) -> Seq<char> {
    PAGE_HEAD@ + css + PAGE_MIDDLE@ + body + PAGE_TAIL@
}

/// `lines` in a row, each without the white space round it.
pub open spec fn packed(lines: Seq<Seq<char>>) -> Seq<char>
    decreases lines.len(),
{
    if lines.len() == 0 {
        Seq::empty()
    } else {
        packed(lines.drop_last()) + trimmed(lines.last())
    }
}

/// A page without its line breaks and without the white space at the ends
/// of its lines.
pub open spec fn minified(html: Seq<char>) -> Seq<char> {
    packed(lines_of(html))
}

/// No line of a document holds a line feed.
pub proof fn lemma_lines_hold_no_line_feed(s: Seq<char>)
    ensures
        forall|i: int| 0 <= i < lines_of(s).len() ==> !(#[trigger] lines_of(s)[i]).contains('\n'),
    decreases s.len(),
{
    let class = CharClass::Only('\n');
    let k = first_of(s, class) as int;
    lemma_first_of_found(s, class);
    if s.len() > 0 && k < s.len() {
        let rest = s.skip(k + 1);
        lemma_lines_hold_no_line_feed(rest);
        let first = without_carriage_return(s.take(k));
        assert forall|j: int| 0 <= j < first.len() implies first[j] != '\n' by {
            assert(first[j] == s[j]);
        }
        assert forall|i: int| 0 <= i < lines_of(s).len() implies !(#[trigger] lines_of(
            s,
        )[i]).contains('\n') by {
            if i > 0 {
                assert(lines_of(s)[i] == lines_of(rest)[i - 1]);
            }
        }
    } else if s.len() > 0 {
        assert(lines_of(s) == seq![s]);
    }
}

/// A minified page holds no line feed.
pub proof fn lemma_minified_holds_no_line_feed(html: Seq<char>)
    ensures
        !minified(html).contains('\n'),
{
    lemma_lines_hold_no_line_feed(html);
    lemma_packed_holds_no_line_feed(lines_of(html));
}

/// Lines without a line feed pack into text without one.
pub proof fn lemma_packed_holds_no_line_feed(lines: Seq<Seq<char>>)
    requires
        forall|i: int| 0 <= i < lines.len() ==> !(#[trigger] lines[i]).contains('\n'),
    ensures
        !packed(lines).contains('\n'),
    decreases lines.len(),
{
    if lines.len() > 0 {
        let rest = lines.drop_last();
        assert forall|i: int| 0 <= i < rest.len() implies !(#[trigger] rest[i]).contains('\n') by {
            assert(rest[i] == lines[i]);
        }
        lemma_packed_holds_no_line_feed(rest);
        let last = lines.last();
        let (a, b) = lemma_stripped_part(last, CharClass::WhiteSpace);
        let end = trimmed(last);
        assert forall|j: int| 0 <= j < packed(lines).len() implies packed(lines)[j] != '\n' by {
            if j < packed(rest).len() {
                assert(packed(lines)[j] == packed(rest)[j]);
                assert(packed(rest).contains(packed(rest)[j]));
            } else {
                assert(packed(lines)[j] == end[j - packed(rest).len()]);
                assert(end[j - packed(rest).len()] == last[a + j - packed(rest).len()]);
                assert(last.contains(last[a + j - packed(rest).len()]));
            }
        }
    }
}

/// Whether the `regex` crate compiles the two patterns of the converter:
/// that of code blocks and that of headings.
pub open spec fn converter_patterns_compile() -> bool {
    pattern_compiles(CODE_BLOCK_PATTERN@) && pattern_compiles(HEADING_PATTERN@)
}

/// The extension of a page.
pub const PAGE_EXTENSION: &'static str = "html";

/// The path like `path`, but with `extension` for its extension, as the
/// standard library's `Path::with_extension` makes it. What counts as the
/// extension of a path is the platform's to say.
pub uninterp spec fn path_with_extension(path: PathBuf, extension: Seq<char>) -> PathBuf;

/// Whether `extension` holds no character that separates the parts of a
/// path on some platform: no `/` and no `\`.
pub open spec fn holds_no_separator(extension: Seq<char>) -> bool {
    forall|i: int|
        0 <= i < extension.len() ==> #[trigger] extension[i] != '/' && extension[i] != '\\'
}

/// `Path::with_extension`: the path with `extension` for its extension.
/// The standard library panics on an extension that holds a path
/// separator, so none is let in.
#[verifier::external_body]
fn with_extension(path: &PathBuf, extension: &str) -> (r: PathBuf)
    requires
        holds_no_separator(extension@),
    ensures
        r == path_with_extension(*path, extension@),
{
    path.with_extension(extension)
}

impl MarkdownConverter {
    /// Where the Markdown is read from.
    pub closed spec fn spec_input_path(&self) -> PathBuf {
        self.input_path
    }

    /// Where the page is written to.
    pub closed spec fn spec_output_path(&self) -> PathBuf {
        self.output_path
    }

    /// Where the style sheet is read from, if the page has one of its own.
    pub closed spec fn spec_css_path(&self) -> Option<PathBuf> {
        self.css_path
    }

    /// Whether code blocks are highlighted.
    pub closed spec fn spec_syntax_highlight(&self) -> bool {
        self.syntax_highlight
    }

    /// Whether the page starts with a table of contents.
    pub closed spec fn spec_generate_toc(&self) -> bool {
        self.generate_toc
    }

    /// Whether the page is minified.
    pub closed spec fn spec_minify(&self) -> bool {
        self.minify
    }

    /// The body that the converter makes of the Markdown `content`: the
    /// parsed document, with its code highlighted and a table of contents
    /// before it where the converter is set to add them.
    pub open spec fn rendered_body(&self, content: Seq<char>) -> Seq<char> {
        let parsed = document_html(content);
        let highlighted = if self.spec_syntax_highlight() {
            highlighted_page(parsed)
        } else {
            parsed
        };
        if self.spec_generate_toc() {
            with_contents(highlighted)
        } else {
            highlighted
        }
    }

    /// The page that the converter makes of a body and the style sheet
    /// `css`: the body put into a page, which is minified where the
    /// converter is set to do that.
    pub open spec fn rendered_page(&self, body: Seq<char>, css: Seq<char>) -> Seq<char> {
        if self.spec_minify() {
            minified(page_html(css, body))
        } else {
            page_html(css, body)
        }
    }

    /// The page that the converter makes of the Markdown `content` with the
    /// style sheet `css`.
    pub open spec fn rendered(&self, content: Seq<char>, css: Seq<char>) -> Seq<char> {
        self.rendered_page(self.rendered_body(content), css)
    }

    /// Whether the pattern of code blocks compiles, where the converter
    /// needs it.
    pub open spec fn can_highlight(&self) -> bool {
        self.spec_syntax_highlight() ==> pattern_compiles(CODE_BLOCK_PATTERN@)
    }

    /// Whether the pattern of headings compiles, where the converter needs
    /// it.
    pub open spec fn can_list_contents(&self) -> bool {
        self.spec_generate_toc() ==> pattern_compiles(HEADING_PATTERN@)
    }

    /// Tells whether the two patterns of the converter compile. Where they
    /// do, the converter can highlight code and list the contents of a
    /// page, whatever it is set to do.
    pub fn ready(&self) -> (r: bool)
        ensures
            r == converter_patterns_compile(),
            r ==> self.can_highlight() && self.can_list_contents(),
    {
        compiles(CODE_BLOCK_PATTERN) && compiles(HEADING_PATTERN)
    }

    /// A converter for the file at `input_path`. Without an `output_path`
    /// the page goes where the input is, with `html` for its extension.
    pub fn new(
        input_path: PathBuf,
        output_path: Option<PathBuf>,
        css_path: Option<PathBuf>,
        syntax_highlight: bool,
        generate_toc: bool,
        minify: bool,
    ) -> (r: Result<Self, ConverterError>)
        ensures
            r matches Ok(c) && c.spec_input_path() == input_path && c.spec_css_path() == css_path
                && c.spec_syntax_highlight() == syntax_highlight && c.spec_generate_toc()
                == generate_toc && c.spec_minify() == minify && c.spec_output_path()
                == match output_path {
                Some(given) => given,
                None => path_with_extension(input_path, PAGE_EXTENSION@),
            },
    {
        proof {
            reveal_strlit("html");
        }
        let output_path = match output_path {
            Some(given) => given,
            None => with_extension(&input_path, PAGE_EXTENSION),
        };
        Ok(Self { input_path, output_path, css_path, syntax_highlight, generate_toc, minify })
    }

    /// Where the Markdown is read from.
    pub fn input_path(&self) -> (r: &PathBuf)
        ensures
            *r == self.spec_input_path(),
    {
        &self.input_path
    }

    /// Where the page is written to.
    pub fn output_path(&self) -> (r: &PathBuf)
        ensures
            *r == self.spec_output_path(),
    {
        &self.output_path
    }

    /// Where the style sheet is read from, if the page has one of its own.
    pub fn css_path(&self) -> (r: &Option<PathBuf>)
        ensures
            *r == self.spec_css_path(),
    {
        &self.css_path
    }

    /// Whether code blocks are highlighted.
    pub fn syntax_highlight(&self) -> (r: bool)
        ensures
            r == self.spec_syntax_highlight(),
    {
        self.syntax_highlight
    }

    /// Whether the page starts with a table of contents.
    pub fn generate_toc(&self) -> (r: bool)
        ensures
            r == self.spec_generate_toc(),
    {
        self.generate_toc
    }

    /// Whether the page is minified.
    pub fn minify(&self) -> (r: bool)
        ensures
            r == self.spec_minify(),
    {
        self.minify
    }

    /// Puts a body into a page with the style sheet `css`.
    pub fn add_css(&self, html: &str, css: &str) -> (r: String)
        ensures
            r@ == page_html(css@, html@),
    {
        String::from_str(PAGE_HEAD).concat(css).concat(PAGE_MIDDLE).concat(html).concat(PAGE_TAIL)
    }

    /// Makes the body of the page for the Markdown `content`. It fails only
    /// where a pattern that it needs does not compile: with a
    /// `ParsingError` for a pattern of the parser, then with a
    /// `SyntaxHighlightError` for the pattern of code blocks, then with a
    /// `ParsingError` for the pattern of headings.
    pub fn render_body(&self, content: &str) -> (r: Result<String, ConverterError>)
        ensures
            match r {
                Ok(body) => patterns_compile() && self.can_highlight() && self.can_list_contents()
                    && body@ == self.rendered_body(content@),
                Err(ConverterError::ParsingError(detail)) => detail@ == PATTERN_FAILURE@ && (
                !patterns_compile() || (self.can_highlight() && !self.can_list_contents())),
                Err(ConverterError::SyntaxHighlightError(detail)) => detail@ == PATTERN_FAILURE@
                    && patterns_compile() && !self.can_highlight(),
                Err(_) => false,
            },
    {
        let parser = MarkdownParser::new();
        let mut html = match parser.parse(content) {
            Ok(html) => html,
            Err(e) => {
                return Err(e);
            },
        };
        if self.syntax_highlight {
            if !compiles(CODE_BLOCK_PATTERN) {
                return Err(ConverterError::SyntaxHighlightError(String::from_str(PATTERN_FAILURE)));
            }
            html = self.apply_syntax_highlighting(html.as_str());
        }
        if self.generate_toc {
            if !compiles(HEADING_PATTERN) {
                return Err(ConverterError::ParsingError(String::from_str(PATTERN_FAILURE)));
            }
            html = self.generate_table_of_contents(html.as_str());
        }
        Ok(html)
    }

    /// Puts a body into a page with the style sheet `css`, and minifies the
    /// page where the converter is set to do that.
    pub fn render_page(&self, body: &str, css: &str) -> (r: String)
        ensures
            r@ == self.rendered_page(body@, css@),
    {
        let page = self.add_css(body, css);
        if self.minify {
            self.minify_html(page.as_str())
        } else {
            page
        }
    }

    /// Makes the page for the Markdown `content`, with the style sheet
    /// `css`. It fails where making the body fails, and with the same
    /// error.
    pub fn render(&self, content: &str, css: &str) -> (r: Result<String, ConverterError>)
        ensures
            match r {
                Ok(page) => patterns_compile() && self.can_highlight() && self.can_list_contents()
                    && page@ == self.rendered(content@, css@),
                Err(ConverterError::ParsingError(detail)) => detail@ == PATTERN_FAILURE@ && (
                !patterns_compile() || (self.can_highlight() && !self.can_list_contents())),
                Err(ConverterError::SyntaxHighlightError(detail)) => detail@ == PATTERN_FAILURE@
                    && patterns_compile() && !self.can_highlight(),
                Err(_) => false,
            },
    {
        match self.render_body(content) {
            Ok(body) => Ok(self.render_page(body.as_str(), css)),
            Err(e) => Err(e),
        }
    }

    /// Takes the line breaks out of a page, and the white space at the ends
    /// of its lines.
    pub fn minify_html(&self, html: &str) -> (r: String)
        ensures
            r@ == minified(html@),
    {
        let text = to_chars(html);
        let lines = split_lines(text.as_slice());
        let mut out: Vec<char> = Vec::new();
        let mut i: usize = 0;
        while i < lines.len()
            invariant
                i <= lines.len(),
                out@ == packed(texts(lines@).take(i as int)),
            decreases lines.len() - i,
        {
            proof {
                let done = texts(lines@).take(i + 1);
                assert(done.drop_last() == texts(lines@).take(i as int));
            }
            push_chars(&mut out, trim(lines[i].as_slice()));
            i += 1;
        }
        proof {
            assert(texts(lines@).take(lines.len() as int) == texts(lines@));
        }
        collect_string(out.as_slice())
    }
}

} // verus!
