use markdown_converter::converter::MarkdownConverter;
use markdown_converter::error::ConverterError;
use markdown_converter::utils::{
    create_default_css, has_markdown_extension, is_markdown_file, names_markdown_file,
};
use std::path::PathBuf;

fn converter(syntax_highlight: bool, generate_toc: bool, minify: bool) -> MarkdownConverter {
    let c = MarkdownConverter::new(
        PathBuf::from("test.md"),
        None,
        None,
        syntax_highlight,
        generate_toc,
        minify,
    )
    .unwrap();
    assert!(c.ready());
    c
}

#[test]
fn converter_is_ready_whatever_it_is_set_to_do() {
    for (highlight, toc) in [(false, false), (true, false), (false, true), (true, true)] {
        let c = MarkdownConverter::new(PathBuf::from("a.md"), None, None, highlight, toc, false)
            .unwrap();
        assert!(c.ready());
    }
}

#[test]
fn test_converter_initialization() {
    let temp_path = PathBuf::from("/tmp/test.md");

    let converter =
        MarkdownConverter::new(temp_path.clone(), None, None, true, false, false).unwrap();

    assert_eq!(*converter.input_path(), temp_path);
    assert_eq!(converter.syntax_highlight(), true);
    assert_eq!(converter.generate_toc(), false);
    assert_eq!(converter.minify(), false);
}

#[test]
fn test_output_path_generation() {
    let temp_path = PathBuf::from("/tmp/test.md");
    let mut expected_output = temp_path.clone();
    expected_output.set_extension("html");

    let converter =
        MarkdownConverter::new(temp_path.clone(), None, None, false, false, false).unwrap();

    assert_eq!(*converter.output_path(), expected_output);
}

#[test]
fn test_minification() {
    let temp_path = PathBuf::from("/tmp/test.md");

    let converter =
        MarkdownConverter::new(temp_path.clone(), None, None, false, false, true).unwrap();

    let html = "<div>\n    <p>Test</p>\n</div>";
    let minified = converter.minify_html(html);
    assert!(!minified.contains('\n'));
    assert!(!minified.contains("    "));
}

#[test]
fn test_css_handling() {
    let temp_path = PathBuf::from("/tmp/test.md");
    let converter =
        MarkdownConverter::new(temp_path.clone(), None, None, false, false, false).unwrap();

    let html = "<p>Test</p>";
    let result = converter.add_css(html, create_default_css());

    assert!(result.contains("<!DOCTYPE html>"));
    assert!(result.contains("<style>"));
    assert!(result.contains("</style>"));
    assert!(result.contains(html));
}

#[test]
fn given_output_path_is_kept() {
    let c = MarkdownConverter::new(
        PathBuf::from("in.md"),
        Some(PathBuf::from("elsewhere/out.htm")),
        Some(PathBuf::from("style.css")),
        false,
        true,
        true,
    )
    .unwrap();
    assert_eq!(*c.output_path(), PathBuf::from("elsewhere/out.htm"));
    assert_eq!(*c.css_path(), Some(PathBuf::from("style.css")));
    assert_eq!(c.generate_toc(), true);
    assert_eq!(c.minify(), true);
    assert_eq!(c.syntax_highlight(), false);
}

#[test]
fn default_output_path_has_html_extension() {
    let c = MarkdownConverter::new(PathBuf::from("notes/readme.md"), None, None, false, false, false)
        .unwrap();
    assert_eq!(*c.output_path(), PathBuf::from("notes/readme.html"));
    assert_ne!(*c.output_path(), *c.input_path());
    assert_eq!(*c.css_path(), None);
}

#[test]
fn minified_page_is_exact() {
    let c = converter(false, false, true);
    assert_eq!(c.minify_html("<div>\n    <p>Test</p>\n</div>"), "<div><p>Test</p></div>");
    assert_eq!(c.minify_html("a\n\n  \n b c \r\nd"), "ab cd");
    assert_eq!(c.minify_html(""), "");
}

#[test]
fn page_is_exact() {
    let c = converter(false, false, false);
    let page = c.add_css("<p>Test</p>", "p { color: red; }");
    assert!(page.starts_with("<!DOCTYPE html>\n<html>\n<head>\n    <meta charset=\"UTF-8\">\n"));
    assert!(page.contains("    <style>\n        p { color: red; }\n    </style>\n"));
    assert!(page.contains("{left: \"$$\", right: \"$$\", display: true},"));
    assert!(page.contains("\"\\\\mathbf\": \"\\\\boldsymbol\""));
    assert!(page.ends_with("</head>\n<body>\n<p>Test</p>\n</body>\n</html>"));
}

#[test]
fn default_css_styles_the_body() {
    let css = create_default_css();
    assert!(css.starts_with("\n    body {\n        font-family: -apple-system"));
    assert!(css.contains("blockquote {\n        border-left: 4px solid #42b983;"));
    assert!(css.ends_with("th {\n        background-color: #f5f5f5;\n    }\n    "));
}

#[test]
fn table_of_contents_is_nested_by_level() {
    let c = converter(false, true, false);
    let html = "<h1>Top One</h1>\n<p>x</p>\n<h2>Sub</h2>\n<h3>Deep</h3>\n<h1>Next</h1>\n";
    assert_eq!(
        c.generate_table_of_contents(html),
        "<div class=\"table-of-contents\">\n<h2>Table of Contents</h2>\n<ul>\n\
         <li><a href=\"#top-one\">Top One</a></li>\n\
         <ul>\n<li><a href=\"#sub\">Sub</a></li>\n\
         <ul>\n<li><a href=\"#deep\">Deep</a></li>\n\
         </ul>\n</ul>\n<li><a href=\"#next\">Next</a></li>\n\
         </ul>\n</div>\n\
         <h1 id=\"top-one\">Top One</h1>\n<p>x</p>\n<h2 id=\"sub\">Sub</h2>\n<h3 id=\"deep\">Deep</h3>\n<h1 id=\"next\">Next</h1>\n"
    );
}

#[test]
fn table_of_contents_closes_the_lists_left_open() {
    let c = converter(false, true, false);
    assert_eq!(
        c.generate_table_of_contents("<h3>A B C</h3>"),
        "<div class=\"table-of-contents\">\n<h2>Table of Contents</h2>\n<ul>\n\
         <ul>\n<ul>\n<li><a href=\"#a-b-c\">A B C</a></li>\n</ul>\n</ul>\n\
         </ul>\n</div>\n<h3 id=\"a-b-c\">A B C</h3>"
    );
}

#[test]
fn table_of_contents_of_a_page_without_headings() {
    let c = converter(false, true, false);
    assert_eq!(
        c.generate_table_of_contents("<p>x</p>"),
        "<div class=\"table-of-contents\">\n<h2>Table of Contents</h2>\n<ul>\n</ul>\n</div>\n<p>x</p>"
    );
}

#[test]
fn anchored_heading_closes_with_its_opening_level() {
    let c = converter(false, true, false);
    let out = c.generate_table_of_contents("<h2>Mixed</h3>");
    assert!(out.ends_with("<h2 id=\"mixed\">Mixed</h2>"));
}

#[test]
fn anchor_is_lower_case_beyond_ascii() {
    let c = converter(false, true, false);
    let out = c.generate_table_of_contents("<h1>\u{c4}RGER Und So</h1>");
    assert!(out.contains("<li><a href=\"#\u{e4}rger-und-so\">\u{c4}RGER Und So</a></li>\n"));
}

#[test]
fn known_language_is_highlighted() {
    let c = converter(true, false, false);
    let block = "<pre><code class=\"language-rust\">fn main() {}\n</code></pre>";
    let html = format!("<p>a</p>\n{}\n<p>b</p>\n", block);
    let out = c.apply_syntax_highlighting(&html);
    assert!(out.starts_with("<p>a</p>\n<pre style=\"background-color:#2b303b;\">\n"));
    assert!(out.ends_with("</pre>\n\n<p>b</p>\n"));
    assert!(!out.contains("language-rust"));
    assert!(out.contains("<span style=\""));
    assert!(out.contains("main"));
}

#[test]
fn unknown_language_is_left_as_it_is() {
    let c = converter(true, false, false);
    let html = "<pre><code class=\"language-nosuchlanguage\">x\n</code></pre>\n<p>b</p>";
    assert_eq!(c.apply_syntax_highlighting(html), html);
}

#[test]
fn code_without_language_is_left_as_it_is() {
    let c = converter(true, false, false);
    let html = "<p>a</p><pre><code>x\n</code></pre>";
    assert_eq!(c.apply_syntax_highlighting(html), html);
}

#[test]
fn render_puts_the_document_into_a_page() {
    let c = converter(false, false, false);
    let page = c.render("# T\n\ntext", "css").unwrap();
    assert_eq!(page, c.add_css("<h1>T</h1>\n<p>text</p>\n", "css"));
}

#[test]
fn render_with_contents_and_minification() {
    let c = converter(false, true, true);
    let page = c.render("# Big Title\n\ntext", "css").unwrap();
    let body = c.generate_table_of_contents("<h1>Big Title</h1>\n<p>text</p>\n");
    assert_eq!(page, c.minify_html(&c.add_css(&body, "css")));
    assert!(page.contains("<ul><li><a href=\"#big-title\">Big Title</a></li></ul></div>"));
    assert!(page.contains("<h1 id=\"big-title\">Big Title</h1><p>text</p></body></html>"));
    assert!(!page.contains('\n'));
}

#[test]
fn render_is_body_then_page() {
    let c = converter(false, true, true);
    let body = c.render_body("# Big Title\n\ntext").unwrap();
    assert_eq!(body, c.generate_table_of_contents("<h1>Big Title</h1>\n<p>text</p>\n"));
    let page = c.render_page(&body, "css");
    assert_eq!(page, c.minify_html(&c.add_css(&body, "css")));
    assert_eq!(page, c.render("# Big Title\n\ntext", "css").unwrap());
    let plain = converter(false, false, false);
    assert_eq!(plain.render_body("> a\n> b").unwrap(), "<blockquote>a<br>b</blockquote>\n");
    assert_eq!(plain.render_page("x", "y"), plain.add_css("x", "y"));
}

#[test]
fn render_with_highlighting() {
    let c = converter(true, false, false);
    let page = c.render("```rust\nlet x = 1;\n```\n", "").unwrap();
    assert!(page.contains("<pre style=\"background-color:#2b303b;\">"));
    assert!(!page.contains("language-rust"));
}

#[test]
fn render_is_repeatable() {
    let c = converter(true, true, true);
    let input = "# A\n\n```rust\nfn f() {}\n```\n\n## B\n\n- x\n- y";
    assert_eq!(c.render(input, "css").unwrap(), c.render(input, "css").unwrap());
}

#[test]
fn markdown_files_by_extension() {
    assert!(is_markdown_file(&PathBuf::from("test.md")));
    assert!(is_markdown_file(&PathBuf::from("dir/TEST.MD")));
    assert!(is_markdown_file(&PathBuf::from("a.b.Md")));
    assert!(!is_markdown_file(&PathBuf::from("test.html")));
    assert!(!is_markdown_file(&PathBuf::from("test")));
    assert!(!is_markdown_file(&PathBuf::from(".md")));
    assert!(!is_markdown_file(&PathBuf::from("test.mdx")));
    assert!(!is_markdown_file(&PathBuf::from("md")));
}

#[test]
fn markdown_extension() {
    assert!(has_markdown_extension("md"));
    assert!(has_markdown_extension("MD"));
    assert!(has_markdown_extension("mD"));
    assert!(!has_markdown_extension("m"));
    assert!(!has_markdown_extension("mdx"));
    assert!(!has_markdown_extension("xd"));
    assert!(!has_markdown_extension(""));
}

#[test]
fn markdown_file_by_the_extension_of_its_path() {
    assert!(names_markdown_file(&Some("md".to_string())));
    assert!(names_markdown_file(&Some("Md".to_string())));
    assert!(!names_markdown_file(&Some("html".to_string())));
    assert!(!names_markdown_file(&Some("".to_string())));
    assert!(!names_markdown_file(&None));
}

#[test]
fn error_messages() {
    assert_eq!(
        ConverterError::ParsingError("bad".to_string()).message(),
        "Failed to parse markdown: bad"
    );
    assert_eq!(
        ConverterError::OutputFileError("Failed to write output: denied".to_string()).message(),
        "Failed to write output file: Failed to write output: denied"
    );
    assert_eq!(ConverterError::CssError("x".to_string()).message(), "Invalid CSS file: x");
    assert_eq!(
        ConverterError::SyntaxHighlightError("y".to_string()).message(),
        "Syntax highlighting error: y"
    );
    let io = std::io::Error::new(std::io::ErrorKind::NotFound, "no such file");
    assert_eq!(
        ConverterError::InputFileError(io).message(),
        "Failed to read input file: no such file"
    );
}
