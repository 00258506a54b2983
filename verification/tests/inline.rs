use markdown_converter::parser::MarkdownParser;

fn chars(s: &str) -> Vec<char> {
    s.chars().collect()
}

fn inline(s: &str) -> String {
    let parser = MarkdownParser::new();
    assert!(parser.ready());
    parser.parse_inline(&chars(s)).into_iter().collect()
}

#[test]
fn plain_text_is_unchanged() {
    assert_eq!(inline("plain text"), "plain text");
    assert_eq!(inline(""), "");
}

#[test]
fn bold_and_italic_together() {
    assert_eq!(inline("**a** *b*"), "<strong>a</strong> <em>b</em>");
    assert_eq!(inline("__a__ _b_"), "<strong>a</strong> <em>b</em>");
}

#[test]
fn code_span() {
    assert_eq!(inline("use `x` here"), "use <code>x</code> here");
}

#[test]
fn link() {
    assert_eq!(inline("[text](href)"), "<a href=\"href\">text</a>");
}

#[test]
fn image_before_link() {
    assert_eq!(inline("![alt](src)"), "<img src=\"src\" alt=\"alt\">");
    assert_eq!(inline("![a](b) [c](d)"), "<img src=\"b\" alt=\"a\"> <a href=\"d\">c</a>");
}

#[test]
fn strikethrough() {
    assert_eq!(inline("~~gone~~"), "<del>gone</del>");
}

#[test]
fn inline_math() {
    assert_eq!(inline("$x+y$"), "<span class=\"math-inline\">$x+y$</span>");
}

#[test]
fn task_checkbox() {
    assert_eq!(inline("[x] done"), "<input type=\"checkbox\" disabled checked> done");
    assert_eq!(inline("[ ] open"), "<input type=\"checkbox\" disabled> open");
    assert_eq!(inline("a [x] b"), "a [x] b");
    assert_eq!(inline("[x]"), "[x]");
}

#[test]
fn unmatched_markup_passes_through() {
    assert_eq!(inline("a ** b"), "a ** b");
    assert_eq!(inline("[text]("), "[text](");
    assert_eq!(inline("~~x"), "~~x");
}

#[test]
fn passes_run_in_order() {
    assert_eq!(inline("***text***"), "<strong><em>text</strong></em>");
    assert_eq!(inline("`**a**`"), "<code><strong>a</strong></code>");
}

#[test]
fn matching_is_not_greedy() {
    assert_eq!(inline("**a** and **b**"), "<strong>a</strong> and <strong>b</strong>");
    assert_eq!(inline("[a](b) and [c](d)"), "<a href=\"b\">a</a> and <a href=\"d\">c</a>");
}
