use markdown_converter::code_block::push_escaped;
use markdown_converter::element::Element;
use markdown_converter::lines::{split_lines, split_on, to_chars};
use markdown_converter::list::{is_list_item, item_content};
use markdown_converter::parser::MarkdownParser;
use markdown_converter::pattern::interleave;
use markdown_converter::text::{
    count_leading, count_trailing, find_first_of, push_decimal, strip, trim,
    trim_start, white_space, CharClass,
};

fn chars(s: &str) -> Vec<char> {
    s.chars().collect()
}

fn text(s: &[char]) -> String {
    s.iter().collect()
}

fn lines(v: &[&str]) -> Vec<Vec<char>> {
    v.iter().map(|s| chars(s)).collect()
}

#[test]
fn white_space_is_what_the_standard_library_says() {
    let mut n: u32 = 0;
    while n <= 0x10FFFF {
        if let Some(c) = char::from_u32(n) {
            assert_eq!(white_space(c), c.is_whitespace(), "U+{:04X}", n);
        }
        n += 1;
    }
}

#[test]
fn trimming_is_what_the_standard_library_does() {
    for s in ["", " ", "a", "  a b  ", "\t\u{3000}x\u{a0}\n", "\u{85}\u{2003}", "x  ", "  x"] {
        assert_eq!(text(trim(&chars(s))), s.trim());
        assert_eq!(text(trim_start(&chars(s))), s.trim_start());
    }
}

#[test]
fn stripping_a_character() {
    assert_eq!(text(strip(&chars("||a|b||"), CharClass::Only('|'))), "a|b");
    assert_eq!(text(strip(&chars("|||"), CharClass::Only('|'))), "");
    assert_eq!(count_leading(&chars("###x#"), CharClass::Only('#')), 3);
    assert_eq!(count_trailing(&chars("###x#"), CharClass::Only('#')), 1);
    assert_eq!(count_leading(&chars(""), CharClass::WhiteSpace), 0);
}

#[test]
fn searching() {
    assert_eq!(find_first_of(&chars("ab-c*"), CharClass::Either('-', '*')), 2);
    assert_eq!(find_first_of(&chars("abc"), CharClass::Either('-', '*')), 3);
    assert_eq!(find_first_of(&chars("10. a. b"), CharClass::Only('.')), 2);
    assert_eq!(find_first_of(&chars(""), CharClass::Only('.')), 0);
}

#[test]
fn decimal_notation() {
    for n in [0usize, 1, 6, 9, 10, 12, 100, 907, 65535] {
        let mut out = Vec::new();
        push_decimal(&mut out, n);
        assert_eq!(text(&out), n.to_string());
    }
}

#[test]
fn lines_are_what_the_standard_library_yields() {
    for s in ["", "a", "a\n", "a\nb", "a\r\nb\r\n", "\n", "\n\n", "a\rb", "a\r", "a\r\n\r\n", "\r\n", "x\n\ny"] {
        let got: Vec<String> = split_lines(&chars(s)).iter().map(|l| text(l)).collect();
        let want: Vec<String> = s.lines().map(|l| l.to_string()).collect();
        assert_eq!(got, want, "{:?}", s);
    }
}

#[test]
fn pieces_are_what_the_standard_library_yields() {
    for s in ["", "a", "a|b", "|a|", "||", "a||b|"] {
        let v = chars(s);
        let got: Vec<String> = split_on(&v, '|').iter().map(|p| text(p)).collect();
        let want: Vec<String> = s.split('|').map(|p| p.to_string()).collect();
        assert_eq!(got, want, "{:?}", s);
    }
}

#[test]
fn characters_of_a_string() {
    assert_eq!(to_chars("a\u{e4}\u{1F600}"), vec!['a', '\u{e4}', '\u{1F600}']);
}

#[test]
fn escaping() {
    let mut out = chars(">");
    push_escaped(&mut out, &chars("a&b<c>d\"e'f"));
    assert_eq!(text(&out), ">a&amp;b&lt;c&gt;d&quot;e&#39;f");
}

#[test]
fn interleaving() {
    let gaps = lines(&["a", "b", "c"]);
    let reps = lines(&["1", "2"]);
    assert_eq!(text(&interleave(&gaps, &reps)), "a1b2c");
    assert_eq!(text(&interleave(&lines(&["a"]), &lines(&["1", "2", "3"]))), "a123");
    assert_eq!(text(&interleave(&lines(&["a", "b", "c"]), &lines(&[]))), "abc");
    assert_eq!(text(&interleave(&lines(&[]), &lines(&[]))), "");
}

#[test]
fn classification() {
    let p = MarkdownParser::new();
    assert!(p.ready());
    let class = |s: &str| p.identify_element(&chars(s));
    assert_eq!(class("# a"), Element::Heading(1));
    assert_eq!(class("###### a"), Element::Heading(6));
    assert_eq!(class("####### a"), Element::Paragraph);
    assert_eq!(class("#a"), Element::Paragraph);
    assert_eq!(class("> a"), Element::Blockquote);
    assert_eq!(class(">a"), Element::Paragraph);
    assert_eq!(class("---"), Element::HorizontalRule);
    assert_eq!(class("- - -"), Element::UnorderedList);
    assert_eq!(class("* a"), Element::UnorderedList);
    assert_eq!(class("  - a"), Element::UnorderedList);
    assert_eq!(class("-a"), Element::Paragraph);
    assert_eq!(class("12. a"), Element::OrderedList);
    assert_eq!(class("  3.\ta"), Element::OrderedList);
    assert_eq!(class("3.a"), Element::Paragraph);
    assert_eq!(class("```"), Element::CodeBlock);
    assert_eq!(class("```rust"), Element::CodeBlock);
    assert_eq!(class("``"), Element::Paragraph);
    assert_eq!(class("|a|"), Element::Table);
    assert_eq!(class("||"), Element::Table);
    assert_eq!(class("|"), Element::Paragraph);
    assert_eq!(class("|a"), Element::Paragraph);
    assert_eq!(class("|a\nb|"), Element::Paragraph);
    assert_eq!(class("$$"), Element::MathBlock);
    assert_eq!(class("$$x"), Element::MathBlock);
    assert_eq!(class("$x$"), Element::Paragraph);
    assert_eq!(class(""), Element::Paragraph);
    assert_eq!(class("text"), Element::Paragraph);
}

#[test]
fn classification_goes_by_precedence() {
    let p = MarkdownParser::new();
    assert!(p.ready());
    let class = |s: &str| p.identify_element(&chars(s));
    assert_eq!(class("***"), Element::HorizontalRule);
    assert_eq!(class("* **"), Element::UnorderedList);
    assert_eq!(class("# |a|"), Element::Heading(1));
    assert_eq!(class("> - a"), Element::Blockquote);
    assert_eq!(class("- 1. a"), Element::UnorderedList);
}

#[test]
fn list_items() {
    assert!(is_list_item(&chars("  - a"), false));
    assert!(is_list_item(&chars("*\ta"), false));
    assert!(!is_list_item(&chars("x * y"), false));
    assert!(!is_list_item(&chars("-a"), false));
    assert!(!is_list_item(&chars("-"), false));
    assert!(!is_list_item(&chars("   "), false));
    assert!(!is_list_item(&chars(""), false));
    assert!(!is_list_item(&chars("1. a"), false));
    assert!(is_list_item(&chars("1. a"), true));
    assert!(is_list_item(&chars("   42.\ta"), true));
    assert!(!is_list_item(&chars("end. next"), true));
    assert!(!is_list_item(&chars("1.a"), true));
    assert!(!is_list_item(&chars("- a"), true));
    assert!(!is_list_item(&chars(""), true));
    assert_eq!(text(item_content(&chars("  -   a b  "), false)), "a b");
    assert_eq!(text(item_content(&chars("- a - b * c"), false)), "a - b * c");
    assert_eq!(text(item_content(&chars("x-y"), false)), "y");
    assert_eq!(text(item_content(&chars("none"), false)), "");
    assert_eq!(text(item_content(&chars("10. a. b"), true)), "a. b");
    assert_eq!(text(item_content(&chars("  7.\ta"), true)), "a");
    assert_eq!(text(item_content(&chars("none"), true)), "");
}

#[test]
fn sub_parsers_tell_how_many_lines_they_took() {
    let p = MarkdownParser::new();
    assert!(p.ready());
    let (out, n) = p.parse_list(&lines(&["- a", "- b", "", "- c"]), false);
    assert_eq!((text(&out).as_str(), n), ("<ul>\n<li>a</li>\n<li>b</li>\n</ul>\n", 2));
    let (out, n) = p.parse_list(&lines(&[]), true);
    assert_eq!((text(&out).as_str(), n), ("<ol>\n</ol>\n", 0));
    let (out, n) = p.parse_code_block(&lines(&["```", "x", "```", "y"]));
    assert_eq!((text(&out).as_str(), n), ("<pre><code>x\n</code></pre>\n", 3));
    let (out, n) = p.parse_code_block(&lines(&["```", "x"]));
    assert_eq!((text(&out).as_str(), n), ("<pre><code>x\n", 2));
    let (out, n) = p.parse_code_block(&lines(&["a", "b"]));
    assert_eq!((text(&out).as_str(), n), ("", 2));
    let (out, n) = p.parse_math_block(&lines(&[" $$ ", "x", "$$", "y"]));
    assert_eq!((text(&out).as_str(), n), ("<div class=\"math-block\">$$x$$</div>\n", 3));
    let (out, n) = p.parse_math_block(&lines(&["$$", "x"]));
    assert_eq!((text(&out).as_str(), n), ("", 2));
    let (out, n) = p.parse_table(&lines(&["|a|", "|-|", "|b|", "c", "|d|"]));
    assert_eq!(
        (text(&out).as_str(), n),
        ("<table>\n<thead>\n<tr>\n<th>a</th>\n</tr>\n</thead>\n<tbody>\n<tr>\n<td>b</td>\n</tr>\n</tbody>\n</table>\n", 3)
    );
    let (out, n) = p.parse_table(&lines(&[]));
    assert_eq!((text(&out).as_str(), n), ("<table>\n<tbody>\n</tbody>\n</table>\n", 0));
}

#[test]
fn heading_and_paragraph() {
    let p = MarkdownParser::new();
    assert!(p.ready());
    assert_eq!(text(&p.parse_heading(&chars("##  a b "), 2)), "<h2>a b</h2>\n");
    assert_eq!(text(&p.parse_heading(&chars("# a"), 12)), "<h12>a</h12>\n");
    assert_eq!(text(&p.parse_paragraph(&chars("a *b*"))), "<p>a <em>b</em></p>\n");
}

#[test]
fn table_row_cells() {
    let p = MarkdownParser::new();
    assert!(p.ready());
    let row = chars("  | a | b ||  ");
    let cells: Vec<String> = p.split_table_row(&row).iter().map(|c| text(c)).collect();
    assert_eq!(cells, vec![" a ", " b "]);
}

#[test]
fn parser_is_ready() {
    assert!(MarkdownParser::new().ready());
}
