use markdown_converter::parser::MarkdownParser;

fn html(input: &str) -> String {
    MarkdownParser::new().parse(input).unwrap()
}

fn count(haystack: &str, needle: &str) -> usize {
    haystack.matches(needle).count()
}

#[test]
fn empty_document_gives_no_html() {
    assert_eq!(html(""), "");
    assert_eq!(html("\n\n   \n"), "");
}

#[test]
fn heading_of_each_level() {
    assert_eq!(html("# one"), "<h1>one</h1>\n");
    assert_eq!(html("## two"), "<h2>two</h2>\n");
    assert_eq!(html("### three"), "<h3>three</h3>\n");
    assert_eq!(html("#### four"), "<h4>four</h4>\n");
    assert_eq!(html("##### five"), "<h5>five</h5>\n");
    assert_eq!(html("###### six"), "<h6>six</h6>\n");
}

#[test]
fn heading_text_is_trimmed_and_left_unformatted() {
    assert_eq!(html("##   spaced out   "), "<h2>spaced out</h2>\n");
    assert_eq!(html("# **bold** stays"), "<h1>**bold** stays</h1>\n");
    assert_eq!(html("#\ttabbed"), "<h1>tabbed</h1>\n");
}

#[test]
fn seven_hashes_make_a_paragraph() {
    assert_eq!(html("####### seven"), "<p>####### seven</p>\n");
}

#[test]
fn hashes_without_white_space_make_a_paragraph() {
    assert_eq!(html("#tag"), "<p>#tag</p>\n");
    assert_eq!(html("# "), "<p>#</p>\n");
}

#[test]
fn paragraph_per_line() {
    assert_eq!(html("first\nsecond"), "<p>first</p>\n<p>second</p>\n");
    assert_eq!(html("  padded  "), "<p>padded</p>\n");
}

#[test]
fn carriage_returns_end_lines_with_line_feeds_only() {
    assert_eq!(html("# a\r\nb\r\n"), "<h1>a</h1>\n<p>b</p>\n");
}

#[test]
fn horizontal_rules() {
    assert_eq!(html("---"), "<hr>\n");
    assert_eq!(html("___"), "<hr>\n");
    assert_eq!(html("***"), "<hr>\n");
    assert_eq!(html("----------"), "<hr>\n");
    assert_eq!(html("--"), "<p>--</p>\n");
    assert_eq!(html("-_-"), "<p>-_-</p>\n");
}

#[test]
fn blockquote_run_becomes_one_element() {
    assert_eq!(html("> This is a quote\n> Second line"),
        "<blockquote>This is a quote<br>Second line</blockquote>\n");
}

#[test]
fn blank_line_ends_a_blockquote() {
    assert_eq!(html("> a\n\n> b\n\nc"),
        "<blockquote>a</blockquote>\n<blockquote>b</blockquote>\n<p>c</p>\n");
}

#[test]
fn other_elements_do_not_end_a_blockquote() {
    assert_eq!(html("> a\nb\n> c\n\nd"),
        "<p>b</p>\n<blockquote>a<br>c</blockquote>\n<p>d</p>\n");
}

#[test]
fn blockquote_marker_with_wide_white_space() {
    assert_eq!(html(">\u{3000}wide"), "<blockquote>wide</blockquote>\n");
}

#[test]
fn line_breaks_stand_between_the_lines_of_a_blockquote() {
    assert_eq!(html("> one"), "<blockquote>one</blockquote>\n");
    assert_eq!(html("> one\n> two\n> three"), "<blockquote>one<br>two<br>three</blockquote>\n");
    assert_eq!(html("> one\n> two\n\n> three"),
        "<blockquote>one<br>two</blockquote>\n<blockquote>three</blockquote>\n");
}

#[test]
fn blockquote_text_is_formatted() {
    assert_eq!(html("> **a**"), "<blockquote><strong>a</strong></blockquote>\n");
}

#[test]
fn flat_unordered_list() {
    assert_eq!(html("- a\n* b\n- c"), "<ul>\n<li>a</li>\n<li>b</li>\n<li>c</li>\n</ul>\n");
}

#[test]
fn flat_list_has_one_item_per_line() {
    let out = html("- a\n- b\n- c\n- d");
    assert_eq!(count(&out, "<ul>"), 1);
    assert_eq!(count(&out, "</ul>"), 1);
    assert_eq!(count(&out, "<li>"), 4);
    assert_eq!(count(&out, "</li>"), 4);
}

#[test]
fn nested_list_closes_inner_before_outer() {
    assert_eq!(html("- A\n  - B\n- C"),
        "<ul>\n<li>A</li>\n<ul>\n<li>B</li>\n</ul>\n<li>C</li>\n</ul>\n");
}

#[test]
fn nested_lists_are_balanced() {
    let out = html("- a\n  - b\n    - c\n      - d\n- e\n  - f");
    assert_eq!(out, "<ul>\n<li>a</li>\n<ul>\n<li>b</li>\n<ul>\n<li>c</li>\n<ul>\n<li>d</li>\n</ul>\n</ul>\n</ul>\n<li>e</li>\n<ul>\n<li>f</li>\n</ul>\n</ul>\n");
    assert_eq!(count(&out, "<ul>"), count(&out, "</ul>"));
}

#[test]
fn list_left_open_at_the_end_is_closed() {
    assert_eq!(html("- a\n  - b\n    - c"),
        "<ul>\n<li>a</li>\n<ul>\n<li>b</li>\n<ul>\n<li>c</li>\n</ul>\n</ul>\n</ul>\n");
}

#[test]
fn indentation_is_rounded_down_to_even() {
    assert_eq!(html("- a\n - b"), "<ul>\n<li>a</li>\n<li>b</li>\n</ul>\n");
    assert_eq!(html("- a\n   - b"), "<ul>\n<li>a</li>\n<ul>\n<li>b</li>\n</ul>\n</ul>\n");
    assert_eq!(html("- a\n  - b\n   - c"), "<ul>\n<li>a</li>\n<ul>\n<li>b</li>\n<li>c</li>\n</ul>\n</ul>\n");
}

#[test]
fn indented_run_is_one_list() {
    assert_eq!(html("  - a\n  - b"), "<ul>\n<li>a</li>\n<li>b</li>\n</ul>\n");
    assert_eq!(html("    * a\n    * b\n    - c"), "<ul>\n<li>a</li>\n<li>b</li>\n<li>c</li>\n</ul>\n");
    assert_eq!(html("\t\t- a\n\t\t- b"), "<ul>\n<li>a</li>\n<li>b</li>\n</ul>\n");
    let out = html("      - a\n      - b\n      - c");
    assert_eq!(count(&out, "<ul>"), 1);
    assert_eq!(count(&out, "</ul>"), 1);
    assert_eq!(count(&out, "<li>"), 3);
}

#[test]
fn run_of_plain_items_holds_the_texts_in_order() {
    assert_eq!(html("- one\n* two words\n- 3 < 4 & so on!"),
        "<ul>\n<li>one</li>\n<li>two words</li>\n<li>3 < 4 & so on!</li>\n</ul>\n");
    assert_eq!(html("   - one\n   - two"), "<ul>\n<li>one</li>\n<li>two</li>\n</ul>\n");
}

#[test]
fn indented_list_nests_from_the_width_of_its_opening_line() {
    assert_eq!(html("  - a\n    - b\n  - c"),
        "<ul>\n<li>a</li>\n<ul>\n<li>b</li>\n</ul>\n<li>c</li>\n</ul>\n");
}

#[test]
fn item_narrower_than_the_opening_line_joins_the_outermost_list() {
    assert_eq!(html("    - a\n- b\n    - c"), "<ul>\n<li>a</li>\n<li>b</li>\n<li>c</li>\n</ul>\n");
    assert_eq!(html("  - a\n      - b\n- c"),
        "<ul>\n<li>a</li>\n<ul>\n<li>b</li>\n</ul>\n<li>c</li>\n</ul>\n");
}

#[test]
fn item_between_two_levels_joins_the_outer_one() {
    assert_eq!(html("- a\n    - b\n  - c"),
        "<ul>\n<li>a</li>\n<ul>\n<li>b</li>\n</ul>\n<li>c</li>\n</ul>\n");
}

#[test]
fn ordered_list() {
    assert_eq!(html("1. First\n2. Second\n   1. Nested\n3. Third"),
        "<ol>\n<li>First</li>\n<li>Second</li>\n<ol>\n<li>Nested</li>\n</ol>\n<li>Third</li>\n</ol>\n");
}

#[test]
fn ordered_list_with_other_decimal_digits() {
    assert_eq!(html("\u{661}. one"), "<ol>\n<li>one</li>\n</ol>\n");
    assert_eq!(html("a. one"), "<p>a. one</p>\n");
}

#[test]
fn ordered_items_inside_an_unordered_list_start_a_list_of_their_own() {
    assert_eq!(html("- Item 1\n  1. Nested ordered\n  2. Another ordered\n- Item 2"),
        "<ul>\n<li>Item 1</li>\n</ul>\n<ol>\n<li>Nested ordered</li>\n<li>Another ordered</li>\n</ol>\n<ul>\n<li>Item 2</li>\n</ul>\n");
}

#[test]
fn blank_line_ends_a_list() {
    assert_eq!(html("- Item 1\n- Item 2\n\n1. First\n2. Second"),
        "<ul>\n<li>Item 1</li>\n<li>Item 2</li>\n</ul>\n<ol>\n<li>First</li>\n<li>Second</li>\n</ol>\n");
}

#[test]
fn line_with_a_marker_inside_ends_the_list() {
    assert_eq!(html("- a\nb - c\nd"), "<ul>\n<li>a</li>\n</ul>\n<p>b - c</p>\n<p>d</p>\n");
    assert_eq!(html("- a\nfoo - bar"), "<ul>\n<li>a</li>\n</ul>\n<p>foo - bar</p>\n");
    assert_eq!(html("1. a\nThe end. Or not"), "<ol>\n<li>a</li>\n</ol>\n<p>The end. Or not</p>\n");
    assert_eq!(html("- a\n-b\n- c"),
        "<ul>\n<li>a</li>\n</ul>\n<p>-b</p>\n<ul>\n<li>c</li>\n</ul>\n");
}

#[test]
fn later_item_starts_with_the_marker_after_its_indentation() {
    assert_eq!(html("- a\n  * b - c\n-\td"),
        "<ul>\n<li>a</li>\n<ul>\n<li>b - c</li>\n</ul>\n<li>d</li>\n</ul>\n");
    assert_eq!(html("1. a\n22.\tb\n  3. c. d"),
        "<ol>\n<li>a</li>\n<li>b</li>\n<ol>\n<li>c. d</li>\n</ol>\n</ol>\n");
}

#[test]
fn opening_line_is_an_item_whatever_follows_its_marker() {
    assert_eq!(html("-\tfoo"), "<ul>\n<li>foo</li>\n</ul>\n");
    assert_eq!(html("1.\tfoo"), "<ol>\n<li>foo</li>\n</ol>\n");
    assert_eq!(html("-\tfoo\nbar"), "<ul>\n<li>foo</li>\n</ul>\n<p>bar</p>\n");
}

#[test]
fn list_items_are_formatted() {
    assert_eq!(html("- **a** and `b`"), "<ul>\n<li><strong>a</strong> and <code>b</code></li>\n</ul>\n");
    assert_eq!(html("- [x] done\n- [ ] open"),
        "<ul>\n<li><input type=\"checkbox\" disabled checked> done</li>\n<li><input type=\"checkbox\" disabled> open</li>\n</ul>\n");
}

#[test]
fn code_block_round_trip() {
    assert_eq!(html("```lang\ncode\n```"), "<pre><code class=\"language-lang\">code\n</code></pre>\n");
}

#[test]
fn code_is_escaped_and_otherwise_untouched() {
    assert_eq!(html("```lang\na < b && c > d\n\"q\" 'r' **s**\n```"),
        "<pre><code class=\"language-lang\">a &lt; b &amp;&amp; c &gt; d\n&quot;q&quot; &#39;r&#39; **s**\n</code></pre>\n");
}

#[test]
fn language_is_not_escaped() {
    assert_eq!(html("```c<>&\nx\n```"), "<pre><code class=\"language-c<>&\">x\n</code></pre>\n");
}

#[test]
fn code_block_without_language() {
    assert_eq!(html("```\nx\n```"), "<pre><code>x\n</code></pre>\n");
    assert_eq!(html("```   \nx\n```"), "<pre><code>x\n</code></pre>\n");
}

#[test]
fn code_block_keeps_blank_lines_and_indentation() {
    assert_eq!(html("```py\nif x:\n\n    y\n```\nafter"),
        "<pre><code class=\"language-py\">if x:\n\n    y\n</code></pre>\n<p>after</p>\n");
}

#[test]
fn unterminated_code_block_takes_the_rest() {
    assert_eq!(html("```rust\nfn main() {}\n# not a heading"),
        "<pre><code class=\"language-rust\">fn main() {}\n# not a heading\n");
}

#[test]
fn indented_fence_is_no_fence_to_the_sub_parser() {
    assert_eq!(html("  ```\ncode\n  ```\nafter"), "");
    assert_eq!(html("  ```\nskipped\n```rust\ncode\n```\nafter"),
        "<pre><code class=\"language-rust\">code\n</code></pre>\n<p>after</p>\n");
}

#[test]
fn table_with_delimiter_row() {
    assert_eq!(html("|H1|H2|\n|--|--|\n|x|y|"),
        "<table>\n<thead>\n<tr>\n<th>H1</th>\n<th>H2</th>\n</tr>\n</thead>\n<tbody>\n<tr>\n<td>x</td>\n<td>y</td>\n</tr>\n</tbody>\n</table>\n");
}

#[test]
fn table_without_delimiter_row() {
    assert_eq!(html("|H1|H2|\n|x|y|"),
        "<table>\n<thead>\n<tr>\n<th>H1</th>\n<th>H2</th>\n</tr>\n</thead>\n<tbody>\n<tr>\n<td>x</td>\n<td>y</td>\n</tr>\n</tbody>\n</table>\n");
}

#[test]
fn table_ends_at_a_line_without_a_bar() {
    assert_eq!(html("| a |\n|---|\n| b |\nc"),
        "<table>\n<thead>\n<tr>\n<th>a</th>\n</tr>\n</thead>\n<tbody>\n<tr>\n<td>b</td>\n</tr>\n</tbody>\n</table>\n<p>c</p>\n");
}

#[test]
fn table_cells_are_trimmed_and_formatted() {
    assert_eq!(html("|  **H**  | `c` |"),
        "<table>\n<thead>\n<tr>\n<th><strong>H</strong></th>\n<th><code>c</code></th>\n</tr>\n</thead>\n<tbody>\n</tbody>\n</table>\n");
}

#[test]
fn table_row_of_bars_only_has_one_empty_cell() {
    assert_eq!(html("||"),
        "<table>\n<thead>\n<tr>\n<th></th>\n</tr>\n</thead>\n<tbody>\n</tbody>\n</table>\n");
}

#[test]
fn second_table_line_with_a_hyphen_counts_as_delimiter() {
    assert_eq!(html("|a|\n|b-c|\n|d|"),
        "<table>\n<thead>\n<tr>\n<th>a</th>\n</tr>\n</thead>\n<tbody>\n<tr>\n<td>d</td>\n</tr>\n</tbody>\n</table>\n");
}

#[test]
fn math_block_is_trimmed() {
    assert_eq!(html("$$\nE = mc^2\n$$"), "<div class=\"math-block\">$$E = mc^2$$</div>\n");
    assert_eq!(html("$$\n\n  a\n  b  \n\n$$"), "<div class=\"math-block\">$$a\n  b$$</div>\n");
}

#[test]
fn math_block_is_not_formatted() {
    assert_eq!(html("$$\n**x** < y\n$$"), "<div class=\"math-block\">$$**x** < y$$</div>\n");
}

#[test]
fn unterminated_math_block_takes_the_rest_and_gives_nothing() {
    assert_eq!(html("$$\nE = mc^2\nmore"), "");
    assert_eq!(html("before\n$$\nE = mc^2"), "<p>before</p>\n");
}

#[test]
fn math_fence_with_text_opens_no_block() {
    assert_eq!(html("$$x\n$$\na\n$$\nb"), "<div class=\"math-block\">$$a$$</div>\n<p>b</p>\n");
}

#[test]
fn same_input_gives_same_output() {
    let input = "# T\n\n- a\n  - b\n\n> q\n\n|a|b|\n|-|-|\n|c|d|\n\n```rust\nx\n```\n\n$$\ny\n$$\n\n**z** [l](u)";
    let first = html(input);
    let second = html(input);
    let third = MarkdownParser::new().parse(input).unwrap();
    assert_eq!(first, second);
    assert_eq!(first.as_bytes(), third.as_bytes());
}

#[test]
fn mixed_document() {
    assert_eq!(html("# Title\n\nText with **bold**.\n\n- one\n- two\n\n---\n\n> quote\n\n```\ncode\n```"),
        "<h1>Title</h1>\n<p>Text with <strong>bold</strong>.</p>\n<ul>\n<li>one</li>\n<li>two</li>\n</ul>\n<hr>\n<blockquote>quote</blockquote>\n<pre><code>code\n</code></pre>\n");
}
