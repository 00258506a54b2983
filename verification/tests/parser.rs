use markdown_converter::parser::MarkdownParser;

#[test]
fn parser_test_basic_markdown_parsing() {
    let parser = MarkdownParser::new();
    let input = "# Test Heading\n\nThis is a paragraph.";
    let result = parser.parse(input).unwrap();
    assert!(result.contains("<h1>Test Heading</h1>"));
    assert!(result.contains("<p>This is a paragraph.</p>"));
}

#[test]
fn parser_test_inline_formatting() {
    let parser = MarkdownParser::new();
    let input = "**Bold** and *italic* text";
    let result = parser.parse(input).unwrap();
    assert!(result.contains("<strong>Bold</strong>"));
    assert!(result.contains("<em>italic</em>"));
}

#[test]
fn parser_test_lists() {
    let parser = MarkdownParser::new();

    let input = "- Item 1\n- Item 2\n  - Nested item\n- Item 3";
    let result = parser.parse(input).unwrap();
    assert!(result.contains("<ul>"));
    assert!(result.contains("<li>Item 1</li>"));
    assert!(result.contains("<li>Nested item</li>"));

    let input = "1. First\n2. Second\n   1. Nested\n3. Third";
    let result = parser.parse(input).unwrap();
    assert!(result.contains("<ol>"));
    assert!(result.contains("<li>First</li>"));
    assert!(result.contains("<li>Nested</li>"));

    let input = "- Item 1\n  1. Nested ordered\n  2. Another ordered\n- Item 2";
    let result = parser.parse(input).unwrap();
    assert!(result.contains("<ul>"));
    assert!(result.contains("<ol>"));
    assert!(result.contains("<li>Nested ordered</li>"));
}

#[test]
fn parser_test_code_blocks() {
    let parser = MarkdownParser::new();
    let input = "```rust\nfn main() {}\n```";
    let result = parser.parse(input).unwrap();
    assert!(result.contains(r#"<pre><code class="language-rust">"#));
    assert!(result.contains("fn main()"));
}

#[test]
fn parser_test_blockquotes() {
    let parser = MarkdownParser::new();
    let input = "> This is a quote\n> Second line";
    let result = parser.parse(input).unwrap();
    assert!(result.contains("<blockquote>"));
    assert!(result.contains("This is a quote"));
}

#[test]
fn parser_test_math() {
    let parser = MarkdownParser::new();
    let input = "$$\nE = mc^2\n$$";
    let result = parser.parse(input).unwrap();
    assert!(result.contains(r#"<div class="math-block">"#));
    assert!(result.contains("E = mc^2"));
}

#[test]
fn lib_test_basic_markdown_parsing() {
    let parser = MarkdownParser::new();
    let input = "# Test Heading\n\nThis is a paragraph.";
    let result = parser.parse(input).unwrap();
    assert!(result.contains("<h1>Test Heading</h1>"));
    assert!(result.contains("<p>This is a paragraph.</p>"));
}

#[test]
fn lib_test_inline_formatting() {
    let parser = MarkdownParser::new();
    let input = "**Bold** and *italic* text";
    let result = parser.parse(input).unwrap();
    assert!(result.contains("<strong>Bold</strong>"));
    assert!(result.contains("<em>italic</em>"));
}

#[test]
fn lib_test_lists() {
    let parser = MarkdownParser::new();
    let input = "- Item 1\n- Item 2\n\n1. First\n2. Second";
    let result = parser.parse(input).unwrap();
    assert!(result.contains("<ul>"));
    assert!(result.contains("<ol>"));
    assert!(result.contains("<li>Item 1</li>"));
    assert!(result.contains("<li>First</li>"));
}

#[test]
fn lib_test_code_blocks() {
    let parser = MarkdownParser::new();
    let input = "```rust\nfn main() {}\n```";
    let result = parser.parse(input).unwrap();
    assert!(result.contains(r#"<pre><code class="language-rust">"#));
    assert!(result.contains("fn main()"));
}

#[test]
fn lib_test_blockquotes() {
    let parser = MarkdownParser::new();
    let input = "> This is a quote\n> Second line";
    let result = parser.parse(input).unwrap();
    assert!(result.contains("<blockquote>"));
    assert!(result.contains("This is a quote"));
}

#[test]
fn lib_test_math() {
    let parser = MarkdownParser::new();
    let input = "$$\nE = mc^2\n$$";
    let result = parser.parse(input).unwrap();
    assert!(result.contains(r#"<div class="math-block">"#));
    assert!(result.contains("E = mc^2"));
}
