use ratatoskr::chunker::{split_text, CAPTION_LIMIT, TEXT_LIMIT};
use ratatoskr::tables::{convert_markdown_table_to_aligned_text, convert_markdown_tables_to_aligned};
use ratatoskr::markup::{escape_html_except_tags, format_telegram_markdown};

#[test]
fn test_split_text_basic() {
    let text = "hello world";
    let chunks = split_text(text, 4096);
    assert_eq!(chunks.len(), 1);
    assert_eq!(chunks[0], "hello world");
}

#[test]
fn test_split_text_respects_limit() {
    let text = "one two three four";
    let chunks = split_text(text, 8);
    assert_eq!(chunks, vec!["one two ".to_string(), "three ".to_string(), "four".to_string()]);
    for c in chunks {
        assert!(c.len() <= 8);
    }
}

#[test]
fn split_empty_gives_no_chunks() {
    assert!(split_text("", 10).is_empty());
}

#[test]
fn split_hard_cuts_long_token() {
    let chunks = split_text("ab abcdefghij cd", 4);
    assert_eq!(chunks, vec!["ab ", "abcd", "efgh", "ij ", "cd"]);
    assert_eq!(chunks.concat(), "ab abcdefghij cd");
}

#[test]
fn split_counts_characters_not_bytes() {
    let chunks = split_text("éé éé", 3);
    assert_eq!(chunks, vec!["éé ", "éé"]);
}

#[test]
fn split_breaks_on_newlines_and_keeps_content() {
    let text = "line one\nline two\nline three";
    let chunks = split_text(text, 10);
    assert_eq!(chunks, vec!["line one\n", "line two\n", "line three"]);
    assert_eq!(chunks.concat(), text);
    for c in &chunks {
        assert!(c.chars().count() <= 10 && !c.is_empty());
    }
}

#[test]
fn split_long_text_under_platform_limits() {
    let word = "abcdefghi ";
    let text = word.repeat(500);
    let chunks = split_text(&text, TEXT_LIMIT);
    assert_eq!(chunks.len(), 2);
    assert!(chunks.iter().all(|c| c.chars().count() <= TEXT_LIMIT));
    assert_eq!(chunks[0].chars().count(), 4090);
    let caps = split_text(&text, CAPTION_LIMIT);
    assert_eq!(caps.len(), 5);
    assert_eq!(caps.concat(), text);
}

#[test]
fn escape_keeps_allowed_tags() {
    assert_eq!(escape_html_except_tags("<b>a & b</b> <x>"), "<b>a &amp; b</b> &lt;x&gt;");
    assert_eq!(escape_html_except_tags("<pre>1<2</pre>"), "<pre>1&lt;2</pre>");
    assert_eq!(escape_html_except_tags(""), "");
}

#[test]
fn test_format_telegram_markdown_basic_formatting() {
    let input = "This is *italic* and **bold** text";
    let result = format_telegram_markdown(input);
    let expected = "This is <i>italic</i> and <b>bold</b> text";
    assert_eq!(result, expected);
}

#[test]
fn test_format_telegram_markdown_empty() {
    let input = "";
    let result = format_telegram_markdown(input);
    assert_eq!(result, input);
}

#[test]
fn test_format_telegram_markdown_code() {
    let input = "Here is `inline code` and:\n```\ncode block\n```";
    let result = format_telegram_markdown(input);
    let expected = "Here is <code>inline code</code> and:\n<pre>code block\n</pre>";
    assert_eq!(result, expected);
}

#[test]
fn test_format_telegram_markdown_headings() {
    let input = "# Main Title\n## Section Header\n### Subsection\nNormal text\n#### Level 4\n##### Level 5\n###### Level 6";
    let result = format_telegram_markdown(input);
    let expected = "<b>Main Title</b>\n<b>Section Header</b>\n<b>Subsection</b>\nNormal text\n<b>Level 4</b>\n<b>Level 5</b>\n<b>Level 6</b>";
    assert_eq!(result, expected);
}

#[test]
fn test_format_telegram_markdown_headings_mixed() {
    let input = "Some text\n# Heading 1\nMore text\n## Heading 2\nEven more text";
    let result = format_telegram_markdown(input);
    let expected = "Some text\n<b>Heading 1</b>\nMore text\n<b>Heading 2</b>\nEven more text";
    assert_eq!(result, expected);
}

#[test]
fn test_format_telegram_markdown_no_headings() {
    let input = "This is just normal text with no headings\nAnd another line\n#hashtag should not be converted";
    let result = format_telegram_markdown(input);
    assert_eq!(result, input);
}

#[test]
fn test_format_telegram_markdown_mixed_formatting() {
    let input = "# Title with *bold* and _italic_\n## Section with `code`";
    let result = format_telegram_markdown(input);
    let expected = "<b>Title with <i>bold</i> and <i>italic</i></b>\n<b>Section with <code>code</code></b>";
    assert_eq!(result, expected);
}

#[test]
fn test_format_telegram_markdown_table() {
    let input = "| Name | Age | City |\n|------|-----|------|\n| John | 25  | NYC  |\n| Jane | 30  | LA   |";
    let result = format_telegram_markdown(input);
    let expected = "<pre>Name  Age  City\n----  ---  ----\nJohn  25   NYC \nJane  30   LA  </pre>";
    assert_eq!(result, expected);
}

#[test]
fn test_format_telegram_markdown_test6_content() {
    let input = "Test 6: Table-like Structures\n\nMarkdown table (needs proper escaping):\n\n| Name | Age | City |\n|------|-----|------|\n| John | 25  | NYC  |\n| Jane | 30  | LA   |\n| Bob  | 35  | SF   |\n\nSimple aligned text table:\n```\nName     Age    City\n----     ---    ----\nJohn     25     NYC\nJane     30     LA\nBob      35     SF\n```";
    let result = format_telegram_markdown(input);
    println!("Input:\n{}", input);
    println!("\nOutput:\n{}", result);
    assert!(!result.is_empty());
}

#[test]
fn format_escapes_stray_markup() {
    assert_eq!(format_telegram_markdown("a < b & c"), "a &lt; b &amp; c");
    assert_eq!(format_telegram_markdown("~~gone~~ __under__"), "<s>gone</s> <u>under</u>");
}

#[test]
fn table_alignment_direct() {
    let t = "| a | bb |\n|---|---|\n| ccc | d |";
    assert_eq!(convert_markdown_table_to_aligned_text(t), "a    bb\n---  --\nccc  d ");
    assert_eq!(convert_markdown_table_to_aligned_text("| only |"), "| only |");
    assert_eq!(convert_markdown_table_to_aligned_text("x\ny"), "x\ny");
}

#[test]
fn tables_inside_pre_are_left_alone() {
    let t = "<pre>\n| a | b |\n| c | d |\n</pre>";
    assert_eq!(convert_markdown_tables_to_aligned(t), t);
    let single = "intro\n| a | b |\nend";
    assert_eq!(convert_markdown_tables_to_aligned(single), single);
    let two = "intro\n| a | b |\n\n| cc | d |\nend";
    assert_eq!(convert_markdown_tables_to_aligned(two), "intro\n<pre>a   b\n--  -\ncc  d</pre>\nend");
}
