use a2native::markdown::{
    find_italic_start, inline_markdown, markdown_blocks, strip_numbered_list, InlineSpan, MarkdownBlock,
    SpanStyle,
};

fn spans(line: &str) -> Vec<(SpanStyle, String)> {
    let cs: Vec<char> = line.chars().collect();
    inline_markdown(&cs).into_iter().map(|s: InlineSpan| (s.style, s.text)).collect()
}

fn plain(t: &str) -> (SpanStyle, String) {
    (SpanStyle::Plain, t.to_string())
}

#[test]
fn numbered_list_items() {
    assert_eq!(strip_numbered_list("1. first"), Some("first".to_string()));
    assert_eq!(strip_numbered_list("12. two digits"), Some("two digits".to_string()));
    assert_eq!(strip_numbered_list("1.second"), None);
    assert_eq!(strip_numbered_list(". x"), None);
    assert_eq!(strip_numbered_list("123"), None);
    assert_eq!(strip_numbered_list("1."), None);
    assert_eq!(strip_numbered_list("a1. x"), None);
    assert_eq!(strip_numbered_list("3. "), Some(String::new()));
}

#[test]
fn italic_marks() {
    assert_eq!(find_italic_start("a *b* c"), Some(("*", 2)));
    assert_eq!(find_italic_start("a _b_ *c*"), Some(("_", 2)));
    assert_eq!(find_italic_start("**b** _c_"), Some(("_", 6)));
    assert_eq!(find_italic_start("**b**"), None);
    assert_eq!(find_italic_start("plain"), None);
    assert_eq!(find_italic_start("é*x*"), Some(("*", 2)));
}

#[test]
fn inline_styles() {
    assert_eq!(
        spans("a **b** c"),
        vec![plain("a "), (SpanStyle::Bold, "b".to_string()), plain(" c")]
    );
    assert_eq!(spans("use `x` now"), vec![plain("use "), (SpanStyle::Code, "x".to_string()), plain(" now")]);
    assert_eq!(
        spans("see [docs](http://x) ok"),
        vec![plain("see "), (SpanStyle::Link, "docs".to_string()), plain(" ok")]
    );
    assert_eq!(spans("_it_"), vec![(SpanStyle::Italic, "it".to_string())]);
    assert_eq!(spans(""), vec![]);
    assert_eq!(spans("plain text"), vec![plain("plain text")]);
}

#[test]
fn unclosed_marks() {
    assert_eq!(spans("x **y"), vec![plain("x "), plain("x **y")]);
    assert_eq!(spans("x `y"), vec![plain("x "), plain("y")]);
    assert_eq!(spans("a [b c"), vec![plain("a "), plain("["), plain("b c")]);
    assert_eq!(spans("a [b] c"), vec![plain("a "), plain("["), plain("b] c")]);
    assert_eq!(spans("x *y"), vec![plain("x "), plain("x *y")]);
    assert_eq!(spans("****"), vec![(SpanStyle::Bold, String::new())]);
}

#[test]
fn bold_is_read_before_code() {
    assert_eq!(
        spans("`a` **b**"),
        vec![plain("`a` "), (SpanStyle::Bold, "b".to_string())]
    );
}

#[test]
fn blocks_of_a_text() {
    let blocks = markdown_blocks("# T\n## S\n### s\n---\n\n- a\n* b\n2. c\ntext\r\n***");
    assert_eq!(blocks.len(), 10);
    assert!(matches!(&blocks[0], MarkdownBlock::Heading { level: 1, text } if text == "T"));
    assert!(matches!(&blocks[1], MarkdownBlock::Heading { level: 2, text } if text == "S"));
    assert!(matches!(&blocks[2], MarkdownBlock::Heading { level: 3, text } if text == "s"));
    assert!(matches!(&blocks[3], MarkdownBlock::Rule));
    assert!(matches!(&blocks[4], MarkdownBlock::Blank));
    assert!(matches!(&blocks[5], MarkdownBlock::Bullet { spans } if spans.len() == 1 && spans[0].text == "a"));
    assert!(matches!(&blocks[6], MarkdownBlock::Bullet { spans } if spans.len() == 1 && spans[0].text == "b"));
    assert!(matches!(&blocks[7], MarkdownBlock::Numbered { number, spans } if number == "2." && spans[0].text == "c"));
    assert!(matches!(&blocks[8], MarkdownBlock::Paragraph { spans } if spans.len() == 1 && spans[0].text == "text"));
    assert!(matches!(&blocks[9], MarkdownBlock::Rule));
}

#[test]
fn lines_follow_str_lines() {
    assert_eq!(markdown_blocks("").len(), 0);
    assert_eq!(markdown_blocks("a\n").len(), 1);
    assert_eq!(markdown_blocks("a\n\n").len(), 2);
    let last = markdown_blocks("x\ny\r");
    assert!(matches!(&last[1], MarkdownBlock::Paragraph { spans } if spans[0].text == "y\r"));
}
