use openless::markdown::{
    inline_segments, markdown_blocks, split_lines, InlineSegment, LineStyle, MarkdownBlock,
};

fn seg(text: &str, strong: bool, italics: bool, code: bool) -> InlineSegment {
    InlineSegment { text: text.to_string(), strong, italics, code }
}

fn line(style: LineStyle, text: &str) -> MarkdownBlock {
    MarkdownBlock::Line(style, text.to_string())
}

fn code(text: &str) -> MarkdownBlock {
    MarkdownBlock::Code(text.to_string())
}

#[test]
fn emphasis_pairs_become_styled_runs() {
    assert_eq!(
        inline_segments("a **b** c", false, false),
        vec![seg("a ", false, false, false), seg("b", true, false, false), seg(" c", false, false, false)]
    );
    assert_eq!(
        inline_segments("`code` and _it_ and __b__", false, false),
        vec![
            seg("code", false, false, true),
            seg(" and ", false, false, false),
            seg("it", false, true, false),
            seg(" and ", false, false, false),
            seg("b", true, false, false),
        ]
    );
    assert_eq!(inline_segments("__x** y__", false, false), vec![seg("x** y", true, false, false)]);
    assert_eq!(
        inline_segments("***x***", false, false),
        vec![seg("*x", true, false, false), seg("*", false, false, false)]
    );
}

#[test]
fn markers_that_open_nothing_stay_text() {
    assert_eq!(inline_segments("*", false, false), vec![seg("*", false, false, false)]);
    assert_eq!(
        inline_segments("a_b", false, false),
        vec![seg("a", false, false, false), seg("_", false, false, false), seg("b", false, false, false)]
    );
    assert_eq!(
        inline_segments("**unclosed *it* x", false, false),
        vec![
            seg("", false, true, false),
            seg("unclosed ", false, false, false),
            seg("it", false, true, false),
            seg(" x", false, false, false),
        ]
    );
    assert_eq!(inline_segments("", false, false), vec![]);
}

#[test]
fn the_line_style_carries_into_every_run() {
    assert_eq!(inline_segments("strong base", true, false), vec![seg("strong base", true, false, false)]);
    assert_eq!(
        inline_segments("q `c`", false, true),
        vec![seg("q ", false, true, false), seg("c", false, true, true)]
    );
}

#[test]
fn answers_split_into_headings_lists_quotes_and_code() {
    let md = "# Title\n\n- item *one*\n* two\n> quote\n```rust\nlet x = 1;\n  y\n```\n```inline```\nplain text\r\n### h3\n## h2";
    assert_eq!(
        markdown_blocks(md),
        vec![
            line(LineStyle::Heading1, "Title"),
            MarkdownBlock::Gap,
            line(LineStyle::Bullet, "\u{2022} item *one*"),
            line(LineStyle::Bullet, "\u{2022} two"),
            line(LineStyle::Quote, "quote"),
            code("let x = 1;\n  y"),
            code("inline"),
            line(LineStyle::Plain, "plain text"),
            line(LineStyle::Heading3, "h3"),
            line(LineStyle::Heading2, "h2"),
        ]
    );
}

#[test]
fn code_fences_open_close_and_flush_at_the_end() {
    assert_eq!(markdown_blocks("```\nabc  \n"), vec![code("abc")]);
    assert_eq!(markdown_blocks("```\n"), vec![]);
    assert_eq!(markdown_blocks("```````"), vec![code("`")]);
    assert_eq!(markdown_blocks("```\na\n```x```\nb\n```"), vec![code("x"), code("a\nb")]);
    assert_eq!(
        markdown_blocks("#no space\n-x\nline\r"),
        vec![line(LineStyle::Plain, "#no space"), line(LineStyle::Plain, "-x"), line(LineStyle::Plain, "line")]
    );
    assert_eq!(markdown_blocks("  \n\t\n"), vec![MarkdownBlock::Gap, MarkdownBlock::Gap]);
}

#[test]
fn lines_follow_str_lines() {
    for text in ["", "a", "a\n", "a\r\nb", "a\n\nb\r", "\n", "\r\n\r\n", "x\ry\n"] {
        let expected: Vec<Vec<char>> = text.lines().map(|l| l.chars().collect()).collect();
        assert_eq!(split_lines(&text.chars().collect()), expected, "{text:?}");
    }
}
