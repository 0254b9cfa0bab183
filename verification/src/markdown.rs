//! The light Markdown of answers shown in the question panel: headings,
//! lists, quotes, fenced code and inline emphasis. This module decides what
//! is shown and in which style; drawing it is the UI's part.
use vstd::prelude::*;

use crate::text::{
    find_from, has_prefix, has_suffix, matches_at, occurs_at, push_range, string_from_range,
    to_chars, trim_end_len, trim_range, trimmed, trimmed_end,
};

verus! {

// ───────────────────────────── finding ─────────────────────────────

/// The first occurrence of `n` in `h` at or after `from`.
pub open spec fn find_in(h: Seq<char>, n: Seq<char>, from: int) -> Option<int>
    decreases h.len() + 1 - from,
{
    if from < 0 || from > h.len() {
        None
    } else if occurs_at(h, n, from) {
        Some(from)
    } else {
        find_in(h, n, from + 1)
    }
}

/// What [`find_in`] finds is an occurrence with none before it.
pub proof fn lemma_find_in(h: Seq<char>, n: Seq<char>, from: int)
    requires
        0 <= from,
    ensures
        find_in(h, n, from) matches Some(i) ==> from <= i && occurs_at(h, n, i) && forall|j: int|
            from <= j < i ==> !#[trigger] occurs_at(h, n, j),
        find_in(h, n, from) is None ==> forall|j: int| from <= j ==> !#[trigger] occurs_at(h, n, j),
    decreases h.len() + 1 - from,
{
    if from <= h.len() && !occurs_at(h, n, from) {
        lemma_find_in(h, n, from + 1);
    }
}

/// [`find_from`] finds what [`find_in`] names.
fn find_at_or_after(h: &Vec<char>, n: &Vec<char>, from: usize) -> (r: Option<usize>)
    ensures
        match r {
            Some(i) => find_in(h@, n@, from as int) == Some(i as int),
            None => find_in(h@, n@, from as int) is None,
        },
{
    let r = find_from(h, n, from);
    proof {
        lemma_find_in(h@, n@, from as int);
    }
    r
}

/// `c` is one of the inline markers `*`, `_` and `` ` ``.
pub open spec fn is_marker(c: char) -> bool {
    c == '*' || c == '_' || c == '`'
}

/// Index of the first marker char at or after `from` (the end when none).
pub open spec fn next_marker(t: Seq<char>, from: int) -> int
    decreases t.len() - from,
{
    if from < 0 || from >= t.len() {
        t.len() as int
    } else if is_marker(t[from]) {
        from
    } else {
        next_marker(t, from + 1)
    }
}

/// [`next_marker`] stays within `from..=len`.
pub proof fn lemma_next_marker(t: Seq<char>, from: int)
    requires
        0 <= from <= t.len(),
    ensures
        from <= next_marker(t, from) <= t.len(),
    decreases t.len() - from,
{
    if from < t.len() && !is_marker(t[from]) {
        lemma_next_marker(t, from + 1);
    }
}

fn next_marker_exec(t: &Vec<char>, from: usize) -> (r: usize)
    requires
        from <= t.len(),
    ensures
        r as int == next_marker(t@, from as int),
{
    let mut i = from;
    while i < t.len()
        invariant
            from <= i <= t.len(),
            next_marker(t@, from as int) == next_marker(t@, i as int),
        decreases t.len() - i,
    {
        let c = t[i];
        if c == '*' || c == '_' || c == '`' {
            return i;
        }
        i = i + 1;
    }
    i
}

// ───────────────────────────── inline emphasis ─────────────────────────────

/// A run of text and its style.
#[derive(Debug, Clone, PartialEq, Eq)]
pub struct InlineSegment {
    pub text: String,
    pub strong: bool,
    pub italics: bool,
    pub code: bool,
}

/// The view of a run: text, strong, italics, code.
pub open spec fn segment_view(s: InlineSegment) -> (Seq<char>, bool, bool, bool) {
    (s.text@, s.strong, s.italics, s.code)
}

/// Where the closing marker of a pair opened by `open` at `p` starts.
pub open spec fn pair_end(t: Seq<char>, p: int, open: Seq<char>) -> Option<int> {
    if occurs_at(t, open, p) {
        find_in(t, open, p + open.len())
    } else {
        None
    }
}

/// The runs of `t` from `p` on. At each point the first pair that closes
/// wins, tried in the order `**`, `__`, `` ` ``, `*`, `_`: its inside is a run
/// (strong for `**`/`__`, code for `` ` ``, italic for `*`/`_`, on top of
/// the base style). Otherwise the plain text up to the next marker char is a
/// run, or, at a marker that opens nothing, that char alone.
pub open spec fn segments_from(t: Seq<char>, p: int, strong: bool, italics: bool) -> Seq<(
    Seq<char>,
    bool,
    bool,
    bool,
)>
    decreases t.len() - p,
{
    if p < 0 || p >= t.len() {
        Seq::empty()
    } else {
        proof {
            reveal_strlit("**");
            reveal_strlit("__");
            reveal_strlit("`");
            reveal_strlit("*");
            reveal_strlit("_");
            lemma_find_in(t, "**"@, p + 2);
            lemma_find_in(t, "__"@, p + 2);
            lemma_find_in(t, "`"@, p + 1);
            lemma_find_in(t, "*"@, p + 1);
            lemma_find_in(t, "_"@, p + 1);
            lemma_next_marker(t, p);
        }
        if let Some(e) = pair_end(t, p, "**"@) {
            seq![(t.subrange(p + 2, e), true, italics, false)] + segments_from(t, e + 2, strong, italics)
        } else if let Some(e) = pair_end(t, p, "__"@) {
            seq![(t.subrange(p + 2, e), true, italics, false)] + segments_from(t, e + 2, strong, italics)
        } else if let Some(e) = pair_end(t, p, "`"@) {
            seq![(t.subrange(p + 1, e), strong, italics, true)] + segments_from(t, e + 1, strong, italics)
        } else if let Some(e) = pair_end(t, p, "*"@) {
            seq![(t.subrange(p + 1, e), strong, true, false)] + segments_from(t, e + 1, strong, italics)
        } else if let Some(e) = pair_end(t, p, "_"@) {
            seq![(t.subrange(p + 1, e), strong, true, false)] + segments_from(t, e + 1, strong, italics)
        } else if next_marker(t, p) > p {
            seq![(t.subrange(p, next_marker(t, p)), strong, italics, false)] + segments_from(
                t,
                next_marker(t, p),
                strong,
                italics,
            )
        } else {
            seq![(t.subrange(p, p + 1), strong, italics, false)] + segments_from(t, p + 1, strong, italics)
        }
    }
}

/// Every run from `p` on keeps the line's base style: strong on a strong
/// line, italic on an italic one.
proof fn lemma_runs_keep_base_style(t: Seq<char>, p: int, strong: bool, italics: bool)
    ensures
        forall|i: int|
            0 <= i < segments_from(t, p, strong, italics).len() ==> (strong ==> (
            #[trigger] segments_from(t, p, strong, italics)[i]).1) && (italics ==> segments_from(
                t,
                p,
                strong,
                italics,
            )[i].2),
    decreases t.len() - p,
{
    if 0 <= p < t.len() {
        reveal_strlit("**");
        reveal_strlit("__");
        reveal_strlit("`");
        reveal_strlit("*");
        reveal_strlit("_");
        lemma_find_in(t, "**"@, p + 2);
        lemma_find_in(t, "__"@, p + 2);
        lemma_find_in(t, "`"@, p + 1);
        lemma_find_in(t, "*"@, p + 1);
        lemma_find_in(t, "_"@, p + 1);
        lemma_next_marker(t, p);
        let next = if let Some(e) = pair_end(t, p, "**"@) {
            e + 2
        } else if let Some(e) = pair_end(t, p, "__"@) {
            e + 2
        } else if let Some(e) = pair_end(t, p, "`"@) {
            e + 1
        } else if let Some(e) = pair_end(t, p, "*"@) {
            e + 1
        } else if let Some(e) = pair_end(t, p, "_"@) {
            e + 1
        } else if next_marker(t, p) > p {
            next_marker(t, p)
        } else {
            p + 1
        };
        lemma_runs_keep_base_style(t, next, strong, italics);
        let all = segments_from(t, p, strong, italics);
        let rest = segments_from(t, next, strong, italics);
        assert(all.len() == rest.len() + 1);
        assert forall|i: int| 1 <= i < all.len() implies #[trigger] all[i] == rest[i - 1] by {}
    }
}

/// **Base-style law.** Every run of a line keeps the line's own style: on a
/// strong line (a heading) every run is strong, on an italic line every
/// run is italic; markers only add emphasis.
pub proof fn lemma_inline_runs_keep_line_style(t: Seq<char>, strong: bool, italics: bool)
    ensures
        forall|i: int|
            0 <= i < segments_from(t, 0, strong, italics).len() ==> (strong ==> (
            #[trigger] segments_from(t, 0, strong, italics)[i]).1) && (italics ==> segments_from(
                t,
                0,
                strong,
                italics,
            )[i].2),
{
    lemma_runs_keep_base_style(t, 0, strong, italics);
}

fn pair_end_exec(t: &Vec<char>, p: usize, open: &Vec<char>) -> (r: Option<usize>)
    requires
        p <= t.len(),
    ensures
        match r {
            Some(e) => pair_end(t@, p as int, open@) == Some(e as int),
            None => pair_end(t@, p as int, open@) is None,
        },
{
    if matches_at(t, open, p) {
        find_at_or_after(t, open, p + open.len())
    } else {
        None
    }
}

fn segment(t: &Vec<char>, lo: usize, hi: usize, strong: bool, italics: bool, code: bool) -> (r: InlineSegment)
    requires
        lo <= hi <= t.len(),
    ensures
        segment_view(r) == (t@.subrange(lo as int, hi as int), strong, italics, code),
{
    InlineSegment { text: string_from_range(t, lo, hi), strong, italics, code }
}

/// Splits a line into styled runs (see [`segments_from`]); `strong` and
/// `italics` are the line's own style.
pub fn inline_segments(text: &str, strong: bool, italics: bool) -> (r: Vec<InlineSegment>)
    ensures
        r@.map_values(|s: InlineSegment| segment_view(s)) == segments_from(text@, 0, strong, italics),
{
    let t = to_chars(text);
    let bold_star = to_chars("**");
    let bold_under = to_chars("__");
    let tick = to_chars("`");
    let star = to_chars("*");
    let under = to_chars("_");
    proof {
        reveal_strlit("**");
        reveal_strlit("__");
        reveal_strlit("`");
        reveal_strlit("*");
        reveal_strlit("_");
    }
    let mut out: Vec<InlineSegment> = Vec::new();
    let mut p: usize = 0;
    while p < t.len()
        invariant
            t@ == text@,
            bold_star@ == "**"@,
            bold_under@ == "__"@,
            tick@ == "`"@,
            star@ == "*"@,
            under@ == "_"@,
            "**"@.len() == 2,
            "__"@.len() == 2,
            "`"@.len() == 1,
            "*"@.len() == 1,
            "_"@.len() == 1,
            p <= t.len(),
            out@.map_values(|s: InlineSegment| segment_view(s)) + segments_from(t@, p as int, strong, italics)
                == segments_from(t@, 0, strong, italics),
        decreases t.len() - p,
    {
        let ghost before = out@.map_values(|s: InlineSegment| segment_view(s));
        proof {
            lemma_find_in(t@, "**"@, p + 2);
            lemma_find_in(t@, "__"@, p + 2);
            lemma_find_in(t@, "`"@, p + 1);
            lemma_find_in(t@, "*"@, p + 1);
            lemma_find_in(t@, "_"@, p + 1);
            lemma_next_marker(t@, p as int);
        }
        let (seg, next) = if let Some(e) = pair_end_exec(&t, p, &bold_star) {
            (segment(&t, p + 2, e, true, italics, false), e + 2)
        } else if let Some(e) = pair_end_exec(&t, p, &bold_under) {
            (segment(&t, p + 2, e, true, italics, false), e + 2)
        } else if let Some(e) = pair_end_exec(&t, p, &tick) {
            (segment(&t, p + 1, e, strong, italics, true), e + 1)
        } else if let Some(e) = pair_end_exec(&t, p, &star) {
            (segment(&t, p + 1, e, strong, true, false), e + 1)
        } else if let Some(e) = pair_end_exec(&t, p, &under) {
            (segment(&t, p + 1, e, strong, true, false), e + 1)
        } else {
            let n = next_marker_exec(&t, p);
            if n > p {
                (segment(&t, p, n, strong, italics, false), n)
            } else {
                (segment(&t, p, p + 1, strong, italics, false), p + 1)
            }
        };
        proof {
            assert(segments_from(t@, p as int, strong, italics) == seq![segment_view(seg)] + segments_from(
                t@,
                next as int,
                strong,
                italics,
            ));
        }
        out.push(seg);
        proof {
            assert(out@.map_values(|s: InlineSegment| segment_view(s)) =~= before.push(segment_view(seg)));
            assert(before.push(segment_view(seg)) + segments_from(t@, next as int, strong, italics) =~= before + (
            seq![segment_view(seg)] + segments_from(t@, next as int, strong, italics)));
        }
        p = next;
    }
    proof {
        assert(segments_from(t@, p as int, strong, italics) =~= Seq::empty());
        assert(out@.map_values(|s: InlineSegment| segment_view(s)) + Seq::empty() =~= out@.map_values(
            |s: InlineSegment| segment_view(s),
        ));
    }
    out
}

// ───────────────────────────── lines ─────────────────────────────

/// Index of the first `c` at or after `from` (the end when none).
pub open spec fn next_index(s: Seq<char>, c: char, from: int) -> int
    decreases s.len() - from,
{
    if from < 0 || from >= s.len() {
        s.len() as int
    } else if s[from] == c {
        from
    } else {
        next_index(s, c, from + 1)
    }
}

/// [`next_index`] stays within `from..=len` and finds a `c`, if any.
pub proof fn lemma_next_index(s: Seq<char>, c: char, from: int)
    requires
        0 <= from <= s.len(),
    ensures
        from <= next_index(s, c, from) <= s.len(),
        next_index(s, c, from) < s.len() ==> s[next_index(s, c, from)] == c,
    decreases s.len() - from,
{
    if from < s.len() && s[from] != c {
        lemma_next_index(s, c, from + 1);
    }
}

/// A line without the `\r` of a `\r\n` ending.
pub open spec fn strip_cr(l: Seq<char>) -> Seq<char> {
    if l.len() > 0 && l.last() == '\r' {
        l.drop_last()
    } else {
        l
    }
}

/// The lines of `s` from `start` on, as `str::lines` gives them: split at
/// `\n`, a `\r` right before a `\n` dropped, and no empty line after a
/// final `\n`.
pub open spec fn lines_from(s: Seq<char>, start: int) -> Seq<Seq<char>>
    decreases s.len() - start,
{
    if start < 0 || start >= s.len() {
        Seq::empty()
    } else {
        proof {
            lemma_next_index(s, '\n', start);
        }
        let i = next_index(s, '\n', start);
        if i >= s.len() {
            seq![s.subrange(start, s.len() as int)]
        } else {
            seq![strip_cr(s.subrange(start, i))] + lines_from(s, i + 1)
        }
    }
}

fn next_index_exec(v: &Vec<char>, c: char, from: usize) -> (r: usize)
    requires
        from <= v.len(),
    ensures
        r as int == next_index(v@, c, from as int),
{
    let mut i = from;
    while i < v.len()
        invariant
            from <= i <= v.len(),
            next_index(v@, c, from as int) == next_index(v@, c, i as int),
        decreases v.len() - i,
    {
        if v[i] == c {
            return i;
        }
        i = i + 1;
    }
    i
}

/// The lines of `v` (see [`lines_from`]).
pub fn split_lines(v: &Vec<char>) -> (r: Vec<Vec<char>>)
    ensures
        r@.map_values(|l: Vec<char>| l@) == lines_from(v@, 0),
{
    let mut out: Vec<Vec<char>> = Vec::new();
    let mut start: usize = 0;
    while start < v.len()
        invariant
            start <= v.len(),
            out@.map_values(|l: Vec<char>| l@) + lines_from(v@, start as int) == lines_from(v@, 0),
        decreases v.len() - start,
    {
        let ghost before = out@.map_values(|l: Vec<char>| l@);
        proof {
            lemma_next_index(v@, '\n', start as int);
        }
        let i = next_index_exec(v, '\n', start);
        let mut end = i;
        if i < v.len() && end > start && v[end - 1] == '\r' {
            end = end - 1;
        }
        let mut line: Vec<char> = Vec::new();
        let mut k = start;
        while k < end
            invariant
                start <= k <= end <= v.len(),
                line@ == v@.subrange(start as int, k as int),
            decreases end - k,
        {
            line.push(v[k]);
            k = k + 1;
        }
        proof {
            if i < v.len() {
                assert(line@ =~= strip_cr(v@.subrange(start as int, i as int)));
            } else {
                assert(line@ =~= v@.subrange(start as int, v@.len() as int));
                assert(lines_from(v@, (i + 1) as int) =~= Seq::empty());
            }
        }
        let ghost l = line@;
        out.push(line);
        proof {
            assert(out@.map_values(|l: Vec<char>| l@) =~= before.push(l));
            if i < v.len() {
                assert(lines_from(v@, start as int) == seq![l] + lines_from(v@, i + 1));
                assert(before.push(l) + lines_from(v@, i + 1) =~= before + (seq![l] + lines_from(v@, i + 1)));
            } else {
                assert(lines_from(v@, start as int) == seq![l]);
                assert(lines_from(v@, v@.len() as int) =~= Seq::empty());
                assert(before.push(l) + lines_from(v@, v@.len() as int) =~= before + seq![l]);
            }
        }
        start = if i < v.len() {
            i + 1
        } else {
            v.len()
        };
    }
    proof {
        assert(lines_from(v@, start as int) =~= Seq::empty());
        assert(out@.map_values(|l: Vec<char>| l@) + Seq::empty() =~= out@.map_values(|l: Vec<char>| l@));
    }
    out
}

// ───────────────────────────── blocks ─────────────────────────────

/// How a line of text is styled.
#[derive(Debug, Clone, Copy, PartialEq, Eq)]
pub enum LineStyle {
    Heading1,
    Heading2,
    Heading3,
    Quote,
    Bullet,
    Plain,
}

/// What an answer is shown as, block by block.
#[derive(Debug, Clone, PartialEq, Eq)]
pub enum MarkdownBlock {
    /// The text of a fenced code block.
    Code(String),
    /// A blank line: a little space.
    Gap,
    /// A line of text in a style; its emphasis is split by
    /// [`inline_segments`].
    Line(LineStyle, String),
}

/// The view of a block.
pub enum BlockView {
    Code(Seq<char>),
    Gap,
    Line(LineStyle, Seq<char>),
}

pub open spec fn block_view(b: MarkdownBlock) -> BlockView {
    match b {
        MarkdownBlock::Code(c) => BlockView::Code(c@),
        MarkdownBlock::Gap => BlockView::Gap,
        MarkdownBlock::Line(st, t) => BlockView::Line(st, t@),
    }
}

/// A non-blank trimmed line: `#`, `##`, `###` headings, `>` quotes and
/// `-`/`*` list items (each marker followed by a space, which is dropped
/// with it), shown with a bullet; anything else is plain text.
pub open spec fn line_block(t: Seq<char>) -> BlockView {
    if has_prefix(t, "### "@) {
        BlockView::Line(LineStyle::Heading3, t.subrange(4, t.len() as int))
    } else if has_prefix(t, "## "@) {
        BlockView::Line(LineStyle::Heading2, t.subrange(3, t.len() as int))
    } else if has_prefix(t, "# "@) {
        BlockView::Line(LineStyle::Heading1, t.subrange(2, t.len() as int))
    } else if has_prefix(t, "> "@) {
        BlockView::Line(LineStyle::Quote, t.subrange(2, t.len() as int))
    } else if has_prefix(t, "- "@) || has_prefix(t, "* "@) {
        BlockView::Line(LineStyle::Bullet, "\u{2022} "@ + t.subrange(2, t.len() as int))
    } else {
        BlockView::Line(LineStyle::Plain, t)
    }
}

/// A trimmed line that is a whole code block by itself: ```` ```code``` ````.
pub open spec fn is_inline_fence(t: Seq<char>) -> bool {
    has_prefix(t, "```"@) && has_suffix(t, "```"@) && t.len() > 6
}

/// The blocks of `lines` from `k` on, inside a code block collecting
/// `code` or not. A one-line fence is a code block wherever it stands;
/// another line starting with ```` ``` ```` opens or closes a code block
/// (closing one emits its text without trailing whitespace); lines inside
/// a code block are collected as they are; outside, a blank line is a gap
/// and any other line a [`line_block`]. A code block still open at the end
/// is emitted when it holds something.
pub open spec fn blocks_from(lines: Seq<Seq<char>>, k: int, in_code: bool, code: Seq<char>) -> Seq<BlockView>
    decreases lines.len() - k,
{
    if k < 0 || k >= lines.len() {
        if in_code && code.len() > 0 {
            seq![BlockView::Code(trimmed_end(code))]
        } else {
            Seq::empty()
        }
    } else {
        let line = lines[k];
        let t = trimmed(line);
        if is_inline_fence(t) {
            seq![BlockView::Code(trimmed(t.subrange(3, t.len() - 3)))] + blocks_from(lines, k + 1, in_code, code)
        } else if has_prefix(t, "```"@) {
            (if in_code {
                seq![BlockView::Code(trimmed_end(code))]
            } else {
                Seq::empty()
            }) + blocks_from(lines, k + 1, !in_code, if in_code {
                Seq::empty()
            } else {
                code
            })
        } else if in_code {
            blocks_from(lines, k + 1, true, code + line + seq!['\n'])
        } else if t.len() == 0 {
            seq![BlockView::Gap] + blocks_from(lines, k + 1, false, code)
        } else {
            seq![line_block(t)] + blocks_from(lines, k + 1, false, code)
        }
    }
}

/// The blocks of an answer.
pub open spec fn markdown_blocks_of(markdown: Seq<char>) -> Seq<BlockView> {
    blocks_from(lines_from(markdown, 0), 0, false, Seq::empty())
}

fn line_block_exec(t: &Vec<char>) -> (r: MarkdownBlock)
    ensures
        block_view(r) == line_block(t@),
{
    proof {
        reveal_strlit("### ");
        reveal_strlit("## ");
        reveal_strlit("# ");
        reveal_strlit("> ");
        reveal_strlit("- ");
        reveal_strlit("* ");
    }
    let n = t.len();
    if crate::text::starts_with_chars(t, &to_chars("### ")) {
        MarkdownBlock::Line(LineStyle::Heading3, string_from_range(t, 4, n))
    } else if crate::text::starts_with_chars(t, &to_chars("## ")) {
        MarkdownBlock::Line(LineStyle::Heading2, string_from_range(t, 3, n))
    } else if crate::text::starts_with_chars(t, &to_chars("# ")) {
        MarkdownBlock::Line(LineStyle::Heading1, string_from_range(t, 2, n))
    } else if crate::text::starts_with_chars(t, &to_chars("> ")) {
        MarkdownBlock::Line(LineStyle::Quote, string_from_range(t, 2, n))
    } else if crate::text::starts_with_chars(t, &to_chars("- ")) || crate::text::starts_with_chars(
        t,
        &to_chars("* "),
    ) {
        let mut s = String::new();
        crate::text::push_str_chars(&mut s, "\u{2022} ");
        push_range(&mut s, t, 2, n);
        MarkdownBlock::Line(LineStyle::Bullet, s)
    } else {
        MarkdownBlock::Line(LineStyle::Plain, crate::text::string_from_chars(t))
    }
}

fn trimmed_chars(v: &Vec<char>) -> (r: Vec<char>)
    ensures
        r@ == trimmed(v@),
{
    let (a, b) = trim_range(v);
    let mut r: Vec<char> = Vec::new();
    let mut k = a;
    while k < b
        invariant
            a <= k <= b <= v.len(),
            r@ == v@.subrange(a as int, k as int),
        decreases b - k,
    {
        r.push(v[k]);
        k = k + 1;
    }
    r
}

fn code_text(code: &Vec<char>) -> (r: String)
    ensures
        r@ == trimmed_end(code@),
{
    let e = trim_end_len(code);
    string_from_range(code, 0, e)
}

/// Splits an answer into blocks (see [`blocks_from`]).
pub fn markdown_blocks(markdown: &str) -> (r: Vec<MarkdownBlock>)
    ensures
        r@.map_values(|b: MarkdownBlock| block_view(b)) == markdown_blocks_of(markdown@),
{
    proof {
        reveal_strlit("```");
    }
    let v = to_chars(markdown);
    let lines = split_lines(&v);
    let ghost ls = lines@.map_values(|l: Vec<char>| l@);
    let fence = to_chars("```");
    let mut out: Vec<MarkdownBlock> = Vec::new();
    let mut in_code = false;
    let mut code: Vec<char> = Vec::new();
    let mut k: usize = 0;
    while k < lines.len()
        invariant
            ls == lines@.map_values(|l: Vec<char>| l@),
            ls == lines_from(markdown@, 0),
            fence@ == "```"@,
            "```"@.len() == 3,
            k <= lines@.len(),
            out@.map_values(|b: MarkdownBlock| block_view(b)) + blocks_from(ls, k as int, in_code, code@)
                == blocks_from(ls, 0, false, Seq::empty()),
        decreases lines.len() - k,
    {
        let ghost before = out@.map_values(|b: MarkdownBlock| block_view(b));
        let ghost old_code = code@;
        let ghost old_in = in_code;
        let line = &lines[k];
        assert(line@ == ls[k as int]);
        let t = trimmed_chars(line);
        let n = t.len();
        let starts = crate::text::starts_with_chars(&t, &fence);
        let ends = crate::text::ends_with_chars(&t, &fence);
        if starts && ends && n > 6 {
            let inner = trimmed_chars(&{
                let mut m: Vec<char> = Vec::new();
                let mut j: usize = 3;
                while j < n - 3
                    invariant
                        3 <= j <= n - 3,
                        n == t@.len(),
                        n > 6,
                        m@ == t@.subrange(3, j as int),
                    decreases n - 3 - j,
                {
                    m.push(t[j]);
                    j = j + 1;
                }
                m
            });
            let b = MarkdownBlock::Code(crate::text::string_from_chars(&inner));
            let ghost bv = block_view(b);
            out.push(b);
            proof {
                assert(out@.map_values(|b: MarkdownBlock| block_view(b)) =~= before.push(bv));
                assert(before.push(bv) + blocks_from(ls, k + 1, in_code, code@) =~= before + (seq![bv]
                    + blocks_from(ls, k + 1, in_code, code@)));
            }
        } else if starts {
            if in_code {
                let b = MarkdownBlock::Code(code_text(&code));
                let ghost bv = block_view(b);
                out.push(b);
                code = Vec::new();
                in_code = false;
                proof {
                    assert(out@.map_values(|b: MarkdownBlock| block_view(b)) =~= before.push(bv));
                    assert(code@ =~= Seq::<char>::empty());
                    assert(before.push(bv) + blocks_from(ls, k + 1, false, code@) =~= before + (seq![bv]
                        + blocks_from(ls, k + 1, false, code@)));
                }
            } else {
                in_code = true;
                proof {
                    assert(Seq::<BlockView>::empty() + blocks_from(ls, k + 1, true, code@) =~= blocks_from(
                        ls,
                        k + 1,
                        true,
                        code@,
                    ));
                }
            }
        } else if in_code {
            let mut j: usize = 0;
            while j < line.len()
                invariant
                    j <= line@.len(),
                    code@ == old_code + line@.subrange(0, j as int),
                decreases line.len() - j,
            {
                code.push(line[j]);
                j = j + 1;
            }
            code.push('\n');
            proof {
                assert(code@ =~= old_code + line@ + seq!['\n']);
            }
        } else if n == 0 {
            out.push(MarkdownBlock::Gap);
            proof {
                assert(out@.map_values(|b: MarkdownBlock| block_view(b)) =~= before.push(BlockView::Gap));
                assert(before.push(BlockView::Gap) + blocks_from(ls, k + 1, false, code@) =~= before + (
                seq![BlockView::Gap] + blocks_from(ls, k + 1, false, code@)));
            }
        } else {
            let b = line_block_exec(&t);
            let ghost bv = block_view(b);
            out.push(b);
            proof {
                assert(out@.map_values(|b: MarkdownBlock| block_view(b)) =~= before.push(bv));
                assert(before.push(bv) + blocks_from(ls, k + 1, false, code@) =~= before + (seq![bv]
                    + blocks_from(ls, k + 1, false, code@)));
            }
        }
        k = k + 1;
    }
    if in_code && code.len() > 0 {
        let b = MarkdownBlock::Code(code_text(&code));
        let ghost before = out@.map_values(|b: MarkdownBlock| block_view(b));
        let ghost bv = block_view(b);
        out.push(b);
        proof {
            assert(out@.map_values(|b: MarkdownBlock| block_view(b)) =~= before.push(bv));
            assert(blocks_from(ls, k as int, in_code, code@) == seq![bv]);
            assert(before.push(bv) =~= before + seq![bv]);
        }
    } else {
        proof {
            assert(blocks_from(ls, k as int, in_code, code@) =~= Seq::<BlockView>::empty());
            assert(out@.map_values(|b: MarkdownBlock| block_view(b)) + Seq::<BlockView>::empty()
                =~= out@.map_values(|b: MarkdownBlock| block_view(b)));
        }
    }
    out
}

} // verus!
