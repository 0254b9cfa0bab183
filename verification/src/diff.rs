//! Minimal-edit learning: from the text we inserted and the text after the
//! user touched it, extract the one word the user changed, decide whether it
//! is worth keeping as a vocabulary entry, and widen it to a safe length.
//!
//! Everything is counted in chars, never in bytes.
use vstd::prelude::*;

use crate::text::{
    all_ws, char_is_whitespace, chars_eq, contains_chars, contains_seq, is_all_ws, is_ws,
    lemma_trimmed_empty, push_range, string_from_chars, string_from_range, strip_ws, strip_ws_chars,
    to_chars, trim_range, trimmed,
};

verus! {

/// Longest change (in chars, on either side) that still counts as a
/// correction rather than a rewrite.
pub const MAX_EDIT_CHARS: usize = 64;

/// Chars of context kept on each side of the change.
pub const CONTEXT_CHARS: usize = 256;

/// Shortest pattern (in chars) a learned rule may have.
pub const MIN_PATTERN_CHARS: usize = 2;

/// Longest vocabulary entry (in chars).
pub const MAX_PHRASE_CHARS: usize = 12;

/// One minimal change.
#[derive(Debug, Clone, PartialEq, Eq)]
pub struct EditPair {
    /// The chars before the change (never empty).
    pub source: String,
    /// The chars after the change (may be empty: a pure deletion).
    pub target: String,
    /// Up to `CONTEXT_CHARS` chars preceding the change.
    pub before: String,
    /// Up to `CONTEXT_CHARS` chars following the change.
    pub after: String,
}

/// Mathematical model of an [`EditPair`].
pub struct EditModel {
    pub source: Seq<char>,
    pub target: Seq<char>,
    pub before: Seq<char>,
    pub after: Seq<char>,
}

impl View for EditPair {
    type V = EditModel;

    open spec fn view(&self) -> EditModel {
        EditModel {
            source: self.source@,
            target: self.target@,
            before: self.before@,
            after: self.after@,
        }
    }
}

/// How an edit enters the vocabulary.
#[derive(Debug, Clone, Copy, PartialEq, Eq, Structural)]
pub enum RuleTier {
    /// Collected automatically (marked as learned).
    Auto,
    /// Suggested on a card; kept only when the user confirms.
    Confirm,
}

/// A vocabulary suggestion distilled from one manual edit.
#[derive(Debug, Clone, PartialEq, Eq)]
pub struct LearnedRule {
    /// The (wrong) spelling the user replaced, widened to a safe length.
    pub pattern: String,
    /// The word the user wanted, widened the same way.
    pub replacement: String,
    pub tier: RuleTier,
}

// ───────────────────────────── specification ─────────────────────────────

/// Length of the common prefix of `a` and `b`, scanning from `i`.
pub open spec fn prefix_scan(a: Seq<char>, b: Seq<char>, i: int) -> int
    decreases a.len() - i,
{
    if 0 <= i < a.len() && i < b.len() && a[i] == b[i] {
        prefix_scan(a, b, i + 1)
    } else {
        i
    }
}

/// Length of the longest common prefix of `a` and `b`.
pub open spec fn common_prefix_len(a: Seq<char>, b: Seq<char>) -> int {
    prefix_scan(a, b, 0)
}

/// Length of the common suffix of `a` and `b` that leaves the first `p`
/// chars of both untouched, scanning from `k`.
pub open spec fn suffix_scan(a: Seq<char>, b: Seq<char>, p: int, k: int) -> int
    decreases a.len() - p - k,
{
    if 0 <= k && k < a.len() - p && k < b.len() - p && a[a.len() - 1 - k] == b[b.len() - 1 - k] {
        suffix_scan(a, b, p, k + 1)
    } else {
        k
    }
}

/// The `j`-th char of `s` counted from its end (0 is the last char).
pub open spec fn from_end(s: Seq<char>, j: int) -> char {
    s[s.len() - 1 - j]
}

/// Length of the longest common suffix of `a` and `b` that does not
/// overlap their common prefix.
pub open spec fn common_suffix_len(a: Seq<char>, b: Seq<char>) -> int {
    suffix_scan(a, b, common_prefix_len(a, b), 0)
}

pub open spec fn min_int(x: int, y: int) -> int {
    if x <= y {
        x
    } else {
        y
    }
}

pub open spec fn max_int(x: int, y: int) -> int {
    if x >= y {
        x
    } else {
        y
    }
}

/// The middle part of `a` that the edit `a → b` replaced.
pub open spec fn changed_source(a: Seq<char>, b: Seq<char>) -> Seq<char> {
    a.subrange(common_prefix_len(a, b), a.len() - common_suffix_len(a, b))
}

/// The middle part of `b` that the edit `a → b` put in its place.
pub open spec fn changed_target(a: Seq<char>, b: Seq<char>) -> Seq<char> {
    b.subrange(common_prefix_len(a, b), b.len() - common_suffix_len(a, b))
}

/// What [`minimal_edit`] returns for `a → b`.
///
/// `None` when the texts are equal, when nothing was removed (a pure
/// insertion), when either side of the change is longer than
/// `MAX_EDIT_CHARS`, when the removed part is only whitespace, or when both
/// sides agree once whitespace is dropped.
pub open spec fn spec_minimal_edit(a: Seq<char>, b: Seq<char>) -> Option<EditModel> {
    let p = common_prefix_len(a, b);
    let k = common_suffix_len(a, b);
    let source = changed_source(a, b);
    let target = changed_target(a, b);
    if a == b {
        None
    } else if source.len() == 0 {
        None
    } else if source.len() > MAX_EDIT_CHARS || target.len() > MAX_EDIT_CHARS {
        None
    } else if all_ws(source) {
        None
    } else if strip_ws(source) == strip_ws(target) {
        None
    } else {
        Some(
            EditModel {
                source,
                target,
                before: a.subrange(max_int(0, p - CONTEXT_CHARS), p),
                after: a.subrange(a.len() - k, min_int(a.len() - k + CONTEXT_CHARS, a.len() as int)),
            },
        )
    }
}

/// A char that ends a sentence or a line: newlines, CJK sentence and
/// clause punctuation, and ASCII `?`, `!`, `;` (but not the ASCII period).
pub open spec fn is_boundary_char(c: char) -> bool {
    c == '\n' || c == '\r' || c == '。' || c == '？' || c == '！' || c == '；' || c == '，'
        || c == '、' || c == '：' || c == '?' || c == '!' || c == ';'
}

pub open spec fn has_boundary(s: Seq<char>) -> bool {
    exists|i: int| 0 <= i < s.len() && is_boundary_char(#[trigger] s[i])
}

pub open spec fn is_ascii_alpha(c: char) -> bool {
    ('a' <= c && c <= 'z') || ('A' <= c && c <= 'Z')
}

pub open spec fn is_ascii_alnum(c: char) -> bool {
    is_ascii_alpha(c) || ('0' <= c && c <= '9')
}

/// Chars a Latin technical word may contain besides letters and digits.
pub open spec fn is_word_joiner(c: char) -> bool {
    is_ws(c) || c == '-' || c == '_' || c == '.'
}

/// A word made of ASCII letters/digits (with `-`, `_`, `.` and whitespace
/// allowed in between) holding at least one letter: `Codex`, `Node.js`, `GPT-5`.
pub open spec fn is_ascii_word(s: Seq<char>) -> bool {
    &&& forall|i: int| 0 <= i < s.len() ==> is_word_joiner(#[trigger] s[i]) || is_ascii_alnum(s[i])
    &&& exists|i: int| 0 <= i < s.len() && is_ascii_alpha(#[trigger] s[i]) && !is_word_joiner(s[i])
}

/// What [`classify_edit`] returns.
pub open spec fn spec_classify(e: EditModel) -> Option<RuleTier> {
    let t = trimmed(e.target);
    if t.len() == 0 || all_ws(e.source) {
        None
    } else if has_boundary(e.source) || has_boundary(t) {
        None
    } else if t.len() > MAX_PHRASE_CHARS {
        None
    } else if is_ascii_word(t) {
        Some(RuleTier::Auto)
    } else {
        Some(RuleTier::Confirm)
    }
}

/// How many chars can be borrowed from the end of `s`, wanting `need`,
/// having already taken `taken`: borrowing stops at whitespace.
pub open spec fn left_scan(s: Seq<char>, need: int, taken: int) -> int
    decreases need - taken,
{
    if 0 <= taken < need && taken < s.len() && !is_ws(s[s.len() - 1 - taken]) {
        left_scan(s, need, taken + 1)
    } else {
        taken
    }
}

/// How many chars can be borrowed from the start of `s`, wanting `need`,
/// having already taken `taken`: borrowing stops at whitespace.
pub open spec fn right_scan(s: Seq<char>, need: int, taken: int) -> int
    decreases need - taken,
{
    if 0 <= taken < need && taken < s.len() && !is_ws(s[taken]) {
        right_scan(s, need, taken + 1)
    } else {
        taken
    }
}

/// Chars missing from `e.source` to reach `MIN_PATTERN_CHARS`.
pub open spec fn pad_need(e: EditModel) -> int {
    if e.source.len() >= MIN_PATTERN_CHARS {
        0
    } else {
        MIN_PATTERN_CHARS - e.source.len()
    }
}

/// Chars borrowed from the left context.
pub open spec fn pad_left(e: EditModel) -> int {
    left_scan(e.before, pad_need(e), 0)
}

/// Chars borrowed from the right context.
pub open spec fn pad_right(e: EditModel) -> int {
    right_scan(e.after, pad_need(e) - pad_left(e), 0)
}

/// The edit widened to `MIN_PATTERN_CHARS` with context chars (left first,
/// then right, never whitespace), or `None` when the context runs out.
pub open spec fn spec_pad(e: EditModel) -> Option<(Seq<char>, Seq<char>)> {
    let l = pad_left(e);
    let r = pad_right(e);
    if l + r < pad_need(e) {
        None
    } else {
        let pre = e.before.subrange(e.before.len() - l, e.before.len() as int);
        let suf = e.after.subrange(0, r);
        Some((pre + e.source + suf, pre + e.target + suf))
    }
}

/// Model of a [`LearnedRule`].
pub open spec fn rule_model(r: LearnedRule) -> (Seq<char>, Seq<char>, RuleTier) {
    (r.pattern@, r.replacement@, r.tier)
}

/// What [`learned_rule`] returns.
pub open spec fn spec_learned_rule(e: EditModel) -> Option<(Seq<char>, Seq<char>, RuleTier)> {
    match spec_classify(e) {
        None => None,
        Some(tier) => match spec_pad(e) {
            None => None,
            Some((p, r)) => Some((p, r, tier)),
        },
    }
}

// ───────────────────────────── lemmas ─────────────────────────────

proof fn lemma_prefix_scan(a: Seq<char>, b: Seq<char>, i: int)
    requires
        0 <= i <= a.len(),
        i <= b.len(),
    ensures
        i <= prefix_scan(a, b, i) <= a.len(),
        prefix_scan(a, b, i) <= b.len(),
        forall|j: int| i <= j < prefix_scan(a, b, i) ==> a[j] == b[j],
        prefix_scan(a, b, i) < a.len() && prefix_scan(a, b, i) < b.len() ==> a[prefix_scan(a, b, i)]
            != b[prefix_scan(a, b, i)],
    decreases a.len() - i,
{
    if i < a.len() && i < b.len() && a[i] == b[i] {
        lemma_prefix_scan(a, b, i + 1);
    }
}

proof fn lemma_suffix_scan(a: Seq<char>, b: Seq<char>, p: int, k: int)
    requires
        0 <= p <= a.len(),
        p <= b.len(),
        0 <= k <= a.len() - p,
        k <= b.len() - p,
    ensures
        k <= suffix_scan(a, b, p, k),
        suffix_scan(a, b, p, k) <= a.len() - p,
        suffix_scan(a, b, p, k) <= b.len() - p,
        forall|j: int| k <= j < suffix_scan(a, b, p, k) ==> #[trigger] from_end(a, j) == from_end(b, j),
        ({
            let s = suffix_scan(a, b, p, k);
            s < a.len() - p && s < b.len() - p ==> a[a.len() - 1 - s] != b[b.len() - 1 - s]
        }),
    decreases a.len() - p - k,
{
    if k < a.len() - p && k < b.len() - p && a[a.len() - 1 - k] == b[b.len() - 1 - k] {
        lemma_suffix_scan(a, b, p, k + 1);
    }
}

/// Bounds and defining properties of the common prefix and suffix.
pub proof fn lemma_prefix_suffix(a: Seq<char>, b: Seq<char>)
    ensures
        0 <= common_prefix_len(a, b) <= a.len(),
        common_prefix_len(a, b) <= b.len(),
        0 <= common_suffix_len(a, b),
        common_prefix_len(a, b) + common_suffix_len(a, b) <= a.len(),
        common_prefix_len(a, b) + common_suffix_len(a, b) <= b.len(),
        a.subrange(0, common_prefix_len(a, b)) == b.subrange(0, common_prefix_len(a, b)),
        a.subrange(a.len() - common_suffix_len(a, b), a.len() as int) == b.subrange(
            b.len() - common_suffix_len(a, b),
            b.len() as int,
        ),
{
    lemma_prefix_scan(a, b, 0);
    let p = common_prefix_len(a, b);
    lemma_suffix_scan(a, b, p, 0);
    let k = common_suffix_len(a, b);
    assert(a.subrange(0, p) =~= b.subrange(0, p));
    assert forall|i: int| 0 <= i < k implies #[trigger] a.subrange(a.len() - k, a.len() as int)[i] == b.subrange(
        b.len() - k,
        b.len() as int,
    )[i] by {
        let j = k - 1 - i;
        assert(from_end(a, j) == from_end(b, j));
    }
    assert(a.subrange(a.len() - k, a.len() as int) =~= b.subrange(b.len() - k, b.len() as int));
}

/// **Splice law.** A learned edit is exact: the text before the change is
/// the untouched prefix, then `source`, then the untouched suffix; the text
/// after the change is the same prefix, `target`, and the same suffix.
/// Replacing `source` by `target` in place turns one text into the other.
pub proof fn lemma_minimal_edit_splices(a: Seq<char>, b: Seq<char>)
    requires
        spec_minimal_edit(a, b) is Some,
    ensures
        ({
            let e = spec_minimal_edit(a, b)->0;
            let p = common_prefix_len(a, b);
            let k = common_suffix_len(a, b);
            &&& a == a.subrange(0, p) + e.source + a.subrange(a.len() - k, a.len() as int)
            &&& b == a.subrange(0, p) + e.target + a.subrange(a.len() - k, a.len() as int)
            &&& e.before == a.subrange(p - e.before.len(), p)
            &&& e.after == a.subrange(a.len() - k, a.len() - k + e.after.len())
        }),
{
    lemma_prefix_suffix(a, b);
    let e = spec_minimal_edit(a, b)->0;
    let p = common_prefix_len(a, b);
    let k = common_suffix_len(a, b);
    assert(a =~= a.subrange(0, p) + e.source + a.subrange(a.len() - k, a.len() as int));
    assert(b =~= b.subrange(0, p) + e.target + b.subrange(b.len() - k, b.len() as int));
}

/// **Minimality law.** A learned edit cannot be narrowed: its first chars
/// differ (unless one side is exhausted), and so do its last chars.
pub proof fn lemma_minimal_edit_is_minimal(a: Seq<char>, b: Seq<char>)
    requires
        spec_minimal_edit(a, b) is Some,
    ensures
        ({
            let e = spec_minimal_edit(a, b)->0;
            &&& e.source.len() > 0
            &&& e.target.len() > 0 ==> e.source[0] != e.target[0]
            &&& e.target.len() > 0 ==> e.source[e.source.len() - 1] != e.target[e.target.len() - 1]
                || e.source.len() == 0
        }),
{
    lemma_prefix_suffix(a, b);
    let p = common_prefix_len(a, b);
    lemma_prefix_scan(a, b, 0);
    lemma_suffix_scan(a, b, p, 0);
}

/// **Bounds law.** Both sides of a learned edit hold at most
/// `MAX_EDIT_CHARS` chars, `source` is never empty nor whitespace only, and
/// each context holds at most `CONTEXT_CHARS` chars.
pub proof fn lemma_minimal_edit_bounds(a: Seq<char>, b: Seq<char>)
    requires
        spec_minimal_edit(a, b) is Some,
    ensures
        ({
            let e = spec_minimal_edit(a, b)->0;
            &&& 0 < e.source.len() <= MAX_EDIT_CHARS
            &&& e.target.len() <= MAX_EDIT_CHARS
            &&& !all_ws(e.source)
            &&& e.before.len() <= CONTEXT_CHARS
            &&& e.after.len() <= CONTEXT_CHARS
        }),
{
    lemma_prefix_suffix(a, b);
}

/// **No-edit law.** Identical texts and pure insertions never yield an edit.
pub proof fn lemma_minimal_edit_rejects(a: Seq<char>, b: Seq<char>, x: Seq<char>, y: Seq<char>, z: Seq<char>)
    ensures
        spec_minimal_edit(a, a) is None,
        spec_minimal_edit(x + z, x + y + z) is None,
{
    let a2 = x + z;
    let b2 = x + y + z;
    lemma_prefix_suffix(a2, b2);
    lemma_prefix_scan(a2, b2, 0);
    let p = common_prefix_len(a2, b2);
    lemma_suffix_scan(a2, b2, p, 0);
    let k = common_suffix_len(a2, b2);
    if changed_source(a2, b2).len() > 0 {
        // The prefix reaches at least `x`, the suffix at least `z`, and
        // together they cover all of `x + z`.
        assert forall|i: int| 0 <= i < x.len() implies a2[i] == b2[i] by {}
        if p < x.len() {
            assert(a2[p] == b2[p]);
        }
        assert(p >= x.len());
        assert forall|j: int| 0 <= j < z.len() implies #[trigger] from_end(a2, j) == from_end(b2, j) by {}
        if k < z.len() && k < a2.len() - p {
            assert(a2[a2.len() - 1 - k] == b2[b2.len() - 1 - k]);
        }
        assert(false);
    }
}

/// A learned rule is always a classified edit, widened: its pattern
/// contains the edit's source and its replacement the edit's target, at
/// the same offset, and the pattern reaches `MIN_PATTERN_CHARS`.
pub proof fn lemma_learned_rule_widens(e: EditModel)
    requires
        spec_learned_rule(e) is Some,
    ensures
        ({
            let (pattern, replacement, tier) = spec_learned_rule(e)->0;
            let l = pad_left(e);
            &&& spec_classify(e) == Some(tier)
            &&& pattern.len() >= MIN_PATTERN_CHARS
            &&& pattern.subrange(l, l + e.source.len()) == e.source
            &&& replacement.subrange(l, l + e.target.len()) == e.target
            &&& pattern.subrange(0, l) == replacement.subrange(0, l)
        }),
{
    lemma_scan_bounds(e);
    let l = pad_left(e);
    let r = pad_right(e);
    let pre = e.before.subrange(e.before.len() - l, e.before.len() as int);
    let suf = e.after.subrange(0, r);
    assert((pre + e.source + suf).subrange(l, l + e.source.len()) =~= e.source);
    assert((pre + e.target + suf).subrange(l, l + e.target.len()) =~= e.target);
    assert((pre + e.source + suf).subrange(0, l) =~= (pre + e.target + suf).subrange(0, l));
}

proof fn lemma_left_scan(s: Seq<char>, need: int, taken: int)
    requires
        0 <= taken <= s.len(),
        taken <= need,
    ensures
        taken <= left_scan(s, need, taken) <= need,
        left_scan(s, need, taken) <= s.len(),
    decreases need - taken,
{
    if taken < need && taken < s.len() && !is_ws(s[s.len() - 1 - taken]) {
        lemma_left_scan(s, need, taken + 1);
    }
}

proof fn lemma_right_scan(s: Seq<char>, need: int, taken: int)
    requires
        0 <= taken <= s.len(),
        taken <= need,
    ensures
        taken <= right_scan(s, need, taken) <= need,
        right_scan(s, need, taken) <= s.len(),
    decreases need - taken,
{
    if taken < need && taken < s.len() && !is_ws(s[taken]) {
        lemma_right_scan(s, need, taken + 1);
    }
}

proof fn lemma_scan_bounds(e: EditModel)
    ensures
        0 <= pad_left(e) <= pad_need(e),
        pad_left(e) <= e.before.len(),
        0 <= pad_right(e) <= pad_need(e) - pad_left(e),
        pad_right(e) <= e.after.len(),
{
    lemma_left_scan(e.before, pad_need(e), 0);
    lemma_right_scan(e.after, pad_need(e) - pad_left(e), 0);
}

// ───────────────────────────── implementation ─────────────────────────────

/// Extracts the minimal change `before_text → after_text`, or `None` when
/// the change is not worth learning (see [`spec_minimal_edit`]).
pub fn minimal_edit(before_text: &str, after_text: &str) -> (r: Option<EditPair>)
    ensures
        match r {
            Some(e) => spec_minimal_edit(before_text@, after_text@) == Some(e@),
            None => spec_minimal_edit(before_text@, after_text@) is None,
        },
{
    let old = to_chars(before_text);
    let new = to_chars(after_text);
    let ghost a = old@;
    let ghost b = new@;
    proof {
        lemma_prefix_suffix(a, b);
    }
    let old_len = old.len();
    let new_len = new.len();

    // Longest common prefix.
    let mut p: usize = 0;
    while p < old_len && p < new_len && old[p] == new[p]
        invariant
            old_len == old.len(),
            new_len == new.len(),
            a == old@,
            b == new@,
            p <= old_len,
            p <= new_len,
            prefix_scan(a, b, p as int) == common_prefix_len(a, b),
        decreases old_len - p,
    {
        p = p + 1;
    }
    // Longest common suffix of what remains after the prefix on both sides.
    let max_suffix = if old_len - p <= new_len - p {
        old_len - p
    } else {
        new_len - p
    };
    let mut k: usize = 0;
    while k < max_suffix && old[old_len - 1 - k] == new[new_len - 1 - k]
        invariant
            old_len == old.len(),
            new_len == new.len(),
            a == old@,
            b == new@,
            p as int == common_prefix_len(a, b),
            p <= old_len,
            p <= new_len,
            max_suffix == min_int(old_len - p, new_len - p),
            k <= max_suffix,
            suffix_scan(a, b, p as int, k as int) == common_suffix_len(a, b),
        decreases max_suffix - k,
    {
        k = k + 1;
    }
    if p == old_len && p == new_len {
        // Identical texts.
        assert(a.subrange(0, p as int) =~= a);
        assert(b.subrange(0, p as int) =~= b);
        return None;
    }
    let source_chars = old_len - k - p;
    let target_chars = new_len - k - p;
    if source_chars == 0 {
        return None;
    }
    if source_chars > MAX_EDIT_CHARS || target_chars > MAX_EDIT_CHARS {
        return None;
    }
    let source_v = slice_chars(&old, p, old_len - k);
    let target_v = slice_chars(&new, p, new_len - k);
    if is_all_ws(&source_v) {
        return None;
    }
    let stripped_source = strip_ws_chars(&source_v);
    let stripped_target = strip_ws_chars(&target_v);
    if chars_eq(&stripped_source, &stripped_target) {
        return None;
    }
    let ctx_start = if p >= CONTEXT_CHARS {
        p - CONTEXT_CHARS
    } else {
        0
    };
    let after_start = old_len - k;
    let after_end = if old_len - after_start <= CONTEXT_CHARS {
        old_len
    } else {
        after_start + CONTEXT_CHARS
    };
    let source = string_from_chars(&source_v);
    let target = string_from_chars(&target_v);
    let before = string_from_range(&old, ctx_start, p);
    let after = string_from_range(&old, after_start, after_end);
    proof {
        assert(!(a =~= b)) by {
            if a =~= b {
                lemma_prefix_scan(a, b, 0);
            }
        }
    }
    Some(EditPair { source, target, before, after })
}

/// A vector holding `v[lo..hi]`.
fn slice_chars(v: &Vec<char>, lo: usize, hi: usize) -> (r: Vec<char>)
    requires
        lo <= hi <= v.len(),
    ensures
        r@ == v@.subrange(lo as int, hi as int),
{
    let mut r: Vec<char> = Vec::new();
    let mut i = lo;
    while i < hi
        invariant
            lo <= i <= hi <= v.len(),
            r@ == v@.subrange(lo as int, i as int),
        decreases hi - i,
    {
        r.push(v[i]);
        i = i + 1;
    }
    r
}

/// Whether `s` contains a sentence or line boundary (see [`is_boundary_char`]).
fn crosses_a_sentence_boundary(s: &Vec<char>, lo: usize, hi: usize) -> (r: bool)
    requires
        lo <= hi <= s.len(),
    ensures
        r == has_boundary(s@.subrange(lo as int, hi as int)),
{
    let ghost t = s@.subrange(lo as int, hi as int);
    let mut i = lo;
    while i < hi
        invariant
            lo <= i <= hi <= s.len(),
            t == s@.subrange(lo as int, hi as int),
            forall|j: int| 0 <= j < i - lo ==> !is_boundary_char(#[trigger] t[j]),
        decreases hi - i,
    {
        let c = s[i];
        if c == '\n' || c == '\r' || c == '。' || c == '？' || c == '！' || c == '；' || c == '，'
            || c == '、' || c == '：' || c == '?' || c == '!' || c == ';' {
            assert(is_boundary_char(t[i - lo]));
            return true;
        }
        i = i + 1;
    }
    false
}

fn is_ascii_alpha_char(c: char) -> (r: bool)
    ensures
        r == is_ascii_alpha(c),
{
    ('a' <= c && c <= 'z') || ('A' <= c && c <= 'Z')
}

fn is_ascii_alnum_char(c: char) -> (r: bool)
    ensures
        r == is_ascii_alnum(c),
{
    is_ascii_alpha_char(c) || ('0' <= c && c <= '9')
}

/// Whether `s[lo..hi]` is a Latin word (see [`is_ascii_word`]).
fn is_pure_ascii_word(s: &Vec<char>, lo: usize, hi: usize) -> (r: bool)
    requires
        lo <= hi <= s.len(),
    ensures
        r == is_ascii_word(s@.subrange(lo as int, hi as int)),
{
    let ghost t = s@.subrange(lo as int, hi as int);
    let mut saw_alpha = false;
    let mut i = lo;
    while i < hi
        invariant
            lo <= i <= hi <= s.len(),
            t == s@.subrange(lo as int, hi as int),
            forall|j: int| 0 <= j < i - lo ==> is_word_joiner(#[trigger] t[j]) || is_ascii_alnum(t[j]),
            saw_alpha == exists|j: int|
                0 <= j < i - lo && is_ascii_alpha(#[trigger] t[j]) && !is_word_joiner(t[j]),
        decreases hi - i,
    {
        let ch = s[i];
        let ghost idx = i - lo;
        if char_is_whitespace(ch) || ch == '-' || ch == '_' || ch == '.' {
            assert(is_word_joiner(t[idx]));
            proof {
                assert forall|j: int|
                    0 <= j < i + 1 - lo && is_ascii_alpha(#[trigger] t[j]) implies is_word_joiner(t[j])
                    || j < i - lo by {}
            }
        } else if is_ascii_alnum_char(ch) {
            if is_ascii_alpha_char(ch) {
                saw_alpha = true;
                assert(is_ascii_alpha(t[idx]) && !is_word_joiner(t[idx]));
            } else {
                proof {
                    assert forall|j: int|
                        0 <= j < i + 1 - lo && is_ascii_alpha(#[trigger] t[j]) && !is_word_joiner(t[j])
                        implies j < i - lo by {}
                }
            }
        } else {
            assert(!(is_word_joiner(t[idx]) || is_ascii_alnum(t[idx])));
            return false;
        }
        i = i + 1;
    }
    saw_alpha
}

/// Decides whether the word the user ended up with deserves a vocabulary
/// entry, and whether to ask first (see [`spec_classify`]).
pub fn classify_edit(edit: &EditPair) -> (r: Option<RuleTier>)
    ensures
        r == spec_classify(edit@),
{
    let target = to_chars(edit.target.as_str());
    let source = to_chars(edit.source.as_str());
    let (t0, t1) = trim_range(&target);
    proof {
        lemma_trimmed_empty(target@);
    }
    if t0 == t1 || is_all_ws(&source) {
        return None;
    }
    if crosses_a_sentence_boundary(&source, 0, source.len())
        || crosses_a_sentence_boundary(&target, t0, t1) {
        assert(source@.subrange(0, source@.len() as int) == source@);
        return None;
    }
    assert(source@.subrange(0, source@.len() as int) == source@);
    if t1 - t0 > MAX_PHRASE_CHARS {
        return None;
    }
    if is_pure_ascii_word(&target, t0, t1) {
        return Some(RuleTier::Auto);
    }
    Some(RuleTier::Confirm)
}

/// Turns a classified edit into a rule, widened to `MIN_PATTERN_CHARS` with
/// real (non-whitespace) context chars (see [`spec_learned_rule`]).
pub fn learned_rule(edit: &EditPair) -> (r: Option<LearnedRule>)
    ensures
        match r {
            Some(rule) => spec_learned_rule(edit@) == Some(rule_model(rule)),
            None => spec_learned_rule(edit@) is None,
        },
{
    let tier = match classify_edit(edit) {
        Some(t) => t,
        None => return None,
    };
    let (pattern, replacement) = match pad_to_min_length(edit) {
        Some(pair) => pair,
        None => return None,
    };
    Some(LearnedRule { pattern, replacement, tier })
}

fn pad_to_min_length(edit: &EditPair) -> (r: Option<(String, String)>)
    ensures
        match r {
            Some((p, q)) => spec_pad(edit@) == Some((p@, q@)),
            None => spec_pad(edit@) is None,
        },
{
    let before = to_chars(edit.before.as_str());
    let after = to_chars(edit.after.as_str());
    let source = to_chars(edit.source.as_str());
    let target = to_chars(edit.target.as_str());
    let ghost e = edit@;
    let base = source.len();
    let need: usize = if base >= MIN_PATTERN_CHARS {
        0
    } else {
        MIN_PATTERN_CHARS - base
    };
    assert(need as int == pad_need(e));
    let mut left: usize = 0;
    while left < need && left < before.len() && !char_is_whitespace(before[before.len() - 1 - left])
        invariant
            e == edit@,
            before@ == e.before,
            need as int == pad_need(e),
            left <= need,
            left <= before.len(),
            left_scan(e.before, need as int, left as int) == pad_left(e),
        decreases need - left,
    {
        left = left + 1;
    }
    let mut right: usize = 0;
    while right < need - left && right < after.len() && !char_is_whitespace(after[right])
        invariant
            e == edit@,
            after@ == e.after,
            need as int == pad_need(e),
            left as int == pad_left(e),
            left <= need,
            right <= need - left,
            right <= after.len(),
            right_scan(e.after, need - left, right as int) == pad_right(e),
        decreases need - left - right,
    {
        right = right + 1;
    }
    if left + right < need {
        return None;
    }
    let mut pattern = string_from_range(&before, before.len() - left, before.len());
    let mut replacement = string_from_range(&before, before.len() - left, before.len());
    push_range(&mut pattern, &source, 0, source.len());
    push_range(&mut pattern, &after, 0, right);
    push_range(&mut replacement, &target, 0, target.len());
    push_range(&mut replacement, &after, 0, right);
    assert(source@.subrange(0, source@.len() as int) == source@);
    assert(target@.subrange(0, target@.len() as int) == target@);
    Some((pattern, replacement))
}

/// Whether the edit falls inside the text we inserted: its (non-empty)
/// source occurs in `typed_text`.
pub fn edit_is_within_typed_text(edit: &EditPair, typed_text: &str) -> (r: bool)
    ensures
        r == (edit.source@.len() > 0 && contains_seq(typed_text@, edit.source@)),
{
    let source = to_chars(edit.source.as_str());
    if source.len() == 0 {
        return false;
    }
    let typed = to_chars(typed_text);
    contains_chars(&typed, &source)
}

} // verus!
