//! The question-and-answer panel's view state, driven by `qa:state`
//! events, and the small text helpers of the floating popup (truncation,
//! the selection envelope of a question, JSON string escaping and field
//! extraction from its line protocol).
use vstd::prelude::*;

use crate::text::{has_prefix, push_char, push_str_chars, to_chars, trim_range, trimmed};

verus! {

/// One message of the panel's conversation.
#[derive(Debug, Clone, PartialEq, Eq)]
pub struct QaChatMessage {
    pub role: String,
    pub content: String,
    pub selection_text: Option<String>,
}

/// A `qa:state` event; every field may be missing.
#[derive(Debug, Clone, PartialEq, Eq, Default)]
pub struct QaStateEvent {
    pub kind: Option<String>,
    pub session_id: Option<String>,
    pub messages: Option<Vec<QaChatMessage>>,
    pub selection_preview: Option<String>,
    pub error: Option<String>,
    pub chunk: Option<String>,
}

/// What the panel shows.
#[derive(Debug, Clone, PartialEq, Eq)]
pub struct QaViewState {
    /// The session the panel follows (late events of older ones are dropped).
    pub session_id: Option<String>,
    /// Kind of the last accepted event.
    pub current_kind: String,
    pub messages: Vec<QaChatMessage>,
    pub selection_preview: Option<String>,
    pub error: Option<String>,
    /// The answer streamed so far.
    pub streaming_answer: String,
    /// Text typed into the composer.
    pub composer_text: String,
    pub shown: bool,
}

/// Kinds that open a turn, and so may switch the panel to a new session.
pub open spec fn starts_turn(kind: Seq<char>) -> bool {
    kind == "recording"@ || kind == "loading"@ || kind == "thinking"@ || kind == "idle"@
}

/// Whether an event of `kind` for `session_id` is taken: events without a
/// session always are; others only for the followed session, unless they
/// open a turn.
pub open spec fn event_accepted(current: Option<String>, kind: Seq<char>, session_id: Option<Seq<char>>) -> bool {
    match (session_id, current) {
        (Some(sid), Some(c)) => starts_turn(kind) || c@ == sid,
        _ => true,
    }
}

/// The session followed after an accepted event.
pub open spec fn followed_after(current: Option<String>, kind: Seq<char>, session_id: Option<Seq<char>>) -> Option<
    Seq<char>,
> {
    match session_id {
        Some(sid) => if current is None || starts_turn(kind) {
            Some(sid)
        } else {
            match current {
                Some(c) => Some(c@),
                None => None,
            }
        },
        None => match current {
            Some(c) => Some(c@),
            None => None,
        },
    }
}

/// The view of an optional string.
pub open spec fn opt_view(s: Option<String>) -> Option<Seq<char>> {
    match s {
        Some(t) => Some(t@),
        None => None,
    }
}

fn str_eq(a: &str, b: &str) -> (r: bool)
    ensures
        r == (a@ == b@),
{
    crate::text::chars_eq(&to_chars(a), &to_chars(b))
}

fn owned(s: &str) -> (r: String)
    ensures
        r@ == s@,
{
    let mut r = String::new();
    push_str_chars(&mut r, s);
    r
}

fn clone_opt(s: &Option<String>) -> (r: Option<String>)
    ensures
        r == *s,
{
    match s {
        Some(t) => Some(t.clone()),
        None => None,
    }
}

fn clone_messages(m: &Vec<QaChatMessage>) -> (r: Vec<QaChatMessage>)
    ensures
        r@ == m@,
{
    let mut r: Vec<QaChatMessage> = Vec::new();
    let mut i: usize = 0;
    while i < m.len()
        invariant
            i <= m@.len(),
            r@ == m@.subrange(0, i as int),
        decreases m.len() - i,
    {
        let x = &m[i];
        r.push(
            QaChatMessage {
                role: x.role.clone(),
                content: x.content.clone(),
                selection_text: clone_opt(&x.selection_text),
            },
        );
        i = i + 1;
        assert(r@ =~= m@.subrange(0, i as int));
    }
    assert(m@.subrange(0, m@.len() as int) =~= m@);
    r
}

/// The error shown when an error event carries no text.
pub const QA_DEFAULT_ERROR: &'static str = "问答出错，请重试";

impl QaViewState {
    /// An idle, empty panel.
    pub fn new() -> (r: Self)
        ensures
            r.session_id is None,
            r.current_kind@ == "idle"@,
            r.messages@.len() == 0,
            r.selection_preview is None,
            r.error is None,
            r.streaming_answer@.len() == 0,
            r.composer_text@.len() == 0,
            !r.shown,
    {
        QaViewState {
            session_id: None,
            current_kind: owned("idle"),
            messages: Vec::new(),
            selection_preview: None,
            error: None,
            streaming_answer: String::new(),
            composer_text: String::new(),
            shown: false,
        }
    }

    pub fn mark_shown(&mut self)
        ensures
            *final(self) == (QaViewState { shown: true, ..*old(self) }),
    {
        self.shown = true;
    }

    /// Decides whether an event is taken, following its session when it
    /// opens a turn or when no session is followed yet.
    pub fn accept(&mut self, kind: &str, session_id: Option<&str>) -> (r: bool)
        ensures
            r == event_accepted(
                old(self).session_id,
                kind@,
                match session_id {
                    Some(s) => Some(s@),
                    None => None,
                },
            ),
            r ==> opt_view(final(self).session_id) == followed_after(
                old(self).session_id,
                kind@,
                match session_id {
                    Some(s) => Some(s@),
                    None => None,
                },
            ),
            !r ==> final(self).session_id == old(self).session_id,
            *final(self) == (QaViewState { session_id: final(self).session_id, ..*old(self) }),
    {
        let sid = match session_id {
            Some(s) => s,
            None => return true,
        };
        let starts = str_eq(kind, "recording") || str_eq(kind, "loading") || str_eq(kind, "thinking")
            || str_eq(kind, "idle");
        match &self.session_id {
            Some(current) => {
                if !starts && !str_eq(current.as_str(), sid) {
                    return false;
                }
            },
            None => {},
        }
        if self.session_id.is_none() || starts {
            self.session_id = Some(owned(sid));
        }
        true
    }
}

/// The kind an event stands for (`idle` when missing).
pub open spec fn event_kind(e: QaStateEvent) -> Seq<char> {
    match e.kind {
        Some(k) => k@,
        None => "idle"@,
    }
}

/// Applies an accepted event's fields to the view.
pub open spec fn applied(old: QaViewState, new: QaViewState, e: QaStateEvent) -> bool {
    let kind = event_kind(e);
    &&& new.current_kind@ == kind
    &&& new.messages@ == match e.messages {
        Some(m) => m@,
        None => old.messages@,
    }
    &&& new.composer_text == old.composer_text
    &&& new.shown == old.shown
    &&& if kind == "idle"@ {
        new.selection_preview is None && new.error is None && new.streaming_answer@.len() == 0
    } else if kind == "recording"@ {
        new.selection_preview == e.selection_preview && new.error is None && new.streaming_answer@.len() == 0
    } else if kind == "loading"@ || kind == "thinking"@ {
        new.selection_preview == (if e.selection_preview is Some {
            e.selection_preview
        } else {
            old.selection_preview
        }) && new.error is None && new.streaming_answer@.len() == 0
    } else if kind == "answer_delta"@ {
        new.selection_preview == old.selection_preview && new.error == old.error && new.streaming_answer@
            == old.streaming_answer@ + match e.chunk {
            Some(c) => c@,
            None => Seq::empty(),
        }
    } else if kind == "answer"@ {
        new.selection_preview == old.selection_preview && new.error is None && new.streaming_answer@.len() == 0
    } else if kind == "error"@ {
        new.selection_preview == old.selection_preview && opt_view(new.error) == Some(
            match e.error {
                Some(t) => t@,
                None => QA_DEFAULT_ERROR@,
            },
        ) && new.streaming_answer@.len() == 0
    } else {
        new.selection_preview == old.selection_preview && new.error == old.error && new.streaming_answer
            == old.streaming_answer
    }
}

/// Applies a `qa:state` event: dropped when it belongs to another session
/// (see [`event_accepted`]); otherwise the view follows it (see [`applied`]).
pub fn apply_qa_state(s: &mut QaViewState, payload: &QaStateEvent)
    ensures
        !event_accepted(old(s).session_id, event_kind(*payload), opt_view(payload.session_id)) ==> *final(s)
            == *old(s),
        event_accepted(old(s).session_id, event_kind(*payload), opt_view(payload.session_id)) ==> opt_view(
            final(s).session_id,
        ) == followed_after(old(s).session_id, event_kind(*payload), opt_view(payload.session_id)) && applied(
            *old(s),
            *final(s),
            *payload,
        ),
{
    let kind: String = match &payload.kind {
        Some(k) => k.clone(),
        None => owned("idle"),
    };
    let sid: Option<&str> = match &payload.session_id {
        Some(t) => Some(t.as_str()),
        None => None,
    };
    if !s.accept(kind.as_str(), sid) {
        return;
    }
    match &payload.messages {
        Some(m) => {
            s.messages = clone_messages(m);
        },
        None => {},
    }
    let k = kind.as_str();
    if str_eq(k, "idle") {
        s.selection_preview = None;
        s.error = None;
        s.streaming_answer = String::new();
    } else if str_eq(k, "recording") {
        s.selection_preview = clone_opt(&payload.selection_preview);
        s.error = None;
        s.streaming_answer = String::new();
    } else if str_eq(k, "loading") || str_eq(k, "thinking") {
        if payload.selection_preview.is_some() {
            s.selection_preview = clone_opt(&payload.selection_preview);
        }
        s.error = None;
        s.streaming_answer = String::new();
    } else if str_eq(k, "answer_delta") {
        match &payload.chunk {
            Some(c) => push_str_chars(&mut s.streaming_answer, c.as_str()),
            None => {
                proof {
                    assert(s.streaming_answer@ + Seq::<char>::empty() =~= s.streaming_answer@);
                }
            },
        }
    } else if str_eq(k, "answer") {
        s.error = None;
        s.streaming_answer = String::new();
    } else if str_eq(k, "error") {
        s.error = Some(
            match &payload.error {
                Some(t) => t.clone(),
                None => owned(QA_DEFAULT_ERROR),
            },
        );
        s.streaming_answer = String::new();
    }
    s.current_kind = kind;
}

// ───────────────────────────── popup text helpers ─────────────────────────────

/// At most `max` chars of `text`, with `…` appended when something was cut.
pub open spec fn truncated(text: Seq<char>, max: int) -> Seq<char> {
    if text.len() <= max {
        text
    } else {
        text.subrange(0, max) + seq!['…']
    }
}

/// Shortens `text` to `max` chars (see [`truncated`]).
pub fn truncate(text: &str, max: usize) -> (r: String)
    ensures
        r@ == truncated(text@, max as int),
{
    let v = to_chars(text);
    if v.len() <= max {
        return crate::text::string_from_chars(&v);
    }
    let mut r = crate::text::string_from_range(&v, 0, max);
    push_char(&mut r, '…');
    r
}

/// Envelope around the selection a question is about.
pub const ENVELOPE_START: &'static str = "<selected_text>\n";

pub const ENVELOPE_END: &'static str = "\n</selected_text>\n\n# 我的问题\n";

/// Older form of the same envelope.
pub const LEGACY_START: &'static str = "# 选区原文\n";

pub const LEGACY_END: &'static str = "\n\n# 我的问题\n";

/// The first occurrence of `n` in `h`.
pub open spec fn first_occurrence(h: Seq<char>, n: Seq<char>) -> Option<int> {
    if exists|i: int| crate::text::occurs_at(h, n, i) && forall|j: int| 0 <= j < i ==> !#[trigger] crate::text::occurs_at(h, n, j) {
        Some(choose|i: int| crate::text::occurs_at(h, n, i) && forall|j: int| 0 <= j < i ==> !#[trigger] crate::text::occurs_at(h, n, j))
    } else {
        None
    }
}

/// `content` opened by `start` and split at the first `end` after it:
/// the parts before and after `end`.
pub open spec fn enveloped(content: Seq<char>, start: Seq<char>, end: Seq<char>) -> Option<(Seq<char>, Seq<char>)> {
    if has_prefix(content, start) {
        let rest = content.subrange(start.len() as int, content.len() as int);
        match first_occurrence(rest, end) {
            Some(i) => Some((rest.subrange(0, i), rest.subrange(i + end.len(), rest.len() as int))),
            None => None,
        }
    } else {
        None
    }
}

/// The quoted selection and the question of a user message: the envelope
/// (or its older form) gives both, trimmed; without one the whole message
/// is the question. A selection text supplied with the message wins.
pub open spec fn spec_split_user_message(content: Seq<char>, selection_text: Option<Seq<char>>) -> (Seq<char>, Seq<char>) {
    let parsed = match enveloped(content, ENVELOPE_START@, ENVELOPE_END@) {
        Some(p) => Some(p),
        None => enveloped(content, LEGACY_START@, LEGACY_END@),
    };
    let (sel, question) = match parsed {
        Some(p) => (trimmed(p.0), trimmed(p.1)),
        None => (Seq::empty(), trimmed(content)),
    };
    let selection = match selection_text {
        Some(s) => trimmed(s),
        None => trimmed(sel),
    };
    (selection, question)
}

proof fn lemma_first_occurrence(h: Seq<char>, n: Seq<char>, i: int)
    requires
        crate::text::occurs_at(h, n, i),
        forall|j: int| 0 <= j < i ==> !#[trigger] crate::text::occurs_at(h, n, j),
    ensures
        first_occurrence(h, n) == Some(i),
{
    let c = choose|c: int| crate::text::occurs_at(h, n, c) && forall|j: int| 0 <= j < c ==> !#[trigger] crate::text::occurs_at(h, n, j);
    assert(crate::text::occurs_at(h, n, c) && forall|j: int| 0 <= j < c ==> !#[trigger] crate::text::occurs_at(h, n, j));
    if c < i {
        assert(!crate::text::occurs_at(h, n, c));
    }
    if i < c {
        assert(!crate::text::occurs_at(h, n, i));
    }
}

fn split_envelope(v: &Vec<char>, start: &str, end: &str) -> (r: Option<(Vec<char>, Vec<char>)>)
    ensures
        match r {
            Some(p) => enveloped(v@, start@, end@) == Some((p.0@, p.1@)),
            None => enveloped(v@, start@, end@) is None,
        },
{
    let sv = to_chars(start);
    if !crate::text::starts_with_chars(v, &sv) {
        return None;
    }
    let rest_s = crate::text::string_from_range(v, sv.len(), v.len());
    let rest = to_chars(rest_s.as_str());
    let ev = to_chars(end);
    match crate::text::find_from(&rest, &ev, 0) {
        Some(i) => {
            proof {
                lemma_first_occurrence(rest@, ev@, i as int);
            }
            let a = to_chars(crate::text::string_from_range(&rest, 0, i).as_str());
            let b = to_chars(crate::text::string_from_range(&rest, i + ev.len(), rest.len()).as_str());
            Some((a, b))
        },
        None => {
            proof {
                if exists|i: int| crate::text::occurs_at(rest@, ev@, i) && forall|j: int| 0 <= j < i ==> !#[trigger] crate::text::occurs_at(rest@, ev@, j) {
                    let w = choose|i: int| crate::text::occurs_at(rest@, ev@, i) && forall|j: int| 0 <= j < i ==> !#[trigger] crate::text::occurs_at(rest@, ev@, j);
                    assert(!crate::text::occurs_at(rest@, ev@, w));
                }
            }
            None
        },
    }
}

fn trimmed_string(v: &Vec<char>) -> (r: String)
    ensures
        r@ == trimmed(v@),
{
    let (a, b) = trim_range(v);
    crate::text::string_from_range(v, a, b)
}

/// Splits a user message into the quoted selection and the question
/// (see [`spec_split_user_message`]).
pub fn split_qa_user_message(content: &str, selection_text: Option<&str>) -> (r: (String, String))
    ensures
        (r.0@, r.1@) == spec_split_user_message(
            content@,
            match selection_text {
                Some(s) => Some(s@),
                None => None,
            },
        ),
{
    let v = to_chars(content);
    let parsed = match split_envelope(&v, ENVELOPE_START, ENVELOPE_END) {
        Some(p) => Some(p),
        None => split_envelope(&v, LEGACY_START, LEGACY_END),
    };
    let (sel, question) = match parsed {
        Some(p) => (trimmed_string(&p.0), trimmed_string(&p.1)),
        None => (String::new(), trimmed_string(&v)),
    };
    let selection = match selection_text {
        Some(s) => trimmed_string(&to_chars(s)),
        None => trimmed_string(&to_chars(sel.as_str())),
    };
    (selection, question)
}

/// The JSON string literal of `s`, escaping only `"`, `\` and newlines.
pub open spec fn escaped(s: Seq<char>) -> Seq<char>
    decreases s.len(),
{
    if s.len() == 0 {
        Seq::empty()
    } else {
        let c = s[0];
        (if c == '"' {
            seq!['\\', '"']
        } else if c == '\\' {
            seq!['\\', '\\']
        } else if c == '\n' {
            seq!['\\', 'n']
        } else {
            seq![c]
        }) + escaped(s.subrange(1, s.len() as int))
    }
}

proof fn lemma_escaped_push(s: Seq<char>, c: char)
    ensures
        escaped(s.push(c)) == escaped(s) + escaped(seq![c]),
    decreases s.len(),
{
    if s.len() > 0 {
        assert(s.push(c).subrange(1, s.push(c).len() as int) =~= s.subrange(1, s.len() as int).push(c));
        lemma_escaped_push(s.subrange(1, s.len() as int), c);
        assert(s.push(c)[0] == s[0]);
    } else {
        assert(s.push(c) =~= seq![c]);
    }
}

/// Quotes `s` as a JSON string (see [`escaped`]).
pub fn json_escape(s: &str) -> (r: String)
    ensures
        r@ == seq!['"'] + escaped(s@) + seq!['"'],
{
    let v = to_chars(s);
    let mut out = String::new();
    push_char(&mut out, '"');
    let mut i: usize = 0;
    while i < v.len()
        invariant
            i <= v@.len(),
            out@ == seq!['"'] + escaped(v@.subrange(0, i as int)),
        decreases v.len() - i,
    {
        let c = v[i];
        proof {
            lemma_escaped_push(v@.subrange(0, i as int), c);
            assert(v@.subrange(0, i + 1) =~= v@.subrange(0, i as int).push(c));
            assert(seq![c].subrange(1, 1) =~= Seq::<char>::empty());
            assert(escaped(Seq::<char>::empty()) == Seq::<char>::empty());
            let unit = if c == '"' {
                seq!['\\', '"']
            } else if c == '\\' {
                seq!['\\', '\\']
            } else if c == '\n' {
                seq!['\\', 'n']
            } else {
                seq![c]
            };
            assert(escaped(seq![c]) =~= unit + escaped(seq![c].subrange(1, 1)));
            assert(escaped(seq![c]) =~= unit);
        }
        if c == '"' {
            push_char(&mut out, '\\');
            push_char(&mut out, '"');
        } else if c == '\\' {
            push_char(&mut out, '\\');
            push_char(&mut out, '\\');
        } else if c == '\n' {
            push_char(&mut out, '\\');
            push_char(&mut out, 'n');
        } else {
            push_char(&mut out, c);
        }
        i = i + 1;
        assert(out@ =~= seq!['"'] + escaped(v@.subrange(0, i as int)));
    }
    assert(v@.subrange(0, v@.len() as int) =~= v@);
    push_char(&mut out, '"');
    out
}


/// How far the popup's brace scan of `s` reaches, from position `i` with
/// the given nesting depth and string flag: it stops right after the `}`
/// that brings the depth back to zero, or at the end. A backslash outside
/// a string starts one; a quote always ends one.
pub open spec fn scan_end(s: Seq<char>, i: int, depth: int, in_str: bool) -> int
    decreases s.len() - i,
{
    if i < 0 || i >= s.len() {
        s.len() as int
    } else {
        let c = s[i];
        if in_str {
            scan_end(s, i + 1, depth, c != '"')
        } else if c == '\\' {
            scan_end(s, i + 1, depth, true)
        } else if c == '{' {
            scan_end(s, i + 1, depth + 1, false)
        } else if c == '}' {
            if depth - 1 == 0 {
                i + 1
            } else {
                scan_end(s, i + 1, depth - 1, false)
            }
        } else {
            scan_end(s, i + 1, depth, false)
        }
    }
}

proof fn lemma_scan_end_bounds(s: Seq<char>, i: int, depth: int, in_str: bool)
    requires
        0 <= i <= s.len(),
    ensures
        i <= scan_end(s, i, depth, in_str) <= s.len(),
    decreases s.len() - i,
{
    if i < s.len() {
        let c = s[i];
        if in_str {
            lemma_scan_end_bounds(s, i + 1, depth, c != '"');
        } else if c == '\\' {
            lemma_scan_end_bounds(s, i + 1, depth, true);
        } else if c == '{' {
            lemma_scan_end_bounds(s, i + 1, depth + 1, false);
        } else if c == '}' {
            if depth - 1 != 0 {
                lemma_scan_end_bounds(s, i + 1, depth - 1, false);
            }
        } else {
            lemma_scan_end_bounds(s, i + 1, depth, false);
        }
    }
}

/// The text after the first `"key":` of `line`, leading whitespace
/// skipped.
pub open spec fn value_text(line: Seq<char>, key: Seq<char>) -> Option<Seq<char>> {
    let pat = seq!['"'] + key + seq!['"', ':'];
    match first_occurrence(line, pat) {
        Some(p) => {
            let after = line.subrange(p + pat.len(), line.len() as int);
            Some(after.subrange(crate::text::lead_end(after, 0), after.len() as int))
        },
        None => None,
    }
}

/// A quoted value: the text up to the next quote, with `\"`, `\n` and
/// `\\` unescaped in that order; nothing without a closing quote.
pub open spec fn quoted_value(rest: Seq<char>) -> Option<Seq<char>> {
    let stripped = rest.subrange(1, rest.len() as int);
    match crate::edit_plan::first_of(stripped, '"') {
        Some(e) => Some(unescaped(stripped.subrange(0, e))),
        None => None,
    }
}

/// What the popup reads for `key` from one protocol line: the value after
/// `"key":` is either an object, taken up to its matching brace (see
/// [`scan_end`]), or a quoted string (see [`quoted_value`]); anything else,
/// or a missing key, gives nothing.
pub open spec fn spec_extract_str(line: Seq<char>, key: Seq<char>) -> Option<Seq<char>> {
    match value_text(line, key) {
        Some(rest) => if rest.len() > 0 && rest[0] == '{' {
            Some(rest.subrange(0, scan_end(rest, 0, 0, false)))
        } else if rest.len() > 0 && rest[0] == '"' {
            quoted_value(rest)
        } else {
            None
        },
        None => None,
    }
}

fn scan_object(rest: &Vec<char>) -> (r: usize)
    ensures
        r as int == scan_end(rest@, 0, 0, false),
        r <= rest@.len(),
{
    proof {
        lemma_scan_end_bounds(rest@, 0, 0, false);
    }
    let mut depth: i128 = 0;
    let mut in_str = false;
    let mut i: usize = 0;
    while i < rest.len()
        invariant
            i <= rest@.len(),
            -(i as int) <= depth <= i as int,
            scan_end(rest@, i as int, depth as int, in_str) == scan_end(rest@, 0, 0, false),
        decreases rest.len() - i,
    {
        let c = rest[i];
        if in_str {
            in_str = c != '"';
        } else if c == '\\' {
            in_str = true;
        } else if c == '{' {
            depth = depth + 1;
        } else if c == '}' {
            depth = depth - 1;
            if depth == 0 {
                return i + 1;
            }
        }
        i = i + 1;
    }
    rest.len()
}

fn unescape_step(s: &str, find: &str, rep: &str) -> (r: String)
    requires
        find@.len() > 0,
    ensures
        r@ == crate::edit_plan::replace_all(s@, find@, rep@),
{
    crate::edit_plan::replace_all_chars(s, find, rep)
}

fn value_start(line: &str, key: &str) -> (r: Option<Vec<char>>)
    ensures
        match r {
            Some(v) => value_text(line@, key@) == Some(v@),
            None => value_text(line@, key@) is None,
        },
{
    let mut pat = String::new();
    push_char(&mut pat, '"');
    push_str_chars(&mut pat, key);
    push_char(&mut pat, '"');
    push_char(&mut pat, ':');
    assert(pat@ =~= seq!['"'] + key@ + seq!['"', ':']);
    let lv = to_chars(line);
    let pv = to_chars(pat.as_str());
    let p = match crate::text::find_from(&lv, &pv, 0) {
        Some(p) => p,
        None => {
            proof {
                if exists|i: int| crate::text::occurs_at(lv@, pv@, i) && forall|j: int| 0 <= j < i ==> !#[trigger] crate::text::occurs_at(lv@, pv@, j) {
                    let w = choose|i: int| crate::text::occurs_at(lv@, pv@, i) && forall|j: int| 0 <= j < i ==> !#[trigger] crate::text::occurs_at(lv@, pv@, j);
                    assert(!crate::text::occurs_at(lv@, pv@, w));
                }
            }
            return None;
        },
    };
    proof {
        lemma_first_occurrence(lv@, pv@, p as int);
        assert(crate::text::occurs_at(lv@, pv@, p as int));
        assert(lv@.len() == lv.len());
    }
    let after = to_chars(crate::text::string_from_range(&lv, p + pv.len(), lv.len()).as_str());
    let (a, _b) = trim_range(&after);
    Some(to_chars(crate::text::string_from_range(&after, a, after.len()).as_str()))
}

/// `\` followed by `c`, as a two-char string.
fn escape_pair(c: char) -> (r: String)
    ensures
        r@ == seq!['\\', c],
{
    let mut r = String::new();
    push_char(&mut r, '\\');
    push_char(&mut r, c);
    assert(r@ =~= seq!['\\', c]);
    r
}

fn single(c: char) -> (r: String)
    ensures
        r@ == seq![c],
{
    let mut r = String::new();
    push_char(&mut r, c);
    assert(r@ =~= seq![c]);
    r
}

/// The three unescapes of a quoted value, in order.
pub open spec fn unescaped(raw: Seq<char>) -> Seq<char> {
    crate::edit_plan::replace_all(
        crate::edit_plan::replace_all(
            crate::edit_plan::replace_all(raw, seq!['\\', '"'], seq!['"']),
            seq!['\\', 'n'],
            seq!['\n'],
        ),
        seq!['\\', '\\'],
        seq!['\\'],
    )
}

fn unescape(raw: &str) -> (r: String)
    ensures
        r@ == unescaped(raw@),
{
    let q = escape_pair('"');
    let q1 = single('"');
    let step1 = unescape_step(raw, q.as_str(), q1.as_str());
    let n = escape_pair('n');
    let n1 = single('\n');
    let step2 = unescape_step(step1.as_str(), n.as_str(), n1.as_str());
    let b = escape_pair('\\');
    let b1 = single('\\');
    unescape_step(step2.as_str(), b.as_str(), b1.as_str())
}

fn quoted(rest: &Vec<char>) -> (r: Option<String>)
    requires
        rest@.len() > 0,
    ensures
        match r {
            Some(t) => quoted_value(rest@) == Some(t@),
            None => quoted_value(rest@) is None,
        },
{
    let stripped = to_chars(crate::text::string_from_range(rest, 1, rest.len()).as_str());
    proof {
        crate::edit_plan::lemma_first_last_bounds(stripped@, '"');
    }
    let e = match crate::edit_plan::find_first(&stripped, '"') {
        Some(e) => e,
        None => return None,
    };
    let raw = crate::text::string_from_range(&stripped, 0, e);
    Some(unescape(raw.as_str()))
}

/// Reads `key` from a popup protocol line (see [`spec_extract_str`]).
pub fn extract_str(line: &str, key: &str) -> (r: Option<String>)
    ensures
        match r {
            Some(t) => spec_extract_str(line@, key@) == Some(t@),
            None => spec_extract_str(line@, key@) is None,
        },
{
    let rest = match value_start(line, key) {
        Some(v) => v,
        None => return None,
    };
    if rest.len() > 0 && rest[0] == '{' {
        let end = scan_object(&rest);
        return Some(crate::text::string_from_range(&rest, 0, end));
    }
    if rest.len() > 0 && rest[0] == '"' {
        return quoted(&rest);
    }
    None
}


/// What one line from the host asks of the popup.
#[derive(Debug, Clone, PartialEq, Eq)]
pub enum PopupLine {
    Hide,
    /// A `qa:state` event; its payload text, when one could be read, still
    /// has to be parsed.
    QaState(Option<String>),
    /// Show a preview.
    Preview { text: String, source: String },
    /// Nothing the popup understands.
    Ignored,
}

/// Classifies a line from the host: a line naming `"hide"` hides the
/// popup; one naming `"qa:state"` carries an event payload; one with a
/// `text` value sets the preview (its `source` defaulting to empty);
/// anything else is ignored.
pub fn classify_popup_line(line: &str) -> (r: PopupLine)
    ensures
        crate::text::contains_seq(line@, "\"hide\""@) ==> r == PopupLine::Hide,
        !crate::text::contains_seq(line@, "\"hide\""@) && crate::text::contains_seq(line@, "\"qa:state\""@) ==> (r
            matches PopupLine::QaState(p) && match p {
            Some(t) => spec_extract_str(line@, "payload"@) == Some(t@),
            None => spec_extract_str(line@, "payload"@) is None,
        }),
        !crate::text::contains_seq(line@, "\"hide\""@) && !crate::text::contains_seq(line@, "\"qa:state\""@) ==> match
            spec_extract_str(line@, "text"@) {
            Some(t) => r matches PopupLine::Preview { text, source } && text@ == t && source@ == match spec_extract_str(
                line@,
                "source"@,
            ) {
                Some(s) => s,
                None => Seq::empty(),
            },
            None => r == PopupLine::Ignored,
        },
{
    let v = to_chars(line);
    if crate::text::contains_chars(&v, &to_chars("\"hide\"")) {
        return PopupLine::Hide;
    }
    if crate::text::contains_chars(&v, &to_chars("\"qa:state\"")) {
        return PopupLine::QaState(extract_str(line, "payload"));
    }
    match extract_str(line, "text") {
        Some(text) => {
            let source = match extract_str(line, "source") {
                Some(s) => s,
                None => String::new(),
            };
            PopupLine::Preview { text, source }
        },
        None => PopupLine::Ignored,
    }
}

// ───────────────────────────── panel decisions ─────────────────────────────

/// Line sent when the question panel is closed.
pub const ACTION_DISMISS: &'static str = "{ \"action\": \"dismiss\" }";

/// Line sent when the preview is cancelled.
pub const ACTION_CANCEL: &'static str = "{ \"action\": \"cancel\" }";

/// Line sent by the microphone button.
pub const ACTION_TOGGLE_RECORD: &'static str = "{ \"action\": \"toggle_record\" }";

/// The panel waits: recording, or an answer on its way.
pub open spec fn spec_busy(kind: Seq<char>) -> bool {
    kind == "recording"@ || kind == "thinking"@ || kind == "loading"@
}

/// Whether the panel is busy (see [`spec_busy`]).
pub fn qa_busy(s: &QaViewState) -> (r: bool)
    ensures
        r == spec_busy(s.current_kind@),
{
    let k = to_chars(s.current_kind.as_str());
    crate::text::chars_eq(&k, &to_chars("recording")) || crate::text::chars_eq(&k, &to_chars("thinking"))
        || crate::text::chars_eq(&k, &to_chars("loading"))
}

/// A question can be sent when the panel is not busy and the composer
/// holds more than whitespace.
pub fn can_send(s: &QaViewState) -> (r: bool)
    ensures
        r == (!spec_busy(s.current_kind@) && trimmed(s.composer_text@).len() > 0),
{
    if qa_busy(s) {
        return false;
    }
    let v = to_chars(s.composer_text.as_str());
    let (a, b) = trim_range(&v);
    a < b
}

/// The line that submits `text`.
pub open spec fn submit_line(text: Seq<char>) -> Seq<char> {
    "{ \"action\": \"submit\", \"text\": "@ + seq!['"'] + escaped(text) + seq!['"'] + " }"@
}

/// Sends the composer's trimmed text and empties the composer; when
/// nothing can be sent, nothing is sent and nothing changes.
pub fn submit_composer(s: &mut QaViewState) -> (r: Option<String>)
    ensures
        (!spec_busy(old(s).current_kind@) && trimmed(old(s).composer_text@).len() > 0) ==> (r matches Some(
            line,
        ) && line@ == submit_line(trimmed(old(s).composer_text@)) && final(s).composer_text@.len() == 0
            && *final(s) == (QaViewState { composer_text: final(s).composer_text, ..*old(s) })),
        !(!spec_busy(old(s).current_kind@) && trimmed(old(s).composer_text@).len() > 0) ==> r is None
            && *final(s) == *old(s),
{
    if !can_send(s) {
        return None;
    }
    let v = to_chars(s.composer_text.as_str());
    let (a, b) = trim_range(&v);
    let text = crate::text::string_from_range(&v, a, b);
    s.composer_text = String::new();
    let mut line = String::new();
    push_str_chars(&mut line, "{ \"action\": \"submit\", \"text\": ");
    let quoted = json_escape(text.as_str());
    push_str_chars(&mut line, quoted.as_str());
    push_str_chars(&mut line, " }");
    proof {
        assert(line@ =~= submit_line(trimmed(old(s).composer_text@)));
    }
    Some(line)
}

/// While recording, the selection the question is about is shown above the
/// composer, shortened to 60 chars; a blank one is not shown.
pub fn recording_preview(s: &QaViewState) -> (r: Option<String>)
    ensures
        match r {
            Some(p) => s.current_kind@ == "recording"@ && (s.selection_preview matches Some(x) && trimmed(
                x@,
            ).len() > 0 && p@ == truncated(x@, 60)),
            None => !(s.current_kind@ == "recording"@ && (s.selection_preview matches Some(x) && trimmed(
                x@,
            ).len() > 0)),
        },
{
    if !crate::text::chars_eq(&to_chars(s.current_kind.as_str()), &to_chars("recording")) {
        return None;
    }
    match &s.selection_preview {
        Some(x) => {
            let v = to_chars(x.as_str());
            let (a, b) = trim_range(&v);
            if a < b {
                Some(truncate(x.as_str(), 60))
            } else {
                None
            }
        },
        None => None,
    }
}

/// The "thinking" note shows while an answer is awaited and nothing of it
/// arrived yet.
pub fn shows_thinking(s: &QaViewState) -> (r: bool)
    ensures
        r == ((s.current_kind@ == "thinking"@ || s.current_kind@ == "loading"@) && s.streaming_answer@.len()
            == 0),
{
    let k = to_chars(s.current_kind.as_str());
    (crate::text::chars_eq(&k, &to_chars("thinking")) || crate::text::chars_eq(&k, &to_chars("loading")))
        && s.streaming_answer.as_str().is_empty()
}

/// The welcome text shows while there is no message and no answer.
pub fn shows_empty_state(s: &QaViewState) -> (r: bool)
    ensures
        r == (s.messages@.len() == 0 && s.streaming_answer@.len() == 0),
{
    s.messages.len() == 0 && s.streaming_answer.as_str().is_empty()
}

/// The quoted selection of a user message: in curly quotes, shortened to
/// 120 chars.
pub fn quoted_selection(selection: &str) -> (r: String)
    ensures
        r@ == seq!['\u{201c}'] + truncated(selection@, 120) + seq!['\u{201d}'],
{
    let mut r = String::new();
    push_char(&mut r, '\u{201c}');
    let t = truncate(selection, 120);
    push_str_chars(&mut r, t.as_str());
    push_char(&mut r, '\u{201d}');
    r
}

/// What Escape sends: the question panel is dismissed, the preview
/// cancelled.
pub fn escape_action(question_panel: bool) -> (r: &'static str)
    ensures
        r@ == (if question_panel {
            ACTION_DISMISS@
        } else {
            ACTION_CANCEL@
        }),
{
    if question_panel {
        ACTION_DISMISS
    } else {
        ACTION_CANCEL
    }
}

/// The line that confirms a preview with its (edited) text; blank text
/// cannot be confirmed.
pub fn confirm_preview_line(text: &str) -> (r: Option<String>)
    ensures
        trimmed(text@).len() == 0 ==> r is None,
        trimmed(text@).len() > 0 ==> (r matches Some(line) && line@ == "{ \"action\": \"confirm\", \"text\": "@
            + seq!['"'] + escaped(text@) + seq!['"'] + " }"@),
{
    let v = to_chars(text);
    let (a, b) = trim_range(&v);
    if a >= b {
        return None;
    }
    let mut line = String::new();
    push_str_chars(&mut line, "{ \"action\": \"confirm\", \"text\": ");
    let quoted = json_escape(text);
    push_str_chars(&mut line, quoted.as_str());
    push_str_chars(&mut line, " }");
    Some(line)
}

} // verus!
