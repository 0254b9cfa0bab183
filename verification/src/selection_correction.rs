//! Correcting a selection inside the text the last dictation inserted: the
//! bubble offered for a selection, the session that records the spoken
//! replacement or note, and what is done with its transcript.
use vstd::prelude::*;

use crate::diff::{classify_edit, spec_classify, EditPair, EditModel, LearnedRule, RuleTier};
use crate::edit_plan::{replace_all, replace_all_chars};
use crate::text::{push_str_chars, to_chars, trim_range, trimmed};

verus! {

/// What the user asked to do with the selection.
#[derive(Debug, Clone, Copy, PartialEq, Eq, Structural)]
pub enum SelectionCorrectionAction {
    /// Replace the selection with the spoken text, literally.
    LiteralReplace,
    /// Treat the spoken text as a note and propose a rewrite.
    Review,
}

#[derive(Debug, Clone, Copy, PartialEq, Eq, Structural)]
pub enum SelectionCorrectionBubbleState {
    Actions,
    Recording,
    Processing,
    Error,
}

/// What the bubble shows.
#[derive(Debug, Clone, PartialEq, Eq)]
pub struct SelectionCorrectionBubblePayload {
    pub selected_text: String,
    pub state: SelectionCorrectionBubbleState,
    pub action: Option<SelectionCorrectionAction>,
    pub message: Option<String>,
}

/// A selection reported inside the inserted text.
#[derive(Debug, Clone, PartialEq, Eq)]
pub struct SelectionObservation {
    pub selected_text: String,
    pub document_text: String,
    pub selection_start_utf16: usize,
    pub selection_length_utf16: usize,
    pub whole_field_selected: bool,
}

/// A selection the bubble is offered for.
#[derive(Debug, Clone, PartialEq, Eq)]
pub struct SelectionCorrectionCandidate {
    pub selected_text: String,
    pub document_text: String,
    pub selection_start_utf16: usize,
    pub selection_length_utf16: usize,
    pub whole_field_selected: bool,
    pub source_app: Option<String>,
}

/// A correction being recorded, bound to a dictation session once one
/// has started.
#[derive(Debug, Clone, PartialEq, Eq)]
pub struct ActiveSelectionCorrection {
    pub action: SelectionCorrectionAction,
    pub candidate: SelectionCorrectionCandidate,
    pub session_id: Option<u64>,
}

/// What the bubble window should do after a state change.
#[derive(Debug, Clone, PartialEq, Eq)]
pub enum BubbleCommand {
    Keep,
    Hide,
    Show(SelectionCorrectionBubblePayload),
}

/// The correction workflow's state: the offered selection, the running
/// correction, and what the bubble shows.
#[derive(Debug, Clone, PartialEq, Eq)]
pub struct SelectionCorrectionRuntime {
    pub candidate: Option<SelectionCorrectionCandidate>,
    pub active: Option<ActiveSelectionCorrection>,
    pub payload: Option<SelectionCorrectionBubblePayload>,
}

/// The bubble for a freshly offered selection: its text and the action
/// buttons.
pub open spec fn candidate_payload(c: SelectionCorrectionCandidate) -> SelectionCorrectionBubblePayload {
    SelectionCorrectionBubblePayload {
        selected_text: c.selected_text,
        state: SelectionCorrectionBubbleState::Actions,
        action: None,
        message: None,
    }
}

fn payload_for_candidate(candidate: &SelectionCorrectionCandidate) -> (r: SelectionCorrectionBubblePayload)
    ensures
        r == candidate_payload(*candidate),
{
    SelectionCorrectionBubblePayload {
        selected_text: candidate.selected_text.clone(),
        state: SelectionCorrectionBubbleState::Actions,
        action: None,
        message: None,
    }
}

fn clone_opt(s: &Option<String>) -> (r: Option<String>)
    ensures
        r == *s,
{
    match s {
        Some(t) => Some(t.clone()),
        None => None,
    }
}

fn clone_candidate(c: &SelectionCorrectionCandidate) -> (r: SelectionCorrectionCandidate)
    ensures
        r == *c,
{
    SelectionCorrectionCandidate {
        selected_text: c.selected_text.clone(),
        document_text: c.document_text.clone(),
        selection_start_utf16: c.selection_start_utf16,
        selection_length_utf16: c.selection_length_utf16,
        whole_field_selected: c.whole_field_selected,
        source_app: clone_opt(&c.source_app),
    }
}

/// The text the bubble names: the running correction's selection, else
/// the offered one, else what the bubble already shows, else nothing.
pub open spec fn shown_text(rt: SelectionCorrectionRuntime) -> Seq<char> {
    match rt.active {
        Some(a) => a.candidate.selected_text@,
        None => match rt.candidate {
            Some(c) => c.selected_text@,
            None => match rt.payload {
                Some(p) => p.selected_text@,
                None => Seq::empty(),
            },
        },
    }
}

/// A selection qualifies only when it has no surrounding whitespace.
pub open spec fn selection_qualifies(o: SelectionObservation) -> bool {
    trimmed(o.selected_text@) == o.selected_text@
}

/// Why finishing a correction stopped before any replacement.
#[derive(Debug, Clone, Copy, PartialEq, Eq)]
pub enum FinishRefusal {
    /// The transcript belongs to another session.
    SessionChanged,
    /// Nothing was heard.
    EmptyTranscript,
}

impl FinishRefusal {
    /// The error code reported for the refusal.
    pub fn code(self) -> (r: &'static str)
        ensures
            r@ == match self {
                FinishRefusal::SessionChanged => "selectionCorrectionSessionChanged"@,
                FinishRefusal::EmptyTranscript => "selectionCorrectionEmptyTranscript"@,
            },
    {
        match self {
            FinishRefusal::SessionChanged => "selectionCorrectionSessionChanged",
            FinishRefusal::EmptyTranscript => "selectionCorrectionEmptyTranscript",
        }
    }
}

/// The running correction is bound to `session_id`.
pub open spec fn bound_to(rt: SelectionCorrectionRuntime, session_id: u64) -> bool {
    rt.active matches Some(a) && a.session_id == Some(session_id)
}

impl SelectionCorrectionRuntime {
    /// Nothing offered, nothing running, no bubble.
    pub fn new() -> (r: Self)
        ensures
            r.candidate is None && r.active is None && r.payload is None,
    {
        SelectionCorrectionRuntime { candidate: None, active: None, payload: None }
    }

    /// Takes a selection report. While a correction runs, reports are
    /// ignored. A missing selection, or one with surrounding whitespace,
    /// withdraws the offer and hides the bubble; otherwise the selection is
    /// offered and the bubble shows its actions.
    pub fn handle_selection_observation(
        &mut self,
        observation: Option<SelectionObservation>,
        source_app: Option<String>,
    ) -> (r: BubbleCommand)
        ensures
            old(self).active is Some ==> *final(self) == *old(self) && r == BubbleCommand::Keep,
            old(self).active is None ==> match observation {
                Some(o) => if selection_qualifies(o) {
                    final(self).active is None && final(self).candidate == Some(
                        SelectionCorrectionCandidate {
                            selected_text: o.selected_text,
                            document_text: o.document_text,
                            selection_start_utf16: o.selection_start_utf16,
                            selection_length_utf16: o.selection_length_utf16,
                            whole_field_selected: o.whole_field_selected,
                            source_app: source_app,
                        },
                    ) && final(self).payload == Some(candidate_payload(final(self).candidate.unwrap()))
                        && r == BubbleCommand::Show(final(self).payload.unwrap())
                } else {
                    final(self).active is None && final(self).candidate is None && final(self).payload is None
                        && r == BubbleCommand::Hide
                },
                None => final(self).active is None && final(self).candidate is None && final(self).payload
                    is None && r == BubbleCommand::Hide,
            },
    {
        if self.active.is_some() {
            return BubbleCommand::Keep;
        }
        match observation {
            Some(o) => {
                let v = to_chars(o.selected_text.as_str());
                let (a, b) = trim_range(&v);
                if a != 0 || b != v.len() {
                    proof {
                        if trimmed(o.selected_text@) == o.selected_text@ {
                            assert(trimmed(v@).len() == v@.len());
                        }
                    }
                    self.candidate = None;
                    self.payload = None;
                    return BubbleCommand::Hide;
                }
                assert(v@.subrange(0, v@.len() as int) =~= v@);
                let candidate = SelectionCorrectionCandidate {
                    selected_text: o.selected_text,
                    document_text: o.document_text,
                    selection_start_utf16: o.selection_start_utf16,
                    selection_length_utf16: o.selection_length_utf16,
                    whole_field_selected: o.whole_field_selected,
                    source_app,
                };
                let payload = payload_for_candidate(&candidate);
                let shown = payload_for_candidate(&candidate);
                self.candidate = Some(candidate);
                self.payload = Some(payload);
                BubbleCommand::Show(shown)
            },
            None => {
                self.candidate = None;
                self.payload = None;
                BubbleCommand::Hide
            },
        }
    }

    /// Shows the bubble in `state`, naming the selection in play (see
    /// [`shown_text`]); the offer and the running correction are kept.
    pub fn set_bubble_state(
        &mut self,
        state: SelectionCorrectionBubbleState,
        action: Option<SelectionCorrectionAction>,
        message: Option<String>,
    ) -> (r: SelectionCorrectionBubblePayload)
        ensures
            r.selected_text@ == shown_text(*old(self)),
            r.state == state,
            r.action == action,
            r.message == message,
            final(self).candidate == old(self).candidate,
            final(self).active == old(self).active,
            final(self).payload == Some(r),
    {
        let selected_text = match &self.active {
            Some(a) => a.candidate.selected_text.clone(),
            None => match &self.candidate {
                Some(c) => c.selected_text.clone(),
                None => match &self.payload {
                    Some(p) => p.selected_text.clone(),
                    None => String::new(),
                },
            },
        };
        let shown = SelectionCorrectionBubblePayload {
            selected_text: selected_text.clone(),
            state,
            action,
            message: clone_opt(&message),
        };
        self.payload = Some(SelectionCorrectionBubblePayload { selected_text, state, action, message });
        shown
    }

    /// Forgets the offer, the running correction and the bubble.
    pub fn clear(&mut self)
        ensures
            final(self).candidate is None && final(self).active is None && final(self).payload is None,
    {
        self.candidate = None;
        self.active = None;
        self.payload = None;
    }

    /// Binds the running correction to the dictation session recording it.
    pub fn bind_active_session(&mut self, session_id: u64) -> (r: Result<(), String>)
        ensures
            match r {
                Ok(()) => old(self).active matches Some(a) && final(self).active == Some(
                    ActiveSelectionCorrection { session_id: Some(session_id), ..a },
                ) && final(self).candidate == old(self).candidate && final(self).payload == old(self).payload,
                Err(e) => old(self).active is None && *final(self) == *old(self) && e@
                    == "selectionCorrectionUnavailable"@,
            },
    {
        match self.active.take() {
            Some(a) => {
                self.active = Some(ActiveSelectionCorrection { session_id: Some(session_id), ..a });
                Ok(())
            },
            None => {
                let mut e = String::new();
                push_str_chars(&mut e, "selectionCorrectionUnavailable");
                Err(e)
            },
        }
    }

    /// Whether the running correction belongs to `session_id`.
    pub fn is_active_session(&self, session_id: u64) -> (r: bool)
        ensures
            r == bound_to(*self, session_id),
    {
        match &self.active {
            Some(a) => match a.session_id {
                Some(id) => id == session_id,
                None => false,
            },
            None => false,
        }
    }

    /// The action of the running correction, when it belongs to
    /// `session_id`.
    pub fn active_action(&self, session_id: u64) -> (r: Option<SelectionCorrectionAction>)
        ensures
            r == (if bound_to(*self, session_id) {
                Some(self.active.unwrap().action)
            } else {
                None
            }),
    {
        if self.is_active_session(session_id) {
            match &self.active {
                Some(a) => Some(a.action),
                None => None,
            }
        } else {
            None
        }
    }

    /// Cancels a running correction (clearing everything); without one,
    /// nothing changes. Returns whether the bubble is to be hidden.
    pub fn cancel_active(&mut self) -> (r: bool)
        ensures
            r == old(self).active is Some,
            r ==> final(self).candidate is None && final(self).active is None && final(self).payload is None,
            !r ==> *final(self) == *old(self),
    {
        if self.active.is_some() {
            self.clear();
            true
        } else {
            false
        }
    }

    /// Cancels whatever is under way (the dictation session is cancelled by
    /// the caller) and forgets the offer and the bubble.
    pub fn cancel_selection_correction(&mut self)
        ensures
            final(self).candidate is None && final(self).active is None && final(self).payload is None,
    {
        self.clear();
    }

    /// Dismisses an offer no correction was started for; a running
    /// correction is left alone. Returns whether the bubble is to be hidden.
    pub fn dismiss_selection_correction(&mut self) -> (r: bool)
        ensures
            r == old(self).active is None,
            r ==> final(self).candidate is None && final(self).active is None && final(self).payload is None,
            !r ==> *final(self) == *old(self),
    {
        if self.active.is_none() {
            self.clear();
            true
        } else {
            false
        }
    }

    /// What the bubble currently shows.
    pub fn selection_correction_payload(&self) -> (r: Option<SelectionCorrectionBubblePayload>)
        ensures
            r == self.payload,
    {
        match &self.payload {
            Some(p) => Some(SelectionCorrectionBubblePayload {
                selected_text: p.selected_text.clone(),
                state: p.state,
                action: p.action,
                message: clone_opt(&p.message),
            }),
            None => None,
        }
    }

    /// The offer a correction may start from: refused while another
    /// session runs (`idle` false) or when nothing is offered.
    pub fn candidate_for_start(&self, idle: bool) -> (r: Result<SelectionCorrectionCandidate, String>)
        ensures
            match r {
                Ok(c) => idle && self.candidate == Some(c),
                Err(e) => if !idle {
                    e@ == "selectionCorrectionBusy"@
                } else {
                    self.candidate is None && e@ == "selectionCorrectionUnavailable"@
                },
            },
    {
        let mut e = String::new();
        if !idle {
            push_str_chars(&mut e, "selectionCorrectionBusy");
            return Err(e);
        }
        match &self.candidate {
            Some(c) => Ok(clone_candidate(c)),
            None => {
                push_str_chars(&mut e, "selectionCorrectionUnavailable");
                Err(e)
            },
        }
    }

    /// Starts recording `action` for `candidate`; the bubble turns to
    /// recording.
    pub fn activate(&mut self, action: SelectionCorrectionAction, candidate: SelectionCorrectionCandidate) -> (r:
        SelectionCorrectionBubblePayload)
        ensures
            final(self).active == Some(ActiveSelectionCorrection { action, candidate, session_id: None }),
            final(self).candidate == old(self).candidate,
            final(self).payload == Some(r),
            r.selected_text@ == candidate.selected_text@,
            r.state == SelectionCorrectionBubbleState::Recording,
            r.action == Some(action),
            r.message is None,
    {
        self.active = Some(ActiveSelectionCorrection { action, candidate, session_id: None });
        self.set_bubble_state(SelectionCorrectionBubbleState::Recording, Some(action), None)
    }

    /// The dictation session did not start: the selection is offered
    /// again and the bubble shows the error.
    pub fn start_failed(&mut self, action: SelectionCorrectionAction, error: String) -> (r:
        SelectionCorrectionBubblePayload)
        ensures
            final(self).active is None,
            final(self).candidate == (match old(self).active {
                Some(a) => Some(a.candidate),
                None => old(self).candidate,
            }),
            final(self).payload == Some(r),
            r.selected_text@ == shown_text(SelectionCorrectionRuntime { active: None, ..*final(self) }),
            r.state == SelectionCorrectionBubbleState::Error,
            r.action == Some(action),
            r.message == Some(error),
    {
        match self.active.take() {
            Some(a) => {
                self.candidate = Some(a.candidate);
            },
            None => {},
        }
        self.set_bubble_state(SelectionCorrectionBubbleState::Error, Some(action), Some(error))
    }

    /// Whether the started correction got its session.
    pub fn began(&self) -> (r: bool)
        ensures
            r == (self.active matches Some(a) && a.session_id is Some),
    {
        match &self.active {
            Some(a) => a.session_id.is_some(),
            None => false,
        }
    }

    /// Takes the running correction to act on `transcript`. A transcript of
    /// another session is refused with nothing changed; an empty one
    /// clears everything; otherwise the correction is taken out, the offer
    /// dropped, and the bubble shows the work in progress. Returns the
    /// correction and the trimmed transcript.
    pub fn take_for_finish(&mut self, session_id: u64, transcript: &str) -> (r: Result<
        (ActiveSelectionCorrection, String, SelectionCorrectionBubblePayload),
        FinishRefusal,
    >)
        ensures
            !bound_to(*old(self), session_id) ==> r == Err::<
                (ActiveSelectionCorrection, String, SelectionCorrectionBubblePayload),
                FinishRefusal,
            >(FinishRefusal::SessionChanged) && *final(self) == *old(self),
            bound_to(*old(self), session_id) && trimmed(transcript@).len() == 0 ==> r == Err::<
                (ActiveSelectionCorrection, String, SelectionCorrectionBubblePayload),
                FinishRefusal,
            >(FinishRefusal::EmptyTranscript) && final(self).candidate is None && final(self).active is None
                && final(self).payload is None,
            bound_to(*old(self), session_id) && trimmed(transcript@).len() > 0 ==> (r matches Ok(t) && t.0
                == old(self).active.unwrap() && t.1@ == trimmed(transcript@) && final(self).candidate is None
                && final(self).active is None && final(self).payload == Some(t.2) && t.2.selected_text
                == t.0.candidate.selected_text && t.2.state == SelectionCorrectionBubbleState::Processing
                && t.2.action == Some(t.0.action) && t.2.message is None),
    {
        if !self.is_active_session(session_id) {
            return Err(FinishRefusal::SessionChanged);
        }
        self.candidate = None;
        let active = match self.active.take() {
            Some(a) => a,
            None => {
                return Err(FinishRefusal::SessionChanged);
            },
        };
        let v = to_chars(transcript);
        let (a, b) = trim_range(&v);
        if a == b {
            self.clear();
            return Err(FinishRefusal::EmptyTranscript);
        }
        let text = crate::text::string_from_range(&v, a, b);
        let shown = SelectionCorrectionBubblePayload {
            selected_text: active.candidate.selected_text.clone(),
            state: SelectionCorrectionBubbleState::Processing,
            action: Some(active.action),
            message: None,
        };
        self.payload = Some(SelectionCorrectionBubblePayload {
            selected_text: active.candidate.selected_text.clone(),
            state: SelectionCorrectionBubbleState::Processing,
            action: Some(active.action),
            message: None,
        });
        Ok((active, text, shown))
    }
}

/// The capsule messages that close a correction.
pub const NO_SPEECH_MESSAGE: &'static str = "没有识别到语音";

pub const SELECTION_CHANGED_MESSAGE: &'static str = "选区已变化，未替换";

pub const CANCELLED_MESSAGE: &'static str = "已取消";

pub const REPLACE_FAILED_MESSAGE: &'static str = "替换失败，请重试";

pub const REPLACED_MESSAGE: &'static str = "已替换";

pub const REVIEW_EMPTY_MESSAGE: &'static str = "未生成可替换文本";

pub const REVIEW_FAILED_MESSAGE: &'static str = "生成修改建议失败";

pub const REVIEW_READY_MESSAGE: &'static str = "已生成修改建议";

/// The vocabulary suggestion a literal replacement may lead to: none when
/// the whole field was selected or nothing changed; otherwise a rule when
/// the replacement is worth keeping as a word (see `classify_edit`), with
/// both sides trimmed.
pub open spec fn spec_vocab_rule(source: Seq<char>, replacement: Seq<char>, whole_field_selected: bool) -> Option<
    (Seq<char>, Seq<char>, RuleTier),
> {
    if whole_field_selected || source == replacement {
        None
    } else {
        match spec_classify(EditModel { source, target: replacement, before: Seq::empty(), after: Seq::empty() }) {
            Some(tier) => Some((trimmed(source), trimmed(replacement), tier)),
            None => None,
        }
    }
}

/// See [`spec_vocab_rule`].
pub fn literal_replacement_vocab_rule(source: &str, replacement: &str, whole_field_selected: bool) -> (r: Option<
    LearnedRule,
>)
    ensures
        match r {
            Some(rule) => spec_vocab_rule(source@, replacement@, whole_field_selected) == Some(
                (rule.pattern@, rule.replacement@, rule.tier),
            ),
            None => spec_vocab_rule(source@, replacement@, whole_field_selected) is None,
        },
{
    let sv = to_chars(source);
    let rv = to_chars(replacement);
    if whole_field_selected || crate::text::chars_eq(&sv, &rv) {
        return None;
    }
    let mut src = String::new();
    push_str_chars(&mut src, source);
    let mut tgt = String::new();
    push_str_chars(&mut tgt, replacement);
    let edit = EditPair { source: src, target: tgt, before: String::new(), after: String::new() };
    proof {
        reveal_strlit("");
    }
    match classify_edit(&edit) {
        Some(tier) => {
            let (a, b) = trim_range(&sv);
            let (c, d) = trim_range(&rv);
            Some(
                LearnedRule {
                    pattern: crate::text::string_from_range(&sv, a, b),
                    replacement: crate::text::string_from_range(&rv, c, d),
                    tier,
                },
            )
        },
        None => None,
    }
}

/// Whether `phrase` is among the enabled vocabulary phrases.
pub fn phrase_enabled(phrases: &Vec<String>, phrase: &String) -> (r: bool)
    ensures
        r == exists|i: int| 0 <= i < phrases@.len() && #[trigger] phrases@[i]@ == phrase@,
{
    let pv = to_chars(phrase.as_str());
    let mut i: usize = 0;
    while i < phrases.len()
        invariant
            pv@ == phrase@,
            i <= phrases@.len(),
            forall|j: int| 0 <= j < i ==> #[trigger] phrases@[j]@ != phrase@,
        decreases phrases.len() - i,
    {
        if crate::text::chars_eq(&to_chars(phrases[i].as_str()), &pv) {
            return true;
        }
        i = i + 1;
    }
    false
}

/// The suggestion to queue after a successful literal replacement: the
/// rule of [`literal_replacement_vocab_rule`], unless its replacement is
/// already an enabled phrase.
pub fn correction_suggestion(
    source: &str,
    replacement: &str,
    whole_field_selected: bool,
    enabled_phrases: &Vec<String>,
) -> (r: Option<LearnedRule>)
    ensures
        match r {
            Some(rule) => spec_vocab_rule(source@, replacement@, whole_field_selected) == Some(
                (rule.pattern@, rule.replacement@, rule.tier),
            ) && !exists|i: int| 0 <= i < enabled_phrases@.len() && #[trigger] enabled_phrases@[i]@ == rule.replacement@,
            None => match spec_vocab_rule(source@, replacement@, whole_field_selected) {
                Some(t) => exists|i: int| 0 <= i < enabled_phrases@.len() && #[trigger] enabled_phrases@[i]@ == t.1,
                None => true,
            },
        },
{
    match literal_replacement_vocab_rule(source, replacement, whole_field_selected) {
        Some(rule) => {
            if phrase_enabled(enabled_phrases, &rule.replacement) {
                None
            } else {
                Some(rule)
            }
        },
        None => None,
    }
}

/// How a literal replacement ended, by the insertion status: a failed
/// insertion is an error (recorded in the history entry too).
pub fn literal_insert_outcome(status: crate::history::InsertStatus) -> (r: Result<(), String>)
    ensures
        match r {
            Ok(()) => status != crate::history::InsertStatus::Failed,
            Err(e) => status == crate::history::InsertStatus::Failed && e@ == "selectionCorrectionInsertFailed"@,
        },
{
    match status {
        crate::history::InsertStatus::Failed => {
            let mut e = String::new();
            push_str_chars(&mut e, "selectionCorrectionInsertFailed");
            Err(e)
        },
        _ => Ok(()),
    }
}

/// How a review ended, by what the model returned: a non-blank text is
/// the proposal (trimmed), a blank one is refused, and a failed call passes
/// its error on. The second part of an error is the capsule message.
pub fn review_outcome(result: Result<String, String>) -> (r: Result<String, (String, &'static str)>)
    ensures
        match result {
            Ok(t) => if trimmed(t@).len() > 0 {
                r matches Ok(p) && p@ == trimmed(t@)
            } else {
                r matches Err(e) && e.0@ == "selectionCorrectionEmptyOutput"@ && e.1@ == REVIEW_EMPTY_MESSAGE@
            },
            Err(err) => r matches Err(e) && e.0 == err && e.1@ == REVIEW_FAILED_MESSAGE@,
        },
{
    match result {
        Ok(t) => {
            let v = to_chars(t.as_str());
            let (a, b) = trim_range(&v);
            if a < b {
                Ok(crate::text::string_from_range(&v, a, b))
            } else {
                let mut e = String::new();
                push_str_chars(&mut e, "selectionCorrectionEmptyOutput");
                Err((e, REVIEW_EMPTY_MESSAGE))
            }
        },
        Err(err) => Err((err, REVIEW_FAILED_MESSAGE)),
    }
}

/// The tags of the review envelope.
pub const REVIEW_NOTE_OPEN: &'static str = "<review_note>";

pub const REVIEW_NOTE_CLOSE: &'static str = "</review_note>";

/// The note with every opening and closing envelope tag taken out, so
/// that it cannot end the envelope early.
pub open spec fn sanitized_note(note: Seq<char>) -> Seq<char> {
    replace_all(replace_all(note, REVIEW_NOTE_CLOSE@, Seq::empty()), REVIEW_NOTE_OPEN@, Seq::empty())
}

/// Fixed head of the review instructions.
pub const REVIEW_PROMPT_HEAD: &'static str = "# 选区批注修改\n你只负责修改用户当前选中的文本。`<review_note>` 是用户本次明确给出的修改要求，按它调整选中文字；文档上下文只用于理解指代、语气与术语。\n不要改写选区之外的内容，不要解释理由，不要加引号、前缀或 Markdown，最终只输出可直接替换选区的文本。\n\n<review_note>\n";

/// The instructions for a review: the fixed head, the sanitized note, and
/// the closing tag.
pub fn review_prompt(annotation: &str) -> (r: String)
    ensures
        r@ == REVIEW_PROMPT_HEAD@ + sanitized_note(annotation@) + "\n</review_note>"@,
{
    proof {
        reveal_strlit("</review_note>");
        reveal_strlit("<review_note>");
        reveal_strlit("");
        assert(""@ =~= Seq::<char>::empty());
    }
    let without_close = replace_all_chars(annotation, REVIEW_NOTE_CLOSE, "");
    let note = replace_all_chars(without_close.as_str(), REVIEW_NOTE_OPEN, "");
    let mut r = String::new();
    push_str_chars(&mut r, REVIEW_PROMPT_HEAD);
    push_str_chars(&mut r, note.as_str());
    push_str_chars(&mut r, "\n</review_note>");
    assert(r@ =~= REVIEW_PROMPT_HEAD@ + sanitized_note(annotation@) + "\n</review_note>"@);
    r
}

} // verus!
