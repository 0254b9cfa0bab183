//! Voice edits of a selection: the session's phases, how the hotkey's
//! press and release drive it, and the checks on a confirmed preview.
use vstd::prelude::*;

use crate::text::{push_str_chars, to_chars, trim_range, trimmed};

verus! {

/// How the dictation hotkey behaves.
#[derive(Debug, Clone, Copy, PartialEq, Eq, Structural)]
pub enum HotkeyMode {
    Toggle,
    Hold,
    Auto,
}

#[derive(Debug, Clone, Copy, PartialEq, Eq, Structural)]
pub enum SelectionVoicePhase {
    Idle,
    Recording,
    Processing,
}

/// The selection an edit applies to.
#[derive(Debug, Clone, PartialEq, Eq)]
pub struct SelectionContext {
    pub text: String,
    pub source_app: Option<String>,
}

/// The voice-edit session.
#[derive(Debug, Clone, PartialEq, Eq)]
pub struct SelectionVoiceSessionState {
    pub phase: SelectionVoicePhase,
    pub session_id: u64,
    pub selection: Option<SelectionContext>,
    pub instruction_raw: Option<String>,
    pub instruction_polished: Option<String>,
}

/// The session identifier no real session carries.
pub const INITIAL_SESSION_ID: u64 = 0;

impl Default for SelectionVoiceSessionState {
    /// Idle, with nothing selected or said.
    fn default() -> (r: Self)
        ensures
            r.phase == SelectionVoicePhase::Idle,
            r.session_id == INITIAL_SESSION_ID,
            r.selection is None,
            r.instruction_raw is None,
            r.instruction_polished is None,
    {
        SelectionVoiceSessionState {
            phase: SelectionVoicePhase::Idle,
            session_id: INITIAL_SESSION_ID,
            selection: None,
            instruction_raw: None,
            instruction_polished: None,
        }
    }
}

/// The session `session_id` is under way.
pub open spec fn spec_session_active(state: SelectionVoiceSessionState, session_id: u64) -> bool {
    state.session_id == session_id && state.phase != SelectionVoicePhase::Idle
}

/// Whether `session_id` is the current, running session.
pub fn selection_voice_session_active(state: &SelectionVoiceSessionState, session_id: u64) -> (r: bool)
    ensures
        r == spec_session_active(*state, session_id),
{
    state.session_id == session_id && state.phase != SelectionVoicePhase::Idle
}

/// Whether `session_id` is the current session and still recording.
pub fn selection_voice_recording_active(state: &SelectionVoiceSessionState, session_id: u64) -> (r: bool)
    ensures
        r == (spec_session_active(*state, session_id) && state.phase == SelectionVoicePhase::Recording),
{
    selection_voice_session_active(state, session_id) && state.phase == SelectionVoicePhase::Recording
}

/// What a hotkey edge asks of the session.
#[derive(Debug, Clone, Copy, PartialEq, Eq, Structural)]
pub enum SelectionVoiceStep {
    /// Nothing to do.
    Ignore,
    /// Start a session (the busy flag stays set until it ends or fails).
    Begin,
    /// Finish the recording session, then clear the busy flag.
    End,
}

/// The step a press asks for, given the feature switch, whether another
/// edge is being handled, the hotkey mode and the phase; `busy` is set
/// while a step runs and cleared when there is nothing to run.
pub fn on_pressed(enabled: bool, busy: &mut bool, mode: HotkeyMode, phase: SelectionVoicePhase) -> (r:
    SelectionVoiceStep)
    ensures
        !enabled ==> r == SelectionVoiceStep::Ignore && *final(busy) == *old(busy),
        enabled && *old(busy) ==> r == SelectionVoiceStep::Ignore && *final(busy),
        enabled && !*old(busy) ==> r == (if phase == SelectionVoicePhase::Idle {
            SelectionVoiceStep::Begin
        } else if mode == HotkeyMode::Toggle && phase == SelectionVoicePhase::Recording {
            SelectionVoiceStep::End
        } else {
            SelectionVoiceStep::Ignore
        }) && *final(busy) == (r != SelectionVoiceStep::Ignore),
{
    if !enabled {
        return SelectionVoiceStep::Ignore;
    }
    if *busy {
        return SelectionVoiceStep::Ignore;
    }
    *busy = true;
    let step = if phase == SelectionVoicePhase::Idle {
        SelectionVoiceStep::Begin
    } else if mode == HotkeyMode::Toggle && phase == SelectionVoicePhase::Recording {
        SelectionVoiceStep::End
    } else {
        SelectionVoiceStep::Ignore
    };
    if step == SelectionVoiceStep::Ignore {
        *busy = false;
    }
    step
}

/// The step a release asks for: in hold and auto modes a release ends a
/// recording session; a release with nothing recording only clears `busy`.
pub fn on_released(enabled: bool, busy: &mut bool, mode: HotkeyMode, phase: SelectionVoicePhase) -> (r:
    SelectionVoiceStep)
    ensures
        !enabled || mode == HotkeyMode::Toggle ==> r == SelectionVoiceStep::Ignore && *final(busy) == *old(
            busy,
        ),
        enabled && mode != HotkeyMode::Toggle ==> r == (if phase == SelectionVoicePhase::Recording {
            SelectionVoiceStep::End
        } else {
            SelectionVoiceStep::Ignore
        }) && (r == SelectionVoiceStep::Ignore ==> !*final(busy)) && (r == SelectionVoiceStep::End
            ==> *final(busy) == *old(busy)),
{
    if !enabled || mode == HotkeyMode::Toggle {
        return SelectionVoiceStep::Ignore;
    }
    if phase != SelectionVoicePhase::Recording {
        *busy = false;
        return SelectionVoiceStep::Ignore;
    }
    SelectionVoiceStep::End
}

impl SelectionVoiceSessionState {
    /// Starts session `session_id` on `selection`: refused while a
    /// dictation runs, without a selection, or without a target to write
    /// back to.
    pub fn begin(
        &mut self,
        dictation_idle: bool,
        selection: Option<SelectionContext>,
        target_captured: bool,
        session_id: u64,
    ) -> (r: Result<(), String>)
        ensures
            match r {
                Ok(()) => dictation_idle && selection is Some && target_captured && *final(self)
                    == (SelectionVoiceSessionState {
                    phase: SelectionVoicePhase::Recording,
                    session_id,
                    selection,
                    instruction_raw: None,
                    instruction_polished: None,
                }),
                Err(e) => *final(self) == *old(self) && if !dictation_idle {
                    e@ == "dictationActive"@
                } else if selection is None {
                    e@ == "selectionVoiceNoSelection"@
                } else {
                    !target_captured && e@ == "selectionVoiceTargetUnavailable"@
                },
            },
    {
        let mut e = String::new();
        if !dictation_idle {
            push_str_chars(&mut e, "dictationActive");
            return Err(e);
        }
        if selection.is_none() {
            push_str_chars(&mut e, "selectionVoiceNoSelection");
            return Err(e);
        }
        if !target_captured {
            push_str_chars(&mut e, "selectionVoiceTargetUnavailable");
            return Err(e);
        }
        *self = SelectionVoiceSessionState {
            phase: SelectionVoicePhase::Recording,
            session_id,
            selection,
            instruction_raw: None,
            instruction_polished: None,
        };
        Ok(())
    }

    /// Ends the recording: returns the session to finish, or `None` when
    /// nothing is recording; the phase turns to processing.
    pub fn end_recording(&mut self) -> (r: Option<u64>)
        ensures
            old(self).phase == SelectionVoicePhase::Recording ==> r == Some(old(self).session_id) && *final(self)
                == (SelectionVoiceSessionState { phase: SelectionVoicePhase::Processing, ..*old(self) }),
            old(self).phase != SelectionVoicePhase::Recording ==> r is None && *final(self) == *old(self),
    {
        if self.phase != SelectionVoicePhase::Recording {
            return None;
        }
        self.phase = SelectionVoicePhase::Processing;
        Some(self.session_id)
    }

    /// Back to idle.
    pub fn reset(&mut self)
        ensures
            final(self).phase == SelectionVoicePhase::Idle,
            final(self).session_id == INITIAL_SESSION_ID,
            final(self).selection is None,
            final(self).instruction_raw is None,
            final(self).instruction_polished is None,
    {
        *self = SelectionVoiceSessionState::default();
    }
}

/// The text a confirmed preview writes: the edited text trimmed; a blank
/// one is refused.
pub fn confirmed_preview_text(text: &str) -> (r: Result<String, String>)
    ensures
        match r {
            Ok(t) => trimmed(text@).len() > 0 && t@ == trimmed(text@),
            Err(e) => trimmed(text@).len() == 0 && e@ == "selectionVoiceEmptyOutput"@,
        },
{
    let v = to_chars(text);
    let (a, b) = trim_range(&v);
    if a == b {
        let mut e = String::new();
        push_str_chars(&mut e, "selectionVoiceEmptyOutput");
        return Err(e);
    }
    Ok(crate::text::string_from_range(&v, a, b))
}


// ───────────────────────────── previews and errors ─────────────────────────────

/// The instruction the user is asked to confirm, with the text it applies to.
#[derive(Debug, Clone, PartialEq, Eq)]
pub struct SelectionVoiceIntentPromptPayload {
    pub instruction: String,
    pub source_text: String,
}

/// An edited selection waiting for confirmation.
#[derive(Debug, Clone, PartialEq, Eq)]
pub struct SelectionVoicePreviewPayload {
    pub text: String,
    pub source_text: String,
    pub summary: Option<String>,
}

/// A polished selection waiting for confirmation.
#[derive(Debug, Clone, PartialEq, Eq)]
pub struct SelectionPolishPreviewPayload {
    pub text: String,
    pub source_text: String,
}

/// A polish preview exists only when both its text and its source do.
pub fn map_selection_preview(preview_text: Option<String>, source_text: Option<String>) -> (r: Option<
    SelectionPolishPreviewPayload,
>)
    ensures
        match (preview_text, source_text) {
            (Some(t), Some(s)) => r == Some(SelectionPolishPreviewPayload { text: t, source_text: s }),
            _ => r is None,
        },
{
    match (preview_text, source_text) {
        (Some(text), Some(source_text)) => Some(SelectionPolishPreviewPayload { text, source_text }),
        _ => None,
    }
}

/// Kinds of backend failure a voice-edit command reports.
#[derive(Debug, Clone, Copy, PartialEq, Eq, Structural)]
pub enum BackendErrorCode {
    Busy,
    Cancelled,
    InvalidArgument,
    InvalidState,
    Other,
}

/// The error code the interface gets for a backend failure: busy and
/// cancelled map to fixed codes, an invalid intent names the intent after
/// the message's last `:`, a missing intent prompt or preview maps to
/// "unavailable", anything else passes its message on.
pub open spec fn spec_selection_voice_error(code: BackendErrorCode, message: Seq<char>) -> Seq<char> {
    if code == BackendErrorCode::Busy {
        "selectionVoiceBusy"@
    } else if code == BackendErrorCode::Cancelled {
        "selectionVoicePreviewUnavailable"@
    } else if code == BackendErrorCode::InvalidArgument && crate::text::contains_seq(message, "intent"@) {
        match crate::edit_plan::last_of(message, ':') {
            Some(i) => "selectionVoiceInvalidIntent:"@ + trimmed(message.subrange(i + 1, message.len() as int)),
            None => "selectionVoiceInvalidIntent"@,
        }
    } else if code == BackendErrorCode::InvalidState && crate::text::contains_seq(message, "intent prompt"@) {
        "selectionVoiceIntentPromptUnavailable"@
    } else if code == BackendErrorCode::InvalidState && crate::text::contains_seq(message, "preview"@) {
        "selectionVoicePreviewUnavailable"@
    } else {
        message
    }
}

/// See [`spec_selection_voice_error`].
pub fn selection_voice_error(code: BackendErrorCode, message: String) -> (r: String)
    ensures
        r@ == spec_selection_voice_error(code, message@),
{
    let mut r = String::new();
    let v = to_chars(message.as_str());
    if code == BackendErrorCode::Busy {
        push_str_chars(&mut r, "selectionVoiceBusy");
        return r;
    }
    if code == BackendErrorCode::Cancelled {
        push_str_chars(&mut r, "selectionVoicePreviewUnavailable");
        return r;
    }
    if code == BackendErrorCode::InvalidArgument && crate::text::contains_chars(&v, &to_chars("intent")) {
        proof {
            crate::edit_plan::lemma_first_last_bounds(v@, ':');
        }
        assert(v@.len() == v.len());
        match crate::edit_plan::find_last(&v, ':') {
            Some(i) => {
                push_str_chars(&mut r, "selectionVoiceInvalidIntent:");
                let tail = crate::text::string_from_range(&v, i + 1, v.len());
                let tv = to_chars(tail.as_str());
                let (a, b) = trim_range(&tv);
                crate::text::push_range(&mut r, &tv, a, b);
            },
            None => push_str_chars(&mut r, "selectionVoiceInvalidIntent"),
        }
        return r;
    }
    if code == BackendErrorCode::InvalidState && crate::text::contains_chars(&v, &to_chars("intent prompt")) {
        push_str_chars(&mut r, "selectionVoiceIntentPromptUnavailable");
        return r;
    }
    if code == BackendErrorCode::InvalidState && crate::text::contains_chars(&v, &to_chars("preview")) {
        push_str_chars(&mut r, "selectionVoicePreviewUnavailable");
        return r;
    }
    message
}

} // verus!
