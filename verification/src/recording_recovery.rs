//! Recovery of a recording cancelled with Esc: which session may still be
//! offered back to the user, and what the delayed prompt does when it
//! fires.
use vstd::prelude::*;

use crate::text::to_chars;

verus! {

/// Delay before the recovery prompt shows, in milliseconds.
pub const RECORDING_RECOVERY_PROMPT_DELAY_MS: u64 = 120;

/// How long the prompt stays up, in milliseconds.
pub const RECORDING_RECOVERY_TIMEOUT_MS: u64 = 3_000;

/// Phase of the dictation pipeline, as far as recovery cares.
#[derive(Debug, Clone, Copy, PartialEq, Eq, Structural)]
pub enum DictationPhase {
    Idle,
    Starting,
    Recording,
    Processing,
}

/// The session whose cancelled recording may still be recovered.
#[derive(Debug, Clone, PartialEq, Eq)]
pub struct RecordingRecovery {
    pub pending: Option<String>,
}

/// `pending` names the session `id`.
pub open spec fn pending_is(r: RecordingRecovery, id: Seq<char>) -> bool {
    r.pending matches Some(p) && p@ == id
}

/// What the delayed prompt does when it fires.
#[derive(Debug, Clone, Copy, PartialEq, Eq)]
pub enum PromptStep {
    /// The session is no longer pending (dismissed or replaced): nothing.
    Stale,
    /// Recovery was switched off meanwhile: dismiss it.
    Dismiss,
    /// Another dictation is running: leave it pending, show nothing.
    Busy,
    /// Show the recovery prompt.
    Show,
}

/// The prompt is scheduled only while recovery is enabled and the session
/// is the pending one.
pub open spec fn spec_should_schedule(r: RecordingRecovery, enabled: bool, id: Seq<char>) -> bool {
    enabled && pending_is(r, id)
}

/// What the delayed prompt does: nothing for a session no longer pending,
/// a dismissal when recovery was switched off, a wait while another
/// dictation runs, else the prompt.
pub open spec fn spec_prompt_step(r: RecordingRecovery, id: Seq<char>, enabled: bool, phase: DictationPhase) -> PromptStep {
    if !pending_is(r, id) {
        PromptStep::Stale
    } else if !enabled {
        PromptStep::Dismiss
    } else if phase != DictationPhase::Idle {
        PromptStep::Busy
    } else {
        PromptStep::Show
    }
}

fn same_text(a: &String, b: &str) -> (r: bool)
    ensures
        r == (a@ == b@),
{
    crate::text::chars_eq(&to_chars(a.as_str()), &to_chars(b))
}

impl RecordingRecovery {
    pub fn new() -> (r: Self)
        ensures
            r.pending is None,
    {
        RecordingRecovery { pending: None }
    }

    /// Whether an Esc in `phase` arms recovery: only while starting or
    /// recording, and only when the user enabled it.
    pub fn recovery_armed(enabled: bool, phase: DictationPhase) -> (r: bool)
        ensures
            r == (enabled && (phase == DictationPhase::Starting || phase == DictationPhase::Recording)),
    {
        enabled && (phase == DictationPhase::Starting || phase == DictationPhase::Recording)
    }

    /// Arms recovery for `session_id`, replacing any earlier one.
    pub fn arm(&mut self, session_id: String)
        ensures
            final(self).pending == Some(session_id),
    {
        self.pending = Some(session_id);
    }

    /// Whether the prompt for `session_id` is to be scheduled: recovery
    /// still enabled and that very session pending.
    pub fn should_schedule(&self, enabled: bool, session_id: &str) -> (r: bool)
        ensures
            r == spec_should_schedule(*self, enabled, session_id@),
    {
        enabled && match &self.pending {
            Some(p) => same_text(p, session_id),
            None => false,
        }
    }

    /// Dismisses the pending recovery. With a session named, only that
    /// session is dismissed; without, whichever is pending. Returns whether
    /// something was dismissed.
    pub fn dismiss(&mut self, session_id: Option<&str>) -> (r: bool)
        ensures
            r == (old(self).pending is Some && match session_id {
                Some(s) => pending_is(*old(self), s@),
                None => true,
            }),
            r ==> final(self).pending is None,
            !r ==> *final(self) == *old(self),
    {
        let dismissed = match (&self.pending, session_id) {
            (Some(active), Some(requested)) => same_text(active, requested),
            (Some(_), None) => true,
            (None, _) => false,
        };
        if dismissed {
            self.pending = None;
        }
        dismissed
    }

    /// What the delayed prompt for `session_id` does when it fires.
    pub fn prompt_step(&self, session_id: &str, enabled: bool, phase: DictationPhase) -> (r: PromptStep)
        ensures
            r == spec_prompt_step(*self, session_id@, enabled, phase),
    {
        let still_pending = match &self.pending {
            Some(p) => same_text(p, session_id),
            None => false,
        };
        if !still_pending {
            PromptStep::Stale
        } else if !enabled {
            PromptStep::Dismiss
        } else if phase != DictationPhase::Idle {
            PromptStep::Busy
        } else {
            PromptStep::Show
        }
    }

    /// When the shown prompt times out: a session still pending is dropped
    /// (and its capsule hidden, signalled by `true`); anything else stays.
    pub fn expire(&mut self, session_id: &str) -> (r: bool)
        ensures
            r == pending_is(*old(self), session_id@),
            r ==> final(self).pending is None,
            !r ==> *final(self) == *old(self),
    {
        let still_pending = match &self.pending {
            Some(p) => same_text(p, session_id),
            None => false,
        };
        if still_pending {
            self.pending = None;
        }
        still_pending
    }
}

/// A second Esc (a dismissal without a session) or switching recovery off
/// keeps a late prompt from showing: after the dismissal nothing is
/// scheduled and any prompt that fires is stale; with recovery off nothing
/// is scheduled and a firing prompt dismisses itself.
pub proof fn lemma_late_prompt_prevented(
    before: RecordingRecovery,
    after: RecordingRecovery,
    id: Seq<char>,
    enabled: bool,
    phase: DictationPhase,
)
    requires
        after.pending is None,
    ensures
        !spec_should_schedule(after, enabled, id),
        spec_prompt_step(after, id, enabled, phase) == PromptStep::Stale,
        !spec_should_schedule(before, false, id),
        spec_prompt_step(before, id, false, phase) != PromptStep::Show,
{
}

/// What dismissing `session` (any session when `None`) leaves pending.
pub open spec fn after_dismiss(r: RecordingRecovery, session: Option<Seq<char>>) -> Option<Seq<char>> {
    match r.pending {
        Some(p) => match session {
            Some(s) => if p@ == s {
                None
            } else {
                Some(p@)
            },
            None => None,
        },
        None => None,
    }
}

/// The view of what is pending.
pub open spec fn pending_view(r: RecordingRecovery) -> Option<Seq<char>> {
    match r.pending {
        Some(p) => Some(p@),
        None => None,
    }
}

/// How an Esc cancellation ended, as far as recovery cares.
#[derive(Debug, Clone, PartialEq, Eq)]
pub struct EscapeCancelResult {
    /// Whether something was cancelled.
    pub cancelled: bool,
    /// The session whose recovery prompt is to be scheduled.
    pub prompt_for: Option<String>,
}

impl RecordingRecovery {
    /// Settles recovery once the pipeline answered an Esc cancellation.
    /// `armed` is the session recovery was armed for before cancelling;
    /// `outcome` is the recording kept for recovery (`Ok(Some)`), a
    /// cancellation with nothing kept (`Ok(None)`), or a failure (`Err`).
    /// A kept recording gets its prompt scheduled when it still may, and is
    /// dismissed otherwise; without one, the armed session is dismissed.
    pub fn settle_escape_cancel(&mut self, enabled: bool, armed: Option<String>, outcome: Result<
        Option<String>,
        (),
    >) -> (r: EscapeCancelResult)
        ensures
            r.cancelled == (outcome is Ok),
            match outcome {
                Ok(Some(id)) => if spec_should_schedule(*old(self), enabled, id@) {
                    r.prompt_for == Some(id) && *final(self) == *old(self)
                } else {
                    r.prompt_for is None && pending_view(*final(self)) == after_dismiss(*old(self), Some(id@))
                },
                _ => r.prompt_for is None && match armed {
                    Some(a) => pending_view(*final(self)) == after_dismiss(*old(self), Some(a@)),
                    None => *final(self) == *old(self),
                },
            },
    {
        match outcome {
            Ok(Some(id)) => {
                if self.should_schedule(enabled, id.as_str()) {
                    EscapeCancelResult { cancelled: true, prompt_for: Some(id) }
                } else {
                    self.dismiss(Some(id.as_str()));
                    EscapeCancelResult { cancelled: true, prompt_for: None }
                }
            },
            _ => {
                match armed {
                    Some(a) => {
                        self.dismiss(Some(a.as_str()));
                    },
                    None => {},
                }
                EscapeCancelResult { cancelled: outcome.is_ok(), prompt_for: None }
            },
        }
    }
}

} // verus!
