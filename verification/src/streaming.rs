//! Transcripts assembled from streaming speech-recognition events: the
//! turn-based providers (AssemblyAI, Deepgram) keep finished turns and the
//! running interim text; Tencent Cloud keeps numbered segments, stable and
//! provisional. Also what each event means for the session.
use vstd::prelude::*;
use vstd::string::*;

use std::collections::BTreeMap;

use crate::segments::{in_index_order, merge_segments, merged, segment_texts};
use crate::text::{push_str_chars, to_chars, trim_range, trimmed};

verus! {

/// PCM bytes per millisecond of 16 kHz mono 16-bit audio.
pub const BYTES_PER_MS: u64 = 32;

/// How long a session lasted: from the audio sent when there was any,
/// else from the wall clock when it was started, else zero.
pub fn session_duration_ms(bytes: u64, elapsed_ms: Option<u64>) -> (r: u64)
    ensures
        r == (if bytes > 0 {
            (bytes / 32) as u64
        } else {
            match elapsed_ms {
                Some(e) => e,
                None => 0,
            }
        }),
{
    if bytes > 0 {
        bytes / BYTES_PER_MS
    } else {
        match elapsed_ms {
            Some(e) => e,
            None => 0,
        }
    }
}

/// Finished turns and the turn still being spoken.
#[derive(Debug, Clone, PartialEq, Eq)]
pub struct TurnTranscript {
    pub completed: Vec<String>,
    pub interim: String,
}

/// What a transcript event does to the turns: a final event keeps its
/// (trimmed, non-empty) text as a finished turn and clears the interim
/// text; a provisional one with text replaces the interim text.
pub open spec fn turn_applied(old: TurnTranscript, new: TurnTranscript, transcript: Seq<char>, is_final: bool) -> bool {
    let t = trimmed(transcript);
    if is_final {
        new.completed@.len() == (if t.len() > 0 {
            old.completed@.len() + 1
        } else {
            old.completed@.len() + 0
        }) && (forall|i: int| 0 <= i < old.completed@.len() ==> #[trigger] new.completed@[i] == old.completed@[i])
            && (t.len() > 0 ==> new.completed@.last()@ == t) && new.interim@.len() == 0
    } else {
        new.completed == old.completed && new.interim@ == (if t.len() > 0 {
            t
        } else {
            old.interim@
        })
    }
}

/// The text pieces a session ends with: the finished turns, then the
/// interim text when there is some.
pub open spec fn turn_pieces(t: TurnTranscript) -> Seq<Seq<char>> {
    let done = t.completed@.map_values(|s: String| s@);
    if t.interim@.len() > 0 {
        done.push(t.interim@)
    } else {
        done
    }
}

impl TurnTranscript {
    pub fn new() -> (r: Self)
        ensures
            r.completed@.len() == 0 && r.interim@.len() == 0,
    {
        TurnTranscript { completed: Vec::new(), interim: String::new() }
    }

    /// Applies a transcript event (see [`turn_applied`]).
    pub fn apply(&mut self, transcript: &str, is_final: bool)
        ensures
            turn_applied(*old(self), *final(self), transcript@, is_final),
    {
        let v = to_chars(transcript);
        let (a, b) = trim_range(&v);
        if is_final {
            if a < b {
                self.completed.push(crate::text::string_from_range(&v, a, b));
            }
            self.interim = String::new();
        } else if a < b {
            self.interim = crate::text::string_from_range(&v, a, b);
        }
    }

    /// Whether anything was heard: a finished turn or non-blank interim text.
    pub fn has_partial(&self) -> (r: bool)
        ensures
            r == (self.completed@.len() > 0 || trimmed(self.interim@).len() > 0),
    {
        if self.completed.len() > 0 {
            return true;
        }
        let v = to_chars(self.interim.as_str());
        let (a, b) = trim_range(&v);
        a < b
    }

    /// Takes the pieces the session ends with (see [`turn_pieces`]),
    /// leaving the transcript empty.
    pub fn take_pieces(&mut self) -> (r: Vec<String>)
        ensures
            r@.map_values(|s: String| s@) == turn_pieces(*old(self)),
            final(self).completed@.len() == 0,
            final(self).interim@.len() == 0,
    {
        let mut pieces: Vec<String> = Vec::new();
        std::mem::swap(&mut pieces, &mut self.completed);
        let mut interim = String::new();
        std::mem::swap(&mut interim, &mut self.interim);
        if interim.as_str().unicode_len() > 0 {
            pieces.push(interim);
        }
        proof {
            assert(pieces@.map_values(|s: String| s@) =~= turn_pieces(*old(self)));
        }
        pieces
    }
}

/// What a streaming event means for the session.
#[derive(Debug, Clone, PartialEq, Eq)]
pub enum StreamStep {
    /// Keep listening.
    Continue,
    /// The server accepted the session: start sending audio.
    SessionStarted,
    /// The server finished: deliver what was heard.
    Finish,
    /// The server failed: deliver what was heard, or this error when
    /// nothing was.
    FailOrPartial(String),
}

/// An AssemblyAI event, as read off its JSON.
#[derive(Debug, Clone, PartialEq, Eq)]
pub enum AssemblyAIEvent {
    Begin,
    Turn { transcript: String, end_of_turn: bool },
    Termination,
    Error { message: String },
    Other,
}

/// The event an AssemblyAI message stands for, from its `type` and the
/// fields read for it; missing fields default to empty text, `false`, and
/// a generic error message.
pub fn assemblyai_event(
    event_type: Option<&str>,
    transcript: Option<&str>,
    end_of_turn: Option<bool>,
    error: Option<&str>,
) -> (r: AssemblyAIEvent)
    ensures
        match event_type {
            Some(t) => if t@ == "Begin"@ {
                r == AssemblyAIEvent::Begin
            } else if t@ == "Turn"@ {
                r matches AssemblyAIEvent::Turn { transcript: tr, end_of_turn: e } && tr@ == (match transcript {
                    Some(s) => s@,
                    None => Seq::empty(),
                }) && e == (match end_of_turn {
                    Some(b) => b,
                    None => false,
                })
            } else if t@ == "Termination"@ {
                r == AssemblyAIEvent::Termination
            } else if t@ == "Error"@ {
                r matches AssemblyAIEvent::Error { message: m } && m@ == (match error {
                    Some(s) => s@,
                    None => "AssemblyAI streaming error"@,
                })
            } else {
                r == AssemblyAIEvent::Other
            },
            None => r == AssemblyAIEvent::Other,
        },
{
    let t = match event_type {
        Some(t) => t,
        None => return AssemblyAIEvent::Other,
    };
    let tv = to_chars(t);
    if crate::text::chars_eq(&tv, &to_chars("Begin")) {
        AssemblyAIEvent::Begin
    } else if crate::text::chars_eq(&tv, &to_chars("Turn")) {
        let mut s = String::new();
        match transcript {
            Some(x) => push_str_chars(&mut s, x),
            None => {},
        }
        AssemblyAIEvent::Turn {
            transcript: s,
            end_of_turn: match end_of_turn {
                Some(b) => b,
                None => false,
            },
        }
    } else if crate::text::chars_eq(&tv, &to_chars("Termination")) {
        AssemblyAIEvent::Termination
    } else if crate::text::chars_eq(&tv, &to_chars("Error")) {
        let mut m = String::new();
        match error {
            Some(x) => push_str_chars(&mut m, x),
            None => push_str_chars(&mut m, "AssemblyAI streaming error"),
        }
        AssemblyAIEvent::Error { message: m }
    } else {
        AssemblyAIEvent::Other
    }
}

/// Applies an AssemblyAI event to the transcript and says what it means
/// for the session.
pub fn handle_assemblyai_event(transcript: &mut TurnTranscript, event: AssemblyAIEvent) -> (r: StreamStep)
    ensures
        match event {
            AssemblyAIEvent::Begin => r == StreamStep::SessionStarted && *final(transcript) == *old(transcript),
            AssemblyAIEvent::Turn { transcript: t, end_of_turn } => r == StreamStep::Continue && turn_applied(
                *old(transcript),
                *final(transcript),
                t@,
                end_of_turn,
            ),
            AssemblyAIEvent::Termination => r == StreamStep::Finish && *final(transcript) == *old(transcript),
            AssemblyAIEvent::Error { message } => r == StreamStep::FailOrPartial(message) && *final(transcript)
                == *old(transcript),
            AssemblyAIEvent::Other => r == StreamStep::Continue && *final(transcript) == *old(transcript),
        },
{
    match event {
        AssemblyAIEvent::Begin => StreamStep::SessionStarted,
        AssemblyAIEvent::Turn { transcript: t, end_of_turn } => {
            transcript.apply(t.as_str(), end_of_turn);
            StreamStep::Continue
        },
        AssemblyAIEvent::Termination => StreamStep::Finish,
        AssemblyAIEvent::Error { message } => StreamStep::FailOrPartial(message),
        AssemblyAIEvent::Other => StreamStep::Continue,
    }
}

/// A Deepgram event, as read off its JSON.
#[derive(Debug, Clone, PartialEq, Eq)]
pub enum DeepgramEvent {
    Results { transcript: String, is_final: bool, speech_final: bool },
    Error { message: String },
    Other,
}

/// The event a Deepgram message stands for; missing fields default to
/// empty text, `false`, and a generic error message.
pub fn deepgram_event(
    event_type: Option<&str>,
    transcript: Option<&str>,
    is_final: Option<bool>,
    speech_final: Option<bool>,
    message: Option<&str>,
) -> (r: DeepgramEvent)
    ensures
        match event_type {
            Some(t) => if t@ == "Results"@ {
                r matches DeepgramEvent::Results { transcript: tr, is_final: f, speech_final: sf } && tr@ == (
                match transcript {
                    Some(s) => s@,
                    None => Seq::empty(),
                }) && f == (match is_final {
                    Some(b) => b,
                    None => false,
                }) && sf == (match speech_final {
                    Some(b) => b,
                    None => false,
                })
            } else if t@ == "Error"@ {
                r matches DeepgramEvent::Error { message: m } && m@ == (match message {
                    Some(s) => s@,
                    None => "Deepgram streaming error"@,
                })
            } else {
                r == DeepgramEvent::Other
            },
            None => r == DeepgramEvent::Other,
        },
{
    let t = match event_type {
        Some(t) => t,
        None => return DeepgramEvent::Other,
    };
    let tv = to_chars(t);
    if crate::text::chars_eq(&tv, &to_chars("Results")) {
        let mut s = String::new();
        match transcript {
            Some(x) => push_str_chars(&mut s, x),
            None => {},
        }
        DeepgramEvent::Results {
            transcript: s,
            is_final: match is_final {
                Some(b) => b,
                None => false,
            },
            speech_final: match speech_final {
                Some(b) => b,
                None => false,
            },
        }
    } else if crate::text::chars_eq(&tv, &to_chars("Error")) {
        let mut m = String::new();
        match message {
            Some(x) => push_str_chars(&mut m, x),
            None => push_str_chars(&mut m, "Deepgram streaming error"),
        }
        DeepgramEvent::Error { message: m }
    } else {
        DeepgramEvent::Other
    }
}

/// Applies a Deepgram event: results are final when either flag says so.
pub fn handle_deepgram_event(transcript: &mut TurnTranscript, event: DeepgramEvent) -> (r: StreamStep)
    ensures
        match event {
            DeepgramEvent::Results { transcript: t, is_final, speech_final } => r == StreamStep::Continue
                && turn_applied(*old(transcript), *final(transcript), t@, is_final || speech_final),
            DeepgramEvent::Error { message } => r == StreamStep::FailOrPartial(message) && *final(transcript)
                == *old(transcript),
            DeepgramEvent::Other => r == StreamStep::Continue && *final(transcript) == *old(transcript),
        },
{
    match event {
        DeepgramEvent::Results { transcript: t, is_final, speech_final } => {
            transcript.apply(t.as_str(), is_final || speech_final);
            StreamStep::Continue
        },
        DeepgramEvent::Error { message } => StreamStep::FailOrPartial(message),
        DeepgramEvent::Other => StreamStep::Continue,
    }
}


// ───────────────────────────── Tencent Cloud segments ─────────────────────────────

/// What Tencent Cloud has recognised so far: stable segments, provisional
/// ones, and the last non-blank text received.
#[derive(Debug)]
pub struct TencentTranscript {
    pub final_segments: BTreeMap<i64, String>,
    pub partial_segments: BTreeMap<i64, String>,
    pub last_result_text: String,
}

/// A recognition result read off a Tencent Cloud message.
#[derive(Debug, Clone, PartialEq, Eq)]
pub struct TencentResult {
    pub voice_text_str: Option<String>,
    pub index: Option<i64>,
    pub slice_type: Option<i64>,
}

/// What recording `result` did to the transcript (see
/// [`TencentTranscript::record_result`]).
pub open spec fn result_recorded(old: TencentTranscript, new: TencentTranscript, result: TencentResult) -> bool {
    match result.voice_text_str {
        Some(t) if trimmed(t@).len() > 0 => {
            let idx = match result.index { Some(i) => i, None => 0 };
            let stable = result.slice_type == Some(2i64);
            &&& new.last_result_text@ == trimmed(t@)
            &&& stable ==> new.final_segments@ == old.final_segments@.insert(idx, new.last_result_text)
                && new.partial_segments@ == old.partial_segments@.remove(idx)
            &&& !stable ==> new.final_segments@ == old.final_segments@
                && new.partial_segments@ == old.partial_segments@.insert(idx, new.last_result_text)
        },
        _ => new.last_result_text == old.last_result_text && new.final_segments@ == old.final_segments@
            && new.partial_segments@ == old.partial_segments@,
    }
}

impl TencentTranscript {
    pub fn new() -> (r: Self)
        ensures
            r.final_segments@ == Map::<i64, String>::empty(),
            r.partial_segments@ == Map::<i64, String>::empty(),
            r.last_result_text@.len() == 0,
    {
        TencentTranscript {
            final_segments: BTreeMap::new(),
            partial_segments: BTreeMap::new(),
            last_result_text: String::new(),
        }
    }

    /// Records a result. Results without text, or with blank text, are
    /// ignored. Otherwise the trimmed text becomes the last text and goes to
    /// its segment (index 0 when missing): a stable slice (type 2) replaces
    /// the provisional one at its index, any other (type 1 when missing)
    /// updates the provisional one.
    pub fn record_result(&mut self, result: &TencentResult)
        ensures
            result_recorded(*old(self), *final(self), *result),
    {
        broadcast use vstd::std_specs::btree::group_btree_axioms;
        broadcast use vstd::laws_cmp::group_laws_cmp;
        let text = match &result.voice_text_str {
            Some(t) => t,
            None => return,
        };
        let v = to_chars(text.as_str());
        let (a, b) = trim_range(&v);
        if a == b {
            return;
        }
        let t = crate::text::string_from_range(&v, a, b);
        let idx: i64 = match result.index {
            Some(i) => i,
            None => 0,
        };
        let slice_type: i64 = match result.slice_type {
            Some(s) => s,
            None => 1,
        };
        self.last_result_text = t.clone();
        assert(vstd::laws_cmp::obeys_cmp::<i64>());
        if slice_type == 2 {
            self.final_segments.insert(idx, t);
            self.partial_segments.remove(&idx);
        } else {
            self.partial_segments.insert(idx, t);
        }
    }

    /// Whether anything was recognised.
    pub fn has_text(&self) -> (r: bool)
        ensures
            r == (trimmed(self.last_result_text@).len() > 0 || self.final_segments@.len() > 0
                || self.partial_segments@.len() > 0),
    {
        broadcast use vstd::std_specs::btree::group_btree_axioms;
        broadcast use vstd::laws_cmp::group_laws_cmp;
        assert(vstd::laws_cmp::obeys_cmp::<i64>());
        let v = to_chars(self.last_result_text.as_str());
        let (a, b) = trim_range(&v);
        a < b || !self.final_segments.is_empty() || !self.partial_segments.is_empty()
    }

    /// The pieces the session ends with: the merged segments in index order
    /// (see [`merge_segments`]), or the last text alone when there are none.
    pub fn final_pieces(&self) -> (r: Vec<String>)
        ensures
            ({
                let m = merged(self.final_segments@, self.partial_segments@);
                if m.len() > 0 {
                    in_index_order(m, r@)
                } else {
                    r@ == seq![self.last_result_text]
                }
            }),
    {
        broadcast use vstd::std_specs::btree::group_btree_axioms;
        broadcast use vstd::laws_cmp::group_laws_cmp;
        assert(vstd::laws_cmp::obeys_cmp::<i64>());
        let m = merge_segments(&self.final_segments, &self.partial_segments);
        if m.is_empty() {
            let mut r: Vec<String> = Vec::new();
            r.push(self.last_result_text.clone());
            r
        } else {
            segment_texts(&m)
        }
    }
}

/// A Tencent Cloud message: its code, error text, recognition result and
/// final flag.
#[derive(Debug, Clone, PartialEq, Eq)]
pub struct TencentEvent {
    pub code: Option<i64>,
    pub message: Option<String>,
    pub result: Option<TencentResult>,
    pub final_flag: Option<i64>,
}

/// What a Tencent Cloud message means for the session.
#[derive(Debug, Clone, PartialEq, Eq)]
pub enum TencentStep {
    /// The server refused or failed the task: stop with this error.
    Failed(crate::asr::TencentCloudASRError),
    /// The session runs (the first such message starts it); keep listening.
    Continue,
    /// The session runs and the server sent its final result.
    Finish,
}

/// Handles a message: a missing code counts as -1, a non-zero code is a
/// server error (see `classify_server_error`, with "unknown error" for a
/// missing text); otherwise the result is recorded and a final flag of 1
/// finishes the session.
pub fn handle_tencent_event(transcript: &mut TencentTranscript, event: &TencentEvent) -> (r: TencentStep)
    ensures
        ({
            let code: int = match event.code { Some(c) => c as int, None => -1 };
            if code != 0 {
                r matches TencentStep::Failed(e) && crate::asr::is_server_error(e, code as i64, match event.message {
                    Some(m) => m@,
                    None => "unknown error"@,
                }) && final(transcript).last_result_text == old(transcript).last_result_text
                    && final(transcript).final_segments@ == old(transcript).final_segments@
                    && final(transcript).partial_segments@ == old(transcript).partial_segments@
            } else {
                r == (if event.final_flag == Some(1i64) { TencentStep::Finish } else { TencentStep::Continue })
                    && match event.result {
                        Some(res) => result_recorded(*old(transcript), *final(transcript), res),
                        None => final(transcript).last_result_text == old(transcript).last_result_text
                            && final(transcript).final_segments@ == old(transcript).final_segments@
                            && final(transcript).partial_segments@ == old(transcript).partial_segments@,
                    }
            }
        }),
{
    let code: i64 = match event.code {
        Some(c) => c,
        None => -1,
    };
    if code != 0 {
        let error = match &event.message {
            Some(m) => crate::asr::classify_server_error(code, m.as_str()),
            None => crate::asr::classify_server_error(code, "unknown error"),
        };
        return TencentStep::Failed(error);
    }
    match &event.result {
        Some(res) => transcript.record_result(res),
        None => {},
    }
    match event.final_flag {
        Some(1) => TencentStep::Finish,
        _ => TencentStep::Continue,
    }
}

} // verus!
