//! Dictation history entries: the identifier check that guards recording
//! paths, the PCM taken from an archived recording, and how a successful
//! re-transcription is written back onto an entry.
use vstd::prelude::*;

use crate::text::{push_str_chars, to_chars};

verus! {

/// How a dictation was polished.
#[derive(Debug, Clone, Copy, PartialEq, Eq)]
pub enum PolishMode {
    Raw,
    Light,
}

/// What became of the text at the cursor.
#[derive(Debug, Clone, Copy, PartialEq, Eq)]
pub enum InsertStatus {
    Inserted,
    CopiedFallback,
    Failed,
}

/// The speech-recognition provider and model that served a call.
#[derive(Debug, Clone, PartialEq, Eq)]
pub struct AsrCallLabel {
    pub provider: String,
    pub model: Option<String>,
}

/// One entry of the dictation history.
#[derive(Debug, Clone, PartialEq, Eq)]
pub struct DictationSession {
    pub id: String,
    pub created_at: String,
    pub raw_transcript: String,
    pub final_text: String,
    pub mode: PolishMode,
    pub style_pack_id: Option<String>,
    pub translation_active: bool,
    pub polish_source: Option<String>,
    pub app_bundle_id: Option<String>,
    pub app_name: Option<String>,
    pub insert_status: InsertStatus,
    pub error_code: Option<String>,
    pub duration_ms: Option<u64>,
    pub dictionary_entry_count: Option<u32>,
    pub has_audio_recording: Option<bool>,
    pub asr_provider: Option<String>,
    pub asr_model: Option<String>,
    pub llm_provider: Option<String>,
    pub llm_model: Option<String>,
    pub asr_ms: Option<u64>,
    pub polish_ms: Option<u64>,
}

fn copy_string(s: &String) -> (r: String)
    ensures
        r == *s,
{
    s.clone()
}

fn copy_opt(s: &Option<String>) -> (r: Option<String>)
    ensures
        r == *s,
{
    match s {
        Some(t) => Some(t.clone()),
        None => None,
    }
}

/// Writes a successful re-transcription onto a history entry: the text
/// becomes both the raw and the final transcript, the failure mark is
/// cleared, the speech-recognition attribution and timing are those of this
/// call, and the polishing metadata (which no longer applies) is cleared.
/// Every other field keeps its value.
pub fn apply_retranscription(entry: &mut DictationSession, text: String, asr_call_label: &AsrCallLabel, asr_ms: u64)
    ensures
        final(entry).raw_transcript == text,
        final(entry).final_text == text,
        final(entry).error_code is None,
        final(entry).asr_provider == Some(asr_call_label.provider),
        final(entry).asr_model == asr_call_label.model,
        final(entry).asr_ms == Some(asr_ms),
        final(entry).llm_provider is None,
        final(entry).llm_model is None,
        final(entry).polish_ms is None,
        final(entry).id == old(entry).id,
        final(entry).created_at == old(entry).created_at,
        final(entry).mode == old(entry).mode,
        final(entry).style_pack_id == old(entry).style_pack_id,
        final(entry).translation_active == old(entry).translation_active,
        final(entry).polish_source == old(entry).polish_source,
        final(entry).app_bundle_id == old(entry).app_bundle_id,
        final(entry).app_name == old(entry).app_name,
        final(entry).insert_status == old(entry).insert_status,
        final(entry).duration_ms == old(entry).duration_ms,
        final(entry).dictionary_entry_count == old(entry).dictionary_entry_count,
        final(entry).has_audio_recording == old(entry).has_audio_recording,
{
    entry.raw_transcript = copy_string(&text);
    entry.final_text = text;
    entry.error_code = None;
    entry.asr_provider = Some(copy_string(&asr_call_label.provider));
    entry.asr_model = copy_opt(&asr_call_label.model);
    entry.asr_ms = Some(asr_ms);
    entry.llm_provider = None;
    entry.llm_model = None;
    entry.polish_ms = None;
}

/// An ASCII hexadecimal digit.
pub open spec fn is_hex(c: char) -> bool {
    ('0' <= c && c <= '9') || ('a' <= c && c <= 'f') || ('A' <= c && c <= 'F')
}

/// The literal shape of a UUID: 36 chars, `-` at 8, 13, 18 and 23, ASCII
/// hexadecimal everywhere else.
pub open spec fn is_uuid_shaped(s: Seq<char>) -> bool {
    &&& s.len() == 36
    &&& forall|i: int|
        0 <= i < 36 ==> if i == 8 || i == 13 || i == 18 || i == 23 {
            #[trigger] s[i] == '-'
        } else {
            is_hex(s[i])
        }
}

/// Whether `id` is a session identifier: only a UUID-shaped string may be
/// joined onto the recordings directory.
pub fn is_valid_session_id(id: &str) -> (r: bool)
    ensures
        r == is_uuid_shaped(id@),
{
    let v = to_chars(id);
    if v.len() != 36 {
        return false;
    }
    let mut i: usize = 0;
    while i < 36
        invariant
            v@ == id@,
            v@.len() == 36,
            i <= 36,
            forall|j: int|
                0 <= j < i ==> if j == 8 || j == 13 || j == 18 || j == 23 {
                    #[trigger] v@[j] == '-'
                } else {
                    is_hex(v@[j])
                },
        decreases 36 - i,
    {
        let c = v[i];
        let ok = if i == 8 || i == 13 || i == 18 || i == 23 {
            c == '-'
        } else {
            ('0' <= c && c <= '9') || ('a' <= c && c <= 'f') || ('A' <= c && c <= 'F')
        };
        if !ok {
            return false;
        }
        i = i + 1;
    }
    true
}

/// Size of the fixed header of an archived recording.
pub const ARCHIVED_WAV_HEADER_BYTES: usize = 44;

/// The PCM of an archived recording: everything after its 44-byte header;
/// a file of 44 bytes or less is refused as empty or corrupt.
pub fn archived_pcm(wav: &[u8]) -> (r: Result<Vec<u8>, String>)
    ensures
        match r {
            Ok(pcm) => wav@.len() > 44 && pcm@ == wav@.subrange(44, wav@.len() as int),
            Err(e) => wav@.len() <= 44 && e@ == "recording is empty or corrupt"@,
        },
{
    if wav.len() <= ARCHIVED_WAV_HEADER_BYTES {
        let mut e = String::new();
        push_str_chars(&mut e, "recording is empty or corrupt");
        return Err(e);
    }
    let mut pcm: Vec<u8> = Vec::new();
    let mut i: usize = ARCHIVED_WAV_HEADER_BYTES;
    while i < wav.len()
        invariant
            44 <= i <= wav@.len(),
            pcm@ == wav@.subrange(44, i as int),
        decreases wav.len() - i,
    {
        pcm.push(wav[i]);
        i = i + 1;
        assert(pcm@ =~= wav@.subrange(44, i as int));
    }
    Ok(pcm)
}

} // verus!
