//! Batch speech-recognition clients (MiMo, ElevenLabs): PCM is collected
//! while recording and sent as one WAV file when the session ends; the
//! buffer is only dropped once a transcript came back, so a failed request
//! can be retried. MiMo takes the file as a base64 data URL in a
//! chat-completions request, ElevenLabs as a multipart upload.
use vstd::prelude::*;

use crate::asr::{
    base64_standard, base64_standard_of, normalize_endpoint, normalize_model, pcm_duration_ms,
    spec_pcm_duration_ms, strip_trailing_slashes, strip_trailing_slashes_string, trimmed_or,
    MIMO_DEFAULT_ENDPOINT, MIMO_DEFAULT_MODEL, response_text, speech_to_text_url,
    speech_to_text_url_of, extract_text,
};
use crate::edit_plan::{find_key, first_key, JsonValue};
use crate::text::{push_str_chars, string_from_range, to_chars, trim_range, trimmed};
use crate::wav::{encode_wav_16k_mono, samples_in, samples_of, spec_encode_wav};

verus! {

/// What a batch request gives back: the text and the audio's duration.
#[derive(Debug, Clone, PartialEq, Eq)]
pub struct RawTranscript {
    pub text: String,
    pub duration_ms: u64,
}

/// Language hint sent when none was configured.
pub const MIMO_DEFAULT_LANGUAGE: &'static str = "auto";

/// Error of a request attempted without an API key.
pub const MIMO_MISSING_KEY: &'static str = "MiMo API key missing";

/// A MiMo batch client: its settings and the PCM collected so far.
pub struct MiMoBatchASR {
    api_key: String,
    base_url: String,
    model: String,
    language: String,
    buffer: Vec<u8>,
}

/// Everything one recognition request is made of.
#[derive(Debug, Clone, PartialEq, Eq)]
pub struct MiMoRequest {
    /// `<base url without trailing slashes>/chat/completions`.
    pub url: String,
    pub api_key: String,
    pub model: String,
    pub language: String,
    /// `data:audio/wav;base64,` and the buffered PCM as a base64 WAV file.
    pub audio_data_url: String,
    pub duration_ms: u64,
}

/// The chat-completions URL under a base URL.
pub open spec fn chat_completions_url(base_url: Seq<char>) -> Seq<char> {
    strip_trailing_slashes(base_url) + "/chat/completions"@
}

/// The data URL of PCM bytes: a 16 kHz mono WAV file of their samples, in
/// standard base64.
pub open spec fn audio_data_url_of(pcm: Seq<u8>) -> Seq<char> {
    "data:audio/wav;base64,"@ + base64_standard_of(spec_encode_wav(samples_of(pcm)))
}

impl MiMoBatchASR {
    pub closed spec fn api_key_view(&self) -> Seq<char> {
        self.api_key@
    }

    pub closed spec fn base_url_view(&self) -> Seq<char> {
        self.base_url@
    }

    pub closed spec fn model_view(&self) -> Seq<char> {
        self.model@
    }

    pub closed spec fn language_view(&self) -> Seq<char> {
        self.language@
    }

    /// The PCM collected since the last successful request or cancel.
    pub closed spec fn pcm(&self) -> Seq<u8> {
        self.buffer@
    }

    /// Both clients carry the same settings.
    pub open spec fn same_settings(&self, other: &Self) -> bool {
        &&& self.api_key_view() == other.api_key_view()
        &&& self.base_url_view() == other.base_url_view()
        &&& self.model_view() == other.model_view()
        &&& self.language_view() == other.language_view()
    }

    /// A client with an empty buffer; a blank endpoint or model falls back
    /// to the default, no language to `auto`.
    pub fn new(api_key: String, base_url: String, model: String, language: Option<String>) -> (r: Self)
        ensures
            r.api_key_view() == api_key@,
            r.base_url_view() == trimmed_or(base_url@, MIMO_DEFAULT_ENDPOINT@),
            r.model_view() == trimmed_or(model@, MIMO_DEFAULT_MODEL@),
            r.language_view() == (match language {
                Some(l) => l@,
                None => MIMO_DEFAULT_LANGUAGE@,
            }),
            r.pcm().len() == 0,
    {
        let language = match language {
            Some(l) => l,
            None => {
                let mut s = String::new();
                push_str_chars(&mut s, MIMO_DEFAULT_LANGUAGE);
                s
            },
        };
        MiMoBatchASR {
            api_key,
            base_url: normalize_endpoint(base_url.as_str()),
            model: normalize_model(model.as_str()),
            language,
            buffer: Vec::new(),
        }
    }

    /// Appends a recorded PCM chunk to the buffer.
    pub fn consume_pcm_chunk(&mut self, pcm: &[u8])
        ensures
            final(self).pcm() == old(self).pcm() + pcm@,
            final(self).same_settings(old(self)),
    {
        let mut i: usize = 0;
        while i < pcm.len()
            invariant
                i <= pcm@.len(),
                self.buffer@ == old(self).buffer@ + pcm@.subrange(0, i as int),
                self.same_settings(old(self)),
            decreases pcm.len() - i,
        {
            self.buffer.push(pcm[i]);
            i = i + 1;
            assert(self.buffer@ =~= old(self).buffer@ + pcm@.subrange(0, i as int));
        }
        assert(pcm@.subrange(0, pcm@.len() as int) =~= pcm@);
    }

    /// Drops the collected PCM.
    pub fn cancel(&mut self)
        ensures
            final(self).pcm().len() == 0,
            final(self).same_settings(old(self)),
    {
        self.buffer.clear();
    }

    /// How many PCM bytes are buffered.
    pub fn buffer_len(&self) -> (r: usize)
        ensures
            r == self.pcm().len(),
    {
        self.buffer.len()
    }

    /// What a transcription starts with: `Ok(None)` when nothing was
    /// recorded (the transcript is then empty and lasts 0 ms), an error
    /// when the API key is blank, else the request for the buffered PCM.
    /// The buffer must fit a WAV file's 32-bit sizes.
    pub fn transcribe_request(&self) -> (r: Result<Option<MiMoRequest>, String>)
        requires
            self.pcm().len() + 36 <= u32::MAX,
        ensures
            self.pcm().len() == 0 ==> r == Ok::<Option<MiMoRequest>, String>(None),
            self.pcm().len() > 0 && trimmed(self.api_key_view()).len() == 0 ==> (r matches Err(e)
                && e@ == MIMO_MISSING_KEY@),
            self.pcm().len() > 0 && trimmed(self.api_key_view()).len() > 0 ==> (r matches Ok(Some(q))
                && q.url@ == chat_completions_url(self.base_url_view())
                && q.api_key@ == self.api_key_view()
                && q.model@ == self.model_view()
                && q.language@ == self.language_view()
                && q.audio_data_url@ == audio_data_url_of(self.pcm())
                && q.duration_ms as int == spec_pcm_duration_ms(self.pcm().len() as int)),
    {
        if self.buffer.len() == 0 {
            return Ok(None);
        }
        let key = to_chars(self.api_key.as_str());
        let (a, b) = trim_range(&key);
        if a >= b {
            let mut e = String::new();
            push_str_chars(&mut e, MIMO_MISSING_KEY);
            return Err(e);
        }
        let base = to_chars(self.base_url.as_str());
        let mut url = strip_trailing_slashes_string(&base);
        push_str_chars(&mut url, "/chat/completions");
        let audio_data_url = audio_data_url(self.buffer.as_slice());
        Ok(
            Some(
                MiMoRequest {
                    url,
                    api_key: self.api_key.clone(),
                    model: self.model.clone(),
                    language: self.language.clone(),
                    audio_data_url,
                    duration_ms: pcm_duration_ms(self.buffer.as_slice()),
                },
            ),
        )
    }

    /// Ends a transcription with what the request gave: on success the
    /// buffer is dropped and the transcript returned; on failure the buffer
    /// is kept for a retry and the error passed on.
    pub fn finish_transcribe(&mut self, outcome: Result<String, String>, duration_ms: u64) -> (r:
        Result<RawTranscript, String>)
        ensures
            final(self).same_settings(old(self)),
            match outcome {
                Ok(t) => r == Ok::<RawTranscript, String>(RawTranscript { text: t, duration_ms })
                    && final(self).pcm().len() == 0,
                Err(e) => r == Err::<RawTranscript, String>(e) && final(self).pcm() == old(self).pcm(),
            },
    {
        match outcome {
            Ok(text) => {
                self.buffer.clear();
                Ok(RawTranscript { text, duration_ms })
            },
            Err(e) => Err(e),
        }
    }
}

/// The data URL of PCM bytes (see [`audio_data_url_of`]).
pub fn audio_data_url(pcm: &[u8]) -> (r: String)
    requires
        pcm@.len() + 36 <= u32::MAX,
    ensures
        r@ == audio_data_url_of(pcm@),
{
    let samples = samples_in(pcm, 0, pcm.len());
    assert(pcm@.subrange(0, pcm@.len() as int) =~= pcm@);
    let wav = encode_wav_16k_mono(samples.as_slice());
    let b64 = base64_standard(wav.as_slice());
    let mut r = String::new();
    push_str_chars(&mut r, "data:audio/wav;base64,");
    push_str_chars(&mut r, b64.as_str());
    r
}

/// The text of a chat-completions response: the string `content` of the
/// `message` of its first choice, trimmed; empty when any of that is missing.
pub open spec fn completion_text(json: JsonValue) -> Seq<char> {
    match json {
        JsonValue::Object(f) => match first_key(f@, "choices"@) {
            Some(i) => match f@[i].1 {
                JsonValue::Array(choices) => if choices@.len() > 0 {
                    match choices@[0] {
                        JsonValue::Object(c) => match first_key(c@, "message"@) {
                            Some(j) => match c@[j].1 {
                                JsonValue::Object(m) => match first_key(m@, "content"@) {
                                    Some(k) => match m@[k].1 {
                                        JsonValue::String(t) => trimmed(t@),
                                        _ => Seq::empty(),
                                    },
                                    None => Seq::empty(),
                                },
                                _ => Seq::empty(),
                            },
                            None => Seq::empty(),
                        },
                        _ => Seq::empty(),
                    }
                } else {
                    Seq::empty()
                },
                _ => Seq::empty(),
            },
            None => Seq::empty(),
        },
        _ => Seq::empty(),
    }
}

/// The field under key `k` of a JSON value when it is an object.
fn member<'a>(json: &'a JsonValue, k: &str) -> (r: Option<&'a JsonValue>)
    ensures
        match json {
            JsonValue::Object(f) => match first_key(f@, k@) {
                Some(i) => r == Some(&f@[i].1),
                None => r is None,
            },
            _ => r is None,
        },
{
    match json {
        JsonValue::Object(f) => match find_key(f, k) {
            Some(i) => Some(&f[i].1),
            None => None,
        },
        _ => None,
    }
}

/// Reads the recognised text out of a response (see [`completion_text`]).
pub fn mimo_response_text(json: &JsonValue) -> (r: String)
    ensures
        r@ == completion_text(*json),
{
    let choices = match member(json, "choices") {
        Some(JsonValue::Array(items)) => items,
        _ => return String::new(),
    };
    if choices.len() == 0 {
        return String::new();
    }
    let message = match member(&choices[0], "message") {
        Some(m) => m,
        None => return String::new(),
    };
    match member(message, "content") {
        Some(JsonValue::String(t)) => {
            let v = to_chars(t.as_str());
            let (a, b) = trim_range(&v);
            string_from_range(&v, a, b)
        },
        _ => String::new(),
    }
}

// ───────────────────────────── ElevenLabs ─────────────────────────────

/// Error of an ElevenLabs request attempted without an API key.
pub const ELEVENLABS_MISSING_KEY: &'static str = "ElevenLabs API key missing";

/// An ElevenLabs Scribe batch client: its settings, taken as given, and the
/// PCM collected so far.
pub struct ElevenLabsBatchASR {
    api_key: String,
    base_url: String,
    model: String,
    buffer: Vec<u8>,
}

/// Everything one ElevenLabs upload is made of.
#[derive(Debug, Clone, PartialEq, Eq)]
pub struct ElevenLabsRequest {
    /// The speech-to-text endpoint under the base URL.
    pub url: String,
    /// The API key, trimmed, for the `xi-api-key` header.
    pub api_key: String,
    /// `model_id` of the form.
    pub model: String,
    /// The buffered PCM as a 16 kHz mono WAV file.
    pub wav: Vec<u8>,
    pub duration_ms: u64,
}

impl ElevenLabsBatchASR {
    pub closed spec fn api_key_view(&self) -> Seq<char> {
        self.api_key@
    }

    pub closed spec fn base_url_view(&self) -> Seq<char> {
        self.base_url@
    }

    pub closed spec fn model_view(&self) -> Seq<char> {
        self.model@
    }

    /// The PCM collected since the last successful request or cancel.
    pub closed spec fn pcm(&self) -> Seq<u8> {
        self.buffer@
    }

    /// Both clients carry the same settings.
    pub open spec fn same_settings(&self, other: &Self) -> bool {
        &&& self.api_key_view() == other.api_key_view()
        &&& self.base_url_view() == other.base_url_view()
        &&& self.model_view() == other.model_view()
    }

    /// A client with an empty buffer.
    pub fn new(api_key: String, base_url: String, model: String) -> (r: Self)
        ensures
            r.api_key_view() == api_key@,
            r.base_url_view() == base_url@,
            r.model_view() == model@,
            r.pcm().len() == 0,
    {
        ElevenLabsBatchASR { api_key, base_url, model, buffer: Vec::new() }
    }

    /// Appends a recorded PCM chunk to the buffer.
    pub fn consume_pcm_chunk(&mut self, pcm: &[u8])
        ensures
            final(self).pcm() == old(self).pcm() + pcm@,
            final(self).same_settings(old(self)),
    {
        let mut i: usize = 0;
        while i < pcm.len()
            invariant
                i <= pcm@.len(),
                self.buffer@ == old(self).buffer@ + pcm@.subrange(0, i as int),
                self.same_settings(old(self)),
            decreases pcm.len() - i,
        {
            self.buffer.push(pcm[i]);
            i = i + 1;
            assert(self.buffer@ =~= old(self).buffer@ + pcm@.subrange(0, i as int));
        }
        assert(pcm@.subrange(0, pcm@.len() as int) =~= pcm@);
    }

    /// Drops the collected PCM.
    pub fn cancel(&mut self)
        ensures
            final(self).pcm().len() == 0,
            final(self).same_settings(old(self)),
    {
        self.buffer.clear();
    }

    /// How many PCM bytes are buffered.
    pub fn buffer_len(&self) -> (r: usize)
        ensures
            r == self.pcm().len(),
    {
        self.buffer.len()
    }

    /// What a transcription starts with: `Ok(None)` when nothing was
    /// recorded, an error when the API key is blank or the base URL does not
    /// parse, else the upload of the buffered PCM.
    pub fn transcribe_request(&self) -> (r: Result<Option<ElevenLabsRequest>, String>)
        requires
            self.pcm().len() + 36 <= u32::MAX,
        ensures
            self.pcm().len() == 0 ==> r == Ok::<Option<ElevenLabsRequest>, String>(None),
            self.pcm().len() > 0 && trimmed(self.api_key_view()).len() == 0 ==> (r matches Err(e)
                && e@ == ELEVENLABS_MISSING_KEY@),
            self.pcm().len() > 0 && trimmed(self.api_key_view()).len() > 0 ==> match speech_to_text_url_of(
                self.base_url_view(),
            ) {
                Some(u) => r matches Ok(Some(q)) && q.url@ == u && q.api_key@ == trimmed(self.api_key_view())
                    && q.model@ == self.model_view() && q.wav@ == spec_encode_wav(samples_of(self.pcm()))
                    && q.duration_ms as int == spec_pcm_duration_ms(self.pcm().len() as int),
                None => r matches Err(e) && e@ == "parse ElevenLabs base URL"@,
            },
    {
        if self.buffer.len() == 0 {
            return Ok(None);
        }
        let key = to_chars(self.api_key.as_str());
        let (a, b) = trim_range(&key);
        if a >= b {
            let mut e = String::new();
            push_str_chars(&mut e, ELEVENLABS_MISSING_KEY);
            return Err(e);
        }
        let duration_ms = pcm_duration_ms(self.buffer.as_slice());
        let samples = samples_in(self.buffer.as_slice(), 0, self.buffer.len());
        assert(self.buffer@.subrange(0, self.buffer@.len() as int) =~= self.buffer@);
        let wav = encode_wav_16k_mono(samples.as_slice());
        let url = match speech_to_text_url(self.base_url.as_str()) {
            Ok(u) => u,
            Err(e) => return Err(e),
        };
        Ok(
            Some(
                ElevenLabsRequest {
                    url,
                    api_key: string_from_range(&key, a, b),
                    model: self.model.clone(),
                    wav,
                    duration_ms,
                },
            ),
        )
    }

    /// Ends a transcription with what the request gave: on success the
    /// buffer is dropped and the transcript returned; on failure the buffer
    /// is kept for a retry and the error passed on.
    pub fn finish_transcribe(&mut self, outcome: Result<String, String>, duration_ms: u64) -> (r:
        Result<RawTranscript, String>)
        ensures
            final(self).same_settings(old(self)),
            match outcome {
                Ok(t) => r == Ok::<RawTranscript, String>(RawTranscript { text: t, duration_ms })
                    && final(self).pcm().len() == 0,
                Err(e) => r == Err::<RawTranscript, String>(e) && final(self).pcm() == old(self).pcm(),
            },
    {
        match outcome {
            Ok(text) => {
                self.buffer.clear();
                Ok(RawTranscript { text, duration_ms })
            },
            Err(e) => Err(e),
        }
    }
}

/// The transcript an ElevenLabs response carries, trimmed (see
/// [`response_text`]).
pub fn elevenlabs_response_text(json: &JsonValue) -> (r: String)
    ensures
        r@ == trimmed(response_text(*json)),
{
    let t = extract_text(json);
    let v = to_chars(t.as_str());
    let (a, b) = trim_range(&v);
    string_from_range(&v, a, b)
}

} // verus!
