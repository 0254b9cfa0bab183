//! Speech-recognition provider settings: credential checks, model and
//! endpoint defaults, provider families, audio chunking and durations.
use vstd::prelude::*;

use base64::Engine;
use hmac::Mac;

use crate::edit_plan::{find_key, first_key, JsonValue};
use crate::text::{
    chars_eq, has_prefix, push_char, push_decimal, push_range, push_signed_decimal,
    push_str_chars, signed_decimal, starts_with_chars, string_from_range, to_chars, trim_range,
    trimmed, decimal,
};

verus! {

// ───────────────────────────── shared helpers ─────────────────────────────

/// `s` trimmed, or `default` when nothing is left.
pub open spec fn trimmed_or(s: Seq<char>, default: Seq<char>) -> Seq<char> {
    if trimmed(s).len() == 0 {
        default
    } else {
        trimmed(s)
    }
}

/// `s` trimmed, or `default` when nothing is left.
pub fn trimmed_or_default(s: &str, default: &str) -> (r: String)
    ensures
        r@ == trimmed_or(s@, default@),
{
    let v = to_chars(s);
    let (a, b) = trim_range(&v);
    if a == b {
        let mut r = String::new();
        push_str_chars(&mut r, default);
        r
    } else {
        string_from_range(&v, a, b)
    }
}

/// Whether `s` holds something besides whitespace.
pub fn has_text(s: &str) -> (r: bool)
    ensures
        r == (trimmed(s@).len() > 0),
{
    let v = to_chars(s);
    let (a, b) = trim_range(&v);
    a < b
}

fn str_is(s: &str, lit: &str) -> (r: bool)
    ensures
        r == (s@ == lit@),
{
    chars_eq(&to_chars(s), &to_chars(lit))
}

// ───────────────────────────── MiMo ─────────────────────────────

/// Provider id, default endpoint and default model of MiMo ASR.
pub const MIMO_PROVIDER_ID: &'static str = "mimo";

pub const MIMO_DEFAULT_ENDPOINT: &'static str = "https://api.xiaomimimo.com/v1";

pub const MIMO_DEFAULT_MODEL: &'static str = "mimo-v2.5-asr";

/// The endpoint trimmed, or the default endpoint when blank.
pub fn normalize_endpoint(endpoint: &str) -> (r: String)
    ensures
        r@ == trimmed_or(endpoint@, MIMO_DEFAULT_ENDPOINT@),
{
    trimmed_or_default(endpoint, MIMO_DEFAULT_ENDPOINT)
}

/// The model trimmed, or the default model when blank.
pub fn normalize_model(model: &str) -> (r: String)
    ensures
        r@ == trimmed_or(model@, MIMO_DEFAULT_MODEL@),
{
    trimmed_or_default(model, MIMO_DEFAULT_MODEL)
}

/// Bytes per 16-bit PCM sample, and samples per second.
pub const PCM_BYTES_PER_SAMPLE: u64 = 2;

pub const PCM_SAMPLE_RATE_HZ: u64 = 16_000;

/// Duration in milliseconds of 16 kHz mono 16-bit PCM (whole samples only).
pub open spec fn spec_pcm_duration_ms(len: int) -> int {
    (len / 2) * 1000 / 16000
}

/// Duration of a PCM buffer (see [`spec_pcm_duration_ms`]).
pub fn pcm_duration_ms(pcm: &[u8]) -> (r: u64)
    ensures
        r as int == spec_pcm_duration_ms(pcm@.len() as int),
{
    let samples = pcm.len() as u64 / PCM_BYTES_PER_SAMPLE;
    assert((samples * 1000) / 16000 == samples / 16) by (nonlinear_arith);
    samples / 16
}

// ───────────────────────────── AssemblyAI / Deepgram ─────────────────────────────

pub const ASSEMBLYAI_PROVIDER_ID: &'static str = "assemblyai";

pub const ASSEMBLYAI_DEFAULT_ENDPOINT: &'static str = "wss://streaming.assemblyai.com/v3/ws";

pub const ASSEMBLYAI_DEFAULT_MODEL: &'static str = "universal-3-5-pro";

/// Audio is streamed in chunks of this many bytes (100 ms of PCM).
pub const TARGET_AUDIO_CHUNK_BYTES: usize = 3_200;

#[derive(Debug, Clone, PartialEq, Eq)]
pub struct AssemblyAICredentials {
    pub api_key: String,
    pub endpoint: String,
    pub model: String,
}

impl AssemblyAICredentials {
    /// The configured model, or the default when blank.
    pub fn normalized_model(&self) -> (r: String)
        ensures
            r@ == trimmed_or(self.model@, ASSEMBLYAI_DEFAULT_MODEL@),
    {
        trimmed_or_default(self.model.as_str(), ASSEMBLYAI_DEFAULT_MODEL)
    }

    /// The `Authorization` header a session sends: the API key, trimmed.
    /// A blank key is refused before any connection is made.
    pub fn authorization_header(&self) -> (r: Result<String, AssemblyAIError>)
        ensures
            trimmed(self.api_key@).len() == 0 <==> r == Err::<String, AssemblyAIError>(AssemblyAIError::CredentialsMissing),
            r matches Ok(h) ==> h@ == trimmed(self.api_key@),
    {
        let v = to_chars(self.api_key.as_str());
        let (a, b) = trim_range(&v);
        if a == b {
            Err(AssemblyAIError::CredentialsMissing)
        } else {
            Ok(string_from_range(&v, a, b))
        }
    }
}

/// Failures of the AssemblyAI streaming session.
#[derive(Debug, Clone, PartialEq, Eq)]
pub enum AssemblyAIError {
    CredentialsMissing,
    ConnectionFailed(String),
    SendFailed(String),
    TaskFailed(String),
    NoFinalResult,
    FinalResultTimeout,
}

pub const DEEPGRAM_PROVIDER_ID: &'static str = "deepgram";

pub const DEEPGRAM_DEFAULT_ENDPOINT: &'static str = "wss://api.deepgram.com/v1/listen";

pub const DEEPGRAM_DEFAULT_MODEL: &'static str = "nova-3";

#[derive(Debug, Clone, PartialEq, Eq)]
pub struct DeepgramCredentials {
    pub api_key: String,
    pub endpoint: String,
    pub model: String,
    pub language: Option<String>,
}

impl DeepgramCredentials {
    /// The configured model, or the default when blank.
    pub fn normalized_model(&self) -> (r: String)
        ensures
            r@ == trimmed_or(self.model@, DEEPGRAM_DEFAULT_MODEL@),
    {
        trimmed_or_default(self.model.as_str(), DEEPGRAM_DEFAULT_MODEL)
    }

    /// The `Authorization` header a session sends: `Token ` and the API
    /// key, trimmed. A blank key is refused before any connection is made.
    pub fn authorization_header(&self) -> (r: Result<String, DeepgramError>)
        ensures
            trimmed(self.api_key@).len() == 0 <==> r == Err::<String, DeepgramError>(DeepgramError::CredentialsMissing),
            r matches Ok(h) ==> h@ == "Token "@ + trimmed(self.api_key@),
    {
        let v = to_chars(self.api_key.as_str());
        let (a, b) = trim_range(&v);
        if a == b {
            Err(DeepgramError::CredentialsMissing)
        } else {
            let mut h = String::new();
            push_str_chars(&mut h, "Token ");
            push_range(&mut h, &v, a, b);
            Ok(h)
        }
    }
}

/// Failures of the Deepgram streaming session.
#[derive(Debug, Clone, PartialEq, Eq)]
pub enum DeepgramError {
    CredentialsMissing,
    ConnectionFailed(String),
    SendFailed(String),
    TaskFailed(String),
    NoFinalResult,
    FinalResultTimeout,
}

/// What [`drain_audio_chunks`] takes off the front of a buffer: as many
/// whole chunks of `size` bytes as it holds.
pub open spec fn spec_chunks(b: Seq<u8>, size: int) -> Seq<Seq<u8>> {
    Seq::new(((b.len() as int) / size) as nat, |i: int| b.subrange(i * size, (i + 1) * size))
}

/// Chunking loses and reorders nothing: the chunks, concatenated, are the
/// buffer's first `len / size * size` bytes; the rest is what stays behind.
pub proof fn lemma_chunks_lossless(b: Seq<u8>, size: int)
    requires
        size > 0,
    ensures
        spec_chunks(b, size).flatten() + b.subrange(spec_chunks(b, size).len() * size, b.len() as int) == b,
    decreases b.len(),
{
    let n = (b.len() as int) / size;
    if b.len() < size {
        assert(n == 0) by (nonlinear_arith)
            requires
                n == (b.len() as int) / size,
                0 <= b.len() < size,
        ;
        assert(spec_chunks(b, size).len() == 0);
        assert(b.subrange(0, b.len() as int) =~= b);
    } else {
        let rest = b.subrange(size, b.len() as int);
        lemma_chunks_lossless(rest, size);
        let m = (rest.len() as int) / size;
        assert(m == n - 1) by (nonlinear_arith)
            requires
                n == (b.len() as int) / size,
                m == (rest.len() as int) / size,
                rest.len() == b.len() - size,
                size > 0,
        ;
        let c = spec_chunks(b, size);
        let d = spec_chunks(rest, size);
        assert forall|i: int| 0 <= i < d.len() implies #[trigger] c.drop_first()[i] == d[i] by {
            assert((i + 1) * size == size + i * size) by (nonlinear_arith);
            assert((i + 2) * size == size + (i + 1) * size) by (nonlinear_arith);
            assert((i + 1) * size <= rest.len()) by (nonlinear_arith)
                requires
                    0 <= i < m,
                    m == (rest.len() as int) / size,
                    size > 0,
            ;
            assert(0 <= i * size) by (nonlinear_arith)
                requires
                    0 <= i,
                    size > 0,
            ;
            assert(c[i + 1] == b.subrange((i + 1) * size, (i + 2) * size));
            assert(d[i] == rest.subrange(i * size, (i + 1) * size));
            assert(c.drop_first()[i] =~= d[i]);
        }
        assert(c.drop_first() =~= d);
        assert(c.first() =~= b.subrange(0, size)) by {
            assert(0 * size == 0);
            assert(1 * size == size);
        }
        assert(n * size == size + m * size) by (nonlinear_arith)
            requires
                m == n - 1,
        ;
        assert(0 <= m * size <= rest.len()) by (nonlinear_arith)
            requires
                m == (rest.len() as int) / size,
                size > 0,
        ;
        assert(rest.subrange(m * size, rest.len() as int) =~= b.subrange(n * size, b.len() as int));
        assert(c.flatten() == c.first() + c.drop_first().flatten());
        assert(b.subrange(0, size) + rest =~= b);
    }
}

/// Moves every complete `size`-byte chunk from the front of `buffer` into
/// the result, in order; the remainder (shorter than `size`) stays.
pub fn drain_audio_chunks(buffer: &mut Vec<u8>, size: usize) -> (chunks: Vec<Vec<u8>>)
    requires
        size > 0,
    ensures
        chunks@.len() == spec_chunks(old(buffer)@, size as int).len(),
        forall|i: int|
            0 <= i < chunks@.len() ==> (#[trigger] chunks@[i])@ == spec_chunks(old(buffer)@, size as int)[i],
        final(buffer)@ == old(buffer)@.subrange(
            chunks@.len() * size,
            old(buffer)@.len() as int,
        ),
        final(buffer)@.len() < size,
{
    let ghost b = buffer@;
    let n = buffer.len() / size;
    let mut chunks: Vec<Vec<u8>> = Vec::new();
    let mut i: usize = 0;
    while i < n
        invariant
            n == (b.len() as int) / (size as int),
            buffer@ == b,
            size > 0,
            i <= n,
            chunks@.len() == i,
            forall|j: int|
                0 <= j < i ==> (#[trigger] chunks@[j])@ == spec_chunks(b, size as int)[j],
        decreases n - i,
    {
        assert(b.len() == buffer.len());
        assert((i + 1) * size == i * size + size) by (nonlinear_arith);
        assert(i * size + size <= b.len()) by (nonlinear_arith)
            requires
                i < n,
                n == (b.len() as int) / (size as int),
                size > 0,
        ;
        let start = i * size;
        let mut chunk: Vec<u8> = Vec::new();
        let mut k: usize = 0;
        while k < size
            invariant
                buffer@ == b,
                start == i * size,
                start + size <= b.len(),
                b.len() == buffer.len(),
                k <= size,
                chunk@ == b.subrange(start as int, start + k),
            decreases size - k,
        {
            chunk.push(buffer[start + k]);
            k = k + 1;
        }
        chunks.push(chunk);
        i = i + 1;
    }
    assert(n * size <= b.len()) by (nonlinear_arith)
        requires
            n == (b.len() as int) / (size as int),
            size > 0,
    ;
    let consumed = n * size;
    let mut rest: Vec<u8> = Vec::new();
    let mut k = consumed;
    while k < buffer.len()
        invariant
            buffer@ == b,
            consumed <= k <= b.len(),
            rest@ == b.subrange(consumed as int, k as int),
        decreases b.len() - k,
    {
        rest.push(buffer[k]);
        k = k + 1;
    }
    assert(b.len() - consumed < size) by (nonlinear_arith)
        requires
            n == (b.len() as int) / (size as int),
            consumed == n * size,
            size > 0,
    ;
    *buffer = rest;
    chunks
}

// ───────────────────────────── Tencent Cloud ─────────────────────────────

pub const TENCENT_PROVIDER_ID: &'static str = "tencent-cloud";

pub const TENCENT_DEFAULT_ENDPOINT: &'static str = "wss://asr.cloud.tencent.com/asr/v2";

pub const TENCENT_DEFAULT_MODEL: &'static str = "Hy-ASR-3.0-preview";

/// Tencent Cloud takes 200 ms of PCM per frame.
pub const TENCENT_TARGET_AUDIO_CHUNK_BYTES: usize = 6_400;

#[derive(Debug, Clone, PartialEq, Eq)]
pub struct TencentCloudCredentials {
    pub app_id: String,
    pub secret_id: String,
    pub secret_key: String,
    pub model: String,
}

impl TencentCloudCredentials {
    /// All three credentials are filled in (whitespace does not count).
    pub fn auth_ok(&self) -> (r: bool)
        ensures
            r == (trimmed(self.app_id@).len() > 0 && trimmed(self.secret_id@).len() > 0 && trimmed(
                self.secret_key@,
            ).len() > 0),
    {
        has_text(self.app_id.as_str()) && has_text(self.secret_id.as_str()) && has_text(
            self.secret_key.as_str(),
        )
    }

    /// The configured engine model, or the default when blank.
    pub fn resolved_model(&self) -> (r: String)
        ensures
            r@ == trimmed_or(self.model@, TENCENT_DEFAULT_MODEL@),
    {
        trimmed_or_default(self.model.as_str(), TENCENT_DEFAULT_MODEL)
    }
}

/// Failures of the Tencent Cloud streaming session.
#[derive(Debug, Clone, PartialEq, Eq)]
pub enum TencentCloudASRError {
    CredentialsMissing,
    ConnectionFailed(String),
    AuthRejected(String),
    AccountUnavailable(String),
    RateLimited(String),
    TaskFailed(String),
    NoFinalResult,
    FinalResultTimeout,
}

/// The detail text `"{code} {message}"` of a server error.
pub open spec fn server_error_detail(code: i64, message: Seq<char>) -> Seq<char> {
    signed_decimal(code as int) + seq![' '] + message
}

/// `e` is the error that server code `code` with `message` stands for:
/// 4002/4003 rejected credentials or a service not enabled, 4004/4005 an
/// unusable account, 4006 a concurrency limit, anything else a failed
/// task; each carrying the text `"{code} {message}"`.
pub open spec fn is_server_error(e: TencentCloudASRError, code: i64, message: Seq<char>) -> bool {
    match e {
        TencentCloudASRError::AuthRejected(d) => (code == 4002 || code == 4003) && d@ == server_error_detail(
            code,
            message,
        ),
        TencentCloudASRError::AccountUnavailable(d) => (code == 4004 || code == 4005) && d@
            == server_error_detail(code, message),
        TencentCloudASRError::RateLimited(d) => code == 4006 && d@ == server_error_detail(code, message),
        TencentCloudASRError::TaskFailed(d) => !(4002 <= code <= 4006) && d@ == server_error_detail(
            code,
            message,
        ),
        _ => false,
    }
}

/// Maps a non-zero server code to the error it stands for: 4002/4003
/// rejected credentials or a service not enabled, 4004/4005 an unusable
/// account, 4006 a concurrency limit, anything else a failed task; each
/// carries the text `"{code} {message}"`.
pub fn classify_server_error(code: i64, message: &str) -> (r: TencentCloudASRError)
    ensures
        is_server_error(r, code, message@),
{
    let mut detail = String::new();
    push_signed_decimal(&mut detail, code);
    push_char(&mut detail, ' ');
    push_str_chars(&mut detail, message);
    assert(detail@ =~= server_error_detail(code, message@));
    if code == 4002 || code == 4003 {
        TencentCloudASRError::AuthRejected(detail)
    } else if code == 4004 || code == 4005 {
        TencentCloudASRError::AccountUnavailable(detail)
    } else if code == 4006 {
        TencentCloudASRError::RateLimited(detail)
    } else {
        TencentCloudASRError::TaskFailed(detail)
    }
}


// ───────────────────────────── websocket endpoints ─────────────────────────────

/// What `url` makes of `s` when parsed and given the scheme `scheme`,
/// printed back as text; `None` when it does not parse or refuses the
/// scheme.
pub uninterp spec fn url_with_scheme_of(s: Seq<char>, scheme: Seq<char>) -> Option<Seq<char>>;

/// `url::Url::parse`, then `Url::set_scheme(scheme)`, then the URL's text.
///
/// The contract only names the outcome: the parsed-and-reprinted text is
/// `url_with_scheme_of` the inputs, `None` when either step fails.
#[verifier::external_body]
fn url_with_scheme(s: &str, scheme: &str) -> (r: Option<String>)
    ensures
        match r {
            Some(t) => url_with_scheme_of(s@, scheme@) == Some(t@),
            None => url_with_scheme_of(s@, scheme@) is None,
        },
{
    let mut url = match url::Url::parse(s) {
        Ok(url) => url,
        Err(_) => return None,
    };
    match url.set_scheme(scheme) {
        Ok(()) => Some(url.to_string()),
        Err(()) => None,
    }
}

/// `s` with every trailing `/` removed (`trim_end_matches('/')`).
pub open spec fn strip_trailing_slashes(s: Seq<char>) -> Seq<char>
    decreases s.len(),
{
    if s.len() > 0 && s.last() == '/' {
        strip_trailing_slashes(s.drop_last())
    } else {
        s
    }
}

proof fn lemma_strip_trailing_prefix(s: Seq<char>, k: int)
    requires
        0 <= k <= s.len(),
        forall|j: int| k <= j < s.len() ==> s[j] == '/',
        k == 0 || s[k - 1] != '/',
    ensures
        strip_trailing_slashes(s) == s.subrange(0, k),
    decreases s.len(),
{
    if s.len() > k {
        assert(s.drop_last() =~= s.subrange(0, s.len() - 1));
        lemma_strip_trailing_prefix(s.drop_last(), k);
    } else {
        assert(s.subrange(0, k) =~= s);
    }
}

pub(crate) fn strip_trailing_slashes_string(v: &Vec<char>) -> (r: String)
    ensures
        r@ == strip_trailing_slashes(v@),
{
    let mut k = v.len();
    while k > 0 && v[k - 1] == '/'
        invariant
            k <= v.len(),
            forall|j: int| k <= j < v.len() ==> v@[j] == '/',
        decreases k,
    {
        k = k - 1;
    }
    proof {
        lemma_strip_trailing_prefix(v@, k as int);
    }
    string_from_range(v, 0, k)
}

/// The websocket base URL an endpoint setting stands for: the default when
/// blank, a `ws://`/`wss://` URL as written (without trailing slashes), any
/// other URL with its scheme switched to `wss`; `None` when that switch
/// fails, in which case the bare default endpoint is used as the whole URL.
pub open spec fn websocket_base(endpoint: Seq<char>, default: Seq<char>) -> Option<Seq<char>> {
    let e = trimmed(endpoint);
    if e.len() == 0 {
        Some(default)
    } else if has_prefix(e, "wss://"@) || has_prefix(e, "ws://"@) {
        Some(strip_trailing_slashes(e))
    } else {
        match url_with_scheme_of(e, "wss"@) {
            Some(u) => Some(strip_trailing_slashes(u)),
            None => None,
        }
    }
}

/// `base` followed by `query`, joined with `&` when `base` already has a
/// query and with `?` otherwise.
pub open spec fn with_query(base: Seq<char>, query: Seq<char>) -> Seq<char> {
    if base.contains('?') {
        base + seq!['&'] + query
    } else {
        base + seq!['?'] + query
    }
}

/// The URL of a streaming session: the base from [`websocket_base`] with
/// `query` attached, or the bare default when no base could be made.
pub open spec fn session_url(endpoint: Seq<char>, default: Seq<char>, query: Seq<char>) -> Seq<char> {
    match websocket_base(endpoint, default) {
        Some(b) => with_query(b, query),
        None => default,
    }
}

fn websocket_base_string(endpoint: &str, default: &str) -> (r: Option<String>)
    ensures
        match r {
            Some(t) => websocket_base(endpoint@, default@) == Some(t@),
            None => websocket_base(endpoint@, default@) is None,
        },
{
    let v = to_chars(endpoint);
    let (a, b) = trim_range(&v);
    if a == b {
        let mut d = String::new();
        push_str_chars(&mut d, default);
        return Some(d);
    }
    let e = string_from_range(&v, a, b);
    let ev = to_chars(e.as_str());
    if starts_with_chars(&ev, &to_chars("wss://")) || starts_with_chars(&ev, &to_chars("ws://")) {
        return Some(strip_trailing_slashes_string(&ev));
    }
    match url_with_scheme(e.as_str(), "wss") {
        Some(u) => Some(strip_trailing_slashes_string(&to_chars(u.as_str()))),
        None => None,
    }
}

fn contains_char(v: &Vec<char>, c: char) -> (r: bool)
    ensures
        r == v@.contains(c),
{
    let mut i: usize = 0;
    while i < v.len()
        invariant
            i <= v.len(),
            forall|j: int| 0 <= j < i ==> v@[j] != c,
        decreases v.len() - i,
    {
        if v[i] == c {
            assert(v@[i as int] == c);
            return true;
        }
        i = i + 1;
    }
    false
}

fn session_url_string(endpoint: &str, default: &str, query: &String) -> (r: String)
    ensures
        r@ == session_url(endpoint@, default@, query@),
{
    match websocket_base_string(endpoint, default) {
        Some(base) => {
            let bv = to_chars(base.as_str());
            let mut r = base;
            if contains_char(&bv, '?') {
                push_char(&mut r, '&');
            } else {
                push_char(&mut r, '?');
            }
            push_str_chars(&mut r, query.as_str());
            r
        },
        None => {
            let mut d = String::new();
            push_str_chars(&mut d, default);
            d
        },
    }
}

/// Query of an AssemblyAI session for `model`.
pub open spec fn assemblyai_query(model: Seq<char>) -> Seq<char> {
    "speech_model="@ + model + "&sample_rate=16000"@
}

/// The language hint sent to Deepgram: the configured one trimmed, `zh`
/// when unset or blank.
pub open spec fn deepgram_language(language: Option<String>) -> Seq<char> {
    match language {
        Some(l) => if trimmed(l@).len() > 0 {
            trimmed(l@)
        } else {
            "zh"@
        },
        None => "zh"@,
    }
}

/// Query of a Deepgram session for `model` and `language`.
pub open spec fn deepgram_query(model: Seq<char>, language: Seq<char>) -> Seq<char> {
    "model="@ + model + "&language="@ + language
        + "&smart_format=true&encoding=linear16&sample_rate=16000&channels=1&interim_results=true&endpointing=true"@
}

impl AssemblyAICredentials {
    /// The websocket URL of a streaming session with these settings.
    pub fn connect_url(&self) -> (r: String)
        ensures
            r@ == session_url(
                self.endpoint@,
                ASSEMBLYAI_DEFAULT_ENDPOINT@,
                assemblyai_query(trimmed_or(self.model@, ASSEMBLYAI_DEFAULT_MODEL@)),
            ),
    {
        let mut query = String::new();
        push_str_chars(&mut query, "speech_model=");
        let model = self.normalized_model();
        push_str_chars(&mut query, model.as_str());
        push_str_chars(&mut query, "&sample_rate=16000");
        session_url_string(self.endpoint.as_str(), ASSEMBLYAI_DEFAULT_ENDPOINT, &query)
    }
}

impl DeepgramCredentials {
    /// The websocket URL of a streaming session with these settings.
    pub fn connect_url(&self) -> (r: String)
        ensures
            r@ == session_url(
                self.endpoint@,
                DEEPGRAM_DEFAULT_ENDPOINT@,
                deepgram_query(
                    trimmed_or(self.model@, DEEPGRAM_DEFAULT_MODEL@),
                    deepgram_language(self.language),
                ),
            ),
    {
        let mut query = String::new();
        push_str_chars(&mut query, "model=");
        let model = self.normalized_model();
        push_str_chars(&mut query, model.as_str());
        push_str_chars(&mut query, "&language=");
        match &self.language {
            Some(l) => {
                if has_text(l.as_str()) {
                    let lv = to_chars(l.as_str());
                    let (a, b) = trim_range(&lv);
                    push_range(&mut query, &lv, a, b);
                } else {
                    push_str_chars(&mut query, "zh");
                }
            },
            None => push_str_chars(&mut query, "zh"),
        }
        push_str_chars(
            &mut query,
            "&smart_format=true&encoding=linear16&sample_rate=16000&channels=1&interim_results=true&endpointing=true",
        );
        session_url_string(self.endpoint.as_str(), DEEPGRAM_DEFAULT_ENDPOINT, &query)
    }
}


// ───────────────────────────── Tencent Cloud signing ─────────────────────────────

/// The HMAC-SHA1 tag of `message` under `key`, both taken as UTF-8 bytes.
pub uninterp spec fn hmac_sha1_of(key: Seq<char>, message: Seq<char>) -> Seq<u8>;

/// `Hmac::<Sha1>::new_from_slice`, `Mac::update`, `Mac::finalize` from the
/// `hmac` and `sha1` crates.
///
/// Claims that the tag is `hmac_sha1_of` of the key and message and, as a
/// SHA-1 output, 20 bytes long. `new_from_slice` of `hmac` accepts a key of
/// any length (it never returns its error).
#[verifier::external_body]
fn hmac_sha1(key: &str, message: &str) -> (r: Vec<u8>)
    ensures
        r@ == hmac_sha1_of(key@, message@),
        r@.len() == 20,
{
    let mut mac = hmac::Hmac::<sha1::Sha1>::new_from_slice(key.as_bytes()).expect(
        "HMAC accepts any key length",
    );
    mac.update(message.as_bytes());
    mac.finalize().into_bytes().to_vec()
}

/// Standard, padded base64 text of `bytes`.
pub uninterp spec fn base64_standard_of(bytes: Seq<u8>) -> Seq<char>;

/// `base64::engine::general_purpose::STANDARD.encode`: claims only that the
/// text is `base64_standard_of` the bytes.
#[verifier::external_body]
pub(crate) fn base64_standard(bytes: &[u8]) -> (r: String)
    ensures
        r@ == base64_standard_of(bytes@),
{
    base64::engine::general_purpose::STANDARD.encode(bytes)
}

/// The UTF-8 encoding of one char.
pub open spec fn utf8_of_char(c: char) -> Seq<u8> {
    let n = c as u32;
    if n < 0x80 {
        seq![n as u8]
    } else if n < 0x800 {
        seq![(0xC0 + n / 64) as u8, (0x80 + n % 64) as u8]
    } else if n < 0x10000 {
        seq![(0xE0 + n / 4096) as u8, (0x80 + (n / 64) % 64) as u8, (0x80 + n % 64) as u8]
    } else {
        seq![(0xF0 + n / 262144) as u8, (0x80 + (n / 4096) % 64) as u8, (0x80 + (n / 64) % 64) as u8, (0x80 + n % 64) as u8]
    }
}

/// The UTF-8 encoding of a text.
pub open spec fn utf8_of(s: Seq<char>) -> Seq<u8>
    decreases s.len(),
{
    if s.len() == 0 {
        Seq::empty()
    } else {
        utf8_of(s.drop_last()) + utf8_of_char(s.last())
    }
}

/// The bytes a form serializer writes as themselves: ASCII letters and
/// digits, `*`, `-`, `.` and `_`.
pub open spec fn form_byte_unchanged(b: u8) -> bool {
    b == 42 || b == 45 || b == 46 || (48 <= b <= 57) || (65 <= b <= 90) || b == 95 || (97 <= b <= 122)
}

/// An upper-case hexadecimal digit.
pub open spec fn hex_upper(d: int) -> char {
    if d < 10 {
        (48 + d) as char
    } else {
        (55 + d) as char
    }
}

/// What a form serializer writes for one byte: the byte itself, `+` for a
/// space, `%XX` otherwise.
pub open spec fn form_byte(b: u8) -> Seq<char> {
    if form_byte_unchanged(b) {
        seq![b as char]
    } else if b == 32 {
        seq!['+']
    } else {
        seq!['%', hex_upper((b / 16) as int), hex_upper((b % 16) as int)]
    }
}

/// The `application/x-www-form-urlencoded` serialization of `bytes`.
pub open spec fn form_serialized(bytes: Seq<u8>) -> Seq<char>
    decreases bytes.len(),
{
    if bytes.len() == 0 {
        Seq::empty()
    } else {
        form_serialized(bytes.drop_last()) + form_byte(bytes.last())
    }
}

/// `url::form_urlencoded::byte_serialize` over the UTF-8 bytes of `s`,
/// collected into a `String`: each byte written as [`form_byte`] says.
#[verifier::external_body]
fn form_urlencode(s: &str) -> (r: String)
    ensures
        r@ == form_serialized(utf8_of(s@)),
{
    url::form_urlencoded::byte_serialize(s.as_bytes()).collect()
}

/// Host and path of `s` parsed as a URL; `None` when it does not parse or
/// has no host.
pub uninterp spec fn host_and_path_of(s: Seq<char>) -> Option<(Seq<char>, Seq<char>)>;

/// `url::Url::parse`, then `Url::host_str` and `Url::path`: claims only that
/// the pair is `host_and_path_of` the input.
#[verifier::external_body]
fn url_host_and_path(s: &str) -> (r: Option<(String, String)>)
    ensures
        match r {
            Some(hp) => host_and_path_of(s@) == Some((hp.0@, hp.1@)),
            None => host_and_path_of(s@) is None,
        },
{
    let url = match url::Url::parse(s) {
        Ok(url) => url,
        Err(_) => return None,
    };
    match url.host_str() {
        Some(host) => Some((host.to_string(), url.path().to_string())),
        None => None,
    }
}

/// Signature of a request: HMAC-SHA1 of `signing_text` under the trimmed
/// secret key, as standard base64.
pub open spec fn tencent_signature(signing_text: Seq<char>, secret_key: Seq<char>) -> Seq<char> {
    base64_standard_of(hmac_sha1_of(trimmed(secret_key), signing_text))
}

/// Signs `signing_text` with the trimmed `secret_key` (HMAC-SHA1, base64).
pub fn compute_signature(signing_text: &str, secret_key: &str) -> (r: String)
    ensures
        r@ == tencent_signature(signing_text@, secret_key@),
{
    let kv = to_chars(secret_key);
    let (a, b) = trim_range(&kv);
    let key = string_from_range(&kv, a, b);
    let tag = hmac_sha1(key.as_str(), signing_text);
    base64_standard(tag.as_slice())
}

/// Seconds a signed session URL stays valid.
pub const TENCENT_SIGNATURE_VALIDITY_SECS: i64 = 86_400;

/// Endpoint of an app: the default endpoint, `/`, the trimmed app id.
pub open spec fn tencent_endpoint(app_id: Seq<char>) -> Seq<char> {
    TENCENT_DEFAULT_ENDPOINT@ + seq!['/'] + trimmed(app_id)
}

/// The signed query: every parameter as `key=value`, in ascending order of
/// the keys, joined with `&`.
pub open spec fn tencent_query(
    credentials: TencentCloudCredentials,
    timestamp: int,
    nonce: u32,
    voice_id: Seq<char>,
) -> Seq<char> {
    "engine_model_type="@ + trimmed_or(credentials.model@, TENCENT_DEFAULT_MODEL@) + "&expired="@
        + signed_decimal(timestamp + 86_400)
        + "&filter_dirty=0&filter_empty_result=1&filter_modal=1&filter_punc=0&needvad=1&nonce="@
        + decimal(nonce as nat) + "&secretid="@ + trimmed(credentials.secret_id@) + "&timestamp="@
        + signed_decimal(timestamp) + "&voice_format=1&voice_id="@ + voice_id
}

/// `a` sorts strictly before `b`, char by char (a proper prefix first).
pub open spec fn lex_less(a: Seq<char>, b: Seq<char>) -> bool {
    exists|i: int|
        0 <= i <= a.len() && i <= b.len() && #[trigger] a.subrange(0, i) == b.subrange(0, i) && ((i < a.len()
            && i < b.len() && a[i] < b[i]) || (i == a.len() && i < b.len()))
}

/// No char of `s` is `c`.
pub open spec fn lacks(s: Seq<char>, c: char) -> bool {
    forall|k: int| 0 <= k < s.len() ==> s[k] != c
}

/// `key=value` pairs joined with `&`.
pub open spec fn query_text(ps: Seq<(Seq<char>, Seq<char>)>) -> Seq<char>
    decreases ps.len(),
{
    if ps.len() == 0 {
        Seq::empty()
    } else if ps.len() == 1 {
        ps[0].0 + seq!['='] + ps[0].1
    } else {
        query_text(ps.drop_last()) + seq!['&'] + ps.last().0 + seq!['='] + ps.last().1
    }
}

proof fn lemma_decimal_lacks_amp(n: nat)
    ensures
        lacks(decimal(n), '&'),
    decreases n,
{
    if n >= 10 {
        lemma_decimal_lacks_amp(n / 10);
    }
}

proof fn lemma_signed_decimal_lacks_amp(n: int)
    ensures
        lacks(signed_decimal(n), '&'),
{
    if n < 0 {
        lemma_decimal_lacks_amp((-n) as nat);
        assert forall|k: int| 0 <= k < signed_decimal(n).len() implies signed_decimal(n)[k] != '&' by {
            if k > 0 {
                assert(signed_decimal(n)[k] == decimal((-n) as nat)[k - 1]);
            }
        }
    } else {
        lemma_decimal_lacks_amp(n as nat);
    }
}

proof fn lemma_lex_less_at(a: Seq<char>, b: Seq<char>, i: int)
    requires
        0 <= i < a.len(),
        i < b.len(),
        forall|k: int| 0 <= k < i ==> a[k] == b[k],
        a[i] < b[i],
    ensures
        lex_less(a, b),
{
    assert(a.subrange(0, i) =~= b.subrange(0, i));
}

/// **Sorted-query law.** The signed query is a list of `key=value` pairs
/// joined with `&`, with keys strictly ascending, as Tencent Cloud sorts
/// them to check the signature; keys hold no `=` or `&`, and values no
/// `&`, provided the model, secret id and voice id hold none.
pub proof fn lemma_signed_query_keys_ascending(
    credentials: TencentCloudCredentials,
    timestamp: int,
    nonce: u32,
    voice_id: Seq<char>,
)
    requires
        lacks(trimmed_or(credentials.model@, TENCENT_DEFAULT_MODEL@), '&'),
        lacks(trimmed(credentials.secret_id@), '&'),
        lacks(voice_id, '&'),
    ensures
        exists|ps: Seq<(Seq<char>, Seq<char>)>|
            #[trigger] query_text(ps) == tencent_query(credentials, timestamp, nonce, voice_id) && (forall|i: int|
                0 <= i < ps.len() ==> ps[i].0.len() > 0 && lacks(ps[i].0, '=') && lacks(ps[i].0, '&') && lacks(
                    ps[i].1,
                    '&',
                )) && (forall|i: int| 0 <= i < ps.len() - 1 ==> #[trigger] lex_less(ps[i].0, ps[i + 1].0)),
{
    reveal_strlit("engine_model_type=");
    reveal_strlit("&expired=");
    reveal_strlit("&filter_dirty=0&filter_empty_result=1&filter_modal=1&filter_punc=0&needvad=1&nonce=");
    reveal_strlit("&secretid=");
    reveal_strlit("&timestamp=");
    reveal_strlit("&voice_format=1&voice_id=");
    reveal_strlit("engine_model_type");
    reveal_strlit("expired");
    reveal_strlit("filter_dirty");
    reveal_strlit("filter_empty_result");
    reveal_strlit("filter_modal");
    reveal_strlit("filter_punc");
    reveal_strlit("needvad");
    reveal_strlit("nonce");
    reveal_strlit("secretid");
    reveal_strlit("timestamp");
    reveal_strlit("voice_format");
    reveal_strlit("voice_id");
    reveal_strlit("0");
    reveal_strlit("1");
    let model = trimmed_or(credentials.model@, TENCENT_DEFAULT_MODEL@);
    let expired = signed_decimal(timestamp + 86_400);
    let nonce_text = decimal(nonce as nat);
    let secret = trimmed(credentials.secret_id@);
    let stamp = signed_decimal(timestamp);
    let ps: Seq<(Seq<char>, Seq<char>)> = seq![
        ("engine_model_type"@, model),
        ("expired"@, expired),
        ("filter_dirty"@, "0"@),
        ("filter_empty_result"@, "1"@),
        ("filter_modal"@, "1"@),
        ("filter_punc"@, "0"@),
        ("needvad"@, "1"@),
        ("nonce"@, nonce_text),
        ("secretid"@, secret),
        ("timestamp"@, stamp),
        ("voice_format"@, "1"@),
        ("voice_id"@, voice_id),
    ];
    reveal_with_fuel(query_text, 13);
    assert(query_text(ps) =~= tencent_query(credentials, timestamp, nonce, voice_id));
    lemma_signed_decimal_lacks_amp(timestamp + 86_400);
    lemma_signed_decimal_lacks_amp(timestamp);
    lemma_decimal_lacks_amp(nonce as nat);
    assert forall|i: int| 0 <= i < ps.len() implies ps[i].0.len() > 0 && lacks(ps[i].0, '=') && lacks(ps[i].0, '&')
        && lacks(ps[i].1, '&') by {}
    lemma_lex_less_at("engine_model_type"@, "expired"@, 1);
    lemma_lex_less_at("expired"@, "filter_dirty"@, 0);
    lemma_lex_less_at("filter_dirty"@, "filter_empty_result"@, 7);
    lemma_lex_less_at("filter_empty_result"@, "filter_modal"@, 7);
    lemma_lex_less_at("filter_modal"@, "filter_punc"@, 7);
    lemma_lex_less_at("filter_punc"@, "needvad"@, 0);
    lemma_lex_less_at("needvad"@, "nonce"@, 1);
    lemma_lex_less_at("nonce"@, "secretid"@, 0);
    lemma_lex_less_at("secretid"@, "timestamp"@, 0);
    lemma_lex_less_at("timestamp"@, "voice_format"@, 0);
    lemma_lex_less_at("voice_format"@, "voice_id"@, 6);
    assert forall|i: int| 0 <= i < ps.len() - 1 implies #[trigger] lex_less(ps[i].0, ps[i + 1].0) by {}
}

/// The session URL: endpoint, `?`, query, and the URL-encoded signature of
/// `host + path + "?" + query`.
pub open spec fn tencent_url(
    credentials: TencentCloudCredentials,
    timestamp: int,
    nonce: u32,
    voice_id: Seq<char>,
    host: Seq<char>,
    path: Seq<char>,
) -> Seq<char> {
    let query = tencent_query(credentials, timestamp, nonce, voice_id);
    tencent_endpoint(credentials.app_id@) + seq!['?'] + query + "&signature="@ + form_serialized(
        utf8_of(tencent_signature(host + path + seq!['?'] + query, credentials.secret_key@)),
    )
}

/// The signed websocket URL of a Tencent Cloud session opened at
/// `timestamp` with `nonce` and `voice_id`; `None` when the endpoint built
/// from the app id does not parse as a URL with a host.
pub fn connect_url_at(
    credentials: &TencentCloudCredentials,
    timestamp: i64,
    nonce: u32,
    voice_id: String,
) -> (r: Option<String>)
    requires
        timestamp + TENCENT_SIGNATURE_VALIDITY_SECS <= i64::MAX,
    ensures
        match host_and_path_of(tencent_endpoint(credentials.app_id@)) {
            Some(hp) => r is Some && r->0@ == tencent_url(
                *credentials,
                timestamp as int,
                nonce,
                voice_id@,
                hp.0,
                hp.1,
            ),
            None => r is None,
        },
{
    let mut endpoint = String::new();
    push_str_chars(&mut endpoint, TENCENT_DEFAULT_ENDPOINT);
    push_char(&mut endpoint, '/');
    let av = to_chars(credentials.app_id.as_str());
    let (a, b) = trim_range(&av);
    push_range(&mut endpoint, &av, a, b);
    assert(endpoint@ =~= tencent_endpoint(credentials.app_id@));
    let (host, path) = match url_host_and_path(endpoint.as_str()) {
        Some(hp) => hp,
        None => return None,
    };
    let mut query = String::new();
    push_str_chars(&mut query, "engine_model_type=");
    let model = credentials.resolved_model();
    push_str_chars(&mut query, model.as_str());
    push_str_chars(&mut query, "&expired=");
    push_signed_decimal(&mut query, timestamp + TENCENT_SIGNATURE_VALIDITY_SECS);
    push_str_chars(
        &mut query,
        "&filter_dirty=0&filter_empty_result=1&filter_modal=1&filter_punc=0&needvad=1&nonce=",
    );
    push_decimal(&mut query, nonce as u64);
    push_str_chars(&mut query, "&secretid=");
    let sv = to_chars(credentials.secret_id.as_str());
    let (c, d) = trim_range(&sv);
    push_range(&mut query, &sv, c, d);
    push_str_chars(&mut query, "&timestamp=");
    push_signed_decimal(&mut query, timestamp);
    push_str_chars(&mut query, "&voice_format=1&voice_id=");
    push_str_chars(&mut query, voice_id.as_str());
    assert(query@ =~= tencent_query(*credentials, timestamp as int, nonce, voice_id@));
    let mut signing_text = host;
    push_str_chars(&mut signing_text, path.as_str());
    push_char(&mut signing_text, '?');
    push_str_chars(&mut signing_text, query.as_str());
    let signature = compute_signature(signing_text.as_str(), credentials.secret_key.as_str());
    let mut url = endpoint;
    push_char(&mut url, '?');
    push_str_chars(&mut url, query.as_str());
    push_str_chars(&mut url, "&signature=");
    let encoded = form_urlencode(signature.as_str());
    push_str_chars(&mut url, encoded.as_str());
    assert(signing_text@ =~= host@ + path@ + seq!['?'] + query@);
    assert(url@ =~= tencent_url(*credentials, timestamp as int, nonce, voice_id@, host@, path@));
    Some(url)
}

/// Nonce drawn from four random bytes (little-endian), in `1..=1e9`.
pub open spec fn nonce_of(b0: u8, b1: u8, b2: u8, b3: u8) -> int {
    (b0 + 256 * b1 + 65_536 * b2 + 16_777_216 * b3) % 1_000_000_000 + 1
}

/// A request nonce from four random bytes (see [`nonce_of`]).
pub fn nonce_from_bytes(bytes: [u8; 4]) -> (r: u32)
    ensures
        r as int == nonce_of(bytes[0], bytes[1], bytes[2], bytes[3]),
        1 <= r <= 1_000_000_000,
{
    let v: u32 = bytes[0] as u32 + 256 * (bytes[1] as u32) + 65_536 * (bytes[2] as u32) + 16_777_216
        * (bytes[3] as u32);
    v % 1_000_000_000 + 1
}

// ───────────────────────────── provider families ─────────────────────────────

/// How a Whisper-compatible provider wants the audio sent.
#[derive(Debug, Clone, Copy, PartialEq, Eq)]
pub enum AsrRequestFormat {
    Multipart,
    OpenRouterJson,
}

pub const ELEVENLABS_PROVIDER_ID: &'static str = "elevenlabs";

/// Providers that speak the OpenAI `/audio/transcriptions` protocol.
pub fn is_whisper_compatible_provider(id: &str) -> (r: bool)
    ensures
        r == (id@ == "whisper"@ || id@ == "siliconflow"@ || id@ == "zhipu"@ || id@ == "groq"@ || id@
            == "openrouter"@ || id@ == "stepfun"@),
{
    str_is(id, "whisper") || str_is(id, "siliconflow") || str_is(id, "zhipu") || str_is(id, "groq")
        || str_is(id, "openrouter") || str_is(id, "stepfun")
}

/// StepFun takes the vocabulary as `hotwords`; the others as a prompt.
pub fn whisper_uses_hotwords(provider_id: &str) -> (r: bool)
    ensures
        r == (provider_id@ == "stepfun"@),
{
    str_is(provider_id, "stepfun")
}

/// OpenRouter wants JSON with base64 audio; the others multipart.
pub fn whisper_request_format(provider_id: &str) -> (r: AsrRequestFormat)
    ensures
        r == (if provider_id@ == "openrouter"@ {
            AsrRequestFormat::OpenRouterJson
        } else {
            AsrRequestFormat::Multipart
        }),
{
    if str_is(provider_id, "openrouter") {
        AsrRequestFormat::OpenRouterJson
    } else {
        AsrRequestFormat::Multipart
    }
}

/// Only OpenAI Whisper and Groq return the segment scores of `verbose_json`.
pub fn whisper_supports_verbose_json(provider_id: &str) -> (r: bool)
    ensures
        r == (provider_id@ == "whisper"@ || provider_id@ == "groq"@),
{
    str_is(provider_id, "whisper") || str_is(provider_id, "groq")
}

pub fn is_mimo_provider(id: &str) -> (r: bool)
    ensures
        r == (id@ == MIMO_PROVIDER_ID@),
{
    str_is(id, MIMO_PROVIDER_ID)
}

pub fn is_elevenlabs_provider(id: &str) -> (r: bool)
    ensures
        r == (id@ == ELEVENLABS_PROVIDER_ID@),
{
    str_is(id, ELEVENLABS_PROVIDER_ID)
}


// ───────────────────────────── ElevenLabs ─────────────────────────────

pub const ELEVENLABS_DEFAULT_ENDPOINT: &'static str = "https://api.elevenlabs.io/v1";

pub const ELEVENLABS_DEFAULT_MODEL: &'static str = "scribe_v1";

/// The path of `s` parsed as a URL; `None` when it does not parse.
pub uninterp spec fn url_path_of(s: Seq<char>) -> Option<Seq<char>>;

/// The URL `s` with its path replaced by `path`, printed back; `None` when
/// `s` does not parse.
pub uninterp spec fn url_with_path_of(s: Seq<char>, path: Seq<char>) -> Option<Seq<char>>;

/// `url::Url::parse`, then `Url::path`: claims only that the path is
/// `url_path_of` the input.
#[verifier::external_body]
fn parsed_url_path(s: &str) -> (r: Option<String>)
    ensures
        match r {
            Some(p) => url_path_of(s@) == Some(p@),
            None => url_path_of(s@) is None,
        },
{
    match url::Url::parse(s) {
        Ok(url) => Some(url.path().to_string()),
        Err(_) => None,
    }
}

/// `url::Url::parse`, `Url::set_path`, then the URL's text: claims only
/// that the text is `url_with_path_of` the inputs.
#[verifier::external_body]
fn url_with_path(s: &str, path: &str) -> (r: Option<String>)
    ensures
        match r {
            Some(u) => url_with_path_of(s@, path@) == Some(u@),
            None => url_with_path_of(s@, path@) is None,
        },
{
    match url::Url::parse(s) {
        Ok(mut url) => {
            url.set_path(path);
            Some(url.to_string())
        },
        Err(_) => None,
    }
}

/// The speech-to-text path under a base path: kept when it already ends
/// there, appended otherwise (trailing slashes dropped first).
pub open spec fn speech_to_text_path(path: Seq<char>) -> Seq<char> {
    let p = strip_trailing_slashes(path);
    if crate::text::has_suffix(p, "/speech-to-text"@) {
        p
    } else {
        p + "/speech-to-text"@
    }
}

/// The transcription endpoint for a base URL: the trimmed base with its
/// path turned into [`speech_to_text_path`]; `None` when it does not parse.
pub open spec fn speech_to_text_url_of(base_url: Seq<char>) -> Option<Seq<char>> {
    match url_path_of(trimmed(base_url)) {
        Some(p) => url_with_path_of(trimmed(base_url), speech_to_text_path(p)),
        None => None,
    }
}

/// The transcription endpoint for a configured base URL (see
/// [`speech_to_text_url_of`]); an unparsable base is an error.
pub fn speech_to_text_url(base_url: &str) -> (r: Result<String, String>)
    ensures
        match speech_to_text_url_of(base_url@) {
            Some(u) => r matches Ok(t) && t@ == u,
            None => r matches Err(e) && e@ == "parse ElevenLabs base URL"@,
        },
{
    let v = to_chars(base_url);
    let (a, b) = trim_range(&v);
    let base = string_from_range(&v, a, b);
    let mut err = String::new();
    push_str_chars(&mut err, "parse ElevenLabs base URL");
    let path = match parsed_url_path(base.as_str()) {
        Some(p) => p,
        None => return Err(err),
    };
    let stripped = strip_trailing_slashes_string(&to_chars(path.as_str()));
    let sv = to_chars(stripped.as_str());
    let next = if crate::text::ends_with_chars(&sv, &to_chars("/speech-to-text")) {
        stripped
    } else {
        let mut n = stripped;
        push_str_chars(&mut n, "/speech-to-text");
        n
    };
    match url_with_path(base.as_str(), next.as_str()) {
        Some(u) => Ok(u),
        None => Err(err),
    }
}

/// The string under the first `k` entry of an object's fields.
pub open spec fn string_field(fields: Seq<(String, JsonValue)>, k: Seq<char>) -> Option<Seq<char>> {
    match first_key(fields, k) {
        Some(i) => match fields[i].1 {
            JsonValue::String(t) => Some(t@),
            _ => None,
        },
        None => None,
    }
}

/// The texts of the items that are objects with a string `text`.
pub open spec fn item_texts(items: Seq<JsonValue>) -> Seq<Seq<char>>
    decreases items.len(),
{
    if items.len() == 0 {
        Seq::empty()
    } else {
        let rest = item_texts(items.drop_last());
        match items.last() {
            JsonValue::Object(f) => match string_field(f@, "text"@) {
                Some(t) => rest.push(t),
                None => rest,
            },
            _ => rest,
        }
    }
}

/// `parts` joined with single spaces.
pub open spec fn join_spaced(parts: Seq<Seq<char>>) -> Seq<char>
    decreases parts.len(),
{
    if parts.len() == 0 {
        Seq::empty()
    } else if parts.len() == 1 {
        parts[0]
    } else {
        join_spaced(parts.drop_last()) + seq![' '] + parts.last()
    }
}

/// The transcript in a response: its `text`, else the texts of its
/// `transcripts` (one per channel) joined with spaces, else nothing.
pub open spec fn response_text(json: JsonValue) -> Seq<char> {
    match json {
        JsonValue::Object(f) => match string_field(f@, "text"@) {
            Some(t) => t,
            None => match first_key(f@, "transcripts"@) {
                Some(i) => match f@[i].1 {
                    JsonValue::Array(items) => join_spaced(item_texts(items@)),
                    _ => Seq::empty(),
                },
                None => Seq::empty(),
            },
        },
        _ => Seq::empty(),
    }
}

fn string_field_of(fields: &Vec<(String, JsonValue)>, k: &str) -> (r: Option<String>)
    ensures
        match r {
            Some(t) => string_field(fields@, k@) == Some(t@),
            None => string_field(fields@, k@) is None,
        },
{
    match find_key(fields, k) {
        Some(i) => match &fields[i].1 {
            JsonValue::String(t) => Some(t.clone()),
            _ => None,
        },
        None => None,
    }
}

/// Reads the transcript out of a response (see [`response_text`]).
pub fn extract_text(json: &JsonValue) -> (r: String)
    ensures
        r@ == response_text(*json),
{
    let fields = match json {
        JsonValue::Object(f) => f,
        _ => return String::new(),
    };
    match string_field_of(fields, "text") {
        Some(t) => return t,
        None => {},
    }
    proof {
        crate::edit_plan::first_key_is_key(fields@, "transcripts"@);
    }
    let items = match find_key(fields, "transcripts") {
        Some(i) => match &fields[i].1 {
            JsonValue::Array(items) => items,
            _ => return String::new(),
        },
        None => return String::new(),
    };
    let mut out = String::new();
    let mut count: usize = 0;
    let mut k: usize = 0;
    while k < items.len()
        invariant
            k <= items@.len(),
            count <= k,
            count == item_texts(items@.subrange(0, k as int)).len(),
            out@ == join_spaced(item_texts(items@.subrange(0, k as int))),
        decreases items.len() - k,
    {
        let ghost before = items@.subrange(0, k as int);
        let ghost after = items@.subrange(0, k + 1);
        assert(after.drop_last() =~= before);
        assert(after.last() == items@[k as int]);
        match &items[k] {
            JsonValue::Object(f) => match string_field_of(f, "text") {
                Some(t) => {
                    if count > 0 {
                        push_char(&mut out, ' ');
                    }
                    push_str_chars(&mut out, t.as_str());
                    proof {
                        let parts = item_texts(before).push(t@);
                        assert(item_texts(after) == parts);
                        assert(parts.drop_last() =~= item_texts(before));
                        if count == 0 {
                            assert(out@ =~= join_spaced(parts));
                        } else {
                            assert(out@ =~= join_spaced(parts));
                        }
                    }
                    count = count + 1;
                },
                None => {},
            },
            _ => {},
        }
        k = k + 1;
    }
    assert(items@.subrange(0, items@.len() as int) =~= items@);
    out
}


// ───────────────────────────── credential preflight ─────────────────────────────

/// Which credential a cloud provider needs before a session starts.
#[derive(Debug, Clone, Copy, PartialEq, Eq)]
pub enum AsrPreflightCredential {
    /// The provider API key.
    AsrApiKey,
    /// Volcengine's app key and access key.
    VolcAppKey,
}

pub const MISSING_API_KEY_MESSAGE: &'static str = "请先在设置中填写 ASR 服务商 API Key";

pub const MISSING_VOLC_KEYS_MESSAGE: &'static str = "请先在设置中填写火山引擎 ASR App Key 和 Access Key";

/// Refuses to start without the credential the provider needs (blank
/// values count as missing).
pub fn check_preflight_credential(
    kind: AsrPreflightCredential,
    api_key: &str,
    volc_app_id: &str,
    volc_access_token: &str,
) -> (r: Result<(), String>)
    ensures
        match kind {
            AsrPreflightCredential::AsrApiKey => if trimmed(api_key@).len() == 0 {
                r matches Err(e) && e@ == MISSING_API_KEY_MESSAGE@
            } else {
                r is Ok
            },
            AsrPreflightCredential::VolcAppKey => if trimmed(volc_app_id@).len() == 0 || trimmed(volc_access_token@).len()
                == 0 {
                r matches Err(e) && e@ == MISSING_VOLC_KEYS_MESSAGE@
            } else {
                r is Ok
            },
        },
{
    let mut e = String::new();
    match kind {
        AsrPreflightCredential::AsrApiKey => {
            if !has_text(api_key) {
                push_str_chars(&mut e, MISSING_API_KEY_MESSAGE);
                return Err(e);
            }
        },
        AsrPreflightCredential::VolcAppKey => {
            if !has_text(volc_app_id) || !has_text(volc_access_token) {
                push_str_chars(&mut e, MISSING_VOLC_KEYS_MESSAGE);
                return Err(e);
            }
        },
    }
    Ok(())
}

/// The local speech-recognition engines, each tied to one desktop system.
#[derive(Debug, Clone, Copy, PartialEq, Eq)]
pub enum LocalAsrEngine {
    /// Qwen3-ASR on MLX (macOS).
    Qwen3,
    /// Apple Speech (macOS).
    AppleSpeech,
    /// Foundry Local Whisper (Windows).
    FoundryWhisper,
    /// sherpa-onnx (Windows).
    SherpaOnnx,
}

/// What a local engine answers before a session on this build, which has
/// none of them: each refuses, naming the system it needs.
pub open spec fn local_engine_refusal(engine: LocalAsrEngine) -> Seq<char> {
    match engine {
        LocalAsrEngine::Qwen3 => "本地 ASR 当前仅支持 macOS（Windows 见 issue #256）"@,
        LocalAsrEngine::AppleSpeech => "Apple Speech 当前仅支持 macOS"@,
        LocalAsrEngine::FoundryWhisper => "Foundry Local Whisper 当前仅支持 Windows"@,
        LocalAsrEngine::SherpaOnnx => "sherpa-onnx local ASR 当前仅支持 Windows"@,
    }
}

/// The check made before a session on a local engine (see
/// [`local_engine_refusal`]).
pub fn check_local_engine(engine: LocalAsrEngine) -> (r: Result<(), String>)
    ensures
        r matches Err(e) && e@ == local_engine_refusal(engine),
{
    let mut e = String::new();
    match engine {
        LocalAsrEngine::Qwen3 => push_str_chars(&mut e, "本地 ASR 当前仅支持 macOS（Windows 见 issue #256）"),
        LocalAsrEngine::AppleSpeech => push_str_chars(&mut e, "Apple Speech 当前仅支持 macOS"),
        LocalAsrEngine::FoundryWhisper => push_str_chars(&mut e, "Foundry Local Whisper 当前仅支持 Windows"),
        LocalAsrEngine::SherpaOnnx => push_str_chars(&mut e, "sherpa-onnx local ASR 当前仅支持 Windows"),
    }
    Err(e)
}

} // verus!
