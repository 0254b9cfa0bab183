use openless::asr::{
    check_local_engine, LocalAsrEngine, classify_server_error, compute_signature, connect_url_at, drain_audio_chunks,
    is_elevenlabs_provider, is_mimo_provider, is_whisper_compatible_provider, nonce_from_bytes,
    normalize_endpoint, normalize_model, pcm_duration_ms, whisper_request_format,
    whisper_supports_verbose_json, whisper_uses_hotwords, AsrRequestFormat, AssemblyAIError, AssemblyAICredentials, DeepgramError,
    DeepgramCredentials, TencentCloudASRError, TencentCloudCredentials, MIMO_DEFAULT_ENDPOINT,
    MIMO_DEFAULT_MODEL, TENCENT_DEFAULT_MODEL,
};

fn credentials() -> TencentCloudCredentials {
    TencentCloudCredentials {
        app_id: "1259220000".into(),
        secret_id: "test-secret-id".into(),
        secret_key: "key".into(),
        model: TENCENT_DEFAULT_MODEL.into(),
    }
}

#[test]
fn normalize_endpoint_returns_default_for_empty() {
    assert_eq!(normalize_endpoint(""), MIMO_DEFAULT_ENDPOINT);
    assert_eq!(normalize_endpoint("  "), MIMO_DEFAULT_ENDPOINT);
}

#[test]
fn normalize_endpoint_preserves_non_empty() {
    assert_eq!(
        normalize_endpoint("https://custom.api.com/v1"),
        "https://custom.api.com/v1"
    );
}

#[test]
fn normalize_model_returns_default_for_empty() {
    assert_eq!(normalize_model(""), MIMO_DEFAULT_MODEL);
    assert_eq!(normalize_model("  "), MIMO_DEFAULT_MODEL);
}

#[test]
fn normalize_model_preserves_non_empty() {
    assert_eq!(normalize_model("mimo-v2.5-asr"), "mimo-v2.5-asr");
}

#[test]
fn pcm_duration_ms_calculates_correctly() {
    let pcm = vec![0u8; 32_000];
    assert_eq!(pcm_duration_ms(&pcm), 1000);
}

#[test]
fn pcm_duration_ms_handles_empty() {
    let pcm = vec![];
    assert_eq!(pcm_duration_ms(&pcm), 0);
}

#[test]
fn hmac_sha1_signature_matches_known_vector() {
    assert_eq!(
        compute_signature("The quick brown fox jumps over the lazy dog", "key"),
        "3nybhbi3iqa8ino29wqQcBydtNk="
    );
}

#[test]
fn connect_url_uses_sorted_signed_query_and_encodes_signature() {
    let url = connect_url_at(&credentials(), 1_700_000_000, 42, "voice-id".into()).unwrap();
    assert!(url.starts_with(
        "wss://asr.cloud.tencent.com/asr/v2/1259220000?engine_model_type=Hy-ASR-3.0-preview&expired=1700086400"
    ));
    assert!(url.contains("&nonce=42&secretid=test-secret-id&timestamp=1700000000"));
    assert!(url.contains("&voice_format=1&voice_id=voice-id&signature="));
    assert!(!url.ends_with('='));
}

#[test]
fn server_errors_are_classified_for_actionable_messages() {
    assert!(matches!(
        classify_server_error(4002, "auth failed"),
        TencentCloudASRError::AuthRejected(_)
    ));
    assert!(matches!(
        classify_server_error(4006, "concurrency exceeded"),
        TencentCloudASRError::RateLimited(_)
    ));
}

#[test]
fn assemblyai_connect_url_formats_query_params() {
    let creds = AssemblyAICredentials {
        api_key: "k".to_string(),
        endpoint: String::new(),
        model: "universal-3-5-pro".to_string(),
    };
    assert_eq!(
        creds.connect_url(),
        "wss://streaming.assemblyai.com/v3/ws?speech_model=universal-3-5-pro&sample_rate=16000"
    );
}

#[test]
fn deepgram_connect_url_formats_query_params() {
    let creds = DeepgramCredentials {
        api_key: "k".to_string(),
        endpoint: String::new(),
        model: "nova-3".to_string(),
        language: Some("zh".to_string()),
    };
    assert!(creds.connect_url().contains("model=nova-3"));
    assert!(creds.connect_url().contains("language=zh"));
    assert!(creds.connect_url().contains("smart_format=true"));
}

#[test]
fn server_error_detail_carries_code_and_message() {
    match classify_server_error(-7, "odd") {
        TencentCloudASRError::TaskFailed(d) => assert_eq!(d, "-7 odd"),
        other => panic!("unexpected {other:?}"),
    }
    match classify_server_error(4005, "arrears") {
        TencentCloudASRError::AccountUnavailable(d) => assert_eq!(d, "4005 arrears"),
        other => panic!("unexpected {other:?}"),
    }
    match classify_server_error(i64::MIN, "x") {
        TencentCloudASRError::TaskFailed(d) => assert_eq!(d, format!("{} x", i64::MIN)),
        other => panic!("unexpected {other:?}"),
    }
}

#[test]
fn http_endpoints_are_switched_to_wss_and_existing_queries_extended() {
    let creds = AssemblyAICredentials {
        api_key: "k".into(),
        endpoint: " https://example.com/v3/ws/ ".into(),
        model: "  ".into(),
    };
    assert_eq!(
        creds.connect_url(),
        "wss://example.com/v3/ws?speech_model=universal-3-5-pro&sample_rate=16000"
    );
    let creds = DeepgramCredentials {
        api_key: "k".into(),
        endpoint: "ws://localhost:9000/listen?tier=x//".into(),
        model: "nova-2".into(),
        language: Some("   ".into()),
    };
    assert!(creds
        .connect_url()
        .starts_with("ws://localhost:9000/listen?tier=x&model=nova-2&language=zh&"));
    let creds = AssemblyAICredentials {
        api_key: "k".into(),
        endpoint: "not a url".into(),
        model: String::new(),
    };
    assert_eq!(creds.connect_url(), "wss://streaming.assemblyai.com/v3/ws");
}

#[test]
fn audio_is_drained_in_whole_chunks() {
    let mut buffer: Vec<u8> = (0..7u8).collect();
    let chunks = drain_audio_chunks(&mut buffer, 3);
    assert_eq!(chunks, vec![vec![0, 1, 2], vec![3, 4, 5]]);
    assert_eq!(buffer, vec![6]);
}

#[test]
fn credentials_need_all_three_fields() {
    let mut creds = credentials();
    assert!(creds.auth_ok());
    creds.secret_key = "  ".into();
    assert!(!creds.auth_ok());
    creds.model = " ".into();
    assert_eq!(creds.resolved_model(), TENCENT_DEFAULT_MODEL);
}

#[test]
fn nonce_is_little_endian_and_never_zero() {
    assert_eq!(nonce_from_bytes([0, 0, 0, 0]), 1);
    assert_eq!(nonce_from_bytes([1, 2, 0, 0]), 514);
    assert_eq!(nonce_from_bytes([0xff, 0xff, 0xff, 0xff]), 4_294_967_295 % 1_000_000_000 + 1);
}

#[test]
fn provider_families() {
    assert!(is_whisper_compatible_provider("groq"));
    assert!(!is_whisper_compatible_provider("mimo"));
    assert!(whisper_uses_hotwords("stepfun"));
    assert!(!whisper_uses_hotwords("whisper"));
    assert_eq!(whisper_request_format("openrouter"), AsrRequestFormat::OpenRouterJson);
    assert_eq!(whisper_request_format("zhipu"), AsrRequestFormat::Multipart);
    assert!(whisper_supports_verbose_json("groq"));
    assert!(!whisper_supports_verbose_json("siliconflow"));
    assert!(is_mimo_provider("mimo"));
    assert!(is_elevenlabs_provider("elevenlabs"));
}

use openless::asr::{extract_text, speech_to_text_url};
use openless::edit_plan::JsonValue;

#[test]
fn url_targets_speech_to_text() {
    assert_eq!(
        speech_to_text_url("https://api.elevenlabs.io/v1").unwrap(),
        "https://api.elevenlabs.io/v1/speech-to-text"
    );
    assert_eq!(
        speech_to_text_url("https://api.elevenlabs.io/v1/").unwrap(),
        "https://api.elevenlabs.io/v1/speech-to-text"
    );
    assert_eq!(
        speech_to_text_url("https://api.elevenlabs.io/v1/speech-to-text").unwrap(),
        "https://api.elevenlabs.io/v1/speech-to-text"
    );
}

#[test]
fn unparsable_base_urls_are_errors() {
    assert_eq!(
        speech_to_text_url("not a url"),
        Err("parse ElevenLabs base URL".to_string())
    );
}

fn obj(entries: Vec<(&str, JsonValue)>) -> JsonValue {
    JsonValue::Object(entries.into_iter().map(|(k, v)| (k.to_string(), v)).collect())
}

fn s(text: &str) -> JsonValue {
    JsonValue::String(text.into())
}

#[test]
fn extract_text_reads_single_channel() {
    let json = obj(vec![("language_code", s("en")), ("text", s("hello world"))]);
    assert_eq!(extract_text(&json), "hello world");
}

#[test]
fn extract_text_joins_multichannel_transcripts() {
    let json = obj(vec![(
        "transcripts",
        JsonValue::Array(vec![
            obj(vec![("text", s("left"))]),
            obj(vec![("text", s("right"))]),
        ]),
    )]);
    assert_eq!(extract_text(&json), "left right");
}

#[test]
fn extract_text_missing_field_is_empty() {
    let json = obj(vec![("language_code", s("en"))]);
    assert_eq!(extract_text(&json), "");
}

#[test]
fn channels_without_text_are_skipped() {
    let json = obj(vec![(
        "transcripts",
        JsonValue::Array(vec![
            obj(vec![("text", JsonValue::Null)]),
            s("loose"),
            obj(vec![("text", s("only"))]),
        ]),
    )]);
    assert_eq!(extract_text(&json), "only");
    assert_eq!(extract_text(&JsonValue::Bool(true)), "");
}

use openless::asr::{check_preflight_credential, AsrPreflightCredential};

#[test]
fn cloud_providers_need_their_credentials() {
    assert_eq!(
        check_preflight_credential(AsrPreflightCredential::AsrApiKey, "  ", "", ""),
        Err("请先在设置中填写 ASR 服务商 API Key".to_string())
    );
    assert_eq!(
        check_preflight_credential(AsrPreflightCredential::AsrApiKey, "sk", "", ""),
        Ok(())
    );
    assert_eq!(
        check_preflight_credential(AsrPreflightCredential::VolcAppKey, "", "app", " "),
        Err("请先在设置中填写火山引擎 ASR App Key 和 Access Key".to_string())
    );
    assert_eq!(
        check_preflight_credential(AsrPreflightCredential::VolcAppKey, "", "app", "tok"),
        Ok(())
    );
}

#[test]
fn local_engines_refuse_on_a_system_without_them() {
    assert_eq!(
        check_local_engine(LocalAsrEngine::Qwen3),
        Err("本地 ASR 当前仅支持 macOS（Windows 见 issue #256）".to_string())
    );
    assert_eq!(
        check_local_engine(LocalAsrEngine::AppleSpeech),
        Err("Apple Speech 当前仅支持 macOS".to_string())
    );
    assert_eq!(
        check_local_engine(LocalAsrEngine::FoundryWhisper),
        Err("Foundry Local Whisper 当前仅支持 Windows".to_string())
    );
    assert_eq!(
        check_local_engine(LocalAsrEngine::SherpaOnnx),
        Err("sherpa-onnx local ASR 当前仅支持 Windows".to_string())
    );
}

#[test]
fn connect_url_form_encodes_the_signature_of_its_signing_text() {
    let url = connect_url_at(&credentials(), 1_700_000_000, 42, "voice-id".into()).unwrap();
    let (head, encoded) = url.split_once("&signature=").unwrap();
    let signing_text = head.strip_prefix("wss://").unwrap();
    let signature = compute_signature(signing_text, "key");
    let mut expected = String::new();
    for c in signature.chars() {
        match c {
            '+' => expected.push_str("%2B"),
            '/' => expected.push_str("%2F"),
            '=' => expected.push_str("%3D"),
            other => expected.push(other),
        }
    }
    assert_eq!(encoded, expected);
}

#[test]
fn blank_api_keys_are_refused_before_connecting() {
    let blank = AssemblyAICredentials {
        api_key: "   ".into(),
        endpoint: String::new(),
        model: String::new(),
    };
    assert_eq!(blank.authorization_header(), Err(AssemblyAIError::CredentialsMissing));
    let set = AssemblyAICredentials {
        api_key: "  abc ".into(),
        endpoint: String::new(),
        model: String::new(),
    };
    assert_eq!(set.authorization_header(), Ok("abc".to_string()));

    let blank = DeepgramCredentials {
        api_key: "\t".into(),
        endpoint: String::new(),
        model: String::new(),
        language: None,
    };
    assert_eq!(blank.authorization_header(), Err(DeepgramError::CredentialsMissing));
    let set = DeepgramCredentials {
        api_key: " dg-key ".into(),
        endpoint: String::new(),
        model: String::new(),
        language: None,
    };
    assert_eq!(set.authorization_header(), Ok("Token dg-key".to_string()));
}
