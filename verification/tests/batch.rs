use openless::edit_plan::JsonValue;
use openless::batch::{
    audio_data_url, elevenlabs_response_text, mimo_response_text, ElevenLabsBatchASR,
    MiMoBatchASR, RawTranscript, ELEVENLABS_MISSING_KEY, MIMO_MISSING_KEY,
};

fn obj(fields: Vec<(&str, JsonValue)>) -> JsonValue {
    JsonValue::Object(fields.into_iter().map(|(k, v)| (k.to_string(), v)).collect())
}

fn text(s: &str) -> JsonValue {
    JsonValue::String(s.to_string())
}

#[test]
fn consume_pcm_chunk_accumulates() {
    let mut asr = MiMoBatchASR::new(
        "test-key".to_string(),
        String::new(),
        String::new(),
        None,
    );

    let pcm1 = vec![0u8; 100];
    let pcm2 = vec![0u8; 200];
    asr.consume_pcm_chunk(&pcm1);
    asr.consume_pcm_chunk(&pcm2);

    assert_eq!(asr.buffer_len(), 300);
}

#[test]
fn cancel_clears_buffer() {
    let mut asr = MiMoBatchASR::new(
        "test-key".to_string(),
        String::new(),
        String::new(),
        None,
    );

    asr.consume_pcm_chunk(&vec![0u8; 100]);
    assert_eq!(asr.buffer_len(), 100);

    asr.cancel();
    assert_eq!(asr.buffer_len(), 0);
}

#[test]
fn empty_buffer_needs_no_request() {
    let asr = MiMoBatchASR::new(String::new(), String::new(), String::new(), None);
    assert_eq!(asr.transcribe_request(), Ok(None));
}

#[test]
fn blank_key_is_refused_before_any_request() {
    let mut asr = MiMoBatchASR::new("  ".to_string(), String::new(), String::new(), None);
    asr.consume_pcm_chunk(&[0, 0]);
    assert_eq!(asr.transcribe_request(), Err(MIMO_MISSING_KEY.to_string()));
}

#[test]
fn request_uses_defaults_and_trimmed_base_url() {
    let mut asr = MiMoBatchASR::new("k".to_string(), " ".to_string(), "".to_string(), None);
    asr.consume_pcm_chunk(&vec![0u8; 32_000]);
    let request = asr.transcribe_request().unwrap().unwrap();
    assert_eq!(request.url, "https://api.xiaomimimo.com/v1/chat/completions");
    assert_eq!(request.model, "mimo-v2.5-asr");
    assert_eq!(request.language, "auto");
    assert_eq!(request.api_key, "k");
    assert_eq!(request.duration_ms, 1000);
    assert!(request.audio_data_url.starts_with("data:audio/wav;base64,UklGR"));

    let custom = {
        let mut a = MiMoBatchASR::new(
            "k".to_string(),
            " https://custom.api.com/v1// ".to_string(),
            " m ".to_string(),
            Some("zh".to_string()),
        );
        a.consume_pcm_chunk(&[1, 2]);
        a.transcribe_request().unwrap().unwrap()
    };
    assert_eq!(custom.url, "https://custom.api.com/v1/chat/completions");
    assert_eq!(custom.model, "m");
    assert_eq!(custom.language, "zh");
}

#[test]
fn audio_is_sent_as_a_base64_wav_data_url() {
    assert_eq!(
        audio_data_url(&[1, 0, 0xff, 0xff]),
        "data:audio/wav;base64,UklGRigAAABXQVZFZm10IBAAAAABAAEAgD4AAAB9AAACABAAZGF0YQQAAAABAP//"
    );
}

#[test]
fn failed_request_keeps_the_buffer_and_success_clears_it() {
    let mut asr = MiMoBatchASR::new("k".to_string(), String::new(), String::new(), None);
    asr.consume_pcm_chunk(&[1, 2, 3, 4]);
    assert_eq!(
        asr.finish_transcribe(Err("MiMo ASR API error 500".to_string()), 0),
        Err("MiMo ASR API error 500".to_string())
    );
    assert_eq!(asr.buffer_len(), 4);
    assert_eq!(
        asr.finish_transcribe(Ok("你好".to_string()), 7),
        Ok(RawTranscript { text: "你好".to_string(), duration_ms: 7 })
    );
    assert_eq!(asr.buffer_len(), 0);
}

#[test]
fn response_text_reads_the_first_choice() {
    let response = obj(vec![(
        "choices",
        JsonValue::Array(vec![
            obj(vec![("message", obj(vec![("content", text("  hello world \n"))]))]),
            obj(vec![("message", obj(vec![("content", text("second"))]))]),
        ]),
    )]);
    assert_eq!(mimo_response_text(&response), "hello world");
    assert_eq!(mimo_response_text(&obj(vec![("choices", JsonValue::Array(vec![]))])), "");
    assert_eq!(
        mimo_response_text(&obj(vec![(
            "choices",
            JsonValue::Array(vec![obj(vec![("message", obj(vec![("content", JsonValue::Null)]))])])
        )])),
        ""
    );
    assert_eq!(mimo_response_text(&JsonValue::Null), "");
}

#[test]
fn elevenlabs_request_uploads_a_wav_to_speech_to_text() {
    let mut asr = ElevenLabsBatchASR::new(
        "  key ".to_string(),
        " https://api.elevenlabs.io/v1/ ".to_string(),
        "scribe_v1".to_string(),
    );
    assert_eq!(asr.transcribe_request(), Ok(None));
    asr.consume_pcm_chunk(&[1, 0]);
    asr.consume_pcm_chunk(&[0xff, 0xff, 7]);
    assert_eq!(asr.buffer_len(), 5);
    let request = asr.transcribe_request().unwrap().unwrap();
    assert_eq!(request.url, "https://api.elevenlabs.io/v1/speech-to-text");
    assert_eq!(request.api_key, "key");
    assert_eq!(request.model, "scribe_v1");
    assert_eq!(request.duration_ms, 0);
    assert_eq!(request.wav.len(), 48);
    assert_eq!(&request.wav[0..4], b"RIFF");
    assert_eq!(&request.wav[44..], &[1, 0, 0xff, 0xff]);
}

#[test]
fn elevenlabs_refuses_a_blank_key_and_a_bad_base_url() {
    let mut no_key = ElevenLabsBatchASR::new(" ".to_string(), "https://x.test/v1".to_string(), "m".to_string());
    no_key.consume_pcm_chunk(&[0, 0]);
    assert_eq!(no_key.transcribe_request(), Err(ELEVENLABS_MISSING_KEY.to_string()));

    let mut bad_url = ElevenLabsBatchASR::new("k".to_string(), "not a url".to_string(), "m".to_string());
    bad_url.consume_pcm_chunk(&[0, 0]);
    assert_eq!(bad_url.transcribe_request(), Err("parse ElevenLabs base URL".to_string()));
}

#[test]
fn elevenlabs_keeps_audio_until_a_transcript_arrives() {
    let mut asr = ElevenLabsBatchASR::new("k".to_string(), "https://x.test".to_string(), "m".to_string());
    asr.consume_pcm_chunk(&[0; 64]);
    assert!(asr.finish_transcribe(Err("ElevenLabs ASR API error 401".to_string()), 2).is_err());
    assert_eq!(asr.buffer_len(), 64);
    assert_eq!(
        asr.finish_transcribe(Ok("done".to_string()), 2),
        Ok(RawTranscript { text: "done".to_string(), duration_ms: 2 })
    );
    assert_eq!(asr.buffer_len(), 0);
    asr.consume_pcm_chunk(&[0; 4]);
    asr.cancel();
    assert_eq!(asr.buffer_len(), 0);
}

#[test]
fn elevenlabs_response_text_is_trimmed() {
    assert_eq!(elevenlabs_response_text(&obj(vec![("text", text("  hi \n"))])), "hi");
    assert_eq!(
        elevenlabs_response_text(&obj(vec![(
            "transcripts",
            JsonValue::Array(vec![obj(vec![("text", text(" left"))]), obj(vec![("text", text("right "))])])
        )])),
        "left right"
    );
    assert_eq!(elevenlabs_response_text(&obj(vec![])), "");
}
