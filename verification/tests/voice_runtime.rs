use std::io::Cursor;

use yunxi_agent::speech::{validate_wav, VoiceError};
use yunxi_agent::voice_capture::{append_input_data, encode_mono_wav, finish_window};
use yunxi_agent::voice_live::sorted_unique_names;
use yunxi_agent::voice_client::{
    accept_health_report, accept_transcription, check_announced_length, check_synthesis_request,
    rejected_request, request_failure, synthesized_audio, transcription_language,
    VoiceRuntimeHealth, VOICE_API_SCHEMA_VERSION,
};
use yunxi_agent::voice_config::{
    endpoint, SynthesisRequest, TranscriptionResult, VoiceClientConfig, VoiceComponentHealth,
};

fn component(ready: bool) -> VoiceComponentHealth {
    VoiceComponentHealth {
        provider: "mock".to_string(),
        model: "mock-model".to_string(),
        device: "cpu".to_string(),
        ready,
    }
}

fn health(schema_version: u32, status: &str, stt_ready: bool, tts_ready: bool) -> VoiceRuntimeHealth {
    VoiceRuntimeHealth {
        schema_version,
        status: status.to_string(),
        stt: component(stt_ready),
        tts: component(tts_ready),
        preset_voices: vec!["yunxi-primary".to_string()],
        mode: None,
        active: None,
        fallback: None,
        circuit_breaker: None,
        capabilities: None,
        backends: None,
    }
}

fn synthesis(text: &str, format: &str) -> SynthesisRequest {
    SynthesisRequest {
        text: text.to_string(),
        voice: "yunxi-primary".to_string(),
        format: format.to_string(),
        realtime: false,
    }
}

fn message(error: VoiceError) -> (String, String) {
    match error {
        VoiceError::InvalidInput(m) => ("input".to_string(), m),
        VoiceError::InvalidConfiguration(m) => ("configuration".to_string(), m),
        VoiceError::RuntimeUnavailable(m) => ("unavailable".to_string(), m),
        VoiceError::Request(m) => ("request".to_string(), m),
        VoiceError::InvalidResponse(m) => ("response".to_string(), m),
        VoiceError::FileOperation(m) => ("file".to_string(), m),
        VoiceError::AudioDevice(m) => ("device".to_string(), m),
    }
}

#[test]
fn wav_encoder_produces_valid_mono_pcm() {
    let samples = vec![0_i16, 1_000, -1_000, i16::MAX];
    let bytes = encode_mono_wav(&samples, 16_000).expect("encode");
    validate_wav(&bytes, 1_024).expect("valid wav");
    let mut reader = hound::WavReader::new(Cursor::new(bytes)).expect("reader");
    assert_eq!(reader.spec().channels, 1);
    assert_eq!(reader.spec().sample_rate, 16_000);
    assert_eq!(
        reader
            .samples::<i16>()
            .collect::<Result<Vec<_>, _>>()
            .expect("samples"),
        samples
    );
}

#[test]
fn input_callback_downmixes_channels_and_honors_limit() {
    let mut samples = Vec::new();
    let reached_limit = append_input_data(&[1_000_i16, -1_000, 2_000, 0, 4_000, 0], 2, 2, &mut samples);
    assert_eq!(samples, vec![0, 1_000]);
    assert!(reached_limit);
}

#[test]
fn downmix_rounds_toward_zero_and_keeps_a_short_last_frame() {
    let mut samples = vec![7_i16];
    let reached = append_input_data(&[-3, 0, 5, 0, -9], 2, 10, &mut samples);
    assert_eq!(samples, vec![7, -1, 2, -9]);
    assert!(!reached);

    let mut mono = Vec::new();
    assert!(!append_input_data(&[i16::MIN, i16::MAX], 0, 2, &mut mono));
    assert_eq!(mono, vec![i16::MIN, i16::MAX]);

    let mut full = vec![1_i16, 2];
    assert!(append_input_data(&[3], 1, 2, &mut full));
    assert_eq!(full, vec![1, 2]);
    assert!(!append_input_data(&[], 1, 2, &mut full));
}

#[test]
fn encoded_wav_header_describes_mono_sixteen_bit_pcm() {
    let bytes = encode_mono_wav(&[1, -2], 8_000).expect("encode");
    let mut expected = Vec::new();
    expected.extend_from_slice(b"RIFF");
    expected.extend_from_slice(&40_u32.to_le_bytes());
    expected.extend_from_slice(b"WAVEfmt ");
    expected.extend_from_slice(&16_u32.to_le_bytes());
    expected.extend_from_slice(&1_u16.to_le_bytes());
    expected.extend_from_slice(&1_u16.to_le_bytes());
    expected.extend_from_slice(&8_000_u32.to_le_bytes());
    expected.extend_from_slice(&16_000_u32.to_le_bytes());
    expected.extend_from_slice(&2_u16.to_le_bytes());
    expected.extend_from_slice(&16_u16.to_le_bytes());
    expected.extend_from_slice(b"data");
    expected.extend_from_slice(&4_u32.to_le_bytes());
    expected.extend_from_slice(&[0x01, 0x00, 0xfe, 0xff]);
    assert_eq!(bytes, expected);
}

#[test]
fn finished_window_is_encoded_with_its_duration() {
    let samples: Vec<i16> = (0..400).map(|i| i as i16).collect();
    let audio = finish_window(&samples, Some((100, 1_000)), 4_096, "mic".to_string(), 1_000, true)
        .expect("captured");
    assert_eq!(audio.duration_ms, 300);
    assert_eq!(audio.sample_rate, 1_000);
    assert_eq!(audio.device_name, "mic");
    assert!(audio.reached_limit);
    assert_eq!(audio.input.content_type, "audio/wav");
    assert_eq!(audio.input.bytes.len(), 44 + 600);
    let expected = encode_mono_wav(&samples[100..400], 1_000).expect("encode");
    assert_eq!(audio.input.bytes, expected);

    let whole = finish_window(&samples, None, 4_096, "mic".to_string(), 1_000, false).expect("whole");
    assert_eq!(whole.duration_ms, 400);
}

#[test]
fn finished_window_refusals() {
    let samples = vec![0_i16; 400];
    assert_eq!(
        message(finish_window(&samples, Some((300, 100)), 4_096, "mic".into(), 1_000, false).unwrap_err()),
        ("input".to_string(), "invalid VAD sample window".to_string())
    );
    assert_eq!(
        message(finish_window(&samples, Some((0, 199)), 4_096, "mic".into(), 1_000, false).unwrap_err()),
        ("input".to_string(), "recording is shorter than 200 ms".to_string())
    );
    assert_eq!(
        message(finish_window(&samples, None, 843, "mic".into(), 1_000, false).unwrap_err()),
        ("input".to_string(), "WAV input exceeds the 843-byte limit".to_string())
    );
    assert!(finish_window(&samples, None, 844, "mic".into(), 1_000, false).is_ok());
}

#[test]
fn runtime_health_is_ready_only_when_everything_is_ready() {
    assert!(health(VOICE_API_SCHEMA_VERSION, "ok", true, true).ready());
    assert!(!health(VOICE_API_SCHEMA_VERSION, "degraded", true, true).ready());
    assert!(!health(VOICE_API_SCHEMA_VERSION, "ok", false, true).ready());
    assert!(!health(VOICE_API_SCHEMA_VERSION, "ok", true, false).ready());
    assert!(!health(2, "ok", true, true).ready());
}

#[test]
fn health_report_with_another_schema_is_refused() {
    let accepted = accept_health_report(health(1, "ok", true, true)).expect("accepted");
    assert_eq!(accepted, health(1, "ok", true, true));
    assert_eq!(
        message(accept_health_report(health(7, "ok", true, true)).unwrap_err()),
        ("response".to_string(), "unsupported schema version 7".to_string())
    );
}

#[test]
fn synthesis_requests_are_checked_before_sending() {
    assert!(check_synthesis_request(&synthesis("你好", "wav"), 2).is_ok());
    assert_eq!(
        message(check_synthesis_request(&synthesis(" \n", "wav"), 10).unwrap_err()),
        ("input".to_string(), "speech text must not be empty".to_string())
    );
    assert_eq!(
        message(check_synthesis_request(&synthesis("你好吗", "wav"), 2).unwrap_err()),
        ("input".to_string(), "speech text exceeds the 2-character limit".to_string())
    );
    assert_eq!(
        message(check_synthesis_request(&synthesis("hi", "mp3"), 10).unwrap_err()),
        ("input".to_string(), "the MVP voice runtime supports WAV output only".to_string())
    );
}

#[test]
fn transcription_language_is_trimmed_or_dropped() {
    assert_eq!(transcription_language(Some("  zh-CN ")), Some("zh-CN".to_string()));
    assert_eq!(transcription_language(Some("   ")), None);
    assert_eq!(transcription_language(None), None);
}

#[test]
fn blank_transcription_is_refused() {
    let heard = TranscriptionResult {
        text: "你好".to_string(),
        language: Some("zh".to_string()),
        emotion: None,
        audio_events: vec![],
    };
    assert_eq!(accept_transcription(heard.clone()).expect("accepted"), heard);
    let blank = TranscriptionResult { text: " \t".to_string(), ..heard };
    assert_eq!(
        message(accept_transcription(blank).unwrap_err()),
        ("response".to_string(), "transcription text is empty".to_string())
    );
}

#[test]
fn synthesized_audio_is_bounded_and_checked() {
    assert!(check_announced_length(None, 44).is_ok());
    assert!(check_announced_length(Some(44), 44).is_ok());
    assert_eq!(
        message(check_announced_length(Some(45), 44).unwrap_err()),
        ("response".to_string(), "synthesized WAV exceeds the configured output limit".to_string())
    );

    let wav = encode_mono_wav(&[0, 0], 16_000).expect("encode");
    let audio = synthesized_audio(wav.clone(), None, 1_024).expect("audio");
    assert_eq!(audio.content_type, "audio/wav");
    assert_eq!(audio.bytes, wav);
    let typed = synthesized_audio(wav.clone(), Some("audio/x-wav".to_string()), 1_024).expect("typed");
    assert_eq!(typed.content_type, "audio/x-wav");
    assert_eq!(
        message(synthesized_audio(vec![0; 44], None, 1_024).unwrap_err()),
        ("input".to_string(), "audio input must be a RIFF/WAVE file".to_string())
    );
}

#[test]
fn failed_requests_are_described() {
    assert_eq!(
        message(rejected_request("503 Service Unavailable", Some("model loading".to_string()))),
        ("request".to_string(), "HTTP 503 Service Unavailable: model loading".to_string())
    );
    assert_eq!(
        message(rejected_request("500 Internal Server Error", Some("  ".to_string()))),
        (
            "request".to_string(),
            "HTTP 500 Internal Server Error: voice runtime rejected the request".to_string()
        )
    );
    assert_eq!(
        message(request_failure(true, true, "ignored".to_string())),
        ("unavailable".to_string(), "request timed out".to_string())
    );
    assert_eq!(
        message(request_failure(false, true, "ignored".to_string())),
        ("unavailable".to_string(), "connection failed".to_string())
    );
    assert_eq!(
        message(request_failure(false, false, "bad body".to_string())),
        ("request".to_string(), "bad body".to_string())
    );
}

#[test]
fn remote_runtime_requires_explicit_opt_in() {
    let config = VoiceClientConfig {
        stt_base_url: "https://voice.example.com".to_string(),
        tts_base_url: "https://voice.example.com".to_string(),
        ..VoiceClientConfig::default()
    };
    assert_eq!(
        message(config.validate().unwrap_err()),
        (
            "configuration".to_string(),
            "remote voice runtime URLs require YUNXI_VOICE_ALLOW_REMOTE=1".to_string()
        )
    );
    let allowed = VoiceClientConfig { allow_remote: true, ..config };
    assert!(allowed.validate().is_ok());
}

#[test]
fn configuration_checks_urls_and_limits() {
    assert!(VoiceClientConfig::default().validate().is_ok());
    let ftp = VoiceClientConfig::default().with_runtime_url("ftp://127.0.0.1/voice".to_string());
    assert_eq!(
        message(ftp.validate().unwrap_err()),
        ("configuration".to_string(), "voice runtime URL must use http or https".to_string())
    );
    let relative = VoiceClientConfig::default().with_runtime_url("voice-runtime".to_string());
    assert_eq!(
        message(relative.validate().unwrap_err()),
        ("configuration".to_string(), "invalid URL: relative URL without a base".to_string())
    );
    let small = VoiceClientConfig { max_output_bytes: 43, ..VoiceClientConfig::default() };
    assert_eq!(
        message(small.validate().unwrap_err()),
        (
            "configuration".to_string(),
            "maximum output size is too small for a WAV file".to_string()
        )
    );
    let silent = VoiceClientConfig { max_speech_chars: 0, ..VoiceClientConfig::default() };
    assert_eq!(
        message(silent.validate().unwrap_err()),
        ("configuration".to_string(), "maximum speech text length must be positive".to_string())
    );
}

#[test]
fn endpoints_join_without_doubled_slashes() {
    let url = endpoint("http://127.0.0.1:17862//", "/health").expect("endpoint");
    assert_eq!(url.url.as_str(), "http://127.0.0.1:17862/health");
    assert_eq!(url.text, "http://127.0.0.1:17862/health");
    assert_eq!(url.scheme, "http");
    assert_eq!(url.host.as_deref(), Some("127.0.0.1"));
    let synth = endpoint("https://voice.example.com/api", "/v1/synthesize").expect("endpoint");
    assert_eq!(synth.text, "https://voice.example.com/api/v1/synthesize");
    assert_eq!(
        message(endpoint("", "/health").unwrap_err()),
        ("configuration".to_string(), "invalid endpoint: relative URL without a base".to_string())
    );
}

#[test]
fn bearer_header_is_built_only_from_a_valid_token() {
    assert_eq!(VoiceClientConfig::default().authorization().expect("none"), None);
    let with_token = VoiceClientConfig::default().with_auth_token("tok-123".to_string());
    assert_eq!(with_token.authorization().expect("header"), Some("Bearer tok-123".to_string()));
    let broken = VoiceClientConfig::default().with_auth_token("tok\n123".to_string());
    assert_eq!(
        message(broken.authorization().unwrap_err()),
        ("configuration".to_string(), "voice auth token is invalid".to_string())
    );
}

#[test]
fn device_names_are_sorted_once_each() {
    let names = vec!["b", "a", "b", "Ä", "A", "a"].into_iter().map(String::from).collect();
    assert_eq!(sorted_unique_names(names), vec!["A", "a", "b", "Ä"]);
    assert!(sorted_unique_names(Vec::new()).is_empty());
}
