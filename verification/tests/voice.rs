use yunxi_agent::speech::{render_spoken_chunks, render_spoken_text, validate_wav, AudioInput, VoiceError};
use yunxi_agent::voice_live::{
    validate_voice_activity_config, PlaybackCancellationToken, VoiceActivityConfig,
    VoiceActivityDecision, VoiceActivityTracker,
};

fn wav_bytes() -> Vec<u8> {
    let mut bytes = vec![0_u8; 44];
    bytes[0..4].copy_from_slice(b"RIFF");
    bytes[8..12].copy_from_slice(b"WAVE");
    bytes
}

#[test]
fn validates_riff_wave_and_rejects_other_bytes() {
    assert!(validate_wav(&wav_bytes(), 1024).is_ok());
    assert!(validate_wav(&[0_u8; 44], 1024).is_err());
    assert!(validate_wav(&wav_bytes(), 43).is_err());
}

#[test]
fn spoken_renderer_omits_code_and_links_without_changing_source() {
    let source = "## 回答\n先看[说明](https://example.com)。\n```rust\nlet secret = 1;\n```";
    let rendered = render_spoken_text(source, 200).expect("render");
    assert_eq!(
        rendered.text,
        "回答 先看说明。 具体代码和链接我放在文字回复里。"
    );
    assert!(rendered.omitted_code);
    assert!(rendered.omitted_links);
    assert_eq!(
        source,
        "## 回答\n先看[说明](https://example.com)。\n```rust\nlet secret = 1;\n```"
    );
}

#[test]
fn spoken_renderer_truncates_with_visible_fallback() {
    let rendered = render_spoken_text(&"内容".repeat(100), 40).expect("render");
    assert!(rendered.truncated);
    assert!(rendered.text.contains("查看文字回复"));
}

#[test]
fn spoken_renderer_normalizes_yunxi_brand_without_changing_source() {
    let source = "YunXi Agent、yunxi agent 和 YUNXI 会回复；myYunXiAgent 保持原样。";
    let rendered = render_spoken_text(source, 200).expect("render");

    assert_eq!(
        rendered.text,
        "云熙、云熙 和 云熙 会回复；myYunXiAgent 保持原样。"
    );
    assert_eq!(
        source,
        "YunXi Agent、yunxi agent 和 YUNXI 会回复；myYunXiAgent 保持原样。"
    );
}

#[test]
fn spoken_chunk_renderer_prefers_natural_boundaries_and_bounds_every_chunk() {
    let source = "第一句话用于立即开始播放。第二句话稍微长一些，用来验证自然分段不会一直等到整段合成结束！最后给出一个简短收尾。";

    let rendered = render_spoken_chunks(source, 200, 28).expect("render chunks");

    assert!(rendered.chunks.len() >= 3);
    assert!(rendered
        .chunks
        .iter()
        .all(|chunk| chunk.chars().count() <= 28));
    assert_eq!(rendered.chunks.concat(), source);
    assert!(rendered.chunks[0].ends_with('。'));
}

#[test]
fn spoken_chunk_renderer_rejects_zero_chunk_limit() {
    assert!(render_spoken_chunks("你好。", 100, 0).is_err());
}

#[test]
fn wav_errors_name_the_limit() {
    match validate_wav(&[0_u8; 10], 1024) {
        Err(VoiceError::InvalidInput(message)) => {
            assert_eq!(message, "WAV input is shorter than the minimum header")
        }
        other => panic!("unexpected {other:?}"),
    }
    match validate_wav(&wav_bytes(), 43) {
        Err(VoiceError::InvalidInput(message)) => {
            assert_eq!(message, "WAV input exceeds the 43-byte limit")
        }
        other => panic!("unexpected {other:?}"),
    }
    match validate_wav(&[0_u8; 44], 1024) {
        Err(VoiceError::InvalidInput(message)) => {
            assert_eq!(message, "audio input must be a RIFF/WAVE file")
        }
        other => panic!("unexpected {other:?}"),
    }
}

#[test]
fn wav_input_keeps_bytes_and_content_type() {
    let input = AudioInput::wav(wav_bytes(), 1024).expect("wav");
    assert_eq!(input.bytes, wav_bytes());
    assert_eq!(input.content_type, "audio/wav");
    assert!(AudioInput::wav(vec![1, 2, 3], 1024).is_err());
}

#[test]
fn renderer_rejects_zero_limit_and_unspeakable_text() {
    match render_spoken_text("你好", 0) {
        Err(VoiceError::InvalidConfiguration(message)) => {
            assert_eq!(message, "maximum speech text length must be positive")
        }
        other => panic!("unexpected {other:?}"),
    }
    match render_spoken_text("  \n***\n", 10) {
        Err(VoiceError::InvalidInput(message)) => {
            assert_eq!(message, "assistant response has no speakable text")
        }
        other => panic!("unexpected {other:?}"),
    }
}

#[test]
fn renderer_strips_prefixes_marks_and_bare_urls() {
    let rendered = render_spoken_text("- **加粗** 项\n1. 第一步\n> 引用 __强调__\n见 https://x.test/a 结束", 200)
        .expect("render");
    assert_eq!(
        rendered.text,
        "加粗 项 第一步 引用 强调 见 结束 具体代码和链接我放在文字回复里。"
    );
    assert!(rendered.omitted_links);
    assert!(!rendered.omitted_code);
    assert!(!rendered.truncated);
}

#[test]
fn renderer_drops_images_and_keeps_link_labels() {
    let rendered = render_spoken_text("看![图](a.png)和[文档](b)", 200).expect("render");
    assert_eq!(rendered.text, "看和文档 具体代码和链接我放在文字回复里。");
}

#[test]
fn truncation_cuts_at_the_last_stop() {
    let text = "第一句。第二句很长很长很长很长很长很长很长很长很长很长很长很长";
    let rendered = render_spoken_text(text, 20).expect("render");
    assert!(rendered.truncated);
    assert_eq!(rendered.text, "第一句。 后面的内容请查看文字回复。");
    assert!(rendered.text.chars().count() <= 20);
}

#[test]
fn short_tail_chunk_joins_the_previous_one() {
    let rendered = render_spoken_chunks("这是一个足够长的句子用来测试。好。", 200, 28).expect("chunks");
    assert_eq!(rendered.chunks, vec!["这是一个足够长的句子用来测试。好。".to_string()]);
}

#[test]
fn voice_activity_tracker_captures_speech_after_trailing_silence() {
    let config = VoiceActivityConfig {
        idle_timeout_ms: 1_000,
        ..VoiceActivityConfig::default()
    };
    let mut tracker = VoiceActivityTracker::new(1_000, config);

    assert_eq!(tracker.observe(0, 100, true), VoiceActivityDecision::Continue);
    assert_eq!(tracker.observe(100, 400, true), VoiceActivityDecision::Continue);
    assert_eq!(
        tracker.observe(400, 1_300, false),
        VoiceActivityDecision::Capture { start: 0, end: 700 }
    );
}

#[test]
fn voice_activity_tracker_discards_short_noise_and_times_out_when_idle() {
    let config = VoiceActivityConfig {
        idle_timeout_ms: 1_000,
        ..VoiceActivityConfig::default()
    };
    let mut tracker = VoiceActivityTracker::new(1_000, config);

    assert_eq!(tracker.observe(0, 50, true), VoiceActivityDecision::Continue);
    assert_eq!(tracker.observe(50, 950, false), VoiceActivityDecision::Continue);
    assert_eq!(
        tracker.observe(950, 1_000, false),
        VoiceActivityDecision::IdleTimeout
    );
}

#[test]
fn voice_activity_tracker_keeps_valid_speech_at_recording_limit() {
    let config = VoiceActivityConfig::default();
    let mut tracker = VoiceActivityTracker::new(1_000, config);
    assert_eq!(tracker.observe(500, 900, true), VoiceActivityDecision::Continue);

    assert_eq!(tracker.finish_at_limit(1_000), Some((250, 1_000)));
}

#[test]
fn playback_cancellation_token_is_shared_and_monotonic() {
    let token = PlaybackCancellationToken::new();
    let observer = token.clone();
    assert!(!observer.is_cancelled());

    token.cancel();

    assert!(observer.is_cancelled());
}

#[test]
fn samples_for_ms_rounds_down_and_saturates() {
    let tracker = VoiceActivityTracker::new(16_000, VoiceActivityConfig::default());
    assert_eq!(tracker.samples_for_ms(250), 4_000);
    assert_eq!(tracker.samples_for_ms(1), 16);
    let odd = VoiceActivityTracker::new(999, VoiceActivityConfig::default());
    assert_eq!(odd.samples_for_ms(1), 0);
}

#[test]
fn activity_config_rejects_zero_durations() {
    assert!(validate_voice_activity_config(VoiceActivityConfig::default()).is_ok());
    let zero = VoiceActivityConfig {
        minimum_speech_ms: 0,
        ..VoiceActivityConfig::default()
    };
    match validate_voice_activity_config(zero) {
        Err(VoiceError::InvalidConfiguration(message)) => {
            assert_eq!(message, "voice activity thresholds and durations must be positive")
        }
        other => panic!("unexpected {other:?}"),
    }
}
