use yunxi_agent::storage::{
    HistoryLoadOptions, RolloutBudget, SessionId, ThreadMetadata,
};
use yunxi_agent::text::chars_of;
use yunxi_agent::tools::{ToolName, ToolRequestKind};
use yunxi_agent::voice_config::{parse_unsigned, VoiceClientConfig, VoiceEnvironment};
use yunxi_agent::weixin_store::{FileWeixinStateStore, WeixinAccountLock, WeixinLockRecord};
use yunxi_agent::weixin_types::WeixinAccountLockState;

fn unset() -> VoiceEnvironment {
    VoiceEnvironment {
        runtime_url: None,
        request_timeout_seconds: None,
        stt_url: None,
        tts_url: None,
        max_input_bytes: None,
        max_output_bytes: None,
        max_speech_chars: None,
        allow_remote: None,
        auth_token: None,
    }
}

fn parse(text: &str, max: u64) -> Option<u64> {
    parse_unsigned(&chars_of(text), max)
}

#[test]
fn session_ids_carry_clock_and_counter() {
    assert_eq!(SessionId::generate(1_700_000_000_123, 7).0, "yunxi-1700000000123-7");
    assert_eq!(SessionId::new("s-1".to_string()).0, "s-1");
}

#[test]
fn session_ids_from_different_counters_or_clocks_differ() {
    let a = SessionId::generate(1_700_000_000_123, 1);
    let b = SessionId::generate(1_700_000_000_123, 2);
    let c = SessionId::generate(1_700_000_000_12, 31);
    let d = SessionId::generate(1_700_000_000_1, 231);
    assert_ne!(a, b);
    assert_ne!(c, d);
    assert_eq!(c.0, "yunxi-170000000012-31");
    assert_eq!(d.0, "yunxi-17000000001-231");
}

#[test]
fn thread_metadata_builders_touch_only_their_fields() {
    let thread = ThreadMetadata::new(SessionId::new("t".to_string()), "/work".to_string(), 10)
        .with_parent(SessionId::new("p".to_string()))
        .with_title("notes".to_string());
    assert_eq!(thread.parent_id, Some(SessionId::new("p".to_string())));
    assert_eq!(thread.title.as_deref(), Some("notes"));
    assert_eq!(thread.updated_at_millis, 10);
    let archived = thread.archived(true, 20).pinned(true, 30);
    assert!(archived.archived && archived.pinned);
    assert_eq!(archived.created_at_millis, 10);
    assert_eq!(archived.updated_at_millis, 30);
}

#[test]
fn budgets_keep_at_least_one() {
    assert_eq!(RolloutBudget::new(0, 0), RolloutBudget { max_items: 1, max_bytes: 1 });
    assert_eq!(RolloutBudget::new(5, 9), RolloutBudget { max_items: 5, max_bytes: 9 });
    assert_eq!(RolloutBudget::default().max_bytes, 4 * 1024 * 1024);
    assert_eq!(HistoryLoadOptions::new(0).max_sessions, 1);
    assert_eq!(HistoryLoadOptions::default().max_sessions, 128);
}

#[test]
fn tool_names_and_requests_agree() {
    assert_eq!(ToolName::MultiAgent.as_str(), "multi_agent");
    assert_eq!(ToolName::RequestUserInput.as_str(), "request_user_input");
    assert_eq!(ToolName::default(), ToolName::Shell);
    let search = ToolRequestKind::ToolSearch { query: "grep".to_string() };
    assert_eq!(search.tool_name(), ToolName::ToolSearch);
    let mcp = ToolRequestKind::Mcp {
        server: "fs".to_string(),
        tool: "read".to_string(),
        arguments_json: None,
    };
    assert_eq!(mcp.tool_name().as_str(), "mcp");
}

#[test]
fn unsigned_numbers_parse_like_the_standard_library() {
    assert_eq!(parse("42", u64::MAX), Some(42));
    assert_eq!(parse("+7", u64::MAX), Some(7));
    assert_eq!(parse("18446744073709551615", u64::MAX), Some(u64::MAX));
    assert_eq!(parse("18446744073709551616", u64::MAX), None);
    assert_eq!(parse("300", 255), None);
    assert_eq!(parse("", u64::MAX), None);
    assert_eq!(parse("+", u64::MAX), None);
    assert_eq!(parse("-1", u64::MAX), None);
    assert_eq!(parse("1a", u64::MAX), None);
    for text in ["0", "17", "+99", "x", "99999999999999999999"] {
        assert_eq!(parse(text, u64::MAX), text.parse::<u64>().ok(), "{text}");
    }
}

#[test]
fn voice_configuration_defaults_without_environment() {
    let config = VoiceClientConfig::from_env(&unset());
    let default = VoiceClientConfig::default();
    assert_eq!(config.stt_base_url, "http://127.0.0.1:17862");
    assert_eq!(config.tts_base_url, default.tts_base_url);
    assert_eq!(config.request_timeout_secs, 180);
    assert_eq!(config.max_input_bytes, 25 * 1024 * 1024);
    assert_eq!(config.max_output_bytes, 50 * 1024 * 1024);
    assert_eq!(config.max_speech_chars, 2_000);
    assert!(!config.allow_remote);
    assert!(!config.auth_token.is_configured());
}

#[test]
fn voice_configuration_reads_trimmed_settings() {
    let env = VoiceEnvironment {
        runtime_url: Some(" http://10.0.0.2:9000 ".to_string()),
        request_timeout_seconds: Some("5000".to_string()),
        stt_url: Some("   ".to_string()),
        tts_url: Some("http://tts.local".to_string()),
        max_input_bytes: Some("0".to_string()),
        max_output_bytes: Some("4096".to_string()),
        max_speech_chars: Some("many".to_string()),
        allow_remote: Some("YES".to_string()),
        auth_token: Some(" abc ".to_string()),
    };
    let config = VoiceClientConfig::from_env(&env);
    assert_eq!(config.stt_base_url, "http://10.0.0.2:9000");
    assert_eq!(config.tts_base_url, "http://tts.local");
    assert_eq!(config.request_timeout_secs, 600);
    assert_eq!(config.max_input_bytes, 25 * 1024 * 1024);
    assert_eq!(config.max_output_bytes, 4096);
    assert_eq!(config.max_speech_chars, 2_000);
    assert!(config.allow_remote);
    assert!(config.auth_token.is_configured());

    let zero_timeout = VoiceEnvironment { request_timeout_seconds: Some("0".to_string()), ..unset() };
    assert_eq!(VoiceClientConfig::from_env(&zero_timeout).request_timeout_secs, 1);
    let off = VoiceEnvironment { allow_remote: Some("off".to_string()), ..unset() };
    assert!(!VoiceClientConfig::from_env(&off).allow_remote);

    let moved = VoiceClientConfig::default()
        .with_runtime_url("http://127.0.0.1:9".to_string())
        .with_auth_token("t".to_string());
    assert_eq!(moved.stt_base_url, "http://127.0.0.1:9");
    assert_eq!(moved.tts_base_url, "http://127.0.0.1:9");
    assert!(moved.auth_token.is_configured());
}

#[test]
fn lock_state_follows_the_lock_file_and_its_process() {
    let store = FileWeixinStateStore::for_workspace_with_lock_root("workspace", "locks".to_string());
    assert_eq!(store.lock_state(None, true).state, WeixinAccountLockState::Free);
    let record = WeixinLockRecord::new(
        "account#0a1b2c3d",
        "workspace#00ff00ff",
        4242,
        "lock-1".to_string(),
        77,
    );
    let active = store.lock_state(Some(&record), true);
    assert_eq!(active.state, WeixinAccountLockState::Active);
    assert_eq!(active.pid, Some(4242));
    assert_eq!(active.workspace_id.as_deref(), Some("workspace#00ff00ff"));
    assert_eq!(active.created_at_millis, Some(77));
    assert_eq!(store.lock_state(Some(&record), false).state, WeixinAccountLockState::Stale);
}

#[test]
fn releasing_a_lock_removes_only_its_own_file_once() {
    let mut lock = WeixinAccountLock::new("locks/a.lock.json".to_string(), "lock-1".to_string());
    assert_eq!(lock.path(), "locks/a.lock.json");
    assert!(!lock.release(Some("lock-2")));
    assert!(!lock.release(Some("lock-1")));

    let mut other = WeixinAccountLock::new("locks/b.lock.json".to_string(), "lock-9".to_string());
    assert!(other.release(Some("lock-9")));
    assert!(!other.release(Some("lock-9")));
    let mut gone = WeixinAccountLock::new("locks/c.lock.json".to_string(), "lock-3".to_string());
    assert!(!gone.release(None));
}
