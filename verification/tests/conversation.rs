use yunxi_agent::conversation_state::{
    accept_loaded_state, check_state_file_size, validate_conversation_state, ConversationState,
};

fn state(session_id: &str) -> ConversationState {
    ConversationState {
        schema_version: 1,
        session_id: session_id.to_string(),
        parent_session_id: None,
        current_topic: Some("继续完善记忆模块".to_string()),
        response_tone: None,
        emotional_context: None,
        last_user_message: None,
        last_assistant_message: None,
        unresolved_intents: vec![],
        recent_entities: vec!["YunXi".to_string()],
        updated_at_millis: 1_000,
        expires_at_millis: 2_000,
    }
}

#[test]
fn valid_conversation_state_passes() {
    assert_eq!(validate_conversation_state(&state("session-a"), 1), Ok(()));
}

#[test]
fn conversation_state_refusals_name_the_field() {
    assert_eq!(
        validate_conversation_state(&state("s"), 2),
        Err("unsupported conversation state schema 1; expected 2".to_string())
    );
    let blank_topic = ConversationState { current_topic: Some("  ".to_string()), ..state("s") };
    assert_eq!(
        validate_conversation_state(&blank_topic, 1),
        Err("conversation state current_topic cannot be empty".to_string())
    );
    let long = ConversationState { last_user_message: Some("字".repeat(513)), ..state("s") };
    assert_eq!(
        validate_conversation_state(&long, 1),
        Err("conversation state last_user_message exceeds the 512 character limit".to_string())
    );
    let exact = ConversationState { last_user_message: Some("字".repeat(512)), ..state("s") };
    assert_eq!(validate_conversation_state(&exact, 1), Ok(()));
    let many = ConversationState { unresolved_intents: vec!["x".to_string(); 17], ..state("s") };
    assert_eq!(
        validate_conversation_state(&many, 1),
        Err("conversation state unresolved_intents exceeds the 16 item limit".to_string())
    );
    let blank_entity = ConversationState {
        recent_entities: vec!["ok".to_string(), "\t".to_string()],
        ..state("s")
    };
    assert_eq!(
        validate_conversation_state(&blank_entity, 1),
        Err("conversation state recent_entities cannot be empty".to_string())
    );
    let backwards = ConversationState { expires_at_millis: 999, ..state("s") };
    assert_eq!(
        validate_conversation_state(&backwards, 1),
        Err("conversation state expiry precedes its update time".to_string())
    );
    let empty_id = state("");
    assert_eq!(
        validate_conversation_state(&empty_id, 1),
        Err("conversation state session_id cannot be empty".to_string())
    );
}

#[test]
fn loaded_state_must_match_its_session_and_size() {
    assert_eq!(check_state_file_size("state.json", 65_536), Ok(()));
    assert_eq!(
        check_state_file_size("state.json", 65_537),
        Err("conversation state state.json exceeds the 65536 byte limit".to_string())
    );
    assert_eq!(
        accept_loaded_state(state("other"), "session-a", "a.json", 1),
        Err("conversation state id mismatch in a.json: expected session-a, got other".to_string())
    );
    assert_eq!(accept_loaded_state(state("session-a"), "session-a", "a.json", 1), Ok(state("session-a")));
    assert!(accept_loaded_state(state("session-a"), "session-a", "a.json", 3).is_err());
}
