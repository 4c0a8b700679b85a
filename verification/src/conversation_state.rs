//! The checks that a stored conversation state passes before it is saved
//! or after it is loaded.
use vstd::prelude::*;
use crate::text::{chars_of, decimal, is_blank, is_blank_str, is_ws, owned, push_decimal, push_str, str_eq};
use crate::weixin_validate::{first_refusal, lemma_first_refusal_step};

verus! {

/// The largest conversation state file that is read.
pub const MAX_CONVERSATION_STATE_BYTES: u64 = 65536;

/// The most entries a list of a conversation state may hold.
pub const MAX_CONVERSATION_STATE_ITEMS: usize = 16;

/// The most characters a text of a conversation state may hold.
pub const MAX_CONVERSATION_STATE_TEXT_CHARS: usize = 512;

/// What the store checks of a conversation state.
#[derive(Clone, Debug, PartialEq, Eq)]
pub struct ConversationState {
    pub schema_version: u32,
    pub session_id: String,
    pub parent_session_id: Option<String>,
    pub current_topic: Option<String>,
    pub response_tone: Option<String>,
    pub emotional_context: Option<String>,
    pub last_user_message: Option<String>,
    pub last_assistant_message: Option<String>,
    pub unresolved_intents: Vec<String>,
    pub recent_entities: Vec<String>,
    pub updated_at_millis: u128,
    pub expires_at_millis: u128,
}

pub open spec fn opt_text(o: Option<String>) -> Option<Seq<char>> {
    match o {
        Some(s) => Some(s@),
        None => None,
    }
}

pub open spec fn texts(v: Seq<String>) -> Seq<Seq<char>> {
    v.map_values(|s: String| s@)
}

/// Why a text field is refused, if it is: a present value that is blank or
/// longer than the character limit.
pub open spec fn text_refusal(field: Seq<char>, value: Option<Seq<char>>) -> Option<Seq<char>> {
    match value {
        None => None,
        Some(v) => if is_blank(v) {
            Some("conversation state "@ + field + " cannot be empty"@)
        } else if v.len() > MAX_CONVERSATION_STATE_TEXT_CHARS {
            Some(
                "conversation state "@ + field + " exceeds the "@ + decimal(
                    MAX_CONVERSATION_STATE_TEXT_CHARS as nat,
                ) + " character limit"@,
            )
        } else {
            None
        },
    }
}

pub open spec fn item_refusal(field: Seq<char>) -> spec_fn(Seq<char>) -> Option<Seq<char>> {
    |v: Seq<char>| text_refusal(field, Some(v))
}

/// Why a list field is refused, if it is: too many entries, or the first
/// refused entry.
pub open spec fn items_refusal(field: Seq<char>, values: Seq<Seq<char>>) -> Option<Seq<char>> {
    if values.len() > MAX_CONVERSATION_STATE_ITEMS {
        Some(
            "conversation state "@ + field + " exceeds the "@ + decimal(
                MAX_CONVERSATION_STATE_ITEMS as nat,
            ) + " item limit"@,
        )
    } else {
        first_refusal(values, item_refusal(field))
    }
}

pub open spec fn or_else(a: Option<Seq<char>>, b: Option<Seq<char>>) -> Option<Seq<char>> {
    match a {
        Some(m) => Some(m),
        None => b,
    }
}

/// Why a conversation state is refused, if it is, checking in order: the
/// schema version against the one expected, each text, each list, and that
/// it does not expire before its last update.
pub open spec fn state_refusal(s: ConversationState, expected_schema: u32) -> Option<Seq<char>> {
    if s.schema_version != expected_schema {
        Some(
            "unsupported conversation state schema "@ + decimal(s.schema_version as nat)
                + "; expected "@ + decimal(expected_schema as nat),
        )
    } else {
        or_else(
            text_refusal("session_id"@, Some(s.session_id@)),
            or_else(
                text_refusal("parent_session_id"@, opt_text(s.parent_session_id)),
                or_else(
                    text_refusal("current_topic"@, opt_text(s.current_topic)),
                    or_else(
                        text_refusal("response_tone"@, opt_text(s.response_tone)),
                        or_else(
                            text_refusal("emotional_context"@, opt_text(s.emotional_context)),
                            or_else(
                                text_refusal("last_user_message"@, opt_text(s.last_user_message)),
                                or_else(
                                    text_refusal(
                                        "last_assistant_message"@,
                                        opt_text(s.last_assistant_message),
                                    ),
                                    or_else(
                                        items_refusal(
                                            "unresolved_intents"@,
                                            texts(s.unresolved_intents@),
                                        ),
                                        or_else(
                                            items_refusal(
                                                "recent_entities"@,
                                                texts(s.recent_entities@),
                                            ),
                                            if s.expires_at_millis < s.updated_at_millis {
                                                Some(
                                                    "conversation state expiry precedes its update time"@,
                                                )
                                            } else {
                                                None
                                            },
                                        ),
                                    ),
                                ),
                            ),
                        ),
                    ),
                ),
            ),
        )
    }
}

fn field_message(field: &str, tail: &str) -> (m: String)
    ensures
        m@ == "conversation state "@ + field@ + tail@,
{
    let mut m = owned("conversation state ");
    push_str(&mut m, field);
    push_str(&mut m, tail);
    m
}

fn validate_text(field: &str, value: Option<&str>) -> (r: Result<(), String>)
    ensures
        match text_refusal(
            field@,
            match value {
                Some(v) => Some(v@),
                None => None,
            },
        ) {
            None => r is Ok,
            Some(m) => r matches Err(e) && e@ == m,
        },
{
    let value = match value {
        Some(v) => v,
        None => {
            return Ok(());
        },
    };
    if is_blank_str(value) {
        return Err(field_message(field, " cannot be empty"));
    }
    let chars = chars_of(value);
    if chars.len() > MAX_CONVERSATION_STATE_TEXT_CHARS {
        let mut m = field_message(field, " exceeds the ");
        push_decimal(&mut m, MAX_CONVERSATION_STATE_TEXT_CHARS);
        push_str(&mut m, " character limit");
        return Err(m);
    }
    Ok(())
}

fn validate_optional(field: &str, value: &Option<String>) -> (r: Result<(), String>)
    ensures
        match text_refusal(field@, opt_text(*value)) {
            None => r is Ok,
            Some(m) => r matches Err(e) && e@ == m,
        },
{
    match value {
        Some(v) => validate_text(field, Some(v.as_str())),
        None => validate_text(field, None),
    }
}

fn validate_items(field: &str, values: &Vec<String>) -> (r: Result<(), String>)
    ensures
        match items_refusal(field@, texts(values@)) {
            None => r is Ok,
            Some(m) => r matches Err(e) && e@ == m,
        },
{
    if values.len() > MAX_CONVERSATION_STATE_ITEMS {
        let mut m = field_message(field, " exceeds the ");
        push_decimal(&mut m, MAX_CONVERSATION_STATE_ITEMS);
        push_str(&mut m, " item limit");
        return Err(m);
    }
    let ghost vs = texts(values@);
    let mut i: usize = 0;
    assert(vs.take(0) =~= Seq::<Seq<char>>::empty());
    while i < values.len()
        invariant
            i <= values@.len(),
            values@.len() <= MAX_CONVERSATION_STATE_ITEMS,
            vs == texts(values@),
            first_refusal(vs.take(i as int), item_refusal(field@)) is None,
        decreases values.len() - i,
    {
        proof {
            lemma_first_refusal_step(vs, item_refusal(field@), i as int);
        }
        let checked = validate_text(field, Some(values[i].as_str()));
        proof {
            assert(vs[i as int] == values@[i as int]@);
            assert(item_refusal(field@)(vs[i as int]) == text_refusal(field@, Some(vs[i as int])));
        }
        if let Err(e) = checked {
            proof {
                lemma_first_refusal_prefix_some(vs, item_refusal(field@), i as int + 1);
            }
            return Err(e);
        }
        i = i + 1;
    }
    assert(vs.take(vs.len() as int) =~= vs);
    Ok(())
}

/// Once a prefix has a refusal, the whole list has that refusal.
proof fn lemma_first_refusal_prefix_some(
    s: Seq<Seq<char>>,
    f: spec_fn(Seq<char>) -> Option<Seq<char>>,
    k: int,
)
    requires
        0 <= k <= s.len(),
        first_refusal(s.take(k), f) is Some,
    ensures
        first_refusal(s, f) == first_refusal(s.take(k), f),
    decreases s.len() - k,
{
    if k < s.len() {
        assert(s.take(k + 1).drop_last() =~= s.take(k));
        lemma_first_refusal_prefix_some(s, f, k + 1);
    } else {
        assert(s.take(k) =~= s);
    }
}

/// Checks a conversation state against `expected_schema_version`, the
/// version this build of the persona model writes.
pub fn validate_conversation_state(state: &ConversationState, expected_schema_version: u32) -> (r:
    Result<(), String>)
    ensures
        match state_refusal(*state, expected_schema_version) {
            None => r is Ok,
            Some(m) => r matches Err(e) && e@ == m,
        },
{
    if state.schema_version != expected_schema_version {
        let mut m = owned("unsupported conversation state schema ");
        push_decimal(&mut m, state.schema_version as usize);
        push_str(&mut m, "; expected ");
        push_decimal(&mut m, expected_schema_version as usize);
        return Err(m);
    }
    validate_text("session_id", Some(state.session_id.as_str()))?;
    validate_optional("parent_session_id", &state.parent_session_id)?;
    validate_optional("current_topic", &state.current_topic)?;
    validate_optional("response_tone", &state.response_tone)?;
    validate_optional("emotional_context", &state.emotional_context)?;
    validate_optional("last_user_message", &state.last_user_message)?;
    validate_optional("last_assistant_message", &state.last_assistant_message)?;
    validate_items("unresolved_intents", &state.unresolved_intents)?;
    validate_items("recent_entities", &state.recent_entities)?;
    if state.expires_at_millis < state.updated_at_millis {
        return Err(owned("conversation state expiry precedes its update time"));
    }
    Ok(())
}

/// Why a conversation state file is not read, if it is not: it is larger
/// than the limit. `path` is the file as it is shown.
pub fn check_state_file_size(path: &str, len: u64) -> (r: Result<(), String>)
    ensures
        len > MAX_CONVERSATION_STATE_BYTES ==> (r matches Err(e) && e@ == "conversation state "@
            + path@ + " exceeds the "@ + decimal(MAX_CONVERSATION_STATE_BYTES as nat)
            + " byte limit"@),
        len <= MAX_CONVERSATION_STATE_BYTES ==> r is Ok,
{
    if len > MAX_CONVERSATION_STATE_BYTES {
        let mut m = field_message(path, " exceeds the ");
        push_decimal(&mut m, MAX_CONVERSATION_STATE_BYTES as usize);
        push_str(&mut m, " byte limit");
        return Err(m);
    }
    Ok(())
}

/// A loaded state is accepted only for the session it was asked for, and
/// only when it passes the checks; `path` is the file as it is shown.
pub fn accept_loaded_state(
    state: ConversationState,
    session_id: &str,
    path: &str,
    expected_schema_version: u32,
) -> (r: Result<ConversationState, String>)
    ensures
        state.session_id@ != session_id@ ==> (r matches Err(e) && e@
            == "conversation state id mismatch in "@ + path@ + ": expected "@ + session_id@
            + ", got "@ + state.session_id@),
        state.session_id@ == session_id@ ==> match state_refusal(state, expected_schema_version) {
            None => r == Ok::<ConversationState, String>(state),
            Some(m) => r matches Err(e) && e@ == m,
        },
{
    if !str_eq(state.session_id.as_str(), session_id) {
        let mut m = owned("conversation state id mismatch in ");
        push_str(&mut m, path);
        push_str(&mut m, ": expected ");
        push_str(&mut m, session_id);
        push_str(&mut m, ", got ");
        push_str(&mut m, state.session_id.as_str());
        return Err(m);
    }
    validate_conversation_state(&state, expected_schema_version)?;
    Ok(state)
}

/// A text a conversation state may hold: some character that is not
/// whitespace, and at most the character limit.
pub open spec fn storable_text(v: Seq<char>) -> bool {
    &&& exists|i: int| 0 <= i < v.len() && !is_ws(#[trigger] v[i])
    &&& v.len() <= MAX_CONVERSATION_STATE_TEXT_CHARS
}

pub open spec fn storable_opt(o: Option<String>) -> bool {
    o matches Some(v) ==> storable_text(v@)
}

proof fn lemma_no_refusal_means_all_fine<T>(s: Seq<T>, f: spec_fn(T) -> Option<Seq<char>>)
    requires
        first_refusal(s, f) is None,
    ensures
        forall|i: int| 0 <= i < s.len() ==> f(#[trigger] s[i]) is None,
    decreases s.len(),
{
    if s.len() > 0 {
        lemma_no_refusal_means_all_fine(s.drop_last(), f);
        assert forall|i: int| 0 <= i < s.len() implies f(#[trigger] s[i]) is None by {
            if i < s.len() - 1 {
                assert(s[i] == s.drop_last()[i]);
            }
        }
    }
}

proof fn lemma_text_accepted(field: Seq<char>, o: Option<Seq<char>>)
    requires
        text_refusal(field, o) is None,
    ensures
        o matches Some(v) ==> storable_text(v),
{
    if let Some(v) = o {
        assert(!is_blank(v));
    }
}

/// A conversation state passes the check only when it is whole: it has the
/// expected schema version, its session id and every optional text it
/// holds (parent session, topic, tone, emotional context, last user and
/// last assistant message) are neither blank nor longer than the character
/// limit, each list has at most the item limit of such texts, and it does
/// not expire before its last update. So a state whose last assistant
/// message is blank is refused.
pub proof fn lemma_accepted_state_is_whole(s: ConversationState, expected_schema: u32)
    requires
        state_refusal(s, expected_schema) is None,
    ensures
        s.schema_version == expected_schema,
        storable_text(s.session_id@),
        storable_opt(s.parent_session_id),
        storable_opt(s.current_topic),
        storable_opt(s.response_tone),
        storable_opt(s.emotional_context),
        storable_opt(s.last_user_message),
        storable_opt(s.last_assistant_message),
        s.unresolved_intents@.len() <= MAX_CONVERSATION_STATE_ITEMS,
        s.recent_entities@.len() <= MAX_CONVERSATION_STATE_ITEMS,
        forall|i: int| 0 <= i < s.unresolved_intents@.len() ==> storable_text(#[trigger] s.unresolved_intents@[i]@),
        forall|i: int| 0 <= i < s.recent_entities@.len() ==> storable_text(#[trigger] s.recent_entities@[i]@),
        s.expires_at_millis >= s.updated_at_millis,
{
    lemma_text_accepted("session_id"@, Some(s.session_id@));
    lemma_text_accepted("parent_session_id"@, opt_text(s.parent_session_id));
    lemma_text_accepted("current_topic"@, opt_text(s.current_topic));
    lemma_text_accepted("response_tone"@, opt_text(s.response_tone));
    lemma_text_accepted("emotional_context"@, opt_text(s.emotional_context));
    lemma_text_accepted("last_user_message"@, opt_text(s.last_user_message));
    lemma_text_accepted("last_assistant_message"@, opt_text(s.last_assistant_message));
    let ui = texts(s.unresolved_intents@);
    let re = texts(s.recent_entities@);
    lemma_no_refusal_means_all_fine(ui, item_refusal("unresolved_intents"@));
    lemma_no_refusal_means_all_fine(re, item_refusal("recent_entities"@));
    assert forall|i: int| 0 <= i < s.unresolved_intents@.len() implies storable_text(
        #[trigger] s.unresolved_intents@[i]@,
    ) by {
        assert(ui[i] == s.unresolved_intents@[i]@);
        lemma_text_accepted("unresolved_intents"@, Some(ui[i]));
    }
    assert forall|i: int| 0 <= i < s.recent_entities@.len() implies storable_text(
        #[trigger] s.recent_entities@[i]@,
    ) by {
        assert(re[i] == s.recent_entities@[i]@);
        lemma_text_accepted("recent_entities"@, Some(re[i]));
    }
}

} // verus!
