use vstd::prelude::*;
use crate::json_value::{
    find_key, has_key, items_view, jv, key_at, lemma_array_view, lemma_get_insert_same,
    lemma_get_or_insert_kept, lemma_get_remove_other, lemma_get_update_other, lemma_object_view,
    obj_get,
    obj_insert, obj_insert_exec, obj_or_insert, obj_or_insert_exec, obj_remove,
    obj_remove_exec, pairs_view, JsonNumber, JsonValue, JsonView,
};
use crate::seqs::lemma_first_index;
use crate::text::owned;
use crate::weixin_types::{WeixinStateError, WeixinStateMigration, WEIXIN_STATE_SCHEMA_VERSION};

verus! {

/// The record lists of a state file, in the order they are filled in.
pub open spec fn list_keys() -> Seq<Seq<char>> {
    seq![
        "cursors"@,
        "inbound_receipts"@,
        "deliveries"@,
        "conversation_bindings"@,
        "reply_contexts"@,
        "delivery_manifests"@,
        "pending_deliveries"@,
        "remote_control_requests"@,
        "pair_requests"@,
        "pending_inbound"@,
    ]
}

/// The schema version a document declares: its `schema_version` member as
/// a non-negative integer, cut to 32 bits.
pub open spec fn declared_schema(v: JsonView) -> Option<u32> {
    match v {
        JsonView::Object(p) => match obj_get(p, "schema_version"@) {
            Some(JsonView::PosInt(n)) => Some(n as u32),
            _ => None,
        },
        _ => None,
    }
}

/// A pending inbound item carries its encrypted payload: it is an object
/// whose `encrypted_payload` member is present and not null.
pub open spec fn carries_payload(item: JsonView) -> bool {
    match item {
        JsonView::Object(q) => match obj_get(q, "encrypted_payload"@) {
            Some(JsonView::Null) => false,
            Some(_) => true,
            None => false,
        },
        _ => false,
    }
}

/// An old state whose pending inbound list holds an item without its
/// payload cannot be brought forward.
pub open spec fn lacks_pending_payload(p: Seq<(Seq<char>, JsonView)>) -> bool {
    match obj_get(p, "pending_inbound"@) {
        Some(JsonView::Array(items)) => some_lacks_payload(items),
        _ => false,
    }
}

pub open spec fn some_lacks_payload(items: Seq<JsonView>) -> bool {
    exists|i: int| 0 <= i < items.len() && !carries_payload(#[trigger] items[i])
}

/// Adds each default member whose key is absent, in order.
pub open spec fn fill_defaults(p: Seq<(Seq<char>, JsonView)>, d: Seq<(Seq<char>, JsonView)>) -> Seq<
    (Seq<char>, JsonView),
>
    decreases d.len(),
{
    if d.len() == 0 {
        p
    } else {
        fill_defaults(obj_or_insert(p, d[0].0, d[0].1), d.drop_first())
    }
}

pub open spec fn int_value(n: u64) -> JsonView {
    JsonView::PosInt(n)
}

pub open spec fn text_value(s: Seq<char>) -> JsonView {
    JsonView::Text(s)
}

/// Members that every state root has, with the values an old state gets.
pub open spec fn root_defaults(now: u64) -> Seq<(Seq<char>, JsonView)> {
    seq![
        ("created_at_millis"@, int_value(now)),
        ("updated_at_millis"@, int_value(now)),
        ("transitioned_at_millis"@, int_value(now)),
        ("connection_state"@, text_value("not_configured"@)),
        ("credential"@, JsonView::Null),
    ] + list_keys().map_values(|k: Seq<char>| (k, JsonView::Array(Seq::empty())))
}

pub open spec fn inbound_defaults() -> Seq<(Seq<char>, JsonView)> {
    seq![
        ("direct_message_key"@, text_value(""@)),
        ("dispatch_retry_count"@, int_value(0)),
        ("turn_session_id"@, JsonView::Null),
        ("parent_session_id"@, JsonView::Null),
        ("next_retry_at_millis"@, JsonView::Null),
        ("last_dispatch_error"@, JsonView::Null),
        ("lease_owner"@, JsonView::Null),
        ("lease_token"@, JsonView::Null),
        ("lease_started_at_millis"@, JsonView::Null),
        ("lease_expires_at_millis"@, JsonView::Null),
    ]
}

pub open spec fn delivery_defaults(account: Seq<char>) -> Seq<(Seq<char>, JsonView)> {
    seq![
        ("account_id"@, text_value(account)),
        ("peer_id_hash"@, text_value("peer#00000000"@)),
        ("direct_message_key"@, text_value("dm#00000000"@)),
        ("item_id"@, text_value("item#00000000"@)),
        ("session_id"@, text_value("migrated-delivery-session"@)),
        ("message_hash"@, text_value("reply#00000000"@)),
        ("segment_index"@, int_value(0)),
        ("total_segments"@, int_value(1)),
        ("encrypted_payload"@, JsonView::Null),
        ("last_status"@, JsonView::Null),
        ("last_redacted_error"@, JsonView::Null),
        ("next_retry_at_millis"@, JsonView::Null),
    ]
}

pub open spec fn binding_defaults(session: Seq<char>) -> Seq<(Seq<char>, JsonView)> {
    seq![
        ("root_session_id"@, text_value(session)),
        ("active_session_id"@, text_value(session)),
        ("last_completed_session_id"@, text_value(session)),
    ]
}

/// How the items of one record list are brought forward.
pub enum ItemRewrite {
    /// Every record gets the current schema version.
    Schema,
    /// A conversation binding with a session id gets its root, active and
    /// last completed sessions set to it where missing.
    BindingSessions,
    /// A pending inbound item gets its dispatch and lease fields.
    InboundRuntime,
    /// A pending delivery gets its addressing fields, with this account.
    DeliveryFields(String),
}

pub open spec fn rewritten_members(q: Seq<(Seq<char>, JsonView)>, how: ItemRewrite) -> Seq<
    (Seq<char>, JsonView),
> {
    match how {
        ItemRewrite::Schema => obj_insert(q, "schema_version"@, int_value(6)),
        ItemRewrite::BindingSessions => match obj_get(q, "session_id"@) {
            Some(JsonView::Text(s)) => fill_defaults(q, binding_defaults(s)),
            _ => q,
        },
        ItemRewrite::InboundRuntime => fill_defaults(q, inbound_defaults()),
        ItemRewrite::DeliveryFields(account) => fill_defaults(q, delivery_defaults(account@)),
    }
}

/// Objects are brought forward; other items stay as they are.
pub open spec fn rewritten_item(item: JsonView, how: ItemRewrite) -> JsonView {
    match item {
        JsonView::Object(q) => JsonView::Object(rewritten_members(q, how)),
        _ => item,
    }
}

/// Rewrites every item of the list under `key`, when that member is a list.
pub open spec fn rewrite_list(p: Seq<(Seq<char>, JsonView)>, key: Seq<char>, how: ItemRewrite) -> Seq<
    (Seq<char>, JsonView),
> {
    let i = key_at(p, key);
    if 0 <= i < p.len() {
        match p[i].1 {
            JsonView::Array(items) => p.update(
                i,
                (p[i].0, JsonView::Array(items.map_values(|x: JsonView| rewritten_item(x, how)))),
            ),
            _ => p,
        }
    } else {
        p
    }
}

/// Stamps the current schema version on the records of each list.
pub open spec fn stamp_lists(p: Seq<(Seq<char>, JsonView)>, keys: Seq<Seq<char>>) -> Seq<
    (Seq<char>, JsonView),
>
    decreases keys.len(),
{
    if keys.len() == 0 {
        p
    } else {
        stamp_lists(rewrite_list(p, keys[0], ItemRewrite::Schema), keys.drop_first())
    }
}

/// The account a state belongs to, or empty text.
pub open spec fn account_of(p: Seq<(Seq<char>, JsonView)>) -> Seq<char> {
    match obj_get(p, "account_id"@) {
        Some(JsonView::Text(s)) => s,
        _ => Seq::empty(),
    }
}

/// The members of an old state root once brought to the current schema.
pub open spec fn upgraded_members(p: Seq<(Seq<char>, JsonView)>, now: u64) -> Seq<
    (Seq<char>, JsonView),
> {
    let p1 = obj_insert(p, "schema_version"@, int_value(6));
    let p2 = fill_defaults(p1, root_defaults(now));
    let p3 = obj_remove(p2, "session_bindings"@);
    let p4 = stamp_lists(p3, list_keys());
    let p5 = rewrite_list(p4, "conversation_bindings"@, ItemRewrite::BindingSessions);
    let p6 = rewrite_list(p5, "pending_inbound"@, ItemRewrite::InboundRuntime);
    let p7 = rewrite_list_with_account(p6, account_of(p6));
    obj_or_insert(p7, "last_redacted_error"@, JsonView::Null)
}

/// Fills in the addressing fields of pending deliveries for an account.
pub open spec fn rewrite_list_with_account(p: Seq<(Seq<char>, JsonView)>, account: Seq<char>) -> Seq<
    (Seq<char>, JsonView),
> {
    let i = key_at(p, "pending_deliveries"@);
    if 0 <= i < p.len() {
        match p[i].1 {
            JsonView::Array(items) => p.update(
                i,
                (
                    p[i].0,
                    JsonView::Array(
                        items.map_values(
                            |x: JsonView|
                                match x {
                                    JsonView::Object(q) => JsonView::Object(
                                        fill_defaults(q, delivery_defaults(account)),
                                    ),
                                    _ => x,
                                },
                        ),
                    ),
                ),
            ),
            _ => p,
        }
    } else {
        p
    }
}

/// What migration makes of a state document.
pub enum Migration {
    /// Already at the current schema: kept as it is.
    Current,
    /// Written by a newer schema: refused.
    Future(u32),
    /// Older, but not an object: refused.
    NotObject,
    /// Older, with a pending inbound item that lacks its payload: refused.
    LegacyPending,
    /// Older: brought forward to these members.
    Upgraded(Seq<(Seq<char>, JsonView)>),
}

pub open spec fn migration(v: JsonView, now: u64) -> Migration {
    match declared_schema(v) {
        Some(n) if n == 6 => Migration::Current,
        Some(n) if n > 6 => Migration::Future(n),
        _ => match v {
            JsonView::Object(p) => if lacks_pending_payload(p) {
                Migration::LegacyPending
            } else {
                Migration::Upgraded(upgraded_members(p, now))
            },
            _ => Migration::NotObject,
        },
    }
}


pub open spec fn defaults_view(d: Seq<(&str, JsonValue)>) -> Seq<(Seq<char>, JsonView)> {
    d.map_values(|e: (&str, JsonValue)| (e.0@, jv(e.1)))
}

fn fill_defaults_exec(pairs: &mut Vec<(String, JsonValue)>, defaults: Vec<(&str, JsonValue)>)
    ensures
        pairs_view(final(pairs)@) == fill_defaults(pairs_view(old(pairs)@), defaults_view(defaults@)),
{
    let ghost d = defaults_view(defaults@);
    let mut defaults = defaults;
    let mut k: usize = 0;
    let n = defaults.len();
    assert(d.skip(0) =~= d);
    while defaults.len() > 0
        invariant
            d.len() == n,
            k + defaults@.len() == n,
            defaults_view(defaults@) == d.skip(k as int),
            fill_defaults(pairs_view(old(pairs)@), d) == fill_defaults(pairs_view(pairs@), d.skip(k as int)),
        decreases defaults@.len(),
    {
        let ghost before = defaults@;
        let (key, value) = defaults.remove(0);
        proof {
            assert(defaults@ =~= before.subrange(1, before.len() as int));
            assert(defaults_view(before)[0] == (key@, jv(value)));
            assert(d.skip(k as int).drop_first() =~= d.skip(k + 1));
            assert(defaults_view(defaults@) =~= d.skip(k + 1));
        }
        obj_or_insert_exec(pairs, key, value);
        k = k + 1;
    }
    proof {
        assert(d.skip(k as int) =~= Seq::<(Seq<char>, JsonView)>::empty());
    }
}

fn int_json(n: u64) -> (r: JsonValue)
    ensures
        jv(r) == int_value(n),
{
    JsonValue::Number(JsonNumber::PosInt(n))
}

fn text_json(s: &str) -> (r: JsonValue)
    ensures
        jv(r) == text_value(s@),
{
    JsonValue::Text(owned(s))
}

fn empty_list() -> (r: JsonValue)
    ensures
        jv(r) == JsonView::Array(Seq::empty()),
{
    let items: Vec<JsonValue> = Vec::new();
    proof {
        lemma_array_view(items);
        assert(items_view(items@) =~= Seq::<JsonView>::empty());
    }
    JsonValue::Array(items)
}

fn root_defaults_exec(now: u64) -> (d: Vec<(&'static str, JsonValue)>)
    ensures
        defaults_view(d@) == root_defaults(now),
{
    let d = vec![
        ("created_at_millis", int_json(now)),
        ("updated_at_millis", int_json(now)),
        ("transitioned_at_millis", int_json(now)),
        ("connection_state", text_json("not_configured")),
        ("credential", JsonValue::Null),
        ("cursors", empty_list()),
        ("inbound_receipts", empty_list()),
        ("deliveries", empty_list()),
        ("conversation_bindings", empty_list()),
        ("reply_contexts", empty_list()),
        ("delivery_manifests", empty_list()),
        ("pending_deliveries", empty_list()),
        ("remote_control_requests", empty_list()),
        ("pair_requests", empty_list()),
        ("pending_inbound", empty_list()),
    ];
    assert(defaults_view(d@) =~= root_defaults(now));
    d
}

fn inbound_defaults_exec() -> (d: Vec<(&'static str, JsonValue)>)
    ensures
        defaults_view(d@) == inbound_defaults(),
{
    let d = vec![
        ("direct_message_key", text_json("")),
        ("dispatch_retry_count", int_json(0)),
        ("turn_session_id", JsonValue::Null),
        ("parent_session_id", JsonValue::Null),
        ("next_retry_at_millis", JsonValue::Null),
        ("last_dispatch_error", JsonValue::Null),
        ("lease_owner", JsonValue::Null),
        ("lease_token", JsonValue::Null),
        ("lease_started_at_millis", JsonValue::Null),
        ("lease_expires_at_millis", JsonValue::Null),
    ];
    assert(defaults_view(d@) =~= inbound_defaults());
    d
}

fn delivery_defaults_exec(account: &str) -> (d: Vec<(&'static str, JsonValue)>)
    ensures
        defaults_view(d@) == delivery_defaults(account@),
{
    let d = vec![
        ("account_id", text_json(account)),
        ("peer_id_hash", text_json("peer#00000000")),
        ("direct_message_key", text_json("dm#00000000")),
        ("item_id", text_json("item#00000000")),
        ("session_id", text_json("migrated-delivery-session")),
        ("message_hash", text_json("reply#00000000")),
        ("segment_index", int_json(0)),
        ("total_segments", int_json(1)),
        ("encrypted_payload", JsonValue::Null),
        ("last_status", JsonValue::Null),
        ("last_redacted_error", JsonValue::Null),
        ("next_retry_at_millis", JsonValue::Null),
    ];
    assert(defaults_view(d@) =~= delivery_defaults(account@));
    d
}

fn binding_defaults_exec(session: &str) -> (d: Vec<(&'static str, JsonValue)>)
    ensures
        defaults_view(d@) == binding_defaults(session@),
{
    let d = vec![
        ("root_session_id", text_json(session)),
        ("active_session_id", text_json(session)),
        ("last_completed_session_id", text_json(session)),
    ];
    assert(defaults_view(d@) =~= binding_defaults(session@));
    d
}

/// The text value of the first member named `key`, if it is text.
fn text_member(pairs: &Vec<(String, JsonValue)>, key: &str) -> (r: Option<String>)
    ensures
        match obj_get(pairs_view(pairs@), key@) {
            Some(JsonView::Text(s)) => r is Some && r->0@ == s,
            _ => r is None,
        },
{
    match find_key(pairs, key) {
        Some(i) => {
            assert(pairs_view(pairs@)[i as int] == (pairs@[i as int].0@, jv(pairs@[i as int].1)));
            match &pairs[i].1 {
                JsonValue::Text(s) => Some(s.clone()),
                _ => None,
            }
        },
        None => None,
    }
}

fn rewrite_item(item: JsonValue, how: &ItemRewrite) -> (r: JsonValue)
    ensures
        jv(r) == rewritten_item(jv(item), *how),
{
    match item {
        JsonValue::Object(pairs) => {
            proof {
                lemma_object_view(pairs);
            }
            let mut q = pairs;
            match how {
                ItemRewrite::Schema => {
                    obj_insert_exec(&mut q, "schema_version", int_json(6));
                },
                ItemRewrite::BindingSessions => {
                    let session = text_member(&q, "session_id");
                    if let Some(s) = session {
                        let d = binding_defaults_exec(s.as_str());
                        fill_defaults_exec(&mut q, d);
                    }
                },
                ItemRewrite::InboundRuntime => {
                    let d = inbound_defaults_exec();
                    fill_defaults_exec(&mut q, d);
                },
                ItemRewrite::DeliveryFields(account) => {
                    let d = delivery_defaults_exec(account.as_str());
                    fill_defaults_exec(&mut q, d);
                },
            }
            proof {
                lemma_object_view(q);
            }
            JsonValue::Object(q)
        },
        other => other,
    }
}

fn rewrite_items(items: Vec<JsonValue>, how: &ItemRewrite) -> (out: Vec<JsonValue>)
    ensures
        items_view(out@) == items_view(items@).map_values(|x: JsonView| rewritten_item(x, *how)),
{
    let ghost v = items_view(items@);
    let ghost goal = v.map_values(|x: JsonView| rewritten_item(x, *how));
    let mut rest = items;
    let mut out: Vec<JsonValue> = Vec::new();
    let n = rest.len();
    let mut k: usize = 0;
    assert(v.skip(0) =~= v);
    assert(goal.take(0) =~= Seq::<JsonView>::empty());
    assert(items_view(out@) =~= Seq::<JsonView>::empty());
    while rest.len() > 0
        invariant
            v.len() == n,
            goal == v.map_values(|x: JsonView| rewritten_item(x, *how)),
            k + rest@.len() == n,
            items_view(rest@) == v.skip(k as int),
            items_view(out@) == goal.take(k as int),
        decreases rest@.len(),
    {
        let ghost before = rest@;
        let item = rest.remove(0);
        proof {
            assert(rest@ =~= before.subrange(1, before.len() as int));
            assert(items_view(before)[0] == jv(item));
            assert(items_view(before)[0] == v[k as int]);
            assert(items_view(before).skip(1) =~= v.skip(k + 1));
            assert(items_view(rest@) =~= items_view(before).skip(1));
        }
        let ghost out_before = out@;
        let r = rewrite_item(item, how);
        out.push(r);
        proof {
            assert(goal[k as int] == rewritten_item(v[k as int], *how));
            assert(items_view(out@) =~= items_view(out_before).push(jv(r)));
            assert(goal.take(k + 1) =~= goal.take(k as int).push(goal[k as int]));
            assert(items_view(out@) =~= goal.take(k + 1));
        }
        k = k + 1;
    }
    proof {
        assert(goal.take(k as int) =~= goal);
    }
    out
}

fn rewrite_list_exec(pairs: &mut Vec<(String, JsonValue)>, key: &str, how: &ItemRewrite)
    ensures
        pairs_view(final(pairs)@) == rewrite_list(pairs_view(old(pairs)@), key@, *how),
{
    match find_key(pairs, key) {
        Some(i) => {
            let ghost before = pairs@;
            let entry = pairs.remove(i);
            let (k, value) = entry;
            match value {
                JsonValue::Array(items) => {
                    proof {
                        lemma_array_view(items);
                    }
                    let mapped = rewrite_items(items, how);
                    proof {
                        lemma_array_view(mapped);
                    }
                    pairs.insert(i, (k, JsonValue::Array(mapped)));
                    assert(pairs_view(pairs@) =~= rewrite_list(pairs_view(before), key@, *how));
                },
                other => {
                    pairs.insert(i, (k, other));
                    assert(pairs@ =~= before);
                    assert(pairs_view(pairs@) =~= rewrite_list(pairs_view(before), key@, *how));
                },
            }
        },
        None => {},
    }
}

fn stamp_lists_exec(pairs: &mut Vec<(String, JsonValue)>)
    ensures
        pairs_view(final(pairs)@) == stamp_lists(pairs_view(old(pairs)@), list_keys()),
{
    let keys = vec![
        "cursors",
        "inbound_receipts",
        "deliveries",
        "conversation_bindings",
        "reply_contexts",
        "delivery_manifests",
        "pending_deliveries",
        "remote_control_requests",
        "pair_requests",
        "pending_inbound",
    ];
    let ghost ks = keys@.map_values(|s: &str| s@);
    assert(ks =~= list_keys());
    assert(ks.skip(0) =~= ks);
    let mut k: usize = 0;
    while k < keys.len()
        invariant
            k <= keys@.len(),
            ks == keys@.map_values(|s: &str| s@),
            stamp_lists(pairs_view(old(pairs)@), ks) == stamp_lists(pairs_view(pairs@), ks.skip(k as int)),
        decreases keys@.len() - k,
    {
        proof {
            assert(ks.skip(k as int)[0] == keys@[k as int]@);
            assert(ks.skip(k as int).drop_first() =~= ks.skip(k + 1));
        }
        rewrite_list_exec(pairs, keys[k], &ItemRewrite::Schema);
        k = k + 1;
    }
    proof {
        assert(ks.skip(k as int) =~= Seq::<Seq<char>>::empty());
    }
}

fn carries_payload_exec(item: &JsonValue) -> (r: bool)
    ensures
        r == carries_payload(jv(*item)),
{
    match item {
        JsonValue::Object(q) => {
            proof {
                lemma_object_view(*q);
            }
            match find_key(q, "encrypted_payload") {
                Some(i) => {
                    assert(pairs_view(q@)[i as int] == (q@[i as int].0@, jv(q@[i as int].1)));
                    match &q[i].1 {
                        JsonValue::Null => false,
                        _ => true,
                    }
                },
                None => false,
            }
        },
        _ => false,
    }
}

fn lacks_pending_payload_exec(pairs: &Vec<(String, JsonValue)>) -> (r: bool)
    ensures
        r == lacks_pending_payload(pairs_view(pairs@)),
{
    match find_key(pairs, "pending_inbound") {
        Some(i) => {
            assert(pairs_view(pairs@)[i as int] == (pairs@[i as int].0@, jv(pairs@[i as int].1)));
            match &pairs[i].1 {
                JsonValue::Array(items) => {
                    proof {
                        lemma_array_view(*items);
                        assert(obj_get(pairs_view(pairs@), "pending_inbound"@) == Some(
                            JsonView::Array(items_view(items@)),
                        ));
                    }
                    let mut j: usize = 0;
                    while j < items.len()
                        invariant
                            j <= items@.len(),
                            obj_get(pairs_view(pairs@), "pending_inbound"@) == Some(
                                JsonView::Array(items_view(items@)),
                            ),
                            forall|m: int|
                                0 <= m < j ==> carries_payload(#[trigger] items_view(items@)[m]),
                        decreases items@.len() - j,
                    {
                        if !carries_payload_exec(&items[j]) {
                            proof {
                                let iv = items_view(items@);
                                assert(0 <= j < iv.len() && !carries_payload(iv[j as int]));
                                assert(some_lacks_payload(iv));
                            }
                            return true;
                        }
                        j = j + 1;
                    }
                    false
                },
                _ => false,
            }
        },
        None => false,
    }
}

fn declared_schema_exec(value: &JsonValue) -> (r: Option<u32>)
    ensures
        r == declared_schema(jv(*value)),
{
    match value {
        JsonValue::Object(pairs) => {
            proof {
                lemma_object_view(*pairs);
            }
            match find_key(pairs, "schema_version") {
                Some(i) => {
                    assert(pairs_view(pairs@)[i as int] == (
                        pairs@[i as int].0@,
                        jv(pairs@[i as int].1),
                    ));
                    match &pairs[i].1 {
                        JsonValue::Number(JsonNumber::PosInt(n)) => Some(*n as u32),
                        _ => None,
                    }
                },
                None => None,
            }
        },
        _ => None,
    }
}

proof fn lemma_delivery_rewrite(p: Seq<(Seq<char>, JsonView)>, account: String)
    ensures
        rewrite_list(p, "pending_deliveries"@, ItemRewrite::DeliveryFields(account))
            == rewrite_list_with_account(p, account@),
{
    let i = key_at(p, "pending_deliveries"@);
    if 0 <= i < p.len() {
        if let JsonView::Array(items) = p[i].1 {
            let a = items.map_values(
                |x: JsonView| rewritten_item(x, ItemRewrite::DeliveryFields(account)),
            );
            let b = items.map_values(
                |x: JsonView|
                    match x {
                        JsonView::Object(q) => JsonView::Object(
                            fill_defaults(q, delivery_defaults(account@)),
                        ),
                        _ => x,
                    },
            );
            assert(a =~= b);
        }
    }
}

impl WeixinStateMigration {
    /// Brings a state document to the current schema.  A document at the
    /// current schema is kept as it is and one from a newer schema is
    /// refused.  An older one must be an object whose pending inbound items
    /// all carry their payload; it gets the current version, the members
    /// and record lists it lacks, the current version on every record, the
    /// session, dispatch and addressing fields that newer records have, and
    /// loses its `session_bindings`.
    pub fn migrate_value(value: JsonValue, now_millis: u64) -> (r: Result<JsonValue, WeixinStateError>)
        ensures
            match migration(jv(value), now_millis) {
                Migration::Current => r is Ok && jv(r->Ok_0) == jv(value),
                Migration::Future(found) => r == Err::<JsonValue, WeixinStateError>(
                    WeixinStateError::FutureSchema { found, supported: WEIXIN_STATE_SCHEMA_VERSION },
                ),
                Migration::NotObject => r matches Err(WeixinStateError::InvalidRecord { reason })
                    && reason@ == "state root must be an object"@,
                Migration::LegacyPending => r matches Err(
                    WeixinStateError::InvalidRecord { reason },
                ) && reason@ == "legacy pending inbound lacks encrypted payload"@,
                Migration::Upgraded(members) => r is Ok && jv(r->Ok_0) == JsonView::Object(members),
            },
    {
        let declared = declared_schema_exec(&value);
        if let Some(found) = declared {
            if found == WEIXIN_STATE_SCHEMA_VERSION {
                return Ok(value);
            }
            if found > WEIXIN_STATE_SCHEMA_VERSION {
                return Err(
                    WeixinStateError::FutureSchema {
                        found,
                        supported: WEIXIN_STATE_SCHEMA_VERSION,
                    },
                );
            }
        }
        match value {
            JsonValue::Object(members) => {
                proof {
                    lemma_object_view(members);
                }
                let mut pairs = members;
                if lacks_pending_payload_exec(&pairs) {
                    return Err(
                        WeixinStateError::InvalidRecord {
                            reason: "legacy pending inbound lacks encrypted payload",
                        },
                    );
                }
                obj_insert_exec(&mut pairs, "schema_version", int_json(6));
                let roots = root_defaults_exec(now_millis);
                fill_defaults_exec(&mut pairs, roots);
                obj_remove_exec(&mut pairs, "session_bindings");
                stamp_lists_exec(&mut pairs);
                rewrite_list_exec(&mut pairs, "conversation_bindings", &ItemRewrite::BindingSessions);
                rewrite_list_exec(&mut pairs, "pending_inbound", &ItemRewrite::InboundRuntime);
                let account = match text_member(&pairs, "account_id") {
                    Some(a) => a,
                    None => String::new(),
                };
                let ghost before_deliveries = pairs_view(pairs@);
                proof {
                    lemma_delivery_rewrite(before_deliveries, account);
                }
                rewrite_list_exec(&mut pairs, "pending_deliveries", &ItemRewrite::DeliveryFields(account));
                obj_or_insert_exec(&mut pairs, "last_redacted_error", JsonValue::Null);
                proof {
                    lemma_object_view(pairs);
                }
                Ok(JsonValue::Object(pairs))
            },
            _ => Err(WeixinStateError::InvalidRecord { reason: "state root must be an object" }),
        }
    }
}


// ----- migration settles -----

proof fn lemma_fill_keeps(p: Seq<(Seq<char>, JsonView)>, d: Seq<(Seq<char>, JsonView)>, k: Seq<char>)
    requires
        obj_get(p, k) is Some,
    ensures
        obj_get(fill_defaults(p, d), k) == obj_get(p, k),
    decreases d.len(),
{
    if d.len() > 0 {
        lemma_get_or_insert_kept(p, d[0].0, d[0].1, k);
        lemma_fill_keeps(obj_or_insert(p, d[0].0, d[0].1), d.drop_first(), k);
    }
}

proof fn lemma_rewrite_keeps(p: Seq<(Seq<char>, JsonView)>, key: Seq<char>, how: ItemRewrite, k: Seq<char>)
    requires
        key != k,
    ensures
        obj_get(rewrite_list(p, key, how), k) == obj_get(p, k),
{
    let i = key_at(p, key);
    lemma_first_index(p, has_key(key));
    if 0 <= i < p.len() {
        if let JsonView::Array(items) = p[i].1 {
            lemma_get_update_other(
                p,
                i,
                JsonView::Array(items.map_values(|x: JsonView| rewritten_item(x, how))),
                k,
            );
        }
    }
}

proof fn lemma_account_rewrite_keeps(p: Seq<(Seq<char>, JsonView)>, account: Seq<char>, k: Seq<char>)
    requires
        "pending_deliveries"@ != k,
    ensures
        obj_get(rewrite_list_with_account(p, account), k) == obj_get(p, k),
{
    let key = "pending_deliveries"@;
    let i = key_at(p, key);
    lemma_first_index(p, has_key(key));
    if 0 <= i < p.len() {
        if let JsonView::Array(items) = p[i].1 {
            lemma_get_update_other(
                p,
                i,
                JsonView::Array(
                    items.map_values(
                        |x: JsonView|
                            match x {
                                JsonView::Object(q) => JsonView::Object(
                                    fill_defaults(q, delivery_defaults(account)),
                                ),
                                _ => x,
                            },
                    ),
                ),
                k,
            );
        }
    }
}

proof fn lemma_stamp_keeps(p: Seq<(Seq<char>, JsonView)>, keys: Seq<Seq<char>>, k: Seq<char>)
    requires
        forall|j: int| 0 <= j < keys.len() ==> keys[j] != k,
    ensures
        obj_get(stamp_lists(p, keys), k) == obj_get(p, k),
    decreases keys.len(),
{
    if keys.len() > 0 {
        assert(keys[0] != k);
        lemma_rewrite_keeps(p, keys[0], ItemRewrite::Schema, k);
        let rest = keys.drop_first();
        assert forall|j: int| 0 <= j < rest.len() implies rest[j] != k by {
            assert(rest[j] == keys[j + 1]);
        }
        lemma_stamp_keeps(rewrite_list(p, keys[0], ItemRewrite::Schema), rest, k);
    }
}

/// Migration settles: a state it accepts comes out declaring the current
/// schema, so migrating the result again, at any time, keeps it as it is.
pub proof fn lemma_migration_settles(v: JsonView, now: u64, later: u64)
    ensures
        match migration(v, now) {
            Migration::Upgraded(m) => migration(JsonView::Object(m), later) is Current,
            Migration::Current => migration(v, later) is Current,
            _ => true,
        },
{
    if let Migration::Upgraded(m) = migration(v, now) {
        if let JsonView::Object(p) = v {
            let k = "schema_version"@;
            reveal_strlit("schema_version");
            reveal_strlit("session_bindings");
            reveal_strlit("conversation_bindings");
            reveal_strlit("pending_inbound");
            reveal_strlit("pending_deliveries");
            reveal_strlit("cursors");
            reveal_strlit("inbound_receipts");
            reveal_strlit("deliveries");
            reveal_strlit("reply_contexts");
            reveal_strlit("delivery_manifests");
            reveal_strlit("remote_control_requests");
            reveal_strlit("pair_requests");
            let p1 = obj_insert(p, k, int_value(6));
            lemma_get_insert_same(p, k, int_value(6));
            let p2 = fill_defaults(p1, root_defaults(now));
            lemma_fill_keeps(p1, root_defaults(now), k);
            let p3 = obj_remove(p2, "session_bindings"@);
            assert("session_bindings"@ != k) by {
                assert("session_bindings"@.len() != k.len());
            }
            lemma_get_remove_other(p2, "session_bindings"@, k);
            let keys = list_keys();
            assert forall|j: int| 0 <= j < keys.len() implies keys[j] != k by {
                assert(keys[j][0] != k[0] || keys[j].len() != k.len());
            }
            let p4 = stamp_lists(p3, keys);
            lemma_stamp_keeps(p3, keys, k);
            assert("conversation_bindings"@ != k) by {
                assert("conversation_bindings"@.len() != k.len());
            }
            let p5 = rewrite_list(p4, "conversation_bindings"@, ItemRewrite::BindingSessions);
            lemma_rewrite_keeps(p4, "conversation_bindings"@, ItemRewrite::BindingSessions, k);
            assert("pending_inbound"@ != k) by {
                assert("pending_inbound"@.len() != k.len());
            }
            let p6 = rewrite_list(p5, "pending_inbound"@, ItemRewrite::InboundRuntime);
            lemma_rewrite_keeps(p5, "pending_inbound"@, ItemRewrite::InboundRuntime, k);
            assert("pending_deliveries"@ != k) by {
                assert("pending_deliveries"@.len() != k.len());
            }
            let p7 = rewrite_list_with_account(p6, account_of(p6));
            lemma_account_rewrite_keeps(p6, account_of(p6), k);
            lemma_get_or_insert_kept(p7, "last_redacted_error"@, JsonView::Null, k);
            assert(m == obj_or_insert(p7, "last_redacted_error"@, JsonView::Null));
            assert(obj_get(m, k) == Some(int_value(6)));
        }
    }
}

} // verus!
