use vstd::prelude::*;
use crate::seqs::{first_index, lemma_first_index, lemma_first_index_at, lemma_first_index_none};
use crate::text::str_eq;

verus! {

/// A JSON number.  Integers that fit in 64 bits are held exactly; any other
/// number is held as its decimal text.
#[derive(Clone, Debug, PartialEq)]
pub enum JsonNumber {
    /// A non-negative integer.
    PosInt(u64),
    /// A negative integer.
    NegInt(i64),
    /// Any other number, as written.
    Float(String),
}

/// A JSON document.  An object is its list of members in order; looking a
/// key up finds its first member.
#[derive(Debug, PartialEq)]
pub enum JsonValue {
    Null,
    Bool(bool),
    Number(JsonNumber),
    Text(String),
    Array(Vec<JsonValue>),
    Object(Vec<(String, JsonValue)>),
}

/// The mathematical value of a JSON document.
pub enum JsonView {
    Null,
    Bool(bool),
    PosInt(u64),
    NegInt(i64),
    Float(Seq<char>),
    Text(Seq<char>),
    Array(Seq<JsonView>),
    Object(Seq<(Seq<char>, JsonView)>),
}

pub open spec fn jv(v: JsonValue) -> JsonView
    decreases v,
{
    match v {
        JsonValue::Null => JsonView::Null,
        JsonValue::Bool(b) => JsonView::Bool(b),
        JsonValue::Number(JsonNumber::PosInt(n)) => JsonView::PosInt(n),
        JsonValue::Number(JsonNumber::NegInt(n)) => JsonView::NegInt(n),
        JsonValue::Number(JsonNumber::Float(s)) => JsonView::Float(s@),
        JsonValue::Text(s) => JsonView::Text(s@),
        JsonValue::Array(items) => JsonView::Array(
            Seq::new(
                items@.len(),
                |i: int|
                    if 0 <= i < items@.len() {
                        jv(items@[i])
                    } else {
                        JsonView::Null
                    },
            ),
        ),
        JsonValue::Object(pairs) => JsonView::Object(
            Seq::new(
                pairs@.len(),
                |i: int|
                    if 0 <= i < pairs@.len() {
                        (pairs@[i].0@, jv(pairs@[i].1))
                    } else {
                        (Seq::empty(), JsonView::Null)
                    },
            ),
        ),
    }
}

/// The values of a list of documents.
pub open spec fn items_view(items: Seq<JsonValue>) -> Seq<JsonView> {
    items.map_values(|x: JsonValue| jv(x))
}

/// The members of an object, by value.
pub open spec fn pairs_view(pairs: Seq<(String, JsonValue)>) -> Seq<(Seq<char>, JsonView)> {
    pairs.map_values(|e: (String, JsonValue)| (e.0@, jv(e.1)))
}

pub proof fn lemma_array_view(items: Vec<JsonValue>)
    ensures
        jv(JsonValue::Array(items)) == JsonView::Array(items_view(items@)),
{
    let v = jv(JsonValue::Array(items));
    assert(v is Array);
    assert(v->Array_0 =~= items_view(items@));
}

pub proof fn lemma_object_view(pairs: Vec<(String, JsonValue)>)
    ensures
        jv(JsonValue::Object(pairs)) == JsonView::Object(pairs_view(pairs@)),
{
    let v = jv(JsonValue::Object(pairs));
    assert(v is Object);
    assert(v->Object_0 =~= pairs_view(pairs@));
}

// ----- objects as member lists -----

pub open spec fn has_key(key: Seq<char>) -> spec_fn((Seq<char>, JsonView)) -> bool {
    |e: (Seq<char>, JsonView)| e.0 == key
}

/// Position of the first member named `key`, or -1.
pub open spec fn key_at(p: Seq<(Seq<char>, JsonView)>, key: Seq<char>) -> int {
    first_index(p, has_key(key))
}

/// `Map::get`: the value of the first member named `key`.
pub open spec fn obj_get(p: Seq<(Seq<char>, JsonView)>, key: Seq<char>) -> Option<JsonView> {
    let i = key_at(p, key);
    if 0 <= i < p.len() {
        Some(p[i].1)
    } else {
        None
    }
}

/// `Map::insert`: sets the value of `key`, adding a member when there is
/// none.
pub open spec fn obj_insert(p: Seq<(Seq<char>, JsonView)>, key: Seq<char>, v: JsonView) -> Seq<
    (Seq<char>, JsonView),
> {
    let i = key_at(p, key);
    if 0 <= i < p.len() {
        p.update(i, (key, v))
    } else {
        p.push((key, v))
    }
}

/// `Map::entry(..).or_insert(..)`: adds a member only when `key` is absent.
pub open spec fn obj_or_insert(p: Seq<(Seq<char>, JsonView)>, key: Seq<char>, v: JsonView) -> Seq<
    (Seq<char>, JsonView),
> {
    if key_at(p, key) >= 0 {
        p
    } else {
        p.push((key, v))
    }
}

/// `Map::remove`: drops the members named `key`.
pub open spec fn obj_remove(p: Seq<(Seq<char>, JsonView)>, key: Seq<char>) -> Seq<
    (Seq<char>, JsonView),
>
    decreases p.len(),
{
    if p.len() == 0 {
        p
    } else {
        let rest = obj_remove(p.drop_last(), key);
        if p.last().0 != key {
            rest.push(p.last())
        } else {
            rest
        }
    }
}

/// Position of the first member named `key`.
pub fn find_key(pairs: &Vec<(String, JsonValue)>, key: &str) -> (r: Option<usize>)
    ensures
        match r {
            Some(i) => i == key_at(pairs_view(pairs@), key@) && i < pairs@.len(),
            None => key_at(pairs_view(pairs@), key@) == -1,
        },
{
    let ghost p = pairs_view(pairs@);
    let mut i: usize = 0;
    while i < pairs.len()
        invariant
            p == pairs_view(pairs@),
            i <= pairs@.len(),
            forall|j: int| 0 <= j < i ==> !(has_key(key@))(#[trigger] p[j]),
        decreases pairs@.len() - i,
    {
        if str_eq(pairs[i].0.as_str(), key) {
            proof {
                lemma_first_index_at(p, has_key(key@), i as int);
            }
            return Some(i);
        }
        i = i + 1;
    }
    proof {
        lemma_first_index_none(p, has_key(key@));
    }
    None
}

/// `Map::entry(key).or_insert(value)`.
pub fn obj_or_insert_exec(pairs: &mut Vec<(String, JsonValue)>, key: &str, value: JsonValue)
    ensures
        pairs_view(final(pairs)@) == obj_or_insert(pairs_view(old(pairs)@), key@, jv(value)),
{
    match find_key(pairs, key) {
        Some(_) => {},
        None => {
            let k = crate::text::owned(key);
            pairs.push((k, value));
            assert(pairs_view(pairs@) =~= pairs_view(old(pairs)@).push((key@, jv(value))));
        },
    }
}

/// `Map::insert(key, value)`.
pub fn obj_insert_exec(pairs: &mut Vec<(String, JsonValue)>, key: &str, value: JsonValue)
    ensures
        pairs_view(final(pairs)@) == obj_insert(pairs_view(old(pairs)@), key@, jv(value)),
{
    match find_key(pairs, key) {
        Some(i) => {
            let old_entry = pairs.remove(i);
            let k = old_entry.0;
            pairs.insert(i, (k, value));
            proof {
                lemma_first_index(pairs_view(old(pairs)@), has_key(key@));
                assert(pairs_view(pairs@) =~= pairs_view(old(pairs)@).update(
                    i as int,
                    (key@, jv(value)),
                ));
            }
        },
        None => {
            let k = crate::text::owned(key);
            pairs.push((k, value));
            assert(pairs_view(pairs@) =~= pairs_view(old(pairs)@).push((key@, jv(value))));
        },
    }
}

/// `Map::remove(key)`.
pub fn obj_remove_exec(pairs: &mut Vec<(String, JsonValue)>, key: &str)
    ensures
        pairs_view(final(pairs)@) == obj_remove(pairs_view(old(pairs)@), key@),
{
    let ghost p = pairs_view(pairs@);
    let mut out: Vec<(String, JsonValue)> = Vec::new();
    let mut k: usize = 0;
    let n = pairs.len();
    let ghost total = n as nat;
    while pairs.len() > 0
        invariant
            p.len() == total,
            total <= usize::MAX,
            k + pairs@.len() == total,
            pairs_view(pairs@) == p.skip(k as int),
            pairs_view(out@) == obj_remove(p.take(k as int), key@),
        decreases pairs@.len(),
    {
        let ghost before = pairs@;
        let entry = pairs.remove(0);
        proof {
            assert(p.skip(k as int)[0] == p[k as int]);
            assert(pairs@ =~= before.subrange(1, before.len() as int));
            assert(pairs_view(before).skip(1) =~= p.skip(k + 1));
            assert(pairs_view(pairs@) =~= pairs_view(before).skip(1));
            assert(p.take(k + 1).drop_last() =~= p.take(k as int));
        }
        if !str_eq(entry.0.as_str(), key) {
            out.push(entry);
            proof {
                assert(pairs_view(out@) =~= obj_remove(p.take(k as int), key@).push(p[k as int]));
            }
        } else {
            proof {
                assert(pairs_view(out@) =~= obj_remove(p.take(k as int), key@));
            }
        }
        k = k + 1;
    }
    proof {
        assert(p.take(k as int) =~= p);
    }
    *pairs = out;
}


// ----- lookups after edits -----

proof fn lemma_first_index_same<T>(s: Seq<T>, t: Seq<T>, p: spec_fn(T) -> bool)
    requires
        s.len() == t.len(),
        forall|j: int| 0 <= j < s.len() ==> p(s[j]) == p(t[j]),
    ensures
        first_index(s, p) == first_index(t, p),
{
    lemma_first_index(s, p);
    let r = first_index(s, p);
    if r >= 0 {
        assert forall|j: int| 0 <= j < r implies !p(#[trigger] t[j]) by {
            assert(!p(s[j]));
        }
        lemma_first_index_at(t, p, r);
    } else {
        assert forall|j: int| 0 <= j < t.len() implies !p(#[trigger] t[j]) by {
            assert(!p(s[j]));
        }
        lemma_first_index_none(t, p);
    }
}

/// A member added at the end is found only when no earlier member has its
/// key.
pub proof fn lemma_get_push(s: Seq<(Seq<char>, JsonView)>, x: (Seq<char>, JsonView), k: Seq<char>)
    ensures
        obj_get(s.push(x), k) == if obj_get(s, k) is Some {
            obj_get(s, k)
        } else if x.0 == k {
            Some(x.1)
        } else {
            None::<JsonView>
        },
{
    let t = s.push(x);
    let p = has_key(k);
    lemma_first_index(s, p);
    let r = first_index(s, p);
    if r >= 0 {
        assert forall|j: int| 0 <= j < r implies !p(#[trigger] t[j]) by {
            assert(t[j] == s[j]);
        }
        assert(t[r] == s[r]);
        lemma_first_index_at(t, p, r);
    } else if x.0 == k {
        assert forall|j: int| 0 <= j < s.len() implies !p(#[trigger] t[j]) by {
            assert(t[j] == s[j]);
        }
        assert(t[s.len() as int] == x);
        lemma_first_index_at(t, p, s.len() as int);
    } else {
        assert forall|j: int| 0 <= j < t.len() implies !p(#[trigger] t[j]) by {
            if j < s.len() {
                assert(t[j] == s[j]);
            }
        }
        lemma_first_index_none(t, p);
    }
}

/// After `insert`, the key holds the inserted value.
pub proof fn lemma_get_insert_same(p: Seq<(Seq<char>, JsonView)>, k: Seq<char>, v: JsonView)
    ensures
        obj_get(obj_insert(p, k, v), k) == Some(v),
{
    let i = key_at(p, k);
    lemma_first_index(p, has_key(k));
    if 0 <= i < p.len() {
        let t = p.update(i, (k, v));
        lemma_first_index_same(p, t, has_key(k));
    } else {
        lemma_get_push(p, (k, v), k);
    }
}

/// `or_insert` never changes a value that is already there.
pub proof fn lemma_get_or_insert_kept(p: Seq<(Seq<char>, JsonView)>, k2: Seq<char>, v: JsonView, k: Seq<char>)
    requires
        obj_get(p, k) is Some,
    ensures
        obj_get(obj_or_insert(p, k2, v), k) == obj_get(p, k),
{
    if key_at(p, k2) < 0 {
        lemma_get_push(p, (k2, v), k);
    }
}

/// Removing one key leaves every other key's value as it was.
pub proof fn lemma_get_remove_other(p: Seq<(Seq<char>, JsonView)>, k2: Seq<char>, k: Seq<char>)
    requires
        k != k2,
    ensures
        obj_get(obj_remove(p, k2), k) == obj_get(p, k),
    decreases p.len(),
{
    if p.len() > 0 {
        let q = p.drop_last();
        let x = p.last();
        lemma_get_remove_other(q, k2, k);
        assert(q.push(x) =~= p);
        lemma_get_push(q, x, k);
        if x.0 != k2 {
            lemma_get_push(obj_remove(q, k2), x, k);
        }
    }
}

/// Changing the value of a member leaves the values of other keys as they
/// were.
pub proof fn lemma_get_update_other(p: Seq<(Seq<char>, JsonView)>, i: int, w: JsonView, k: Seq<char>)
    requires
        0 <= i < p.len(),
        p[i].0 != k,
    ensures
        obj_get(p.update(i, (p[i].0, w)), k) == obj_get(p, k),
{
    let t = p.update(i, (p[i].0, w));
    lemma_first_index_same(p, t, has_key(k));
    lemma_first_index(p, has_key(k));
}

} // verus!
