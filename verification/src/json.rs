//! JSON values as RPC handlers return them, and the two envelope rules:
//! the log envelope that wraps a handler's value, and the unwrapping of the
//! `result` / `data` envelopes.
use vstd::prelude::*;
use crate::text::{owned, str_eq};

verus! {

/// A JSON document. A number is held as the decimal text that a JSON
/// writer prints for it; an object as its entries, in order.
#[derive(Debug, PartialEq, Eq)]
pub enum JsonValue {
    Null,
    Bool(bool),
    Number(String),
    Str(String),
    Array(Vec<JsonValue>),
    Object(Vec<(String, JsonValue)>),
}

/// The index of the first entry whose key is `key`, or -1 when none is.
pub open spec fn key_index(entries: Seq<(String, JsonValue)>, key: Seq<char>) -> int
    decreases entries.len(),
{
    if entries.len() == 0 {
        -1
    } else if entries[0].0@ == key {
        0
    } else {
        let r = key_index(entries.drop_first(), key);
        if r < 0 {
            -1
        } else {
            r + 1
        }
    }
}

/// `value.get(key)`: the member `key` of an object, and nothing for any
/// other kind of value.
pub open spec fn member(value: JsonValue, key: Seq<char>) -> Option<JsonValue> {
    match value {
        JsonValue::Object(entries) => {
            let i = key_index(entries@, key);
            if 0 <= i < entries@.len() {
                Some(entries@[i].1)
            } else {
                None
            }
        },
        _ => None,
    }
}

/// What remains of `value` once every `result` / `data` envelope is taken
/// off; `result` is looked at before `data`.
pub open spec fn unwrapped(value: JsonValue) -> JsonValue
    decreases value,
{
    match value {
        JsonValue::Object(entries) => {
            let r = key_index(entries@, "result"@);
            if 0 <= r < entries@.len() {
                unwrapped(entries@[r].1)
            } else {
                let d = key_index(entries@, "data"@);
                if 0 <= d < entries@.len() {
                    unwrapped(entries@[d].1)
                } else {
                    value
                }
            }
        },
        _ => value,
    }
}

proof fn lemma_key_index_first(entries: Seq<(String, JsonValue)>, key: Seq<char>, i: int)
    requires
        0 <= i <= entries.len(),
        forall|k: int| 0 <= k < i ==> (#[trigger] entries[k]).0@ != key,
        i == entries.len() || entries[i].0@ == key,
    ensures
        key_index(entries, key) == if i == entries.len() { -1 } else { i },
    decreases i,
{
    if i > 0 {
        let t = entries.drop_first();
        assert(entries[0].0@ != key);
        assert forall|k: int| 0 <= k < i - 1 implies (#[trigger] t[k]).0@ != key by {
            assert(t[k] == entries[k + 1]);
        }
        if i < entries.len() {
            assert(t[i - 1] == entries[i]);
        }
        lemma_key_index_first(t, key, i - 1);
    }
}

/// The position of the first entry keyed `key`.
fn find_key(entries: &Vec<(String, JsonValue)>, key: &str) -> (r: Option<usize>)
    ensures
        match r {
            Some(i) => i < entries.len() && i as int == key_index(entries@, key@),
            None => key_index(entries@, key@) == -1,
        },
{
    let mut i: usize = 0;
    while i < entries.len()
        invariant
            i <= entries.len(),
            forall|k: int| 0 <= k < i ==> (#[trigger] entries@[k]).0@ != key@,
        decreases entries.len() - i,
    {
        if str_eq(entries[i].0.as_str(), key) {
            proof {
                lemma_key_index_first(entries@, key@, i as int);
            }
            return Some(i);
        }
        i += 1;
    }
    proof {
        lemma_key_index_first(entries@, key@, i as int);
    }
    None
}

/// Takes off the optional log and API envelopes that RPC handlers put
/// around their values: while the value has a `result` member, or else a
/// `data` member, descend into it.
pub fn unwrap_rpc(value: &JsonValue) -> (r: &JsonValue)
    ensures
        *r == unwrapped(*value),
    decreases value,
{
    match value {
        JsonValue::Object(entries) => {
            match find_key(entries, "result") {
                Some(i) => unwrap_rpc(&entries[i].1),
                None => match find_key(entries, "data") {
                    Some(i) => unwrap_rpc(&entries[i].1),
                    None => value,
                },
            }
        },
        _ => value,
    }
}


/// `items` are the strings `logs`, in order, as JSON strings.
pub open spec fn is_string_array(items: Seq<JsonValue>, logs: Seq<String>) -> bool {
    &&& items.len() == logs.len()
    &&& forall|i: int|
        0 <= i < items.len() ==> (#[trigger] items[i] matches JsonValue::Str(t) && t@ == logs[i]@)
}

/// `r` is `value` under the log envelope for `logs`: `value` itself when
/// there are no logs, and otherwise `{ "result": value, "logs": logs }`.
pub open spec fn is_log_envelope(r: JsonValue, value: JsonValue, logs: Seq<String>) -> bool {
    if logs.len() == 0 {
        r == value
    } else {
        &&& r matches JsonValue::Object(entries)
        &&& entries@.len() == 2
        &&& entries@[0].0@ == "result"@
        &&& entries@[0].1 == value
        &&& entries@[1].0@ == "logs"@
        &&& entries@[1].1 matches JsonValue::Array(items)
        &&& is_string_array(items@, logs)
    }
}

/// The log envelope of an already-serialized handler value: the value
/// itself when `logs` is empty, and `{ "result": value, "logs": logs }`
/// otherwise. So the shape of a response follows its log vector.
pub fn apply_log_envelope(value: JsonValue, logs: Vec<String>) -> (r: JsonValue)
    ensures
        is_log_envelope(r, value, logs@),
{
    if logs.len() == 0 {
        return value;
    }
    let mut items: Vec<JsonValue> = Vec::new();
    let mut i: usize = 0;
    while i < logs.len()
        invariant
            i <= logs.len(),
            items@.len() == i,
            forall|k: int|
                0 <= k < i ==> (#[trigger] items@[k] matches JsonValue::Str(t) && t@ == logs@[k]@),
        decreases logs.len() - i,
    {
        items.push(JsonValue::Str(logs[i].clone()));
        i += 1;
    }
    let mut entries: Vec<(String, JsonValue)> = Vec::new();
    entries.push((owned("result"), value));
    entries.push((owned("logs"), JsonValue::Array(items)));
    JsonValue::Object(entries)
}

/// Unwrapping sees through the log envelope: whatever the logs, unwrapping
/// an enveloped value gives what unwrapping the bare value gives.
pub proof fn law_unwrap_sees_through_log_envelope(r: JsonValue, value: JsonValue, logs: Seq<String>)
    requires
        is_log_envelope(r, value, logs),
    ensures
        unwrapped(r) == unwrapped(value),
{
    if logs.len() > 0 {
        if let JsonValue::Object(entries) = r {
            assert(key_index(entries@, "result"@) == 0);
        }
    }
}

/// Unwrapping is idempotent: an unwrapped value has no envelope left.
pub proof fn law_unwrap_idempotent(value: JsonValue)
    ensures
        unwrapped(unwrapped(value)) == unwrapped(value),
        member(unwrapped(value), "result"@) is None,
        member(unwrapped(value), "data"@) is None,
    decreases value,
{
    if let JsonValue::Object(entries) = value {
        let r = key_index(entries@, "result"@);
        if 0 <= r < entries@.len() {
            law_unwrap_idempotent(entries@[r].1);
        } else {
            let d = key_index(entries@, "data"@);
            if 0 <= d < entries@.len() {
                law_unwrap_idempotent(entries@[d].1);
            } else {
                lemma_key_index_range(entries@, "result"@);
                lemma_key_index_range(entries@, "data"@);
            }
        }
    }
}

proof fn lemma_key_index_range(entries: Seq<(String, JsonValue)>, key: Seq<char>)
    ensures
        -1 <= key_index(entries, key) < entries.len(),
    decreases entries.len(),
{
    if entries.len() > 0 {
        lemma_key_index_range(entries.drop_first(), key);
    }
}

} // verus!
