//! Error-reporting events as the observability filters see them, and the
//! fixtures that build the events and bodies those filters are tried on.
use vstd::prelude::*;
use crate::agents::opt_str;
use crate::text::{append_str, owned};

verus! {

/// The tags of an event: each insertion replaces an earlier value under
/// the same key.
pub open spec fn tag_map(tags: Seq<(String, String)>) -> Map<Seq<char>, Seq<char>>
    decreases tags.len(),
{
    if tags.len() == 0 {
        Map::empty()
    } else {
        tag_map(tags.drop_last()).insert(tags.last().0@, tags.last().1@)
    }
}

/// The same for borrowed pairs.
pub open spec fn pair_map(pairs: Seq<(&str, &str)>) -> Map<Seq<char>, Seq<char>>
    decreases pairs.len(),
{
    if pairs.len() == 0 {
        Map::empty()
    } else {
        pair_map(pairs.drop_last()).insert(pairs.last().0@, pairs.last().1@)
    }
}

/// What an error-reporting event carries that the filters read: its tags,
/// its message, and the values of its exceptions.
pub struct ObservedEvent {
    /// The tags in the order they were set; a later pair overrides an
    /// earlier one with the same key.
    pub tags: Vec<(String, String)>,
    pub message: Option<String>,
    pub exception_values: Vec<Option<String>>,
}

impl ObservedEvent {
    /// The event's tags.
    pub open spec fn tags(&self) -> Map<Seq<char>, Seq<char>> {
        tag_map(self.tags@)
    }

    /// An event with nothing set.
    pub fn new() -> (e: Self)
        ensures
            e.tags() == Map::<Seq<char>, Seq<char>>::empty(),
            e.message is None,
            e.exception_values@.len() == 0,
    {
        ObservedEvent { tags: Vec::new(), message: None, exception_values: Vec::new() }
    }

    /// Set tag `key` to `value`.
    pub fn insert_tag(&mut self, key: &str, value: &str)
        ensures
            final(self).tags() == old(self).tags().insert(key@, value@),
            final(self).message == old(self).message,
            final(self).exception_values == old(self).exception_values,
    {
        self.tags.push((owned(key), owned(value)));
        assert(self.tags@.drop_last() == old(self).tags@);
    }
}

/// An event carrying the tags `pairs`.
pub fn event_with_tags(pairs: &[(&str, &str)]) -> (e: ObservedEvent)
    ensures
        e.tags() == pair_map(pairs@),
        e.message is None,
        e.exception_values@.len() == 0,
{
    let mut e = ObservedEvent::new();
    let mut i: usize = 0;
    while i < pairs.len()
        invariant
            i <= pairs@.len(),
            e.tags() == pair_map(pairs@.take(i as int)),
            e.message is None,
            e.exception_values@.len() == 0,
        decreases pairs@.len() - i,
    {
        let (k, v) = pairs[i];
        e.insert_tag(k, v);
        proof {
            let t = pairs@.take(i + 1);
            assert(t.drop_last() == pairs@.take(i as int));
            assert(t.last() == pairs@[i as int]);
        }
        i += 1;
    }
    assert(pairs@.take(pairs@.len() as int) == pairs@);
    e
}

/// An event carrying the message `msg`.
pub fn event_with_message(msg: &str) -> (e: ObservedEvent)
    ensures
        e.tags() == Map::<Seq<char>, Seq<char>>::empty(),
        opt_str(e.message) == Some(msg@),
        e.exception_values@.len() == 0,
{
    let mut e = ObservedEvent::new();
    e.message = Some(owned(msg));
    e
}

/// The event of a backend call for `method` that came back 404.
pub fn channel_message_404_event(method: &str) -> (e: ObservedEvent)
    ensures
        e.tags() == Map::<Seq<char>, Seq<char>>::empty().insert("domain"@, "backend_api"@).insert(
            "failure"@,
            "non_2xx"@,
        ).insert("status"@, "404"@).insert("method"@, method@),
        opt_str(e.message) == Some(
            "PATCH /channels/telegram/messages/1103 failed (404); response_body_len=172"@,
        ),
        e.exception_values@.len() == 0,
{
    let mut e = ObservedEvent::new();
    e.insert_tag("domain", "backend_api");
    e.insert_tag("failure", "non_2xx");
    e.insert_tag("status", "404");
    e.insert_tag("method", method);
    e.message = Some(
        owned("PATCH /channels/telegram/messages/1103 failed (404); response_body_len=172"),
    );
    e
}

/// The body of a managed-backend error response with `status` and error
/// code `code`.
pub fn managed_body(status: &str, code: &str) -> (r: String)
    ensures
        r@ == "OpenHuman API error ("@ + status@ + "): {\"error\":{\"errorCode\":\""@ + code@
            + "\",\"message\":\"x\"}}"@,
{
    let mut r = owned("OpenHuman API error (");
    append_str(&mut r, status);
    append_str(&mut r, "): {\"error\":{\"errorCode\":\"");
    append_str(&mut r, code);
    append_str(&mut r, "\",\"message\":\"x\"}}");
    r
}

/// The tags of a slow `openhuman.auth_get_me` invocation.
pub fn auth_get_me_tags() -> (r: Vec<(&'static str, &'static str)>)
    ensures
        r@.len() == 4,
        r@[0].0@ == "domain"@ && r@[0].1@ == "rpc"@,
        r@[1].0@ == "operation"@ && r@[1].1@ == "invoke_method"@,
        r@[2].0@ == "method"@ && r@[2].1@ == "openhuman.auth_get_me"@,
        r@[3].0@ == "elapsed_ms"@ && r@[3].1@ == "5003"@,
{
    let mut r: Vec<(&'static str, &'static str)> = Vec::new();
    r.push(("domain", "rpc"));
    r.push(("operation", "invoke_method"));
    r.push(("method", "openhuman.auth_get_me"));
    r.push(("elapsed_ms", "5003"));
    r
}

/// An event carrying the tags `pairs` and the message `message`.
pub fn event_with_tags_and_message(pairs: &[(&str, &str)], message: &str) -> (e: ObservedEvent)
    ensures
        e.tags() == pair_map(pairs@),
        opt_str(e.message) == Some(message@),
        e.exception_values@.len() == 0,
{
    let mut e = event_with_tags(pairs);
    e.message = Some(owned(message));
    e
}

/// An event carrying one exception whose value is `value`.
pub fn event_with_exception_value(value: &str) -> (e: ObservedEvent)
    ensures
        e.tags() == Map::<Seq<char>, Seq<char>>::empty(),
        e.message is None,
        e.exception_values@.len() == 1,
        opt_str(e.exception_values@[0]) == Some(value@),
{
    let mut e = ObservedEvent::new();
    e.exception_values.push(Some(owned(value)));
    e
}

} // verus!
