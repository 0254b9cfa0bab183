//! Replay of Less Computer events to a window that opens late: the events
//! from the most recent fresh user turn on, so an older conversation is not
//! shown again.
use vstd::prelude::*;

use crate::asr::string_field;
use crate::edit_plan::{find_key, first_key, JsonValue};
use crate::text::{chars_eq, to_chars};

verus! {

/// The boolean under the first `k` entry of an object's fields.
pub open spec fn bool_field(fields: Seq<(String, JsonValue)>, k: Seq<char>) -> Option<bool> {
    match first_key(fields, k) {
        Some(i) => match fields[i].1 {
            JsonValue::Bool(b) => Some(b),
            _ => None,
        },
        None => None,
    }
}

/// An event opening a new user turn: `kind` is `"user"` and `fresh` is
/// `true`.
pub open spec fn is_fresh_user_event(e: JsonValue) -> bool {
    match e {
        JsonValue::Object(f) => string_field(f@, "kind"@) == Some("user"@) && bool_field(f@, "fresh"@) == Some(
            true,
        ),
        _ => false,
    }
}

/// Index of the last fresh user event.
pub open spec fn last_fresh_user(events: Seq<JsonValue>) -> Option<int>
    decreases events.len(),
{
    if events.len() == 0 {
        None
    } else if is_fresh_user_event(events.last()) {
        Some(events.len() - 1)
    } else {
        last_fresh_user(events.drop_last())
    }
}

fn fresh_user_event(e: &JsonValue) -> (r: bool)
    ensures
        r == is_fresh_user_event(*e),
{
    let fields = match e {
        JsonValue::Object(f) => f,
        _ => return false,
    };
    let user = match find_key(fields, "kind") {
        Some(i) => match &fields[i].1 {
            JsonValue::String(t) => {
                proof {
                    reveal_strlit("user");
                }
                chars_eq(&to_chars(t.as_str()), &to_chars("user"))
            },
            _ => false,
        },
        None => false,
    };
    let fresh = match find_key(fields, "fresh") {
        Some(i) => match &fields[i].1 {
            JsonValue::Bool(b) => *b,
            _ => false,
        },
        None => false,
    };
    user && fresh
}

/// The events from the last fresh user event on; all of them when there is
/// none.
pub fn events_since_fresh_user(events: Vec<JsonValue>) -> (r: Vec<JsonValue>)
    ensures
        r@ == (match last_fresh_user(events@) {
            Some(i) => events@.subrange(i, events@.len() as int),
            None => events@,
        }),
{
    let mut k = events.len();
    assert(events@.subrange(0, k as int) =~= events@);
    while k > 0
        invariant
            k <= events@.len(),
            last_fresh_user(events@) == last_fresh_user(events@.subrange(0, k as int)),
        decreases k,
    {
        let ghost prefix = events@.subrange(0, k as int);
        assert(prefix.last() == events@[k - 1]);
        if fresh_user_event(&events[k - 1]) {
            let mut events = events;
            let tail = events.split_off(k - 1);
            return tail;
        }
        assert(prefix.drop_last() =~= events@.subrange(0, k - 1));
        k = k - 1;
    }
    assert(events@.subrange(0, 0) =~= Seq::<JsonValue>::empty());
    events
}

} // verus!
