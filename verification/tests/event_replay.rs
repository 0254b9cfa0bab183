use openless::edit_plan::JsonValue;
use openless::event_replay::events_since_fresh_user;

fn event(kind: &str, fresh: Option<bool>, n: &str) -> JsonValue {
    let mut fields = vec![
        ("kind".to_string(), JsonValue::String(kind.to_string())),
        ("n".to_string(), JsonValue::Number(n.to_string())),
    ];
    if let Some(f) = fresh {
        fields.push(("fresh".to_string(), JsonValue::Bool(f)));
    }
    JsonValue::Object(fields)
}

#[test]
fn replay_starts_at_the_last_fresh_user_event() {
    let events = vec![
        event("user", Some(true), "1"),
        event("assistant", None, "2"),
        event("user", Some(true), "3"),
        event("user", Some(false), "4"),
        event("assistant", None, "5"),
    ];
    let replay = events_since_fresh_user(events);
    assert_eq!(
        replay,
        vec![
            event("user", Some(true), "3"),
            event("user", Some(false), "4"),
            event("assistant", None, "5"),
        ]
    );
}

#[test]
fn replay_without_a_fresh_user_event_keeps_everything() {
    let events = vec![
        event("user", Some(false), "1"),
        event("assistant", Some(true), "2"),
        event("user", None, "3"),
        JsonValue::Null,
    ];
    let expected = vec![
        event("user", Some(false), "1"),
        event("assistant", Some(true), "2"),
        event("user", None, "3"),
        JsonValue::Null,
    ];
    assert_eq!(events_since_fresh_user(events), expected);
    assert_eq!(events_since_fresh_user(Vec::new()), Vec::new());
}

#[test]
fn a_fresh_user_event_at_the_end_is_replayed_alone() {
    let events = vec![event("assistant", None, "1"), event("user", Some(true), "2")];
    assert_eq!(events_since_fresh_user(events), vec![event("user", Some(true), "2")]);
}
