use light_ffi::{call_callbacks, RelayAction, RelayEvent, Topic};

fn run(topic: Topic, events: Vec<RelayEvent>) -> (Vec<(String, String)>, bool) {
    let mut calls = Vec::new();
    for event in events {
        match call_callbacks(topic, event) {
            RelayAction::Notify(t, p) => calls.push((t, p)),
            RelayAction::Skip => {}
            RelayAction::Stop => return (calls, true),
        }
    }
    (calls, false)
}

fn message(p: &str) -> RelayEvent {
    RelayEvent::Received(Ok(p.to_string()))
}

#[test]
fn topics_encode_as_json_strings() {
    assert_eq!(Topic::HeaderVerified.to_json(), "\"header-verified\"");
    assert_eq!(Topic::ConfidenceAchieved.to_json(), "\"confidence-achieved\"");
    assert_eq!(Topic::DataVerified.to_json(), "\"data-verified\"");
    assert_eq!(Topic::DataVerified.name(), "data-verified");
}

#[test]
fn message_is_handed_on_with_its_topic() {
    assert_eq!(
        call_callbacks(Topic::ConfidenceAchieved, message("{\"block_number\":1}")),
        RelayAction::Notify("\"confidence-achieved\"".to_string(), "{\"block_number\":1}".to_string())
    );
}

#[test]
fn one_bad_message_among_n_is_dropped_and_order_kept() {
    let events = vec![
        message("1"),
        message("2"),
        RelayEvent::Received(Err("cannot convert".to_string())),
        message("3"),
    ];
    let (calls, stopped) = run(Topic::HeaderVerified, events);
    assert!(!stopped);
    let payloads: Vec<&str> = calls.iter().map(|(_, p)| p.as_str()).collect();
    assert_eq!(payloads, vec!["1", "2", "3"]);
    assert!(calls.iter().all(|(t, _)| t == "\"header-verified\""));
    let (more, stopped) = run(Topic::HeaderVerified, vec![message("4")]);
    assert!(!stopped);
    assert_eq!(more.len(), 1);
}

#[test]
fn failed_message_is_skipped() {
    assert_eq!(
        call_callbacks(Topic::DataVerified, RelayEvent::Received(Err("bad".to_string()))),
        RelayAction::Skip
    );
}

#[test]
fn closed_channel_stops_the_relay() {
    assert_eq!(call_callbacks(Topic::DataVerified, RelayEvent::Closed), RelayAction::Stop);
    assert_eq!(call_callbacks(Topic::DataVerified, RelayEvent::Lagged(3)), RelayAction::Stop);
    let (calls, stopped) =
        run(Topic::DataVerified, vec![message("a"), RelayEvent::Closed, message("b")]);
    assert!(stopped);
    assert_eq!(calls.len(), 1);
    assert_eq!(calls[0].1, "a");
}
