use light_ffi::{
    failure_response, hash_response, submit_transaction, SubmitAction, SubmitEvent,
    SECRET_KEY_ERROR,
};

fn reply_of(action: SubmitAction) -> String {
    match action {
        SubmitAction::Reply(text) => text,
        other => panic!("expected a reply, got {:?}", other),
    }
}

fn is_hash_shaped(s: &str) -> bool {
    s.len() == 66
        && s.starts_with("0x")
        && s[2..].chars().all(|c| c.is_ascii_digit() || ('a'..='f').contains(&c))
}

#[test]
fn malformed_key_replies_at_once_without_connecting() {
    let action = submit_transaction(SubmitEvent::KeyParsed(false));
    assert_ne!(action, SubmitAction::Connect);
    assert_eq!(reply_of(action), "{\"message\":\"Secret Key error\"}");
    assert_eq!(SECRET_KEY_ERROR, "Secret Key error");
}

#[test]
fn valid_key_connects_then_submits() {
    assert_eq!(submit_transaction(SubmitEvent::KeyParsed(true)), SubmitAction::Connect);
    assert_eq!(submit_transaction(SubmitEvent::Connected(Ok(()))), SubmitAction::Submit);
}

#[test]
fn failed_connection_replies_with_its_cause() {
    let action = submit_transaction(SubmitEvent::Connected(Err("version mismatch".to_string())));
    assert_eq!(reply_of(action), "{\"message\":\"version mismatch\"}");
}

#[test]
fn taken_transaction_replies_with_its_hash() {
    let mut hash = [0u8; 32];
    for (i, b) in hash.iter_mut().enumerate() {
        *b = (i as u8) * 8;
    }
    let text = reply_of(submit_transaction(SubmitEvent::Submitted(Ok(hash))));
    assert_eq!(
        text,
        "0x0008101820283038404850586068707880889098a0a8b0b8c0c8d0d8e0e8f0f8"
    );
    assert!(is_hash_shaped(&text));
    assert_eq!(hash_response(&[0xff; 32]), format!("0x{}", "ff".repeat(32)));
}

#[test]
fn failed_submission_replies_with_a_description_and_no_hash() {
    let text = reply_of(submit_transaction(SubmitEvent::Submitted(Err("pool full".to_string()))));
    assert_eq!(text, "{\"message\":\"pool full\"}");
    assert!(!is_hash_shaped(&text));
    let lookalike = format!("0x{}", "0".repeat(64));
    let text = reply_of(submit_transaction(SubmitEvent::Submitted(Err(lookalike.clone()))));
    assert!(!is_hash_shaped(&text));
    let value: serde_json::Value = serde_json::from_str(&text).unwrap();
    assert_eq!(value["message"].as_str(), Some(lookalike.as_str()));
}

#[test]
fn empty_cause_gets_a_fixed_description() {
    assert_eq!(failure_response(""), "{\"message\":\"Submit transaction failed\"}");
    let text = reply_of(submit_transaction(SubmitEvent::Submitted(Err(String::new()))));
    assert_eq!(text, "{\"message\":\"Submit transaction failed\"}");
}
