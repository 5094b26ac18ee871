use light_ffi::{
    error_response, get_confidence_message_list, get_data_verified_message_list,
    get_header_verified_message_list, message_list_response, EMPTY_MESSAGE_LIST,
    INVALID_STORED_LIST,
};

#[test]
fn empty_store_gives_empty_list_for_every_topic() {
    assert_eq!(get_confidence_message_list(Ok(None)), "{\"message_list\":[]}");
    assert_eq!(get_data_verified_message_list(Ok(None)), "{\"message_list\":[]}");
    assert_eq!(get_header_verified_message_list(Ok(None)), "{\"message_list\":[]}");
    assert_eq!(EMPTY_MESSAGE_LIST, "{\"message_list\":[]}");
}

#[test]
fn stored_list_is_answered_as_it_is() {
    let stored = "{\"message_list\":[{\"block_number\":7}]}".to_string();
    assert_eq!(get_confidence_message_list(Ok(Some(stored.clone()))), stored);
}

#[test]
fn stored_text_that_is_not_json_gives_error_envelope() {
    let expected = "{\"message\":\"Stored message list is not valid JSON\"}";
    assert_eq!(get_data_verified_message_list(Ok(Some(String::new()))), expected);
    assert_eq!(get_confidence_message_list(Ok(Some("{'message_list':[]}".to_string()))), expected);
    assert_eq!(get_header_verified_message_list(Ok(Some("[1,2".to_string()))), expected);
    assert_eq!(INVALID_STORED_LIST, "Stored message list is not valid JSON");
}

#[test]
fn every_list_answer_parses_as_json() {
    let reads = vec![
        Ok(None),
        Ok(Some("{\"message_list\":[1]}".to_string())),
        Ok(Some("not json".to_string())),
        Ok(Some(String::new())),
        Err(String::new()),
        Err("disk \"gone\"".to_string()),
    ];
    for read in reads {
        let text = message_list_response(read);
        assert!(!text.is_empty());
        assert!(serde_json::from_str::<serde_json::Value>(&text).is_ok(), "{}", text);
    }
}

#[test]
fn store_failure_gives_error_envelope() {
    assert_eq!(
        get_header_verified_message_list(Err("column family missing".to_string())),
        "{\"message\":\"column family missing\"}"
    );
}

#[test]
fn error_envelope_escapes_its_cause() {
    assert_eq!(error_response("a\"b\\c"), "{\"message\":\"a\\\"b\\\\c\"}");
    assert_eq!(error_response("x\ny\tz"), "{\"message\":\"x\\ny\\tz\"}");
    assert_eq!(error_response("\u{1}\u{8}\u{c}\r"), "{\"message\":\"\\u0001\\b\\f\\r\"}");
    assert_eq!(error_response("é/"), "{\"message\":\"é/\"}");
    assert_eq!(error_response(""), "{\"message\":\"\"}");
}

#[test]
fn error_envelope_parses_back_to_its_cause() {
    for cause in ["plain", "quote \" and \\ slash", "ctl \u{1f}\u{0}\n", ""] {
        let text = message_list_response(Err(cause.to_string()));
        let value: serde_json::Value = serde_json::from_str(&text).unwrap();
        assert_eq!(value["message"].as_str(), Some(cause));
        assert_eq!(value.as_object().unwrap().len(), 1);
    }
}

#[test]
fn empty_list_parses_back_to_an_empty_list() {
    let text = message_list_response(Ok(None));
    let value: serde_json::Value = serde_json::from_str(&text).unwrap();
    assert_eq!(value["message_list"].as_array().map(|a| a.len()), Some(0));
}
