use docker_client::parser::{
    parse_array, parse_event, remove_response_headers, response_status, Events, ParseError,
};

#[test]
fn strip_framing_removes_headers() {
    let raw = "HTTP/1.0 200 OK\r\nContent-Type: application/json\r\n\r\n[]".to_string();
    assert_eq!(remove_response_headers(raw), "[]".to_string());
}

#[test]
fn strip_framing_without_terminator_is_identity() {
    let raw = "[]".to_string();
    assert_eq!(remove_response_headers(raw), "[]".to_string());
}

#[test]
fn strip_framing_idempotent_on_stripped_input() {
    let raw = "HTTP/1.0 200 OK\r\n\r\n[{\"Id\":\"x\"}]".to_string();
    let once = remove_response_headers(raw);
    let twice = remove_response_headers(once.clone());
    assert_eq!(once, twice);
}

#[test]
fn strip_framing_splits_at_first_terminator() {
    let raw = "A\r\n\r\nB\r\n\r\nC".to_string();
    assert_eq!(remove_response_headers(raw), "B\r\n\r\nC".to_string());
}

#[test]
fn snapshot_scenario_single_entity() {
    let body = "[{\"Id\":\"abc123\",\"Command\":\"sh\",\"Names\":[\"/web\"],\"Created\":1000,\"Image\":\"nginx\",\"State\":\"running\"}]".to_string();
    let list = parse_array(body).unwrap();
    assert_eq!(list.len(), 1);
    assert_eq!(list[0].id, "abc123".to_string());
    assert_eq!(list[0].command, "sh".to_string());
    assert_eq!(list[0].names, vec!["/web".to_string()]);
    assert_eq!(list[0].created, 1000);
    assert_eq!(list[0].image, "nginx".to_string());
    assert_eq!(list[0].state, "running".to_string());
}

#[test]
fn snapshot_with_framing_decodes() {
    let raw = "HTTP/1.0 200 OK\r\nContent-Type: application/json\r\n\r\n[{\"Id\":\"a\",\"Command\":\"c\",\"Names\":[\"/n\"],\"Created\":1,\"Image\":\"i\",\"State\":\"exited\"}]".to_string();
    let list = parse_array(raw).unwrap();
    assert_eq!(list.len(), 1);
    assert_eq!(list[0].state, "exited".to_string());
}

#[test]
fn snapshot_length_matches_array_length() {
    let body = "[{\"Id\":\"a\",\"Command\":\"c\",\"Names\":[\"/n\"],\"Created\":1,\"Image\":\"i\",\"State\":\"running\"},{\"Id\":\"b\",\"Command\":\"d\",\"Names\":[\"/m\",\"/extra\"],\"Created\":2,\"Image\":\"j\",\"State\":\"exited\"}]".to_string();
    let list = parse_array(body).unwrap();
    assert_eq!(list.len(), 2);
    assert_eq!(list[0].id, "a".to_string());
    assert_eq!(list[1].id, "b".to_string());
    assert_eq!(list[1].names, vec!["/m".to_string(), "/extra".to_string()]);
}

#[test]
fn snapshot_empty_array() {
    let list = parse_array("[]".to_string()).unwrap();
    assert_eq!(list.len(), 0);
}

#[test]
fn snapshot_malformed_text_is_syntax_error() {
    assert_eq!(parse_array("not json".to_string()), Err(ParseError::Syntax));
}

#[test]
fn snapshot_non_array_is_shape_error() {
    assert_eq!(parse_array("{}".to_string()), Err(ParseError::Shape));
}

#[test]
fn snapshot_missing_field_is_shape_error() {
    let body = "[{\"Id\":\"a\",\"Command\":\"c\",\"Names\":[\"/n\"],\"Created\":1,\"Image\":\"i\"}]"
        .to_string();
    assert_eq!(parse_array(body), Err(ParseError::Shape));
}

#[test]
fn snapshot_one_bad_element_fails_whole_call() {
    let body = "[{\"Id\":\"a\",\"Command\":\"c\",\"Names\":[\"/n\"],\"Created\":1,\"Image\":\"i\",\"State\":\"running\"},{\"Id\":7}]".to_string();
    assert_eq!(parse_array(body), Err(ParseError::Shape));
}

#[test]
fn snapshot_negative_created_is_shape_error() {
    let body = "[{\"Id\":\"a\",\"Command\":\"c\",\"Names\":[\"/n\"],\"Created\":-5,\"Image\":\"i\",\"State\":\"running\"}]".to_string();
    assert_eq!(parse_array(body), Err(ParseError::Shape));
}

#[test]
fn snapshot_non_string_name_is_shape_error() {
    let body = "[{\"Id\":\"a\",\"Command\":\"c\",\"Names\":[3],\"Created\":1,\"Image\":\"i\",\"State\":\"running\"}]".to_string();
    assert_eq!(parse_array(body), Err(ParseError::Shape));
}

#[test]
fn event_decodes_status_and_id() {
    let e = parse_event("{\"status\":\"start\",\"id\":\"abc\"}".to_string()).unwrap();
    assert_eq!(e, Events { status: "start".to_string(), id: "abc".to_string() });
}

#[test]
fn event_missing_fields_default_to_empty() {
    let e = parse_event("{}".to_string()).unwrap();
    assert_eq!(e, Events { status: String::new(), id: String::new() });
    let e2 = parse_event("{\"status\":\"die\"}".to_string()).unwrap();
    assert_eq!(e2, Events { status: "die".to_string(), id: String::new() });
}

#[test]
fn event_malformed_text_is_syntax_error() {
    assert_eq!(parse_event("not-json".to_string()), Err(ParseError::Syntax));
}

#[test]
fn event_non_object_is_shape_error() {
    assert_eq!(parse_event("[1,2]".to_string()), Err(ParseError::Shape));
}

#[test]
fn event_non_string_field_is_shape_error() {
    assert_eq!(parse_event("{\"status\":5}".to_string()), Err(ParseError::Shape));
}

#[test]
fn event_extra_fields_are_ignored() {
    let e = parse_event(
        "{\"status\":\"stop\",\"id\":\"xyz\",\"Type\":\"container\",\"timeNano\":12}".to_string(),
    )
    .unwrap();
    assert_eq!(e, Events { status: "stop".to_string(), id: "xyz".to_string() });
}

#[test]
fn status_line_code_is_read() {
    assert_eq!(response_status("HTTP/1.0 200 OK\r\nContent-Type: text\r\n\r\n[]"), Some(200));
    assert_eq!(response_status("HTTP/1.0 404 No such container"), Some(404));
    assert_eq!(response_status("HTTP/1.0 204"), Some(204));
}

#[test]
fn status_line_rejects_other_text() {
    assert_eq!(response_status("garbage"), None);
    assert_eq!(response_status("HTTP/1.0 2x4 Bad"), None);
    assert_eq!(response_status("HTTP/1.0 2044 Bad"), None);
    assert_eq!(response_status(""), None);
}
