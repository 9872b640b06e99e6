use docker_client::events::{
    classify, convert_to_event, try_convert_to_event, DockerEvents, EventDetails,
};
use docker_client::parser::{Events, ParseError};
use docker_client::stream::{step, ReaderState, StreamOutput};

#[test]
fn classify_start_and_stop() {
    let started = classify(&Events { status: "start".to_string(), id: "abc".to_string() });
    assert_eq!(
        started,
        DockerEvents::StartContainer(EventDetails { container_id: "abc".to_string() })
    );
    let stopped = classify(&Events { status: "stop".to_string(), id: "abc".to_string() });
    assert_eq!(
        stopped,
        DockerEvents::StopContainer(EventDetails { container_id: "abc".to_string() })
    );
}

#[test]
fn classify_depends_only_on_status() {
    let a = classify(&Events { status: "start".to_string(), id: "one".to_string() });
    let b = classify(&Events { status: "start".to_string(), id: "two".to_string() });
    assert!(matches!(a, DockerEvents::StartContainer(_)));
    assert!(matches!(b, DockerEvents::StartContainer(_)));
    let c = classify(&Events { status: "die".to_string(), id: "one".to_string() });
    let d = classify(&Events { status: "die".to_string(), id: String::new() });
    assert_eq!(c, DockerEvents::OtherEvent);
    assert_eq!(d, DockerEvents::OtherEvent);
}

#[test]
fn unrecognized_status_is_other_without_payload() {
    let ev = convert_to_event(&"{\"status\":\"pause\",\"id\":\"xyz\"}".to_string());
    assert_eq!(ev, DockerEvents::OtherEvent);
}

#[test]
fn try_convert_rejects_undecodable_line() {
    assert_eq!(try_convert_to_event(&"not-json".to_string()), None);
    let ev = try_convert_to_event(&"{\"status\":\"start\",\"id\":\"abc\"}".to_string());
    assert_eq!(
        ev,
        Some(DockerEvents::StartContainer(EventDetails { container_id: "abc".to_string() }))
    );
}

#[test]
fn stream_scenario_terminator_then_events() {
    let st0 = ReaderState::AwaitingFramingEnd;
    let (st1, out1) = step(st0, &String::new());
    assert_eq!(st1, ReaderState::StreamingEvents);
    assert_eq!(out1, StreamOutput::Nothing);

    let (st2, out2) = step(st1, &"{\"status\":\"start\",\"id\":\"abc\"}".to_string());
    assert_eq!(st2, ReaderState::StreamingEvents);
    assert_eq!(
        out2,
        StreamOutput::Event(DockerEvents::StartContainer(EventDetails {
            container_id: "abc".to_string()
        }))
    );

    let (st3, out3) = step(st2, &"{\"status\":\"stop\",\"id\":\"abc\"}".to_string());
    assert_eq!(st3, ReaderState::StreamingEvents);
    assert_eq!(
        out3,
        StreamOutput::Event(DockerEvents::StopContainer(EventDetails {
            container_id: "abc".to_string()
        }))
    );
}

#[test]
fn stream_headers_are_discarded_before_terminator() {
    let st0 = ReaderState::AwaitingFramingEnd;
    let (st1, out1) = step(st0, &"HTTP/1.0 200 OK".to_string());
    assert_eq!(st1, ReaderState::AwaitingFramingEnd);
    assert_eq!(out1, StreamOutput::Nothing);
    let (st2, _) = step(st1, &"Content-Type: application/json".to_string());
    assert_eq!(st2, ReaderState::AwaitingFramingEnd);
    let (st3, _) = step(st2, &String::new());
    assert_eq!(st3, ReaderState::StreamingEvents);
}

#[test]
fn stream_malformed_line_between_valid_lines() {
    let st = ReaderState::StreamingEvents;
    let mut outputs = Vec::new();
    let lines = vec![
        "{\"status\":\"start\",\"id\":\"a\"}".to_string(),
        "not-json".to_string(),
        "{\"status\":\"stop\",\"id\":\"b\"}".to_string(),
    ];
    let mut cur = st;
    for line in &lines {
        let (next, out) = step(cur, line);
        cur = next;
        outputs.push(out);
    }
    assert_eq!(outputs.len(), 3);
    assert_eq!(
        outputs[0],
        StreamOutput::Event(DockerEvents::StartContainer(EventDetails {
            container_id: "a".to_string()
        }))
    );
    assert_eq!(outputs[1], StreamOutput::Failure(ParseError::Syntax));
    assert_eq!(
        outputs[2],
        StreamOutput::Event(DockerEvents::StopContainer(EventDetails {
            container_id: "b".to_string()
        }))
    );
}

#[test]
fn stream_accounting_on_concrete_lines() {
    let lines = vec![
        String::new(),
        "{\"status\":\"start\",\"id\":\"a\"}".to_string(),
        "garbage".to_string(),
        String::new(),
        "{\"status\":\"pause\",\"id\":\"x\"}".to_string(),
    ];
    let mut delivered = 0;
    let mut nonempty = 0;
    let mut cur = ReaderState::StreamingEvents;
    for line in &lines {
        if !line.is_empty() {
            nonempty += 1;
        }
        let (next, out) = step(cur, line);
        cur = next;
        match out {
            StreamOutput::Event(_) | StreamOutput::Failure(_) => delivered += 1,
            StreamOutput::Nothing => {},
        }
    }
    assert_eq!(delivered, nonempty);
    assert_eq!(cur, ReaderState::StreamingEvents);
}
