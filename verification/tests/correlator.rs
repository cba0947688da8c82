use mpvc::error::Error;
use mpvc::wire::{listen_line, Correlator, LineStep};

fn arg(s: &str) -> serde_json::Value {
    serde_json::Value::String(s.to_string())
}

#[test]
fn request_ids_count_up_from_zero() {
    let mut c = Correlator::new();
    let line = c.next_request(&vec![arg("get_property"), arg("pause")]);
    assert_eq!(line, "{\"command\":[\"get_property\",\"pause\"],\"request_id\":0}");
    let line = c.next_request(&vec![arg("get_property"), arg("volume")]);
    assert_eq!(line, "{\"command\":[\"get_property\",\"volume\"],\"request_id\":1}");
    let line = c.next_request(&vec![arg("playlist-shuffle")]);
    assert_eq!(line, "{\"command\":[\"playlist-shuffle\"],\"request_id\":2}");
}

#[test]
fn request_line_with_no_arguments() {
    let mut c = Correlator::new();
    let line = c.next_request(&vec![]);
    assert_eq!(line, "{\"command\":[],\"request_id\":0}");
}

#[test]
fn request_line_serializes_non_string_arguments() {
    let mut c = Correlator::new();
    let args = vec![arg("seek"), serde_json::Value::from(10), serde_json::Value::Bool(true)];
    let line = c.next_request(&args);
    assert_eq!(line, "{\"command\":[\"seek\",10,true],\"request_id\":0}");
}

#[test]
fn request_line_escapes_string_arguments() {
    let mut c = Correlator::new();
    let line = c.next_request(&vec![arg("loadfile"), arg("a \"quoted\" name")]);
    assert_eq!(line, "{\"command\":[\"loadfile\",\"a \\\"quoted\\\" name\"],\"request_id\":0}");
}

#[test]
fn success_reply_without_data_yields_null() {
    let mut c = Correlator::new();
    let _ = c.next_request(&vec![arg("get_property"), arg("pause")]);
    match c.process_line("{\"request_id\":0,\"error\":\"success\"}") {
        Ok(LineStep::Reply(v)) => assert_eq!(v, serde_json::Value::Null),
        _ => panic!("expected the reply"),
    }
}

#[test]
fn success_reply_with_data_yields_the_data() {
    let mut c = Correlator::new();
    let _ = c.next_request(&vec![arg("get_property"), arg("volume")]);
    match c.process_line("{\"request_id\":0,\"error\":\"success\",\"data\":42.5}") {
        Ok(LineStep::Reply(v)) => assert_eq!(v, serde_json::Value::from(42.5)),
        _ => panic!("expected the reply"),
    }
}

#[test]
fn remote_error_text_is_surfaced() {
    let mut c = Correlator::new();
    let _ = c.next_request(&vec![arg("get_property"), arg("pause")]);
    match c.process_line("{\"request_id\":0,\"error\":\"disabled\"}") {
        Err(Error::MpvError(m)) => assert_eq!(m, "disabled"),
        _ => panic!("expected the remote's error text"),
    }
}

#[test]
fn events_are_queued_in_arrival_order() {
    let mut c = Correlator::new();
    let _ = c.next_request(&vec![arg("get_property"), arg("pause")]);
    match c.process_line("{\"event\":\"seek\"}") {
        Ok(LineStep::Consumed) => {},
        _ => panic!("an event line is consumed"),
    }
    match c.process_line("{\"event\":\"pause\",\"id\":1}") {
        Ok(LineStep::Consumed) => {},
        _ => panic!("an event line is consumed"),
    }
    match c.process_line("{\"request_id\":0,\"error\":\"success\",\"data\":true}") {
        Ok(LineStep::Reply(v)) => assert_eq!(v, serde_json::Value::Bool(true)),
        _ => panic!("expected the reply"),
    }
    let first = c.pop_pending().expect("first event kept");
    assert_eq!(first.get("event").and_then(|e| e.as_str()), Some("seek"));
    let second = c.pop_pending().expect("second event kept");
    assert_eq!(second.get("event").and_then(|e| e.as_str()), Some("pause"));
    assert!(c.pop_pending().is_none());
}

#[test]
fn mismatched_reply_is_discarded() {
    let mut c = Correlator::new();
    let _ = c.next_request(&vec![arg("get_property"), arg("pause")]);
    match c.process_line("{\"request_id\":7,\"error\":\"success\"}") {
        Ok(LineStep::Consumed) => {},
        _ => panic!("an unrelated reply is discarded"),
    }
    assert!(c.pop_pending().is_none());
}

#[test]
fn untagged_object_is_discarded() {
    let mut c = Correlator::new();
    let _ = c.next_request(&vec![arg("get_property"), arg("pause")]);
    match c.process_line("{\"neither\":1}") {
        Ok(LineStep::Consumed) => {},
        _ => panic!("an untagged object is discarded"),
    }
    assert!(c.pop_pending().is_none());
}

#[test]
fn non_numeric_request_id_is_discarded() {
    let mut c = Correlator::new();
    let _ = c.next_request(&vec![arg("get_property"), arg("pause")]);
    match c.process_line("{\"request_id\":\"0\",\"event\":\"odd\"}") {
        Ok(LineStep::Consumed) => {},
        _ => panic!("a malformed reply neither correlates nor errors"),
    }
    assert!(c.pop_pending().is_none(), "a reply-shaped line is never queued as an event");
    match c.process_line("{\"request_id\":5,\"event\":\"odd\"}") {
        Ok(LineStep::Consumed) => {},
        _ => panic!("another request's reply is discarded"),
    }
    assert!(c.pop_pending().is_none(), "an event tag cannot rescue a mismatched reply");
}

#[test]
fn malformed_line_is_a_json_error() {
    let mut c = Correlator::new();
    let _ = c.next_request(&vec![arg("get_property"), arg("pause")]);
    match c.process_line("this is not json") {
        Err(Error::JsonError(_)) => {},
        _ => panic!("garbage is fatal for the call"),
    }
}

#[test]
fn non_object_line_is_unexpected() {
    let mut c = Correlator::new();
    let _ = c.next_request(&vec![arg("get_property"), arg("pause")]);
    match c.process_line("[1,2,3]") {
        Err(Error::UnexpectedValue) => {},
        _ => panic!("a non-object line has the wrong shape"),
    }
}

#[test]
fn reply_without_error_field_is_unexpected() {
    let mut c = Correlator::new();
    let _ = c.next_request(&vec![arg("get_property"), arg("pause")]);
    match c.process_line("{\"request_id\":0,\"data\":5}") {
        Err(Error::UnexpectedValue) => {},
        _ => panic!("a reply must carry a string error field"),
    }
}

#[test]
fn listen_line_returns_events_only() {
    match listen_line("{\"event\":\"end-file\",\"reason\":\"eof\"}") {
        Ok(Some(v)) => assert_eq!(v.get("event").and_then(|e| e.as_str()), Some("end-file")),
        _ => panic!("an event line is returned"),
    }
    match listen_line("{\"request_id\":3,\"error\":\"success\"}") {
        Ok(None) => {},
        _ => panic!("a non-event object is skipped"),
    }
    match listen_line("nonsense") {
        Err(Error::JsonError(_)) => {},
        _ => panic!("garbage is fatal"),
    }
    match listen_line("\"just a string\"") {
        Err(Error::UnexpectedValue) => {},
        _ => panic!("a non-object line has the wrong shape"),
    }
}

#[test]
fn event_name_and_match() {
    let v: serde_json::Value = serde_json::from_str("{\"event\":\"seek\"}").unwrap();
    assert_eq!(mpvc::wire::event_name(&v), Some("seek".to_string()));
    assert!(mpvc::wire::event_matches(&v, "seek"));
    assert!(!mpvc::wire::event_matches(&v, "pause"));
    let w: serde_json::Value = serde_json::from_str("{\"name\":\"seek\"}").unwrap();
    assert_eq!(mpvc::wire::event_name(&w), None);
    assert!(!mpvc::wire::event_matches(&w, "seek"));
}
