use sessionizer::codec::decode_request;
use sessionizer::codec::decode_response;
use sessionizer::codec::encode_request;
use sessionizer::codec::encode_response;
use sessionizer::events::Create;
use sessionizer::events::List;
use sessionizer::events::Payload;
use sessionizer::events::Request;
use sessionizer::events::Response;

#[test]
fn encode_ping_request_is_bare_envelope() {
    let r = Request { event: "ping".to_string(), payload: None };
    assert_eq!(encode_request(&r), "{\"event\":\"ping\"}");
}

#[test]
fn encode_list_request_with_user() {
    let r = Request {
        event: "server::list".to_string(),
        payload: Some(Payload::List(List { user_id: Some(1000) })),
    };
    assert_eq!(
        encode_request(&r),
        "{\"event\":\"server::list\",\"payload\":{\"user_id\":1000}}"
    );
}

#[test]
fn encode_list_request_without_user() {
    let r = Request {
        event: "server::list".to_string(),
        payload: Some(Payload::List(List { user_id: None })),
    };
    assert_eq!(
        encode_request(&r),
        "{\"event\":\"server::list\",\"payload\":{\"user_id\":null}}"
    );
}

#[test]
fn encode_create_request() {
    let r = Request {
        event: "server::create".to_string(),
        payload: Some(Payload::Create(Create {
            user_id: Some(1000),
            name: "work".to_string(),
            recreate: false,
        })),
    };
    assert_eq!(
        encode_request(&r),
        "{\"event\":\"server::create\",\"payload\":{\"user_id\":1000,\"name\":\"work\",\"recreate\":false}}"
    );
}

#[test]
fn encode_names_response() {
    let r = Response {
        event: "server::list".to_string(),
        payload: Some(Payload::Names(vec!["work".to_string(), "play".to_string()])),
    };
    assert_eq!(
        encode_response(&r),
        "{\"event\":\"server::list\",\"payload\":[\"work\",\"play\"]}"
    );
}

#[test]
fn encode_empty_names_response() {
    let r = Response {
        event: "server::list".to_string(),
        payload: Some(Payload::Names(vec![])),
    };
    assert_eq!(
        encode_response(&r),
        "{\"event\":\"server::list\",\"payload\":[]}"
    );
}

#[test]
fn round_trip_ping() {
    let r = Request { event: "ping".to_string(), payload: None };
    let text = encode_request(&r);
    let back = decode_request(&text).expect("canonical text decodes");
    assert_eq!(back.event, "ping");
    assert!(back.payload.is_none());
}

#[test]
fn round_trip_create() {
    let r = Request {
        event: "server::create".to_string(),
        payload: Some(Payload::Create(Create {
            user_id: Some(4294967295),
            name: "work".to_string(),
            recreate: true,
        })),
    };
    let text = encode_request(&r);
    let back = decode_request(&text).expect("canonical text decodes");
    assert_eq!(back.event, "server::create");
    match back.payload {
        Some(Payload::Create(c)) => {
            assert_eq!(c.user_id, Some(4294967295));
            assert_eq!(c.name, "work");
            assert!(c.recreate);
        }
        _ => panic!("payload shape lost"),
    }
}

#[test]
fn round_trip_list_without_user() {
    let r = Request {
        event: "server::list".to_string(),
        payload: Some(Payload::List(List { user_id: None })),
    };
    let text = encode_request(&r);
    let back = decode_request(&text).expect("canonical text decodes");
    assert_eq!(back.event, "server::list");
    match back.payload {
        Some(Payload::List(l)) => assert_eq!(l.user_id, None),
        _ => panic!("payload shape lost"),
    }
}

#[test]
fn round_trip_names() {
    let r = Response {
        event: "server::list".to_string(),
        payload: Some(Payload::Names(vec!["a".to_string(), "b".to_string(), "c".to_string()])),
    };
    let text = encode_response(&r);
    let back = decode_response(&text).expect("canonical text decodes");
    match back.payload {
        Some(Payload::Names(ns)) => assert_eq!(ns, vec!["a", "b", "c"]),
        _ => panic!("payload shape lost"),
    }
}

#[test]
fn decode_accepts_null_payload() {
    let back = decode_response("{\"event\":\"pong\",\"payload\":null}").expect("null payload decodes");
    assert_eq!(back.event, "pong");
    assert!(back.payload.is_none());
}

#[test]
fn decode_unknown_event_is_not_an_error() {
    let back = decode_request("{\"event\":\"bogus\"}").expect("structurally valid envelope decodes");
    assert_eq!(back.event, "bogus");
    assert!(back.payload.is_none());
}

#[test]
fn decode_rejects_missing_event() {
    assert!(decode_request("{\"payload\":null}").is_none());
    assert!(decode_request("{}").is_none());
    assert!(decode_request("").is_none());
}

#[test]
fn decode_rejects_malformed_text() {
    assert!(decode_request("not json").is_none());
    assert!(decode_request("{\"event\":\"ping\"").is_none());
    assert!(decode_request("{\"event\":\"ping\"}x").is_none());
    assert!(decode_request("{\"event\":\"pi\\ng\"}").is_none());
}

#[test]
fn decode_rejects_number_too_large() {
    assert!(
        decode_request("{\"event\":\"server::list\",\"payload\":{\"user_id\":4294967296}}").is_none()
    );
}

#[test]
fn decode_number_at_limit() {
    let back =
        decode_request("{\"event\":\"server::list\",\"payload\":{\"user_id\":4294967295}}").unwrap();
    match back.payload {
        Some(Payload::List(l)) => assert_eq!(l.user_id, Some(4294967295)),
        _ => panic!("payload shape lost"),
    }
}

#[test]
fn round_trip_empty_event() {
    let r = Request { event: String::new(), payload: None };
    let text = encode_request(&r);
    let back = decode_request(&text).expect("canonical text decodes");
    assert_eq!(back.event, "");
}
