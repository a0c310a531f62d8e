use sessionizer::codec::decode_response;
use sessionizer::dispatch::create_reply;
use sessionizer::dispatch::handle_client;
use sessionizer::dispatch::list_reply;
use sessionizer::dispatch::pong;
use sessionizer::dispatch::unknown;
use sessionizer::dispatch::DaemonStep;
use sessionizer::events::Payload;
use sessionizer::registry::Registry;

#[test]
fn ping_gets_pong() {
    match handle_client("{\"event\":\"ping\"}") {
        DaemonStep::Reply(text) => {
            assert_eq!(text, "{\"event\":\"pong\"}");
            let resp = decode_response(&text).expect("reply decodes");
            assert_eq!(resp.event, "pong");
        }
        _ => panic!("ping must be answered in place"),
    }
}

#[test]
fn unknown_event_gets_error_reply() {
    match handle_client("{\"event\":\"bogus\"}") {
        DaemonStep::Reply(text) => {
            assert_eq!(text, "{\"event\":\"error\"}");
            let resp = decode_response(&text).expect("reply decodes");
            assert_eq!(resp.event, "error");
        }
        _ => panic!("an unrecognized event must reach dispatch and be answered"),
    }
}

#[test]
fn undecodable_text_aborts() {
    assert!(matches!(handle_client("not json"), DaemonStep::Abort));
    assert!(matches!(handle_client(""), DaemonStep::Abort));
    assert!(matches!(handle_client("{\"payload\":null}"), DaemonStep::Abort));
}

#[test]
fn list_event_with_wrong_payload_aborts() {
    assert!(matches!(
        handle_client("{\"event\":\"server::list\"}"),
        DaemonStep::Abort
    ));
    assert!(matches!(
        handle_client("{\"event\":\"server::list\",\"payload\":[\"x\"]}"),
        DaemonStep::Abort
    ));
}

#[test]
fn list_request_reaches_registry() {
    match handle_client("{\"event\":\"server::list\",\"payload\":{\"user_id\":1000}}") {
        DaemonStep::QueryList { user_id } => assert_eq!(user_id, Some(1000)),
        _ => panic!("a list request must query the registry"),
    }
}

#[test]
fn list_request_without_user_defers_resolution() {
    match handle_client("{\"event\":\"server::list\",\"payload\":{\"user_id\":null}}") {
        DaemonStep::QueryList { user_id } => assert_eq!(user_id, None),
        _ => panic!("a list request must query the registry"),
    }
}

#[test]
fn create_request_reaches_registry() {
    match handle_client(
        "{\"event\":\"server::create\",\"payload\":{\"user_id\":1000,\"name\":\"work\",\"recreate\":false}}",
    ) {
        DaemonStep::QueryCreate { user_id, name, recreate } => {
            assert_eq!(user_id, Some(1000));
            assert_eq!(name, "work");
            assert!(!recreate);
        }
        _ => panic!("a create request must reach the registry"),
    }
}

#[test]
fn list_with_no_prior_servers_yields_empty_payload() {
    let registry = Registry::new();
    match handle_client("{\"event\":\"server::list\",\"payload\":{\"user_id\":1000}}") {
        DaemonStep::QueryList { user_id } => assert_eq!(user_id, Some(1000)),
        _ => panic!("a list request must query the registry"),
    }
    let reply = list_reply(registry.list());
    assert_eq!(reply, "{\"event\":\"server::list\",\"payload\":[]}");
}

#[test]
fn create_then_list_yields_exactly_that_name() {
    let mut registry = Registry::new();
    match handle_client(
        "{\"event\":\"server::create\",\"payload\":{\"user_id\":1000,\"name\":\"work\",\"recreate\":false}}",
    ) {
        DaemonStep::QueryCreate { user_id, name, recreate } => {
            assert_eq!(user_id, Some(1000));
            assert!(!recreate);
            registry.create(&name);
        }
        _ => panic!("a create request must reach the registry"),
    }
    assert_eq!(create_reply(), "{\"event\":\"server::create\"}");
    match handle_client("{\"event\":\"server::list\",\"payload\":{\"user_id\":1000}}") {
        DaemonStep::QueryList { user_id } => assert_eq!(user_id, Some(1000)),
        _ => panic!("a list request must query the registry"),
    }
    let reply = list_reply(registry.list());
    assert_eq!(reply, "{\"event\":\"server::list\",\"payload\":[\"work\"]}");
    let resp = decode_response(&reply).expect("reply decodes");
    match resp.payload {
        Some(Payload::Names(ns)) => assert_eq!(ns, vec!["work"]),
        _ => panic!("the list reply carries the names"),
    }
}

#[test]
fn canned_replies() {
    assert_eq!(pong(), "{\"event\":\"pong\"}");
    assert_eq!(unknown(), "{\"event\":\"error\"}");
    assert_eq!(create_reply(), "{\"event\":\"server::create\"}");
}
