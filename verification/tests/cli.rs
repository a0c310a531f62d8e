use sessionizer::cli::parse_user_id;
use sessionizer::cli::Globals;
use sessionizer::ping::ping_outcome;
use sessionizer::ping::ping_request;
use sessionizer::ping::PingOutcome;
use sessionizer::server::run;
use sessionizer::server::App;
use sessionizer::server::AttachOptions;
use sessionizer::server::ClientAction;
use sessionizer::server::Command;

#[test]
fn user_id_with_trailing_newline() {
    assert_eq!(parse_user_id("1000\n"), 1000);
}

#[test]
fn user_id_with_surrounding_spaces() {
    assert_eq!(parse_user_id("  42 \t\r\n"), 42);
}

#[test]
fn user_id_bare() {
    assert_eq!(parse_user_id("0"), 0);
    assert_eq!(parse_user_id("4294967295"), 4294967295);
}

#[test]
fn user_id_falls_back_to_zero() {
    assert_eq!(parse_user_id(""), 0);
    assert_eq!(parse_user_id("   \n"), 0);
    assert_eq!(parse_user_id("abc"), 0);
    assert_eq!(parse_user_id("12x"), 0);
    assert_eq!(parse_user_id("4294967296"), 0);
    assert_eq!(parse_user_id("10 00"), 0);
}

#[test]
fn run_list_uses_the_global_user() {
    let app = App { command: Command::List };
    match run(app, Globals { user_id: 1000 }) {
        ClientAction::ListServers { user_id } => assert_eq!(user_id, 1000),
        _ => panic!("list must enumerate this user's registry"),
    }
}

#[test]
fn run_detach_is_detach() {
    let app = App { command: Command::Detach };
    assert!(matches!(
        run(app, Globals { user_id: 1 }),
        ClientAction::Detach
    ));
}

#[test]
fn run_attach_carries_options() {
    let app = App {
        command: Command::Attach(AttachOptions {
            server_name: "default".to_string(),
            recreate: true,
            session: "/home/u/proj".to_string(),
        }),
    };
    match run(app, Globals { user_id: 1 }) {
        ClientAction::Attach { server_name, recreate, session } => {
            assert_eq!(server_name, "default");
            assert!(recreate);
            assert_eq!(session, "/home/u/proj");
        }
        _ => panic!("attach must carry its options through"),
    }
}

#[test]
fn ping_request_text() {
    assert_eq!(ping_request(), "{\"event\":\"ping\"}");
}

#[test]
fn ping_outcomes() {
    assert!(ping_outcome(&"pong".to_string()) == PingOutcome::Pong);
    assert!(ping_outcome(&"error".to_string()) == PingOutcome::ServerError);
    assert!(ping_outcome(&"what".to_string()) == PingOutcome::Unexpected);
}
