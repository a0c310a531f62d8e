use sessionizer::daemon::shutdown_action;
use sessionizer::daemon::startup_actions;
use sessionizer::daemon::SocketAction;

#[test]
fn startup_over_a_stale_file_removes_it_first() {
    let acts = startup_actions(true);
    assert_eq!(acts, vec![SocketAction::RemoveFile, SocketAction::Bind]);
}

#[test]
fn startup_on_a_vacant_path_just_binds() {
    let acts = startup_actions(false);
    assert_eq!(acts, vec![SocketAction::Bind]);
}

#[test]
fn shutdown_removes_the_socket_path() {
    assert!(shutdown_action() == SocketAction::RemoveFile);
}
