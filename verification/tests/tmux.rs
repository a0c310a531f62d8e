use sessionizer::tmux::attach;
use sessionizer::tmux::continue_create;
use sessionizer::tmux::create;
use sessionizer::tmux::detach;
use sessionizer::tmux::has_session;
use sessionizer::tmux::kill;
use sessionizer::tmux::new_session;
use sessionizer::tmux::DetachAction;

fn strings(words: &[&str]) -> Vec<String> {
    words.iter().map(|w| w.to_string()).collect()
}

#[test]
fn nesting_guard_refuses_and_plans_nothing() {
    let env = "/tmp/tmux-1000/default,12345,0".to_string();
    let r = create(
        &"default".to_string(),
        &"/home/u/proj".to_string(),
        false,
        Some(&env),
    );
    match r {
        Err(e) => assert_eq!(e.tmux_value, env),
        Ok(_) => panic!("attaching from inside a server must be refused"),
    }
}

#[test]
fn create_plan_without_recreate() {
    let plan = create(&"default".to_string(), &"/d".to_string(), false, None).expect("no nesting");
    assert!(plan.pre.is_none());
    assert_eq!(
        plan.probe.argv(),
        strings(&["-L", "default", "has-session", "-t", "=/d"])
    );
}

#[test]
fn create_plan_with_recreate_kills_first() {
    let plan = create(&"default".to_string(), &"/d".to_string(), true, None).expect("no nesting");
    match plan.pre {
        Some(cmd) => assert_eq!(cmd.argv(), strings(&["-L", "default", "kill-server"])),
        None => panic!("recreating must kill the old server first"),
    }
}

#[test]
fn continue_create_attaches_directly_when_session_exists() {
    let cmds = continue_create(&"default".to_string(), &"/d".to_string(), true);
    let argvs: Vec<Vec<String>> = cmds.into_iter().map(|c| c.argv()).collect();
    assert_eq!(argvs, vec![strings(&["-L", "default", "attach", "-t", "=/d"])]);
}

#[test]
fn continue_create_makes_session_then_attaches() {
    let cmds = continue_create(&"default".to_string(), &"/d".to_string(), false);
    let argvs: Vec<Vec<String>> = cmds.into_iter().map(|c| c.argv()).collect();
    assert_eq!(
        argvs,
        vec![
            strings(&["-L", "default", "new-session", "-s", "/d", "-c", "/d", "-d"]),
            strings(&["-L", "default", "attach", "-t", "=/d"]),
        ]
    );
}

#[test]
fn command_argument_lists() {
    assert_eq!(
        attach(&"s".to_string(), &"w".to_string()).argv(),
        strings(&["-L", "s", "attach", "-t", "=w"])
    );
    assert_eq!(
        has_session(&"s".to_string(), &"w".to_string()).argv(),
        strings(&["-L", "s", "has-session", "-t", "=w"])
    );
    assert_eq!(
        new_session(&"s".to_string(), &"w".to_string()).argv(),
        strings(&["-L", "s", "new-session", "-s", "w", "-c", "w", "-d"])
    );
    assert_eq!(kill(&"s".to_string()).argv(), strings(&["-L", "s", "kill-server"]));
}

#[test]
fn detach_outside_any_server_is_a_no_op() {
    assert!(matches!(detach(None), DetachAction::NoOp));
}

#[test]
fn detach_parses_label_from_environment() {
    let env = "/tmp/tmux-1000/default,12345,0".to_string();
    match detach(Some(&env)) {
        DetachAction::Run(cmd) => {
            assert_eq!(cmd.argv(), strings(&["-L", "default", "detach"]))
        }
        DetachAction::NoOp => panic!("inside a server, detach must run"),
    }
}

#[test]
fn detach_label_without_slash() {
    let env = "label,1,0".to_string();
    match detach(Some(&env)) {
        DetachAction::Run(cmd) => assert_eq!(cmd.argv(), strings(&["-L", "label", "detach"])),
        DetachAction::NoOp => panic!("inside a server, detach must run"),
    }
}

#[test]
fn detach_label_without_comma() {
    let env = "/run/sock".to_string();
    match detach(Some(&env)) {
        DetachAction::Run(cmd) => assert_eq!(cmd.argv(), strings(&["-L", "sock", "detach"])),
        DetachAction::NoOp => panic!("inside a server, detach must run"),
    }
}
