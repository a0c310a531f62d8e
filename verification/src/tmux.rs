//! Process orchestration for the terminal multiplexer.
//!
//! Every operation shells out to the `tmux` binary with a `-L <server>`
//! label, which namespaces all multiplexer state per server name.  The
//! decisions live here: which command lines to run, in what order, and when
//! to refuse outright.  The surrounding shell spawns the planned commands
//! and feeds their exit status back in.

use vstd::prelude::*;

verus! {

/// One multiplexer invocation: the arguments after the `tmux` binary name.
pub enum TmuxCmd {
    /// `has-session -t =<session>`: a success exit status means the session
    /// exists.
    HasSession { server_name: String, session: String },
    /// `new-session -s <session> -c <session> -d`: the session name doubles
    /// as its working directory, by design.
    NewSession { server_name: String, session: String },
    /// `attach -t =<session>`: a foreground child that inherits the
    /// caller's terminal and blocks until the user detaches.
    Attach { server_name: String, session: String },
    /// `detach` against the labelled server.
    Detach { server_name: String },
    /// `kill-server` against the labelled server.
    KillServer { server_name: String },
}

/// Mathematical model of a multiplexer invocation.
pub enum CmdModel {
    HasSession { server_name: Seq<char>, session: Seq<char> },
    NewSession { server_name: Seq<char>, session: Seq<char> },
    Attach { server_name: Seq<char>, session: Seq<char> },
    Detach { server_name: Seq<char> },
    KillServer { server_name: Seq<char> },
}

impl View for TmuxCmd {
    type V = CmdModel;

    open spec fn view(&self) -> CmdModel {
        match self {
            TmuxCmd::HasSession { server_name, session } => CmdModel::HasSession {
                server_name: server_name@,
                session: session@,
            },
            TmuxCmd::NewSession { server_name, session } => CmdModel::NewSession {
                server_name: server_name@,
                session: session@,
            },
            TmuxCmd::Attach { server_name, session } => CmdModel::Attach {
                server_name: server_name@,
                session: session@,
            },
            TmuxCmd::Detach { server_name } => CmdModel::Detach { server_name: server_name@ },
            TmuxCmd::KillServer { server_name } => CmdModel::KillServer {
                server_name: server_name@,
            },
        }
    }
}

impl DeepView for TmuxCmd {
    type V = CmdModel;

    open spec fn deep_view(&self) -> CmdModel {
        self.view()
    }
}

/// The session selector `=<session>`: an exact-match target.
pub open spec fn eq_target(session: Seq<char>) -> Seq<char> {
    seq!['='] + session
}

/// The argument list of a command, exactly as it is handed to the binary.
pub open spec fn spec_argv(c: CmdModel) -> Seq<Seq<char>> {
    match c {
        CmdModel::HasSession { server_name, session } => seq![
            seq!['-', 'L'],
            server_name,
            seq!['h', 'a', 's', '-', 's', 'e', 's', 's', 'i', 'o', 'n'],
            seq!['-', 't'],
            eq_target(session),
        ],
        CmdModel::NewSession { server_name, session } => seq![
            seq!['-', 'L'],
            server_name,
            seq!['n', 'e', 'w', '-', 's', 'e', 's', 's', 'i', 'o', 'n'],
            seq!['-', 's'],
            session,
            seq!['-', 'c'],
            session,
            seq!['-', 'd'],
        ],
        CmdModel::Attach { server_name, session } => seq![
            seq!['-', 'L'],
            server_name,
            seq!['a', 't', 't', 'a', 'c', 'h'],
            seq!['-', 't'],
            eq_target(session),
        ],
        CmdModel::Detach { server_name } => seq![
            seq!['-', 'L'],
            server_name,
            seq!['d', 'e', 't', 'a', 'c', 'h'],
        ],
        CmdModel::KillServer { server_name } => seq![
            seq!['-', 'L'],
            server_name,
            seq!['k', 'i', 'l', 'l', '-', 's', 'e', 'r', 'v', 'e', 'r'],
        ],
    }
}

impl TmuxCmd {
    /// Builds the argument list the shell hands to the binary.
    pub fn argv(&self) -> (args: Vec<String>)
        ensures
            args.deep_view() == spec_argv(self@),
    {
        proof {
            reveal_strlit("-L");
            reveal_strlit("-t");
            reveal_strlit("-s");
            reveal_strlit("-c");
            reveal_strlit("-d");
            reveal_strlit("=");
            reveal_strlit("has-session");
            reveal_strlit("new-session");
            reveal_strlit("attach");
            reveal_strlit("detach");
            reveal_strlit("kill-server");
        }
        let mut args: Vec<String> = Vec::new();
        match self {
            TmuxCmd::HasSession { server_name, session } => {
                args.push(String::from_str("-L"));
                args.push(server_name.clone());
                args.push(String::from_str("has-session"));
                args.push(String::from_str("-t"));
                args.push(String::from_str("=").concat(session.as_str()));
                proof {
                    assert(args.deep_view().len() == 5);
                    assert(args.deep_view()[0] == "-L"@);
                    assert(args.deep_view()[1] == server_name@);
                    assert(args.deep_view()[2] == "has-session"@);
                    assert(args.deep_view()[3] == "-t"@);
                    assert(args.deep_view()[4] == eq_target(session@));
                    assert(args.deep_view() =~~= spec_argv(self@));
                }
            },
            TmuxCmd::NewSession { server_name, session } => {
                args.push(String::from_str("-L"));
                args.push(server_name.clone());
                args.push(String::from_str("new-session"));
                args.push(String::from_str("-s"));
                args.push(session.clone());
                args.push(String::from_str("-c"));
                args.push(session.clone());
                args.push(String::from_str("-d"));
                proof {
                    assert(args.deep_view().len() == 8);
                    assert(args.deep_view()[0] == "-L"@);
                    assert(args.deep_view()[1] == server_name@);
                    assert(args.deep_view()[2] == "new-session"@);
                    assert(args.deep_view()[3] == "-s"@);
                    assert(args.deep_view()[4] == session@);
                    assert(args.deep_view()[5] == "-c"@);
                    assert(args.deep_view()[6] == session@);
                    assert(args.deep_view()[7] == "-d"@);
                    assert(args.deep_view() =~~= spec_argv(self@));
                }
            },
            TmuxCmd::Attach { server_name, session } => {
                args.push(String::from_str("-L"));
                args.push(server_name.clone());
                args.push(String::from_str("attach"));
                args.push(String::from_str("-t"));
                args.push(String::from_str("=").concat(session.as_str()));
                proof {
                    assert(args.deep_view().len() == 5);
                    assert(args.deep_view()[0] == "-L"@);
                    assert(args.deep_view()[1] == server_name@);
                    assert(args.deep_view()[2] == "attach"@);
                    assert(args.deep_view()[3] == "-t"@);
                    assert(args.deep_view()[4] == eq_target(session@));
                    assert(args.deep_view() =~~= spec_argv(self@));
                }
            },
            TmuxCmd::Detach { server_name } => {
                args.push(String::from_str("-L"));
                args.push(server_name.clone());
                args.push(String::from_str("detach"));
                proof {
                    assert(args.deep_view() =~~= spec_argv(self@));
                }
            },
            TmuxCmd::KillServer { server_name } => {
                args.push(String::from_str("-L"));
                args.push(server_name.clone());
                args.push(String::from_str("kill-server"));
                proof {
                    assert(args.deep_view() =~~= spec_argv(self@));
                }
            },
        }
        args
    }
}

/// The refusal to attach from inside a server: the caller's own `TMUX`
/// variable was set, with this value.
#[derive(Debug)]
pub struct NestedError {
    pub tmux_value: String,
}

/// The first half of a create-or-attach: what to run before the probe, and
/// the probe itself.
pub struct AttachPlan {
    /// When recreating: the kill to issue first.  Its failure is ignored,
    /// since the server may simply not have existed.
    pub pre: Option<TmuxCmd>,
    /// The probe whose success exit status means the session exists.
    pub probe: TmuxCmd,
}

/// Plans a create-or-attach.  Refuses outright, planning no command at all,
/// when the caller's own environment says it is already inside a server:
/// the no-nesting guard.  Otherwise: kill first when recreating, then probe
/// for the session.
pub fn create(server_name: &String, session: &String, recreate: bool, tmux_env: Option<&String>) -> (r:
    Result<AttachPlan, NestedError>)
    ensures
        match r {
            Result::Ok(plan) => tmux_env is None && (match plan.pre {
                Option::Some(c) => recreate && c@ == (CmdModel::KillServer {
                    server_name: server_name@,
                }),
                Option::None => !recreate,
            }) && plan.probe@ == (CmdModel::HasSession {
                server_name: server_name@,
                session: session@,
            }),
            Result::Err(e) => tmux_env matches Option::Some(v) && e.tmux_value@ == v@,
        },
{
    match tmux_env {
        Option::Some(v) => Result::Err(NestedError { tmux_value: v.clone() }),
        Option::None => {
            let pre = if recreate {
                Option::Some(TmuxCmd::KillServer { server_name: server_name.clone() })
            } else {
                Option::None
            };
            Result::Ok(
                AttachPlan {
                    pre,
                    probe: TmuxCmd::HasSession {
                        server_name: server_name.clone(),
                        session: session.clone(),
                    },
                },
            )
        },
    }
}

/// The second half of a create-or-attach, once the probe's exit status is
/// in: create the session when it does not exist yet, then always attach.
pub fn continue_create(server_name: &String, session: &String, has_session: bool) -> (cmds: Vec<
    TmuxCmd,
>)
    ensures
        cmds.deep_view() == (if has_session {
            seq![
                CmdModel::Attach { server_name: server_name@, session: session@ },
            ]
        } else {
            seq![
                CmdModel::NewSession { server_name: server_name@, session: session@ },
                CmdModel::Attach { server_name: server_name@, session: session@ },
            ]
        }),
{
    let mut cmds: Vec<TmuxCmd> = Vec::new();
    if !has_session {
        cmds.push(
            TmuxCmd::NewSession { server_name: server_name.clone(), session: session.clone() },
        );
    }
    cmds.push(TmuxCmd::Attach { server_name: server_name.clone(), session: session.clone() });
    proof {
        if has_session {
            assert(cmds.deep_view() =~= seq![
                CmdModel::Attach { server_name: server_name@, session: session@ },
            ]);
        } else {
            assert(cmds.deep_view() =~= seq![
                CmdModel::NewSession { server_name: server_name@, session: session@ },
                CmdModel::Attach { server_name: server_name@, session: session@ },
            ]);
        }
    }
    cmds
}

/// The attach invocation for a session.
pub fn attach(server_name: &String, session: &String) -> (c: TmuxCmd)
    ensures
        c@ == (CmdModel::Attach { server_name: server_name@, session: session@ }),
{
    TmuxCmd::Attach { server_name: server_name.clone(), session: session.clone() }
}

/// The session-existence probe for a session.
pub fn has_session(server_name: &String, session: &String) -> (c: TmuxCmd)
    ensures
        c@ == (CmdModel::HasSession { server_name: server_name@, session: session@ }),
{
    TmuxCmd::HasSession { server_name: server_name.clone(), session: session.clone() }
}

/// The detached-session creation for a session.
pub fn new_session(server_name: &String, session: &String) -> (c: TmuxCmd)
    ensures
        c@ == (CmdModel::NewSession { server_name: server_name@, session: session@ }),
{
    TmuxCmd::NewSession { server_name: server_name.clone(), session: session.clone() }
}

/// The kill invocation for a server.  Run as the primary action, a non-zero
/// exit is an error; inside a recreate flow it is ignored.
pub fn kill(server_name: &String) -> (c: TmuxCmd)
    ensures
        c@ == (CmdModel::KillServer { server_name: server_name@ }),
{
    TmuxCmd::KillServer { server_name: server_name.clone() }
}

/// Start of the last `/`-separated segment of `v[..i]`.
pub open spec fn spec_seg_start(v: Seq<char>, i: int) -> int
    decreases i,
    when 0 <= i <= v.len()
{
    if i <= 0 {
        0
    } else if v[i - 1] == '/' {
        i
    } else {
        spec_seg_start(v, i - 1)
    }
}

/// Position of the first `,` at or after `i`, or the end.
pub open spec fn spec_label_end(v: Seq<char>, i: int) -> int
    decreases v.len() - i,
    when 0 <= i <= v.len()
{
    if i >= v.len() {
        v.len() as int
    } else if v[i] == ',' {
        i
    } else {
        spec_label_end(v, i + 1)
    }
}

/// The server label inside a `TMUX` variable value
/// `<socket-path>,<pid>,<window-index>`: the filename component of the
/// socket path, that is the last `/`-separated segment up to the first `,`.
pub open spec fn spec_label(v: Seq<char>) -> Seq<char> {
    v.subrange(spec_seg_start(v, v.len() as int), spec_label_end(v, spec_seg_start(v, v.len() as int)))
}

/// What a detach does.
pub enum DetachAction {
    /// The caller is not inside any server: a no-op.
    NoOp,
    /// Issue this detach.
    Run(TmuxCmd),
}

/// Mathematical model of a detach decision.
pub enum DetachModel {
    NoOp,
    Run(CmdModel),
}

impl View for DetachAction {
    type V = DetachModel;

    open spec fn view(&self) -> DetachModel {
        match self {
            DetachAction::NoOp => DetachModel::NoOp,
            DetachAction::Run(c) => DetachModel::Run(c@),
        }
    }
}

/// Decides a detach from the caller's `TMUX` variable: absent, a no-op;
/// present, a detach against the server whose label the value carries.
pub fn detach(tmux_env: Option<&String>) -> (a: DetachAction)
    ensures
        match tmux_env {
            Option::None => a@ == DetachModel::NoOp,
            Option::Some(v) => a@ == DetachModel::Run(
                CmdModel::Detach { server_name: spec_label(v@) },
            ),
        },
{
    let v = match tmux_env {
        Option::None => {
            return DetachAction::NoOp;
        },
        Option::Some(v) => v,
    };
    let s = v.as_str();
    let n = s.unicode_len();
    let mut k: usize = n;
    while k > 0 && s.get_char(k - 1) != '/'
        invariant
            0 <= k <= n,
            n == s@.len(),
            spec_seg_start(s@, n as int) == spec_seg_start(s@, k as int),
        decreases k,
    {
        k = k - 1;
    }
    let start = k;
    let mut e: usize = start;
    while e < n && s.get_char(e) != ','
        invariant
            start <= e <= n,
            n == s@.len(),
            spec_label_end(s@, start as int) == spec_label_end(s@, e as int),
        decreases n - e,
    {
        e = e + 1;
    }
    let label = s.substring_char(start, e).to_owned();
    DetachAction::Run(TmuxCmd::Detach { server_name: label })
}

} // verus!
