//! The client's server subcommand: list the known servers, attach to a
//! session (creating server and session as needed), or detach.  The
//! decision from parsed options to action is here; the shell carries the
//! action out.

use vstd::prelude::*;

use crate::cli::Globals;

verus! {

/// The server subcommand as parsed from the command line.
pub struct App {
    pub command: Command,
}

/// One of the server operations.
pub enum Command {
    /// List all the known servers of the user.
    List,
    /// Attach to a session on a server, creating both if necessary.
    Attach(AttachOptions),
    /// Detach from the current server.
    Detach,
}

/// Options of an attach.
pub struct AttachOptions {
    /// Name of the server.
    pub server_name: String,
    /// Recreate the server if it already exists.
    pub recreate: bool,
    /// Session name, defined as a filesystem directory.
    pub session: String,
}

/// Options of a client switch between servers; the command line does not
/// expose the flow yet.
pub struct SwitchOptions {
    /// Name of the server.
    pub name: String,
}

/// What the client does for one invocation.
pub enum ClientAction {
    /// Enumerate the registry directory of this user and print each name.
    ListServers { user_id: u32 },
    /// Detach from the current server.
    Detach,
    /// Attach to the session, creating server and session as needed.
    Attach { server_name: String, recreate: bool, session: String },
}

/// Mathematical model of a client action.
pub enum ActionModel {
    ListServers { user_id: u32 },
    Detach,
    Attach { server_name: Seq<char>, recreate: bool, session: Seq<char> },
}

impl View for ClientAction {
    type V = ActionModel;

    open spec fn view(&self) -> ActionModel {
        match self {
            ClientAction::ListServers { user_id } => ActionModel::ListServers {
                user_id: *user_id,
            },
            ClientAction::Detach => ActionModel::Detach,
            ClientAction::Attach { server_name, recreate, session } => ActionModel::Attach {
                server_name: server_name@,
                recreate: *recreate,
                session: session@,
            },
        }
    }
}

/// Decides the client's action from the parsed subcommand and globals:
/// listing goes against this user's registry, detaching needs no option,
/// attaching carries its options through.
pub fn run(app: App, globals: Globals) -> (a: ClientAction)
    ensures
        a@ == (match app.command {
            Command::List => ActionModel::ListServers { user_id: globals.user_id },
            Command::Detach => ActionModel::Detach,
            Command::Attach(o) => ActionModel::Attach {
                server_name: o.server_name@,
                recreate: o.recreate,
                session: o.session@,
            },
        }),
{
    match app.command {
        Command::List => ClientAction::ListServers { user_id: globals.user_id },
        Command::Detach => ClientAction::Detach,
        Command::Attach(o) => ClientAction::Attach {
            server_name: o.server_name,
            recreate: o.recreate,
            session: o.session,
        },
    }
}

} // verus!
