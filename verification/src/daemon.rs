//! The daemon's startup options and the lifecycle of its socket path.
//!
//! One daemon owns one filesystem path.  On startup a file already standing
//! there is a stale artifact of an earlier instance and is removed before
//! the listening socket is bound; on shutdown the path is removed again, so
//! no dead socket stays behind.  The shell performs the filesystem actions
//! this module plans, in order.

use vstd::prelude::*;

verus! {

/// The daemon's startup options.
pub struct Args {
    /// Path where the socket file will be created.
    pub socket_file: String,
}

/// What stands at the socket path.
#[derive(Debug, PartialEq, Eq, Structural)]
pub enum PathState {
    /// Nothing.
    Vacant,
    /// A stale file of an earlier instance.
    Stale,
    /// This daemon's listening socket.
    Bound,
}

/// One filesystem action on the socket path.
#[derive(Debug, PartialEq, Eq, Structural)]
pub enum SocketAction {
    /// Remove whatever file stands at the path.
    RemoveFile,
    /// Bind the listening socket at the path.
    Bind,
}

/// What an action leaves at the path: a removal always clears it; a bind
/// succeeds only on a vacant path and changes nothing otherwise.
pub open spec fn apply(st: PathState, a: SocketAction) -> PathState {
    match a {
        SocketAction::RemoveFile => PathState::Vacant,
        SocketAction::Bind => if st == PathState::Vacant {
            PathState::Bound
        } else {
            st
        },
    }
}

/// What a run of actions leaves at the path.
pub open spec fn apply_all(st: PathState, acts: Seq<SocketAction>) -> PathState
    decreases acts.len(),
{
    if acts.len() == 0 {
        st
    } else {
        apply_all(apply(st, acts[0]), acts.skip(1))
    }
}

/// The startup plan: clear a stale file first, then bind.
pub open spec fn spec_startup(stale_exists: bool) -> Seq<SocketAction> {
    if stale_exists {
        seq![SocketAction::RemoveFile, SocketAction::Bind]
    } else {
        seq![SocketAction::Bind]
    }
}

/// Plans the daemon's startup for a path where a file does or does not
/// already stand.
pub fn startup_actions(stale_exists: bool) -> (acts: Vec<SocketAction>)
    ensures
        acts@ == spec_startup(stale_exists),
{
    let mut acts: Vec<SocketAction> = Vec::new();
    if stale_exists {
        acts.push(SocketAction::RemoveFile);
    }
    acts.push(SocketAction::Bind);
    proof {
        assert(acts@ =~= spec_startup(stale_exists));
    }
    acts
}

/// Plans the daemon's shutdown: the guard that removes the socket path once
/// the listener is done, under normal and panicking exits alike.
pub fn shutdown_action() -> (a: SocketAction)
    ensures
        a == SocketAction::RemoveFile,
        apply(PathState::Bound, a) == PathState::Vacant,
{
    SocketAction::RemoveFile
}

/// The socket lifecycle: starting over a stale file (or a vacant path)
/// ends with the socket bound, and the shutdown removal leaves the path
/// vacant again.
pub proof fn lemma_socket_lifecycle(stale_exists: bool)
    ensures
        apply_all(
            if stale_exists {
                PathState::Stale
            } else {
                PathState::Vacant
            },
            spec_startup(stale_exists),
        ) == PathState::Bound,
        apply(PathState::Bound, SocketAction::RemoveFile) == PathState::Vacant,
{
    let init = if stale_exists {
        PathState::Stale
    } else {
        PathState::Vacant
    };
    let plan = spec_startup(stale_exists);
    if stale_exists {
        let st1 = apply(init, SocketAction::RemoveFile);
        assert(st1 == PathState::Vacant);
        assert(plan[0] == SocketAction::RemoveFile);
        assert(apply_all(init, plan) == apply_all(st1, plan.skip(1)));
        assert(plan.skip(1) =~= seq![SocketAction::Bind]);
        assert(apply_all(st1, seq![SocketAction::Bind]) == apply_all(
            PathState::Bound,
            seq![SocketAction::Bind].skip(1),
        ));
        assert(seq![SocketAction::Bind].skip(1) =~= Seq::<SocketAction>::empty());
        assert(apply_all(PathState::Bound, Seq::<SocketAction>::empty()) == PathState::Bound);
    } else {
        assert(plan[0] == SocketAction::Bind);
        assert(apply_all(init, plan) == apply_all(PathState::Bound, plan.skip(1)));
        assert(plan.skip(1) =~= Seq::<SocketAction>::empty());
        assert(apply_all(PathState::Bound, Seq::<SocketAction>::empty()) == PathState::Bound);
    }
}

} // verus!
