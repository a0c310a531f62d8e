//! The daemon's per-connection dispatcher.
//!
//! A connection carries one request: the daemon reads once, decodes,
//! dispatches by the `event` string, writes one response and closes.  The
//! decision layer is here: from the request text to either a finished reply,
//! a registry question the shell must answer, or an abort.  Text that does
//! not decode to an envelope aborts the connection before dispatch; an
//! envelope whose event no table row names is answered with the `error`
//! event; a registry event whose payload is missing or of the wrong shape
//! ends the connection like any other per-connection failure, never the
//! daemon.

use vstd::prelude::*;

use crate::codec::decode_request;
use crate::codec::enc_envelope;
use crate::codec::encode_response;
use crate::codec::parse_envelope;
use crate::events::EnvelopeModel;
use crate::events::Payload;
use crate::events::PayloadModel;
use crate::events::Response;

verus! {

/// The `ping` event name.
pub open spec fn ev_ping() -> Seq<char> {
    seq!['p', 'i', 'n', 'g']
}

/// The `pong` event name.
pub open spec fn ev_pong() -> Seq<char> {
    seq!['p', 'o', 'n', 'g']
}

/// The `server::list` event name.
pub open spec fn ev_list() -> Seq<char> {
    seq!['s', 'e', 'r', 'v', 'e', 'r', ':', ':', 'l', 'i', 's', 't']
}

/// The `server::create` event name.
pub open spec fn ev_create() -> Seq<char> {
    seq!['s', 'e', 'r', 'v', 'e', 'r', ':', ':', 'c', 'r', 'e', 'a', 't', 'e']
}

/// The `error` event name.
pub open spec fn ev_error() -> Seq<char> {
    seq!['e', 'r', 'r', 'o', 'r']
}

/// The reply to a `ping`.
pub open spec fn pong_envelope() -> EnvelopeModel {
    EnvelopeModel { event: ev_pong(), payload: Option::None }
}

/// The reply to an unrecognized event.
pub open spec fn error_envelope() -> EnvelopeModel {
    EnvelopeModel { event: ev_error(), payload: Option::None }
}

/// The reply to a `server::list`: the known names.
pub open spec fn list_envelope(names: Seq<Seq<char>>) -> EnvelopeModel {
    EnvelopeModel { event: ev_list(), payload: Option::Some(PayloadModel::Names(names)) }
}

/// The reply to a `server::create`.
pub open spec fn create_envelope() -> EnvelopeModel {
    EnvelopeModel { event: ev_create(), payload: Option::None }
}

/// What the dispatcher decides for one request.
pub enum DaemonStep {
    /// Write this text back and close.
    Reply(String),
    /// Enumerate the registry of the user (to be resolved when absent),
    /// then reply with the names.
    QueryList { user_id: Option<u32> },
    /// Register the name for the user (to be resolved when absent), killing
    /// a running server of that name first when asked to, then confirm.
    QueryCreate { user_id: Option<u32>, name: String, recreate: bool },
    /// Close the connection without a reply.
    Abort,
}

/// Mathematical model of a dispatcher decision.
pub enum StepModel {
    Reply(Seq<char>),
    QueryList { user_id: Option<u32> },
    QueryCreate { user_id: Option<u32>, name: Seq<char>, recreate: bool },
    Abort,
}

impl View for DaemonStep {
    type V = StepModel;

    open spec fn view(&self) -> StepModel {
        match self {
            DaemonStep::Reply(text) => StepModel::Reply(text@),
            DaemonStep::QueryList { user_id } => StepModel::QueryList { user_id: *user_id },
            DaemonStep::QueryCreate { user_id, name, recreate } => StepModel::QueryCreate {
                user_id: *user_id,
                name: name@,
                recreate: *recreate,
            },
            DaemonStep::Abort => StepModel::Abort,
        }
    }
}

/// The dispatch table as one function: what the daemon decides for the
/// request text it read.
pub open spec fn spec_step(input: Seq<char>) -> StepModel {
    match parse_envelope(input) {
        Option::None => StepModel::Abort,
        Option::Some(e) => if e.event == ev_ping() {
            StepModel::Reply(enc_envelope(pong_envelope()))
        } else if e.event == ev_list() {
            match e.payload {
                Option::Some(PayloadModel::List { user_id }) => StepModel::QueryList { user_id },
                _ => StepModel::Abort,
            }
        } else if e.event == ev_create() {
            match e.payload {
                Option::Some(PayloadModel::Create { user_id, name, recreate }) =>
                    StepModel::QueryCreate { user_id, name, recreate },
                _ => StepModel::Abort,
            }
        } else {
            StepModel::Reply(enc_envelope(error_envelope()))
        },
    }
}

/// Whether the string equals the literal.
fn str_eq(a: &String, b: &str) -> (r: bool)
    ensures
        r == (a@ == b@),
{
    let bs = String::from_str(b);
    a.eq(&bs)
}

/// The `pong` reply text.
pub fn pong() -> (out: String)
    ensures
        out@ == enc_envelope(pong_envelope()),
{
    proof {
        reveal_strlit("pong");
        assert("pong"@ =~= ev_pong());
    }
    let r = Response { event: String::from_str("pong"), payload: Option::None };
    encode_response(&r)
}

/// The `error` reply text.
pub fn unknown() -> (out: String)
    ensures
        out@ == enc_envelope(error_envelope()),
{
    proof {
        reveal_strlit("error");
        assert("error"@ =~= ev_error());
    }
    let r = Response { event: String::from_str("error"), payload: Option::None };
    encode_response(&r)
}

/// The `server::list` reply text: the names the registry enumerated.
pub fn list_reply(names: Vec<String>) -> (out: String)
    ensures
        out@ == enc_envelope(list_envelope(names.deep_view())),
{
    proof {
        reveal_strlit("server::list");
        assert("server::list"@ =~= ev_list());
    }
    let r = Response {
        event: String::from_str("server::list"),
        payload: Option::Some(Payload::Names(names)),
    };
    encode_response(&r)
}

/// The `server::create` reply text.
pub fn create_reply() -> (out: String)
    ensures
        out@ == enc_envelope(create_envelope()),
{
    proof {
        reveal_strlit("server::create");
        assert("server::create"@ =~= ev_create());
    }
    let r = Response { event: String::from_str("server::create"), payload: Option::None };
    encode_response(&r)
}

/// Decides one connection's fate from the request text the daemon read:
/// the decision half of the read-dispatch-write loop.
pub fn handle_client(input: &str) -> (step: DaemonStep)
    ensures
        step@ == spec_step(input@),
{
    proof {
        reveal_strlit("ping");
        reveal_strlit("server::list");
        reveal_strlit("server::create");
        assert("ping"@ =~= ev_ping());
        assert("server::list"@ =~= ev_list());
        assert("server::create"@ =~= ev_create());
    }
    let req = match decode_request(input) {
        Option::None => {
            return DaemonStep::Abort;
        },
        Option::Some(r) => r,
    };
    if str_eq(&req.event, "ping") {
        return DaemonStep::Reply(pong());
    }
    if str_eq(&req.event, "server::list") {
        match req.payload {
            Option::Some(Payload::List(l)) => {
                return DaemonStep::QueryList { user_id: l.user_id };
            },
            _ => {
                return DaemonStep::Abort;
            },
        }
    }
    if str_eq(&req.event, "server::create") {
        match req.payload {
            Option::Some(Payload::Create(c)) => {
                return DaemonStep::QueryCreate {
                    user_id: c.user_id,
                    name: c.name,
                    recreate: c.recreate,
                };
            },
            _ => {
                return DaemonStep::Abort;
            },
        }
    }
    DaemonStep::Reply(unknown())
}

} // verus!
