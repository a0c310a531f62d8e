//! The client side of the liveness check: the request it sends and the
//! reading of what comes back.  Opening the connection, writing and reading
//! are the shell's work.

use vstd::prelude::*;

use crate::codec::enc_envelope;
use crate::codec::encode_request;
use crate::dispatch::ev_error;
use crate::dispatch::ev_ping;
use crate::dispatch::ev_pong;
use crate::events::EnvelopeModel;
use crate::events::Request;

verus! {

/// The `ping` request envelope.
pub open spec fn ping_envelope() -> EnvelopeModel {
    EnvelopeModel { event: ev_ping(), payload: Option::None }
}

/// The request text a ping sends.
pub fn ping_request() -> (out: String)
    ensures
        out@ == enc_envelope(ping_envelope()),
{
    proof {
        reveal_strlit("ping");
        assert("ping"@ =~= ev_ping());
    }
    let r = Request { event: String::from_str("ping"), payload: Option::None };
    encode_request(&r)
}

/// What the client reports for a ping response.
#[derive(PartialEq, Eq, Structural)]
pub enum PingOutcome {
    /// The daemon answered `pong`.
    Pong,
    /// The daemon answered `error`.
    ServerError,
    /// The daemon answered something else.
    Unexpected,
}

/// Reads the daemon's answer to a ping by its event name.
pub fn ping_outcome(event: &String) -> (o: PingOutcome)
    ensures
        o == (if event@ == ev_pong() {
            PingOutcome::Pong
        } else if event@ == ev_error() {
            PingOutcome::ServerError
        } else {
            PingOutcome::Unexpected
        }),
{
    proof {
        reveal_strlit("pong");
        reveal_strlit("error");
        assert("pong"@ =~= ev_pong());
        assert("error"@ =~= ev_error());
    }
    let pong_lit = String::from_str("pong");
    let error_lit = String::from_str("error");
    if event.eq(&pong_lit) {
        PingOutcome::Pong
    } else if event.eq(&error_lit) {
        PingOutcome::ServerError
    } else {
        PingOutcome::Unexpected
    }
}

} // verus!
