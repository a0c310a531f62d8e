//! The wire envelope and its payloads.
//!
//! Every message on the socket is one envelope `{event, payload}`: `event` is
//! always present, `payload` only for events that declare one.  A response's
//! `event` is either the success event name or the literal `"error"`.

use vstd::prelude::*;

verus! {

/// A character that may stand verbatim inside a JSON string on this wire:
/// not a quote, not a backslash, not a control character.  The codec encodes
/// strings without escape sequences, so every string carried by an envelope
/// must consist of plain characters.
pub open spec fn plain_char(c: char) -> bool {
    c != '"' && c != '\\' && c as u32 >= 0x20
}

/// All characters of the string are plain.
pub open spec fn plain_str(s: Seq<char>) -> bool {
    forall|i: int| 0 <= i < s.len() ==> plain_char(s[i])
}

/// Payload of a `server::list` request: the owning user, or `None` to let
/// the daemon resolve the user itself.
pub struct List {
    pub user_id: Option<u32>,
}

/// Payload of a `server::create` request: the owning user (or `None`, as for
/// `List`), the server name to register, and whether a running multiplexer
/// server of that name should be killed first.
pub struct Create {
    pub user_id: Option<u32>,
    pub name: String,
    pub recreate: bool,
}

/// The payload forms an envelope can carry.
pub enum Payload {
    /// A `server::list` request payload.
    List(List),
    /// A `server::create` request payload.
    Create(Create),
    /// A `server::list` response payload: the known server names.
    Names(Vec<String>),
}

/// A request envelope as sent by a client.
pub struct Request {
    pub event: String,
    pub payload: Option<Payload>,
}

/// A response envelope as sent by the daemon.
pub struct Response {
    pub event: String,
    pub payload: Option<Payload>,
}

/// Mathematical model of a payload.
pub enum PayloadModel {
    List { user_id: Option<u32> },
    Create { user_id: Option<u32>, name: Seq<char>, recreate: bool },
    Names(Seq<Seq<char>>),
}

/// Mathematical model of an envelope, shared by requests and responses.
pub struct EnvelopeModel {
    pub event: Seq<char>,
    pub payload: Option<PayloadModel>,
}

impl View for Payload {
    type V = PayloadModel;

    open spec fn view(&self) -> PayloadModel {
        match self {
            Payload::List(l) => PayloadModel::List { user_id: l.user_id },
            Payload::Create(c) => PayloadModel::Create {
                user_id: c.user_id,
                name: c.name@,
                recreate: c.recreate,
            },
            Payload::Names(ns) => PayloadModel::Names(ns.deep_view()),
        }
    }
}

impl View for Request {
    type V = EnvelopeModel;

    open spec fn view(&self) -> EnvelopeModel {
        EnvelopeModel {
            event: self.event@,
            payload: match self.payload {
                Option::None => Option::None,
                Option::Some(p) => Option::Some(p@),
            },
        }
    }
}

impl View for Response {
    type V = EnvelopeModel;

    open spec fn view(&self) -> EnvelopeModel {
        EnvelopeModel {
            event: self.event@,
            payload: match self.payload {
                Option::None => Option::None,
                Option::Some(p) => Option::Some(p@),
            },
        }
    }
}

/// A well-formed payload carries only plain strings.
pub open spec fn wf_payload(p: PayloadModel) -> bool {
    match p {
        PayloadModel::List { .. } => true,
        PayloadModel::Create { name, .. } => plain_str(name),
        PayloadModel::Names(ns) => forall|i: int| 0 <= i < ns.len() ==> plain_str(#[trigger] ns[i]),
    }
}

/// A well-formed envelope has a plain event name and a well-formed payload.
pub open spec fn wf_envelope(e: EnvelopeModel) -> bool {
    plain_str(e.event) && match e.payload {
        Option::None => true,
        Option::Some(p) => wf_payload(p),
    }
}

} // verus!
