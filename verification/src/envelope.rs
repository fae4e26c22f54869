//! The wire envelopes: classifying a request and shaping a reply.
//!
//! A request arrives as a named message whose body is an array of one or two
//! strings: the method name, and optionally the JSON-encoded argument list.
//! The namespace name routes it to one of four handlers; anything else is
//! `Unknown` and is answered by an inert, empty envelope. A handled call is
//! answered by a `reply` envelope whose body is the JSON text of the result,
//! or the literal text `undefined` where the result has no JSON form.

use vstd::prelude::*;
use crate::json::{Json, encoded};
use crate::text::is_lit;

verus! {

/// A message as the transport hands it over: a name and its string parts.
pub struct RawMessage {
    pub name: Vec<char>,
    pub parts: Vec<Vec<char>>,
}

/// The four namespaces of the protocol.
#[derive(Debug, Clone, Copy, PartialEq, Eq, Structural)]
pub enum Namespace {
    SessionApi,
    BroadcastChannel,
    ConfigSnapshot,
    FilesystemUtility,
}

/// The views of the parts of a message.
pub open spec fn part_views(parts: Seq<Vec<char>>) -> Seq<Seq<char>> {
    Seq::new(parts.len(), |i: int| parts[i]@)
}

/// The namespace a message name routes to, if any.
pub open spec fn namespace_of(name: Seq<char>) -> Option<Namespace> {
    if name == "session-api"@ {
        Some(Namespace::SessionApi)
    } else if name == "broadcast-channel"@ {
        Some(Namespace::BroadcastChannel)
    } else if name == "config-snapshot"@ {
        Some(Namespace::ConfigSnapshot)
    } else if name == "filesystem-utility"@ {
        Some(Namespace::FilesystemUtility)
    } else {
        None
    }
}

/// How a raw message is classified: a malformed body (wrong arity, empty
/// method name) or an unrecognized name is `None`; otherwise the namespace,
/// the method, and the JSON text of the arguments (`[]` for a one-part
/// body).
pub open spec fn classified(name: Seq<char>, parts: Seq<Seq<char>>) -> Option<
    (Namespace, Seq<char>, Seq<char>),
> {
    if parts.len() == 0 || parts.len() > 2 {
        None
    } else {
        let method = parts[0];
        let args = if parts.len() == 2 { parts[1] } else { "[]"@ };
        if method.len() == 0 {
            None
        } else {
            match namespace_of(name) {
                Some(ns) => Some((ns, method, args)),
                None => None,
            }
        }
    }
}

/// Classifies a raw message, handing back owned method and argument text.
pub fn parse_message(m: RawMessage) -> (r: Option<(Namespace, Vec<char>, Vec<char>)>)
    ensures
        (match r {
            Some((ns, method, args)) => classified(m.name@, part_views(m.parts@)) == Some(
                (ns, method@, args@),
            ),
            None => classified(m.name@, part_views(m.parts@)) is None,
        }),
{
    let RawMessage { name, mut parts } = m;
    if parts.len() == 0 || parts.len() > 2 {
        return None;
    }
    let args: Vec<char> = if parts.len() == 2 {
        parts.pop().unwrap()
    } else {
        crate::text::text("[]")
    };
    let method: Vec<char> = parts.pop().unwrap();
    if method.len() == 0 {
        return None;
    }
    let ns: Option<Namespace> = if is_lit(&name, "session-api") {
        Some(Namespace::SessionApi)
    } else if is_lit(&name, "broadcast-channel") {
        Some(Namespace::BroadcastChannel)
    } else if is_lit(&name, "config-snapshot") {
        Some(Namespace::ConfigSnapshot)
    } else if is_lit(&name, "filesystem-utility") {
        Some(Namespace::FilesystemUtility)
    } else {
        None
    };
    match ns {
        Some(n) => Some((n, method, args)),
        None => None,
    }
}

/// What one call of a handler produces: a JSON value, or the explicit
/// `undefined` result for a method that is not in the table.
#[derive(Debug, PartialEq)]
pub enum HandlerResult {
    Value(Json),
    Undefined,
}

/// A reply envelope: its message name and, unless it is the inert reply to
/// an unknown namespace, its body text.
pub struct Reply {
    pub name: Vec<char>,
    pub body: Option<Vec<char>>,
}

/// The body text a handler result is sent back as.
pub open spec fn reply_body(hr: HandlerResult) -> Seq<char> {
    match hr {
        HandlerResult::Value(j) => encoded(j@),
        HandlerResult::Undefined => "undefined"@,
    }
}

/// Wraps a handler result in a `reply` envelope.
pub fn reply_of(hr: HandlerResult) -> (r: Reply)
    ensures
        r.name@ == "reply"@,
        r.body matches Some(b) && b@ == reply_body(hr),
{
    let body: Vec<char> = match &hr {
        HandlerResult::Value(j) => crate::json::encode(j),
        HandlerResult::Undefined => crate::text::text("undefined"),
    };
    Reply { name: crate::text::text("reply"), body: Some(body) }
}

/// The inert, empty reply to a message no handler claims.
pub fn inert_reply() -> (r: Reply)
    ensures
        r.name@ == Seq::<char>::empty(),
        r.body is None,
{
    Reply { name: Vec::new(), body: None }
}

} // verus!
