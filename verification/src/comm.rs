//! The broadcast channel: per-window metadata and the multi-surface
//! fan-out of session-level events.
//!
//! An event is serialized once; then one independent copy of the resulting
//! envelope is addressed to every live surface, in the surfaces' order, so
//! that every display observes every event exactly once.

use vstd::prelude::*;
use crate::envelope::{HandlerResult, RawMessage};
use crate::json::{Json, JsonV, encode, encoded, jview, jviews, mviews};
use crate::text::{copy_text, is_lit, text};

verus! {

broadcast use vstd::string::group_string_axioms;

/// One UI surface: its identity and geometry, and whether it is the
/// primary display.
pub struct WindowMeta {
    pub id: i64,
    pub x: i64,
    pub y: i64,
    pub width: i64,
    pub height: i64,
    pub is_primary: bool,
}

/// The JSON shape of a surface's metadata.
pub open spec fn window_meta_json(m: WindowMeta) -> JsonV {
    JsonV::Obj(
        seq![
            ("id"@, JsonV::Num(m.id)),
            ("x"@, JsonV::Num(m.x)),
            ("y"@, JsonV::Num(m.y)),
            ("width"@, JsonV::Num(m.width)),
            ("height"@, JsonV::Num(m.height)),
            ("is_primary"@, JsonV::Bool(m.is_primary)),
        ],
    )
}

impl WindowMeta {
    /// This surface's metadata as a JSON object.
    pub fn to_json(&self) -> (r: Json)
        ensures
            r@ == window_meta_json(*self),
    {
        let mut members: Vec<(Vec<char>, Json)> = Vec::new();
        members.push((text("id"), Json::Num(self.id)));
        members.push((text("x"), Json::Num(self.x)));
        members.push((text("y"), Json::Num(self.y)));
        members.push((text("width"), Json::Num(self.width)));
        members.push((text("height"), Json::Num(self.height)));
        members.push((text("is_primary"), Json::Bool(self.is_primary)));
        let r = Json::Obj(members);
        proof {
            crate::json::lemma_mviews_len(members@);
            crate::json::lemma_mviews_index(members@, 0);
            crate::json::lemma_mviews_index(members@, 1);
            crate::json::lemma_mviews_index(members@, 2);
            crate::json::lemma_mviews_index(members@, 3);
            crate::json::lemma_mviews_index(members@, 4);
            crate::json::lemma_mviews_index(members@, 5);
            assert(mviews(members@) =~= window_meta_json(*self)->Obj_0);
            assert(r@ =~= window_meta_json(*self));
        }
        r
    }
}

/// The broadcast-channel handler: the method table of the `greeter_comm`
/// surface object.
pub struct GreeterComm {}

impl GreeterComm {
    pub fn new() -> (r: GreeterComm) {
        GreeterComm {}
    }

    /// Answers one call. `window_metadata` is a no-argument query for this
    /// surface's metadata; `broadcast` takes the event data as its first
    /// argument, answers `true`, and hands the data back for the host to
    /// fan out to every surface; an unknown method is the explicit
    /// `undefined` result.
    pub fn handle(&self, method: &Vec<char>, args: Vec<Json>, meta: &WindowMeta) -> (r: (
        HandlerResult,
        Option<Json>,
    ))
        ensures
            method@ == "window_metadata"@ ==> (r.0 matches HandlerResult::Value(j) && j@
                == window_meta_json(*meta) && r.1 is None),
            method@ == "broadcast"@ && args@.len() >= 1 ==> ({
                &&& r.0 matches HandlerResult::Value(j) && j@ == JsonV::Bool(true)
                &&& r.1 matches Some(d) && d@ == jview(args@[0])
            }),
            method@ == "broadcast"@ && args@.len() == 0 ==> r.0 is Undefined && r.1 is None,
            method@ != "window_metadata"@ && method@ != "broadcast"@ ==> r.0 is Undefined && r.1
                is None,
    {
        proof {
            reveal_strlit("window_metadata");
            reveal_strlit("broadcast");
            assert("window_metadata"@.len() == 15);
            assert("broadcast"@.len() == 9);
            assert("window_metadata"@ != "broadcast"@);
        }
        if is_lit(method, "window_metadata") {
            (HandlerResult::Value(meta.to_json()), None)
        } else if is_lit(method, "broadcast") && args.len() >= 1 {
            let mut args = args;
            let data = args.remove(0);
            (HandlerResult::Value(Json::Bool(true)), Some(data))
        } else {
            (HandlerResult::Undefined, None)
        }
    }
}

/// What an incoming host-to-script envelope means to the script side.
pub enum ScriptEvent {
    /// Emit the session signal of this name with these decoded arguments.
    SessionSignal(Vec<char>, Vec<Json>),
    /// Raise a broadcast event carrying this data.
    Broadcast(Json),
    /// Not an event envelope; nothing happens.
    Ignored,
}

/// How the script side reads a host-to-script envelope: a session-api
/// envelope names a signal to emit with the decoded arguments; a
/// broadcast-channel envelope must carry the internal emit marker, and
/// its first argument is the event data; anything else is ignored, as is
/// a malformed body.
pub open spec fn script_event_spec(name: Seq<char>, parts: Seq<Seq<char>>, args: Seq<JsonV>) -> (
    spec_fn(ScriptEvent) -> bool
) {
    |r: ScriptEvent|
        {
            if !(name == "session-api"@ || name == "broadcast-channel"@) || parts.len() == 0
                || parts.len() > 2 {
                r is Ignored
            } else if name == "session-api"@ {
                r matches ScriptEvent::SessionSignal(sig, dec) && sig@ == parts[0] && jviews(dec@)
                    == args
            } else if parts[0] == "_emit"@ && args.len() >= 1 {
                r matches ScriptEvent::Broadcast(d) && d@ == args[0]
            } else {
                r is Ignored
            }
        }
}

/// Classifies an incoming host-to-script envelope. The second part of the
/// body, where present, is read as a JSON argument array; the clause
/// below pins the outcome for every argument list the host can have
/// encoded.
pub fn classify_script_event(msg: RawMessage) -> (r: ScriptEvent)
    ensures
        forall|args: Seq<JsonV>|
            ((if msg.parts@.len() == 2 {
                msg.parts@[1]@
            } else {
                "[]"@
            }) == encoded(JsonV::Arr(args))) ==> #[trigger] (script_event_spec(
                msg.name@,
                crate::envelope::part_views(msg.parts@),
                args,
            ))(r),
{
    proof {
        reveal_strlit("session-api");
        reveal_strlit("broadcast-channel");
        assert("session-api"@.len() == 11);
        assert("broadcast-channel"@.len() == 17);
        assert("session-api"@ != "broadcast-channel"@);
    }
    let RawMessage { name, mut parts } = msg;
    let is_session = is_lit(&name, "session-api");
    let is_broadcast = is_lit(&name, "broadcast-channel");
    if !(is_session || is_broadcast) || parts.len() == 0 || parts.len() > 2 {
        return ScriptEvent::Ignored;
    }
    let args_text: Vec<char> = if parts.len() == 2 {
        parts.pop().unwrap()
    } else {
        text("[]")
    };
    let first: Vec<char> = parts.pop().unwrap();
    let mut args: Vec<Json> = crate::json::decode_args(&args_text);
    if is_session {
        ScriptEvent::SessionSignal(first, args)
    } else if is_lit(&first, "_emit") && args.len() >= 1 {
        let ghost argsv0 = args@;
        let data = args.remove(0);
        proof {
            assert forall|argsv: Seq<JsonV>|
                args_text@ == encoded(JsonV::Arr(argsv)) implies data@ == argsv[0] by {
                crate::json::lemma_jviews_index(argsv0, 0);
            }
        }
        ScriptEvent::Broadcast(data)
    } else {
        ScriptEvent::Ignored
    }
}

/// Serializes a session-level event once and addresses one independent
/// copy of the envelope to every live surface, in order: exactly one
/// delivery per surface, each carrying the same name, event and argument
/// text.
pub fn fan_out(surfaces: &Vec<u64>, channel: &str, event: &str, args: Vec<Json>) -> (r: Vec<
    (u64, RawMessage),
>)
    ensures
        r@.len() == surfaces@.len(),
        forall|i: int|
            0 <= i < r@.len() ==> {
                &&& (#[trigger] r@[i]).0 == surfaces@[i]
                &&& r@[i].1.name@ == channel@
                &&& r@[i].1.parts@.len() == 2
                &&& r@[i].1.parts@[0]@ == event@
                &&& r@[i].1.parts@[1]@ == encoded(JsonV::Arr(jviews(args@)))
            },
{
    let ghost argsv = args@;
    let payload: Vec<char> = encode(&Json::Arr(args));
    proof {
        assert(jview(Json::Arr(args)) == JsonV::Arr(jviews(argsv)));
    }
    let event_text: Vec<char> = text(event);
    let mut out: Vec<(u64, RawMessage)> = Vec::new();
    let mut i: usize = 0;
    while i < surfaces.len()
        invariant
            i <= surfaces@.len(),
            out@.len() == i,
            payload@ == encoded(JsonV::Arr(jviews(argsv))),
            event_text@ == event@,
            forall|k: int|
                0 <= k < i ==> {
                    &&& (#[trigger] out@[k]).0 == surfaces@[k]
                    &&& out@[k].1.name@ == channel@
                    &&& out@[k].1.parts@.len() == 2
                    &&& out@[k].1.parts@[0]@ == event@
                    &&& out@[k].1.parts@[1]@ == encoded(JsonV::Arr(jviews(argsv)))
                },
        decreases surfaces@.len() - i,
    {
        let mut parts: Vec<Vec<char>> = Vec::new();
        parts.push(copy_text(&event_text));
        parts.push(copy_text(&payload));
        let msg = RawMessage { name: text(channel), parts };
        out.push((surfaces[i], msg));
        i += 1;
    }
    out
}

} // verus!
