//! The script-side proxies: the declarative member tables the remote
//! objects are generated from, and the round-trip plumbing behind their
//! virtualized members.
//!
//! Each proxy member is a `(name, kind, default)` triple: reading a
//! property or calling a method sends one request envelope and decodes the
//! reply; where the transport fails, the member's declared default value
//! comes back instead, so script code never observes a throwing accessor.

use vstd::prelude::*;
use crate::envelope::RawMessage;
use crate::json::{Json, JsonV, encode, encoded, jview, jviews, parse};
use crate::lightdm::{json_as_text, obj_get, obj_lookup, text_of};
use crate::text::{copy_text, text};

verus! {

/// How a proxy member behaves.
#[derive(Debug, Clone, Copy, PartialEq, Eq, Structural)]
pub enum MemberKind {
    ReadOnly,
    ReadWrite,
    Method,
}

/// The value a member falls back to when the round trip fails.
#[derive(Debug, Clone, Copy, PartialEq, Eq, Structural)]
pub enum DefaultValue {
    EmptyArray,
    False,
    Null,
    Num(i64),
}

/// One proxy member.
pub struct Member {
    pub name: Vec<char>,
    pub kind: MemberKind,
    pub default: DefaultValue,
}

/// The model of a member list.
pub open spec fn member_views(ms: Seq<Member>) -> Seq<(Seq<char>, MemberKind, DefaultValue)> {
    Seq::new(ms.len(), |i: int| (ms[i].name@, ms[i].kind, ms[i].default))
}

/// The fallback value itself.
pub open spec fn default_json_v(d: DefaultValue) -> JsonV {
    match d {
        DefaultValue::EmptyArray => JsonV::Arr(Seq::empty()),
        DefaultValue::False => JsonV::Bool(false),
        DefaultValue::Null => JsonV::Null,
        DefaultValue::Num(n) => JsonV::Num(n),
    }
}

/// The fallback value of a member.
pub fn default_json(d: DefaultValue) -> (r: Json)
    ensures
        r@ == default_json_v(d),
{
    match d {
        DefaultValue::EmptyArray => Json::Arr(Vec::new()),
        DefaultValue::False => Json::Bool(false),
        DefaultValue::Null => Json::Null,
        DefaultValue::Num(n) => Json::Num(n),
    }
}

/// The request a property read sends: the member name, no arguments.
pub fn getter_request(ns: &str, prop: &Vec<char>) -> (r: RawMessage)
    ensures
        r.name@ == ns@,
        r.parts@.len() == 2,
        r.parts@[0]@ == prop@,
        r.parts@[1]@ == "[]"@,
{
    let mut parts: Vec<Vec<char>> = Vec::new();
    parts.push(copy_text(prop));
    parts.push(text("[]"));
    RawMessage { name: text(ns), parts }
}

/// The request a property write sends: the member name, and the new
/// value as a one-element JSON array. The reply's content is discarded.
pub fn setter_request(ns: &str, prop: &Vec<char>, value: Json) -> (r: RawMessage)
    ensures
        r.name@ == ns@,
        r.parts@.len() == 2,
        r.parts@[0]@ == prop@,
        r.parts@[1]@ == encoded(JsonV::Arr(seq![jview(value)])),
{
    let ghost valuev = jview(value);
    let mut arr: Vec<Json> = Vec::new();
    arr.push(value);
    let payload = encode(&Json::Arr(arr));
    proof {
        assert(jviews(seq![value]) =~= seq![valuev]) by {
            crate::json::lemma_jviews_len(seq![value]);
            crate::json::lemma_jviews_index(seq![value], 0);
        }
    }
    let mut parts: Vec<Vec<char>> = Vec::new();
    parts.push(copy_text(prop));
    parts.push(payload);
    RawMessage { name: text(ns), parts }
}

/// The request a method call sends: the method name and the caller's
/// arguments as a JSON array.
pub fn method_request(ns: &str, method: &Vec<char>, args: Vec<Json>) -> (r: RawMessage)
    ensures
        r.name@ == ns@,
        r.parts@.len() == 2,
        r.parts@[0]@ == method@,
        r.parts@[1]@ == encoded(JsonV::Arr(jviews(args@))),
{
    let ghost argsv = args@;
    let payload = encode(&Json::Arr(args));
    let mut parts: Vec<Vec<char>> = Vec::new();
    parts.push(copy_text(method));
    parts.push(payload);
    RawMessage { name: text(ns), parts }
}

/// The value a proxy member hands back: the reply's JSON text decoded; on
/// a failed round trip, the member's declared default; on text the codec
/// refuses, null, as the engine's own reader gives.
pub fn decode_reply(reply: Option<Vec<char>>, d: DefaultValue) -> (r: Json)
    ensures
        reply is None ==> r@ == default_json_v(d),
        reply matches Some(t) ==> (forall|v: JsonV| t@ == encoded(v) ==> r@ == v),
{
    match reply {
        None => default_json(d),
        Some(t) => match parse(&t) {
            Some(j) => j,
            None => Json::Null,
        },
    }
}

/// What a script-side `send_request` call puts on the wire: nothing when
/// the request object carries none of `target`, `method` and `args`;
/// otherwise the target as the envelope name, and the method with the
/// arguments' JSON text as the body. A missing member reads as the text
/// `undefined` (the engine's string coercion); missing arguments read as
/// the empty array.
pub open spec fn send_request_spec(req: JsonV) -> Option<(Seq<char>, Seq<char>, Seq<char>)> {
    match req {
        JsonV::Obj(ms) => {
            if obj_get(ms, "target"@) is None && obj_get(ms, "method"@) is None && obj_get(
                ms,
                "args"@,
            ) is None {
                None
            } else {
                Some(
                    (
                        match obj_get(ms, "target"@) {
                            Some(v) => text_of(v),
                            None => "undefined"@,
                        },
                        match obj_get(ms, "method"@) {
                            Some(v) => text_of(v),
                            None => "undefined"@,
                        },
                        match obj_get(ms, "args"@) {
                            Some(v) => encoded(v),
                            None => "[]"@,
                        },
                    ),
                )
            }
        },
        _ => None,
    }
}

/// Builds the envelope a script-side `send_request` call sends.
pub fn build_send_request(req: &Json) -> (r: Option<RawMessage>)
    ensures
        (match send_request_spec(req@) {
            Some((target, method, args)) => {
                &&& r matches Some(m)
                &&& m.name@ == target
                &&& m.parts@.len() == 2
                &&& m.parts@[0]@ == method
                &&& m.parts@[1]@ == args
            },
            None => r is None,
        }),
{
    let ms: &Vec<(Vec<char>, Json)> = match req {
        Json::Obj(ms) => ms,
        _ => {
            return None;
        },
    };
    let target_p = obj_lookup(ms, "target");
    let method_p = obj_lookup(ms, "method");
    let args_p = obj_lookup(ms, "args");
    if target_p.is_none() && method_p.is_none() && args_p.is_none() {
        return None;
    }
    let target: Vec<char> = match target_p {
        Some(v) => json_as_text(v),
        None => text("undefined"),
    };
    let method: Vec<char> = match method_p {
        Some(v) => json_as_text(v),
        None => text("undefined"),
    };
    let args: Vec<char> = match args_p {
        Some(v) => encode(v),
        None => text("[]"),
    };
    let mut parts: Vec<Vec<char>> = Vec::new();
    parts.push(method);
    parts.push(args);
    Some(RawMessage { name: target, parts })
}

/// A once-only latch: a surface is presented on its first `ready-to-show`
/// notification and never again.
pub struct ReadyLatch {
    pub shown: bool,
}

impl ReadyLatch {
    pub fn new() -> (r: ReadyLatch)
        ensures
            r.shown == false,
    {
        ReadyLatch { shown: false }
    }

    /// Whether to present the window now: only the first ask says yes.
    pub fn should_present(&mut self) -> (r: bool)
        ensures
            r == !old(self).shown,
            final(self).shown == true,
    {
        let r = !self.shown;
        self.shown = true;
        r
    }
}

/// Whether a console message is forwarded to the host for an operator
/// decision: only errors, only while prompts are not stopped, and only
/// with error detection switched on.
pub fn console_forward(is_error: bool, stop_prompts: bool, detect_theme_errors: bool) -> (r: bool)
    ensures
        r == (is_error && !stop_prompts && detect_theme_errors),
{
    is_error && !stop_prompts && detect_theme_errors
}

/// What the operator chose in the console-error prompt.
#[derive(Debug, Clone, Copy, PartialEq, Eq, Structural)]
pub enum ConsoleChoice {
    Keep,
    UseDefaultTheme,
    ReloadTheme,
}

/// The operator's dialog answer, by button index: cancel keeps the theme
/// and further prompts; the other two stop further prompts and change or
/// reload the theme.
pub fn console_prompt_outcome(button: u32) -> (r: (bool, ConsoleChoice))
    ensures
        button == 0 ==> r == (false, ConsoleChoice::Keep),
        button == 1 ==> r == (true, ConsoleChoice::UseDefaultTheme),
        button == 2 ==> r == (true, ConsoleChoice::ReloadTheme),
        button > 2 ==> r == (false, ConsoleChoice::Keep),
{
    if button == 1 {
        (true, ConsoleChoice::UseDefaultTheme)
    } else if button == 2 {
        (true, ConsoleChoice::ReloadTheme)
    } else {
        (false, ConsoleChoice::Keep)
    }
}

/// Whether secure mode blocks a page's outgoing request: only the local
/// schemes — `file`, `data`, and the greeter's own — may be fetched.
pub fn secure_mode_blocks(scheme: Option<&Vec<char>>) -> (r: bool)
    ensures
        r == !(match scheme {
            Some(s) => s@ == "file"@ || s@ == "data"@ || s@ == "web-greeter"@,
            None => false,
        }),
{
    match scheme {
        Some(s) => !(crate::text::is_lit(s, "file") || crate::text::is_lit(s, "data")
            || crate::text::is_lit(s, "web-greeter")),
        None => true,
    }
}

/// A surface's identity from the hashes of its monitor's manufacturer and
/// model names.
pub fn surface_id(manufacturer_hash: u64, model_hash: u64) -> (r: u64)
    ensures
        r == (manufacturer_hash << 24) | (model_hash << 8),
{
    (manufacturer_hash << 24) | (model_hash << 8)
}

/// The member table of the session API proxy: the read-only properties,
/// the two writable ones, and the callable methods, each with its
/// fallback value.
pub open spec fn lightdm_members_spec() -> Seq<(Seq<char>, MemberKind, DefaultValue)> {
    seq![
        ("authentication_user"@, MemberKind::ReadOnly, DefaultValue::Null),
        ("autologin_guest"@, MemberKind::ReadOnly, DefaultValue::False),
        ("autologin_timeout"@, MemberKind::ReadOnly, DefaultValue::Num(0)),
        ("autologin_user"@, MemberKind::ReadOnly, DefaultValue::Null),
        ("can_hibernate"@, MemberKind::ReadOnly, DefaultValue::False),
        ("can_restart"@, MemberKind::ReadOnly, DefaultValue::False),
        ("can_shutdown"@, MemberKind::ReadOnly, DefaultValue::False),
        ("can_suspend"@, MemberKind::ReadOnly, DefaultValue::False),
        ("default_session"@, MemberKind::ReadOnly, DefaultValue::Null),
        ("has_guest_account"@, MemberKind::ReadOnly, DefaultValue::False),
        ("hide_users_hint"@, MemberKind::ReadOnly, DefaultValue::False),
        ("hostname"@, MemberKind::ReadOnly, DefaultValue::Null),
        ("in_authentication"@, MemberKind::ReadOnly, DefaultValue::False),
        ("is_authenticated"@, MemberKind::ReadOnly, DefaultValue::False),
        ("language"@, MemberKind::ReadOnly, DefaultValue::Null),
        ("languages"@, MemberKind::ReadOnly, DefaultValue::EmptyArray),
        ("layouts"@, MemberKind::ReadOnly, DefaultValue::EmptyArray),
        ("lock_hint"@, MemberKind::ReadOnly, DefaultValue::False),
        ("remote_sessions"@, MemberKind::ReadOnly, DefaultValue::EmptyArray),
        ("select_guest_hint"@, MemberKind::ReadOnly, DefaultValue::False),
        ("select_user_hint"@, MemberKind::ReadOnly, DefaultValue::Null),
        ("sessions"@, MemberKind::ReadOnly, DefaultValue::EmptyArray),
        ("shared_data_directory"@, MemberKind::ReadOnly, DefaultValue::Null),
        ("show_manual_login_hint"@, MemberKind::ReadOnly, DefaultValue::False),
        ("show_remote_login_hint"@, MemberKind::ReadOnly, DefaultValue::False),
        ("users"@, MemberKind::ReadOnly, DefaultValue::EmptyArray),
        ("brightness"@, MemberKind::ReadWrite, DefaultValue::Num(-1i64)),
        ("layout"@, MemberKind::ReadWrite, DefaultValue::Null),
        ("authenticate"@, MemberKind::Method, DefaultValue::False),
        ("authenticate_as_guest"@, MemberKind::Method, DefaultValue::False),
        ("cancel_authentication"@, MemberKind::Method, DefaultValue::False),
        ("cancel_autologin"@, MemberKind::Method, DefaultValue::False),
        ("hibernate"@, MemberKind::Method, DefaultValue::False),
        ("respond"@, MemberKind::Method, DefaultValue::False),
        ("restart"@, MemberKind::Method, DefaultValue::False),
        ("set_language"@, MemberKind::Method, DefaultValue::False),
        ("shutdown"@, MemberKind::Method, DefaultValue::False),
        ("start_session"@, MemberKind::Method, DefaultValue::False),
        ("suspend"@, MemberKind::Method, DefaultValue::False),
    ]
}

/// The member table of the configuration proxy: four read-only
/// properties.
pub open spec fn config_members_spec() -> Seq<(Seq<char>, MemberKind, DefaultValue)> {
    seq![
        ("branding"@, MemberKind::ReadOnly, DefaultValue::Null),
        ("greeter"@, MemberKind::ReadOnly, DefaultValue::Null),
        ("features"@, MemberKind::ReadOnly, DefaultValue::Null),
        ("layouts"@, MemberKind::ReadOnly, DefaultValue::Null),
    ]
}

/// The member table of the broadcast-channel proxy.
pub open spec fn comm_members_spec() -> Seq<(Seq<char>, MemberKind, DefaultValue)> {
    seq![
        ("window_metadata"@, MemberKind::ReadOnly, DefaultValue::Null),
        ("broadcast"@, MemberKind::Method, DefaultValue::False),
    ]
}

/// Builds the session API proxy's member table.
pub fn lightdm_members() -> (r: Vec<Member>)
    ensures
        member_views(r@) == lightdm_members_spec(),
{
    let mut ms: Vec<Member> = Vec::new();
    ms.push(Member { name: text("authentication_user"), kind: MemberKind::ReadOnly, default: DefaultValue::Null });
    ms.push(Member { name: text("autologin_guest"), kind: MemberKind::ReadOnly, default: DefaultValue::False });
    ms.push(Member { name: text("autologin_timeout"), kind: MemberKind::ReadOnly, default: DefaultValue::Num(0) });
    ms.push(Member { name: text("autologin_user"), kind: MemberKind::ReadOnly, default: DefaultValue::Null });
    ms.push(Member { name: text("can_hibernate"), kind: MemberKind::ReadOnly, default: DefaultValue::False });
    ms.push(Member { name: text("can_restart"), kind: MemberKind::ReadOnly, default: DefaultValue::False });
    ms.push(Member { name: text("can_shutdown"), kind: MemberKind::ReadOnly, default: DefaultValue::False });
    ms.push(Member { name: text("can_suspend"), kind: MemberKind::ReadOnly, default: DefaultValue::False });
    ms.push(Member { name: text("default_session"), kind: MemberKind::ReadOnly, default: DefaultValue::Null });
    ms.push(Member { name: text("has_guest_account"), kind: MemberKind::ReadOnly, default: DefaultValue::False });
    ms.push(Member { name: text("hide_users_hint"), kind: MemberKind::ReadOnly, default: DefaultValue::False });
    ms.push(Member { name: text("hostname"), kind: MemberKind::ReadOnly, default: DefaultValue::Null });
    ms.push(Member { name: text("in_authentication"), kind: MemberKind::ReadOnly, default: DefaultValue::False });
    ms.push(Member { name: text("is_authenticated"), kind: MemberKind::ReadOnly, default: DefaultValue::False });
    ms.push(Member { name: text("language"), kind: MemberKind::ReadOnly, default: DefaultValue::Null });
    ms.push(Member { name: text("languages"), kind: MemberKind::ReadOnly, default: DefaultValue::EmptyArray });
    ms.push(Member { name: text("layouts"), kind: MemberKind::ReadOnly, default: DefaultValue::EmptyArray });
    ms.push(Member { name: text("lock_hint"), kind: MemberKind::ReadOnly, default: DefaultValue::False });
    ms.push(Member { name: text("remote_sessions"), kind: MemberKind::ReadOnly, default: DefaultValue::EmptyArray });
    ms.push(Member { name: text("select_guest_hint"), kind: MemberKind::ReadOnly, default: DefaultValue::False });
    ms.push(Member { name: text("select_user_hint"), kind: MemberKind::ReadOnly, default: DefaultValue::Null });
    ms.push(Member { name: text("sessions"), kind: MemberKind::ReadOnly, default: DefaultValue::EmptyArray });
    ms.push(Member { name: text("shared_data_directory"), kind: MemberKind::ReadOnly, default: DefaultValue::Null });
    ms.push(Member { name: text("show_manual_login_hint"), kind: MemberKind::ReadOnly, default: DefaultValue::False });
    ms.push(Member { name: text("show_remote_login_hint"), kind: MemberKind::ReadOnly, default: DefaultValue::False });
    ms.push(Member { name: text("users"), kind: MemberKind::ReadOnly, default: DefaultValue::EmptyArray });
    ms.push(Member { name: text("brightness"), kind: MemberKind::ReadWrite, default: DefaultValue::Num(-1) });
    ms.push(Member { name: text("layout"), kind: MemberKind::ReadWrite, default: DefaultValue::Null });
    ms.push(Member { name: text("authenticate"), kind: MemberKind::Method, default: DefaultValue::False });
    ms.push(Member { name: text("authenticate_as_guest"), kind: MemberKind::Method, default: DefaultValue::False });
    ms.push(Member { name: text("cancel_authentication"), kind: MemberKind::Method, default: DefaultValue::False });
    ms.push(Member { name: text("cancel_autologin"), kind: MemberKind::Method, default: DefaultValue::False });
    ms.push(Member { name: text("hibernate"), kind: MemberKind::Method, default: DefaultValue::False });
    ms.push(Member { name: text("respond"), kind: MemberKind::Method, default: DefaultValue::False });
    ms.push(Member { name: text("restart"), kind: MemberKind::Method, default: DefaultValue::False });
    ms.push(Member { name: text("set_language"), kind: MemberKind::Method, default: DefaultValue::False });
    ms.push(Member { name: text("shutdown"), kind: MemberKind::Method, default: DefaultValue::False });
    ms.push(Member { name: text("start_session"), kind: MemberKind::Method, default: DefaultValue::False });
    ms.push(Member { name: text("suspend"), kind: MemberKind::Method, default: DefaultValue::False });
    proof {
        assert(member_views(ms@) =~= lightdm_members_spec());
    }
    ms
}

/// Builds the configuration proxy's member table.
pub fn config_members() -> (r: Vec<Member>)
    ensures
        member_views(r@) == config_members_spec(),
{
    let mut ms: Vec<Member> = Vec::new();
    ms.push(Member { name: text("branding"), kind: MemberKind::ReadOnly, default: DefaultValue::Null });
    ms.push(Member { name: text("greeter"), kind: MemberKind::ReadOnly, default: DefaultValue::Null });
    ms.push(Member { name: text("features"), kind: MemberKind::ReadOnly, default: DefaultValue::Null });
    ms.push(Member { name: text("layouts"), kind: MemberKind::ReadOnly, default: DefaultValue::Null });
    proof {
        assert(member_views(ms@) =~= config_members_spec());
    }
    ms
}

/// Builds the broadcast-channel proxy's member table.
pub fn comm_members() -> (r: Vec<Member>)
    ensures
        member_views(r@) == comm_members_spec(),
{
    let mut ms: Vec<Member> = Vec::new();
    ms.push(Member { name: text("window_metadata"), kind: MemberKind::ReadOnly, default: DefaultValue::Null });
    ms.push(Member { name: text("broadcast"), kind: MemberKind::Method, default: DefaultValue::False });
    proof {
        assert(member_views(ms@) =~= comm_members_spec());
    }
    ms
}

} // verus!
