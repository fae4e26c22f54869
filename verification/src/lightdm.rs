//! The session API handler: the method table of the `lightdm` namespace.
//!
//! The handler owns a snapshot of the session daemon's data (hints, users,
//! sessions, languages, keyboard layouts) as plain values, plus the one
//! piece of local state, the brightness level. No-argument methods are
//! queries over the snapshot, or commands; argument-taking methods store a
//! value or command the daemon. A command does not answer by itself: the
//! handler hands back a [`HostAction`] for the driver to perform, and the
//! reply is built from the action's outcome by [`finish_command`].
//!
//! The whole table is the pair of specification functions [`lightdm_out`]
//! and [`lightdm_next`]; `handle` is proved to follow them exactly.

use vstd::prelude::*;
use crate::envelope::HandlerResult;
use crate::json::{Json, JsonV, encode, encoded, jviews, mviews, lemma_jviews_index,
    lemma_jviews_len, lemma_mviews_index, lemma_mviews_len};
use crate::text::{copy_text, is_lit, text};

verus! {

/// A language the daemon offers.
pub struct Language {
    pub code: Option<Vec<char>>,
    pub name: Option<Vec<char>>,
    pub territory: Option<Vec<char>>,
}

/// A keyboard layout the daemon offers.
pub struct Layout {
    pub name: Option<Vec<char>>,
    pub description: Option<Vec<char>>,
    pub short_description: Option<Vec<char>>,
}

/// A session (desktop environment) the daemon offers.
pub struct SessionEntry {
    pub comment: Option<Vec<char>>,
    pub key: Option<Vec<char>>,
    pub name: Option<Vec<char>>,
    pub session_type: Option<Vec<char>>,
}

/// A user account the daemon knows.
pub struct User {
    pub background: Option<Vec<char>>,
    pub display_name: Option<Vec<char>>,
    pub home_directory: Option<Vec<char>>,
    pub image: Option<Vec<char>>,
    pub language: Option<Vec<char>>,
    pub layout: Option<Vec<char>>,
    pub layouts: Vec<Vec<char>>,
    pub logged_in: bool,
    pub session: Option<Vec<char>>,
    pub username: Option<Vec<char>>,
}

/// An optional string as a JSON value: the string, or null.
pub open spec fn opt_str_json(o: Option<Vec<char>>) -> JsonV {
    match o {
        Some(v) => JsonV::Str(v@),
        None => JsonV::Null,
    }
}

/// The JSON shape of a language.
pub open spec fn language_json(l: Language) -> JsonV {
    JsonV::Obj(
        seq![
            ("code"@, opt_str_json(l.code)),
            ("name"@, opt_str_json(l.name)),
            ("territory"@, opt_str_json(l.territory)),
        ],
    )
}

/// The JSON shape of a keyboard layout.
pub open spec fn layout_json(l: Layout) -> JsonV {
    JsonV::Obj(
        seq![
            ("name"@, opt_str_json(l.name)),
            ("description"@, opt_str_json(l.description)),
            ("short_description"@, opt_str_json(l.short_description)),
        ],
    )
}

/// The JSON shape of a session entry.
pub open spec fn session_json(s: SessionEntry) -> JsonV {
    JsonV::Obj(
        seq![
            ("comment"@, opt_str_json(s.comment)),
            ("key"@, opt_str_json(s.key)),
            ("name"@, opt_str_json(s.name)),
            ("type"@, opt_str_json(s.session_type)),
        ],
    )
}

/// The JSON shape of a user: every field, with the layouts as an array
/// of strings.
pub open spec fn user_json(u: User) -> JsonV {
    JsonV::Obj(
        seq![
            ("background"@, opt_str_json(u.background)),
            ("display_name"@, opt_str_json(u.display_name)),
            ("home_directory"@, opt_str_json(u.home_directory)),
            ("image"@, opt_str_json(u.image)),
            ("language"@, opt_str_json(u.language)),
            ("layout"@, opt_str_json(u.layout)),
            ("layouts"@, JsonV::Arr(Seq::new(u.layouts@.len(), |i: int| JsonV::Str(u.layouts@[i]@)))),
            ("logged_in"@, JsonV::Bool(u.logged_in)),
            ("session"@, opt_str_json(u.session)),
            ("username"@, opt_str_json(u.username)),
        ],
    )
}

/// The JSON shapes of a whole list, in order.
pub open spec fn languages_json(ls: Seq<Language>) -> Seq<JsonV> {
    Seq::new(ls.len(), |i: int| language_json(ls[i]))
}

pub open spec fn layouts_json(ls: Seq<Layout>) -> Seq<JsonV> {
    Seq::new(ls.len(), |i: int| layout_json(ls[i]))
}

pub open spec fn sessions_json(ls: Seq<SessionEntry>) -> Seq<JsonV> {
    Seq::new(ls.len(), |i: int| session_json(ls[i]))
}

pub open spec fn users_json(ls: Seq<User>) -> Seq<JsonV> {
    Seq::new(ls.len(), |i: int| user_json(ls[i]))
}

/// An action only the host process can perform: a call into the session
/// daemon or the power facilities.
pub enum HostAction {
    Authenticate(Option<Vec<char>>),
    AuthenticateAsGuest,
    CancelAuthentication,
    CancelAutologin,
    Hibernate,
    Respond(Vec<char>),
    Restart,
    SetLanguage(Vec<char>),
    SetLayout(Vec<char>),
    Shutdown,
    StartSession(Option<Vec<char>>),
    Suspend,
}

/// What one call of the handler decides.
pub enum Outcome {
    /// The reply is ready.
    Reply(HandlerResult),
    /// The reply is ready, and the host also performs the action,
    /// fire-and-forget.
    ReplyWithAction(HandlerResult, HostAction),
    /// The host must perform the action; the reply is
    /// `finish_command` of its outcome.
    AwaitAction(HostAction),
    /// A script-visible exception with this message; no reply value.
    Fault(Vec<char>),
}

/// The model of a host action.
pub enum ActionV {
    Authenticate(Option<Seq<char>>),
    AuthenticateAsGuest,
    CancelAuthentication,
    CancelAutologin,
    Hibernate,
    Respond(Seq<char>),
    Restart,
    SetLanguage(Seq<char>),
    SetLayout(Seq<char>),
    Shutdown,
    StartSession(Option<Seq<char>>),
    Suspend,
}

/// The model of a handler result.
pub enum ResultV {
    Value(JsonV),
    Undefined,
}

/// The model of an outcome.
pub enum OutcomeV {
    Reply(ResultV),
    ReplyWithAction(ResultV, ActionV),
    AwaitAction(ActionV),
    Fault(Seq<char>),
}

pub open spec fn hr_view(hr: HandlerResult) -> ResultV {
    match hr {
        HandlerResult::Value(j) => ResultV::Value(j@),
        HandlerResult::Undefined => ResultV::Undefined,
    }
}

pub open spec fn action_view(a: HostAction) -> ActionV {
    match a {
        HostAction::Authenticate(u) => ActionV::Authenticate(
            match u {
                Some(v) => Some(v@),
                None => None,
            },
        ),
        HostAction::AuthenticateAsGuest => ActionV::AuthenticateAsGuest,
        HostAction::CancelAuthentication => ActionV::CancelAuthentication,
        HostAction::CancelAutologin => ActionV::CancelAutologin,
        HostAction::Hibernate => ActionV::Hibernate,
        HostAction::Respond(t) => ActionV::Respond(t@),
        HostAction::Restart => ActionV::Restart,
        HostAction::SetLanguage(t) => ActionV::SetLanguage(t@),
        HostAction::SetLayout(t) => ActionV::SetLayout(t@),
        HostAction::Shutdown => ActionV::Shutdown,
        HostAction::StartSession(u) => ActionV::StartSession(
            match u {
                Some(v) => Some(v@),
                None => None,
            },
        ),
        HostAction::Suspend => ActionV::Suspend,
    }
}

pub open spec fn outcome_view(o: Outcome) -> OutcomeV {
    match o {
        Outcome::Reply(hr) => OutcomeV::Reply(hr_view(hr)),
        Outcome::ReplyWithAction(hr, a) => OutcomeV::ReplyWithAction(hr_view(hr), action_view(a)),
        Outcome::AwaitAction(a) => OutcomeV::AwaitAction(action_view(a)),
        Outcome::Fault(t) => OutcomeV::Fault(t@),
    }
}

/// The session API handler's state: the daemon snapshot and the stored
/// brightness level.
pub struct LightDm {
    pub brightness: i64,
    pub shared_data_directory: Vec<char>,
    pub authentication_user: Option<Vec<char>>,
    pub autologin_guest: bool,
    pub autologin_timeout: i64,
    pub autologin_user: Option<Vec<char>>,
    pub can_hibernate: bool,
    pub can_restart: bool,
    pub can_shutdown: bool,
    pub can_suspend: bool,
    pub default_session: Option<Vec<char>>,
    pub has_guest_account: bool,
    pub hide_users_hint: bool,
    pub hostname: Option<Vec<char>>,
    pub in_authentication: bool,
    pub is_authenticated: bool,
    pub language: Option<Language>,
    pub languages: Vec<Language>,
    pub layout: Option<Layout>,
    pub layouts: Vec<Layout>,
    pub lock_hint: bool,
    pub remote_sessions: Vec<SessionEntry>,
    pub select_guest_hint: bool,
    pub select_user_hint: Option<Vec<char>>,
    pub sessions: Vec<SessionEntry>,
    pub show_manual_login_hint: bool,
    pub show_remote_login_hint: bool,
    pub users: Vec<User>,
}

/// The ECMAScript-style 32-bit coercion a stored brightness goes through:
/// a number is truncated to 32 bits; anything else stores zero.
pub open spec fn to_int32(v: JsonV) -> i64 {
    match v {
        JsonV::Num(n) => (n as i32) as i64,
        _ => 0,
    }
}

/// The text form of an argument, as the script side's string coercion
/// hands it over: a string's characters; any other value, its JSON text.
pub open spec fn text_of(v: JsonV) -> Seq<char> {
    match v {
        JsonV::Str(s) => s,
        _ => encoded(v),
    }
}

/// The first value under a key in a JSON object's member list.
pub open spec fn obj_get(ms: Seq<(Seq<char>, JsonV)>, key: Seq<char>) -> Option<JsonV>
    decreases ms.len(),
{
    if ms.len() == 0 {
        None
    } else if ms[0].0 == key {
        Some(ms[0].1)
    } else {
        obj_get(ms.skip(1), key)
    }
}

/// The name the script supplied for a layout: the object's `name` member,
/// where it is a string.
pub open spec fn supplied_layout_name(v: JsonV) -> Option<Seq<char>> {
    match v {
        JsonV::Obj(ms) => match obj_get(ms, "name"@) {
            Some(JsonV::Str(s)) => Some(s),
            _ => None,
        },
        _ => None,
    }
}

/// Whether the layout object carries the three required members.
pub open spec fn layout_fields_present(v: JsonV) -> bool {
    match v {
        JsonV::Obj(ms) => {
            &&& obj_get(ms, "name"@) is Some
            &&& obj_get(ms, "description"@) is Some
            &&& obj_get(ms, "short_description"@) is Some
        },
        _ => false,
    }
}

/// The name of a known layout, viewed.
pub open spec fn layout_name_view(l: Layout) -> Option<Seq<char>> {
    match l.name {
        Some(v) => Some(v@),
        None => None,
    }
}

/// The index of the first known layout whose name is `n`.
pub open spec fn first_layout_named(ls: Seq<Layout>, n: Option<Seq<char>>) -> Option<int>
    decreases ls.len(),
{
    if ls.len() == 0 {
        None
    } else if layout_name_view(ls[0]) == n {
        Some(0)
    } else {
        match first_layout_named(ls.skip(1), n) {
            Some(i) => Some(i + 1),
            None => None,
        }
    }
}

/// The state after one call: only storing a brightness changes it.
pub open spec fn lightdm_next(s: LightDm, method: Seq<char>, args: Seq<JsonV>) -> LightDm {
    if method == "brightness"@ && args.len() >= 1 {
        LightDm { brightness: to_int32(args[0]), ..s }
    } else {
        s
    }
}

/// The no-argument half of the method table: queries over the snapshot,
/// and the commands that take no argument.
pub open spec fn lightdm_query(s: LightDm, method: Seq<char>) -> OutcomeV {
    if method == "authentication_user"@ {
        OutcomeV::Reply(ResultV::Value(opt_str_json(s.authentication_user)))
    } else if method == "autologin_guest"@ {
        OutcomeV::Reply(ResultV::Value(JsonV::Bool(s.autologin_guest)))
    } else if method == "autologin_timeout"@ {
        OutcomeV::Reply(ResultV::Value(JsonV::Num(s.autologin_timeout)))
    } else if method == "autologin_user"@ {
        OutcomeV::Reply(ResultV::Value(opt_str_json(s.autologin_user)))
    } else if method == "brightness"@ {
        OutcomeV::Reply(ResultV::Value(JsonV::Num(s.brightness)))
    } else if method == "can_hibernate"@ {
        OutcomeV::Reply(ResultV::Value(JsonV::Bool(s.can_hibernate)))
    } else if method == "can_restart"@ {
        OutcomeV::Reply(ResultV::Value(JsonV::Bool(s.can_restart)))
    } else if method == "can_shutdown"@ {
        OutcomeV::Reply(ResultV::Value(JsonV::Bool(s.can_shutdown)))
    } else if method == "can_suspend"@ {
        OutcomeV::Reply(ResultV::Value(JsonV::Bool(s.can_suspend)))
    } else if method == "default_session"@ {
        OutcomeV::Reply(ResultV::Value(opt_str_json(s.default_session)))
    } else if method == "has_guest_account"@ {
        OutcomeV::Reply(ResultV::Value(JsonV::Bool(s.has_guest_account)))
    } else if method == "hide_users_hint"@ {
        OutcomeV::Reply(ResultV::Value(JsonV::Bool(s.hide_users_hint)))
    } else if method == "hostname"@ {
        OutcomeV::Reply(ResultV::Value(opt_str_json(s.hostname)))
    } else if method == "in_authentication"@ {
        OutcomeV::Reply(ResultV::Value(JsonV::Bool(s.in_authentication)))
    } else if method == "is_authenticated"@ {
        OutcomeV::Reply(ResultV::Value(JsonV::Bool(s.is_authenticated)))
    } else if method == "language"@ {
        match s.language {
            Some(l) => OutcomeV::Reply(ResultV::Value(language_json(l))),
            None => if s.languages@.len() > 0 {
                OutcomeV::Reply(ResultV::Value(language_json(s.languages@[0])))
            } else {
                OutcomeV::Reply(ResultV::Undefined)
            },
        }
    } else if method == "languages"@ {
        OutcomeV::Reply(ResultV::Value(JsonV::Arr(languages_json(s.languages@))))
    } else if method == "layout"@ {
        match s.layout {
            Some(l) => OutcomeV::Reply(ResultV::Value(layout_json(l))),
            None => if s.layouts@.len() > 0 {
                OutcomeV::Reply(ResultV::Value(layout_json(s.layouts@[0])))
            } else {
                OutcomeV::Reply(ResultV::Undefined)
            },
        }
    } else if method == "layouts"@ {
        OutcomeV::Reply(ResultV::Value(JsonV::Arr(layouts_json(s.layouts@))))
    } else if method == "lock_hint"@ {
        OutcomeV::Reply(ResultV::Value(JsonV::Bool(s.lock_hint)))
    } else if method == "remote_sessions"@ {
        OutcomeV::Reply(ResultV::Value(JsonV::Arr(sessions_json(s.remote_sessions@))))
    } else if method == "select_guest_hint"@ {
        OutcomeV::Reply(ResultV::Value(JsonV::Bool(s.select_guest_hint)))
    } else if method == "select_user_hint"@ {
        OutcomeV::Reply(ResultV::Value(opt_str_json(s.select_user_hint)))
    } else if method == "sessions"@ {
        OutcomeV::Reply(ResultV::Value(JsonV::Arr(sessions_json(s.sessions@))))
    } else if method == "shared_data_directory"@ {
        if s.shared_data_directory@.len() == 0 {
            OutcomeV::Reply(ResultV::Value(JsonV::Null))
        } else {
            OutcomeV::Reply(ResultV::Value(JsonV::Str(s.shared_data_directory@)))
        }
    } else if method == "show_manual_login_hint"@ {
        OutcomeV::Reply(ResultV::Value(JsonV::Bool(s.show_manual_login_hint)))
    } else if method == "show_remote_login_hint"@ {
        OutcomeV::Reply(ResultV::Value(JsonV::Bool(s.show_remote_login_hint)))
    } else if method == "users"@ {
        OutcomeV::Reply(ResultV::Value(JsonV::Arr(users_json(s.users@))))
    } else if method == "authenticate_as_guest"@ {
        OutcomeV::AwaitAction(ActionV::AuthenticateAsGuest)
    } else if method == "cancel_authentication"@ {
        OutcomeV::AwaitAction(ActionV::CancelAuthentication)
    } else if method == "cancel_autologin"@ {
        OutcomeV::ReplyWithAction(ResultV::Value(JsonV::Bool(true)), ActionV::CancelAutologin)
    } else if method == "hibernate"@ {
        OutcomeV::AwaitAction(ActionV::Hibernate)
    } else if method == "restart"@ {
        OutcomeV::AwaitAction(ActionV::Restart)
    } else if method == "shutdown"@ {
        OutcomeV::AwaitAction(ActionV::Shutdown)
    } else if method == "suspend"@ {
        OutcomeV::AwaitAction(ActionV::Suspend)
    } else {
        OutcomeV::Reply(ResultV::Undefined)
    }
}

/// The argument-taking half of the method table.
pub open spec fn lightdm_command(s: LightDm, method: Seq<char>, args: Seq<JsonV>) -> OutcomeV {
    if method == "brightness"@ {
        OutcomeV::Reply(ResultV::Value(JsonV::Bool(true)))
    } else if method == "layout"@ {
        if !layout_fields_present(args[0]) {
            OutcomeV::Fault("Invalid Layout"@)
        } else {
            let n = supplied_layout_name(args[0]);
            match first_layout_named(s.layouts@, n) {
                Some(i) => match n {
                    Some(nm) => OutcomeV::ReplyWithAction(
                        ResultV::Value(JsonV::Bool(true)),
                        ActionV::SetLayout(nm),
                    ),
                    None => OutcomeV::Reply(ResultV::Value(JsonV::Bool(false))),
                },
                None => OutcomeV::Reply(ResultV::Value(JsonV::Bool(false))),
            }
        }
    } else if method == "authenticate"@ {
        OutcomeV::AwaitAction(ActionV::Authenticate(Some(text_of(args[0]))))
    } else if method == "respond"@ {
        OutcomeV::AwaitAction(ActionV::Respond(text_of(args[0])))
    } else if method == "set_language"@ {
        OutcomeV::AwaitAction(ActionV::SetLanguage(text_of(args[0])))
    } else if method == "start_session"@ {
        OutcomeV::AwaitAction(ActionV::StartSession(Some(text_of(args[0]))))
    } else {
        OutcomeV::Reply(ResultV::Undefined)
    }
}

/// The whole method table.
pub open spec fn lightdm_out(s: LightDm, method: Seq<char>, args: Seq<JsonV>) -> OutcomeV {
    if args.len() == 0 {
        lightdm_query(s, method)
    } else {
        lightdm_command(s, method, args)
    }
}

/// A call without arguments never changes the handler's state, so a
/// read-only query repeated without an intervening change answers the
/// same both times.
pub proof fn lemma_noarg_query_idempotent(s: LightDm, method: Seq<char>)
    ensures
        lightdm_next(s, method, Seq::<JsonV>::empty()) == s,
        lightdm_out(lightdm_next(s, method, Seq::<JsonV>::empty()), method, Seq::<JsonV>::empty())
            == lightdm_out(s, method, Seq::<JsonV>::empty()),
{
}

/// The reply a command is answered with once the host has performed the
/// action: the boolean outcome.
pub fn finish_command(ok: bool) -> (r: HandlerResult)
    ensures
        r == HandlerResult::Value(Json::Bool(ok)),
{
    HandlerResult::Value(Json::Bool(ok))
}

/// An optional string as a JSON value.
pub fn opt_str_to_json(o: &Option<Vec<char>>) -> (r: Json)
    ensures
        r@ == opt_str_json(*o),
{
    match o {
        Some(v) => Json::Str(copy_text(v)),
        None => Json::Null,
    }
}

/// A language as its JSON object.
pub fn language_to_json(l: &Language) -> (r: Json)
    ensures
        r@ == language_json(*l),
{
    let mut ms: Vec<(Vec<char>, Json)> = Vec::new();
    ms.push((text("code"), opt_str_to_json(&l.code)));
    ms.push((text("name"), opt_str_to_json(&l.name)));
    ms.push((text("territory"), opt_str_to_json(&l.territory)));
    let r = Json::Obj(ms);
    proof {
        lemma_mviews_len(ms@);
        lemma_mviews_index(ms@, 0);
        lemma_mviews_index(ms@, 1);
        lemma_mviews_index(ms@, 2);
        assert(mviews(ms@) =~= language_json(*l)->Obj_0);
        assert(r@ =~= language_json(*l));
    }
    r
}

/// A keyboard layout as its JSON object.
pub fn layout_to_json(l: &Layout) -> (r: Json)
    ensures
        r@ == layout_json(*l),
{
    let mut ms: Vec<(Vec<char>, Json)> = Vec::new();
    ms.push((text("name"), opt_str_to_json(&l.name)));
    ms.push((text("description"), opt_str_to_json(&l.description)));
    ms.push((text("short_description"), opt_str_to_json(&l.short_description)));
    let r = Json::Obj(ms);
    proof {
        lemma_mviews_len(ms@);
        lemma_mviews_index(ms@, 0);
        lemma_mviews_index(ms@, 1);
        lemma_mviews_index(ms@, 2);
        assert(mviews(ms@) =~= layout_json(*l)->Obj_0);
        assert(r@ =~= layout_json(*l));
    }
    r
}

/// A session entry as its JSON object.
pub fn session_to_json(s: &SessionEntry) -> (r: Json)
    ensures
        r@ == session_json(*s),
{
    let mut ms: Vec<(Vec<char>, Json)> = Vec::new();
    ms.push((text("comment"), opt_str_to_json(&s.comment)));
    ms.push((text("key"), opt_str_to_json(&s.key)));
    ms.push((text("name"), opt_str_to_json(&s.name)));
    ms.push((text("type"), opt_str_to_json(&s.session_type)));
    let r = Json::Obj(ms);
    proof {
        lemma_mviews_len(ms@);
        lemma_mviews_index(ms@, 0);
        lemma_mviews_index(ms@, 1);
        lemma_mviews_index(ms@, 2);
        lemma_mviews_index(ms@, 3);
        assert(mviews(ms@) =~= session_json(*s)->Obj_0);
        assert(r@ =~= session_json(*s));
    }
    r
}

/// A user as its JSON object.
pub fn user_to_json(u: &User) -> (r: Json)
    ensures
        r@ == user_json(*u),
{
    let mut names: Vec<Json> = Vec::new();
    let mut i: usize = 0;
    while i < u.layouts.len()
        invariant
            i <= u.layouts@.len(),
            names@.len() == i,
            forall|k: int| 0 <= k < i ==> (#[trigger] names@[k])@ == JsonV::Str(u.layouts@[k]@),
        decreases u.layouts@.len() - i,
    {
        names.push(Json::Str(copy_text(&u.layouts[i])));
        i += 1;
    }
    let layouts_arr = Json::Arr(names);
    proof {
        lemma_jviews_len(names@);
        assert forall|k: int| 0 <= k < names@.len() implies #[trigger] jviews(names@)[k]
            == JsonV::Str(u.layouts@[k]@) by {
            lemma_jviews_index(names@, k);
        }
        assert(jviews(names@) =~= Seq::new(
            u.layouts@.len(),
            |i: int| JsonV::Str(u.layouts@[i]@),
        ));
    }
    let mut ms: Vec<(Vec<char>, Json)> = Vec::new();
    ms.push((text("background"), opt_str_to_json(&u.background)));
    ms.push((text("display_name"), opt_str_to_json(&u.display_name)));
    ms.push((text("home_directory"), opt_str_to_json(&u.home_directory)));
    ms.push((text("image"), opt_str_to_json(&u.image)));
    ms.push((text("language"), opt_str_to_json(&u.language)));
    ms.push((text("layout"), opt_str_to_json(&u.layout)));
    ms.push((text("layouts"), layouts_arr));
    ms.push((text("logged_in"), Json::Bool(u.logged_in)));
    ms.push((text("session"), opt_str_to_json(&u.session)));
    ms.push((text("username"), opt_str_to_json(&u.username)));
    let r = Json::Obj(ms);
    proof {
        lemma_mviews_len(ms@);
        lemma_mviews_index(ms@, 0);
        lemma_mviews_index(ms@, 1);
        lemma_mviews_index(ms@, 2);
        lemma_mviews_index(ms@, 3);
        lemma_mviews_index(ms@, 4);
        lemma_mviews_index(ms@, 5);
        lemma_mviews_index(ms@, 6);
        lemma_mviews_index(ms@, 7);
        lemma_mviews_index(ms@, 8);
        lemma_mviews_index(ms@, 9);
        assert(mviews(ms@) =~= user_json(*u)->Obj_0);
        assert(r@ =~= user_json(*u));
    }
    r
}

/// A list of languages as a JSON array.
pub fn languages_to_json(ls: &Vec<Language>) -> (r: Json)
    ensures
        r@ == JsonV::Arr(languages_json(ls@)),
{
    let mut items: Vec<Json> = Vec::new();
    let mut i: usize = 0;
    while i < ls.len()
        invariant
            i <= ls@.len(),
            items@.len() == i,
            forall|k: int| 0 <= k < i ==> (#[trigger] items@[k])@ == language_json(ls@[k]),
        decreases ls@.len() - i,
    {
        items.push(language_to_json(&ls[i]));
        i += 1;
    }
    let r = Json::Arr(items);
    proof {
        lemma_jviews_len(items@);
        assert forall|k: int| 0 <= k < items@.len() implies #[trigger] jviews(items@)[k]
            == language_json(ls@[k]) by {
            lemma_jviews_index(items@, k);
        }
        assert(jviews(items@) =~= languages_json(ls@));
    }
    r
}

/// A list of keyboard layouts as a JSON array.
pub fn layouts_to_json(ls: &Vec<Layout>) -> (r: Json)
    ensures
        r@ == JsonV::Arr(layouts_json(ls@)),
{
    let mut items: Vec<Json> = Vec::new();
    let mut i: usize = 0;
    while i < ls.len()
        invariant
            i <= ls@.len(),
            items@.len() == i,
            forall|k: int| 0 <= k < i ==> (#[trigger] items@[k])@ == layout_json(ls@[k]),
        decreases ls@.len() - i,
    {
        items.push(layout_to_json(&ls[i]));
        i += 1;
    }
    let r = Json::Arr(items);
    proof {
        lemma_jviews_len(items@);
        assert forall|k: int| 0 <= k < items@.len() implies #[trigger] jviews(items@)[k]
            == layout_json(ls@[k]) by {
            lemma_jviews_index(items@, k);
        }
        assert(jviews(items@) =~= layouts_json(ls@));
    }
    r
}

/// A list of session entries as a JSON array.
pub fn sessions_to_json(ls: &Vec<SessionEntry>) -> (r: Json)
    ensures
        r@ == JsonV::Arr(sessions_json(ls@)),
{
    let mut items: Vec<Json> = Vec::new();
    let mut i: usize = 0;
    while i < ls.len()
        invariant
            i <= ls@.len(),
            items@.len() == i,
            forall|k: int| 0 <= k < i ==> (#[trigger] items@[k])@ == session_json(ls@[k]),
        decreases ls@.len() - i,
    {
        items.push(session_to_json(&ls[i]));
        i += 1;
    }
    let r = Json::Arr(items);
    proof {
        lemma_jviews_len(items@);
        assert forall|k: int| 0 <= k < items@.len() implies #[trigger] jviews(items@)[k]
            == session_json(ls@[k]) by {
            lemma_jviews_index(items@, k);
        }
        assert(jviews(items@) =~= sessions_json(ls@));
    }
    r
}

/// A list of users as a JSON array.
pub fn users_to_json(ls: &Vec<User>) -> (r: Json)
    ensures
        r@ == JsonV::Arr(users_json(ls@)),
{
    let mut items: Vec<Json> = Vec::new();
    let mut i: usize = 0;
    while i < ls.len()
        invariant
            i <= ls@.len(),
            items@.len() == i,
            forall|k: int| 0 <= k < i ==> (#[trigger] items@[k])@ == user_json(ls@[k]),
        decreases ls@.len() - i,
    {
        items.push(user_to_json(&ls[i]));
        i += 1;
    }
    let r = Json::Arr(items);
    proof {
        lemma_jviews_len(items@);
        assert forall|k: int| 0 <= k < items@.len() implies #[trigger] jviews(items@)[k]
            == user_json(ls@[k]) by {
            lemma_jviews_index(items@, k);
        }
        assert(jviews(items@) =~= users_json(ls@));
    }
    r
}

/// Where the first member under a key stands: in range, under that key,
/// and nothing before it is.
proof fn lemma_obj_get(ms: Seq<(Seq<char>, JsonV)>, key: Seq<char>)
    ensures
        (match obj_get(ms, key) {
            Some(v) => exists|i: int|
                0 <= i < ms.len() && (#[trigger] ms[i]).0 == key && ms[i].1 == v,
            None => forall|k: int| 0 <= k < ms.len() ==> (#[trigger] ms[k]).0 != key,
        }),
    decreases ms.len(),
{
    if ms.len() > 0 && ms[0].0 != key {
        lemma_obj_get(ms.skip(1), key);
        match obj_get(ms.skip(1), key) {
            Some(v) => {
                let i = choose|i: int|
                    0 <= i < ms.skip(1).len() && (#[trigger] ms.skip(1)[i]).0 == key && ms.skip(
                        1,
                    )[i].1 == v;
                assert(ms[i + 1] == ms.skip(1)[i]);
            },
            None => {
                assert forall|k: int| 0 <= k < ms.len() implies (#[trigger] ms[k]).0 != key by {
                    if k > 0 {
                        assert(ms.skip(1)[k - 1].0 != key);
                    }
                }
            },
        }
    }
}

/// Whether no member before `i` carries the key: then the lookup result
/// is decided from `i` on.
proof fn lemma_obj_get_skip(ms: Seq<(Seq<char>, JsonV)>, key: Seq<char>, i: int)
    requires
        0 <= i <= ms.len(),
        forall|k: int| 0 <= k < i ==> (#[trigger] ms[k]).0 != key,
    ensures
        obj_get(ms, key) == obj_get(ms.skip(i), key),
    decreases i,
{
    if i == 0 {
        assert(ms.skip(0) =~= ms);
    } else {
        assert(ms[0].0 != key);
        lemma_obj_get_skip(ms.skip(1), key, i - 1);
        assert(ms.skip(1).skip(i - 1) =~= ms.skip(i));
    }
}

/// Looks a key up in an object's member list: the first match.
pub fn obj_lookup<'a>(ms: &'a Vec<(Vec<char>, Json)>, key: &str) -> (r: Option<&'a Json>)
    ensures
        (match r {
            Some(j) => obj_get(mviews(ms@), key@) == Some(j@),
            None => obj_get(mviews(ms@), key@) is None,
        }),
{
    proof {
        lemma_mviews_len(ms@);
    }
    let n = ms.len();
    let mut i: usize = 0;
    while i < n
        invariant
            i <= n,
            n == ms@.len(),
            mviews(ms@).len() == n,
            forall|k: int| 0 <= k < i ==> (#[trigger] mviews(ms@)[k]).0 != key@,
        decreases n - i,
    {
        proof {
            lemma_mviews_index(ms@, i as int);
        }
        if is_lit(&ms[i].0, key) {
            proof {
                lemma_obj_get_skip(mviews(ms@), key@, i as int);
                assert(mviews(ms@).skip(i as int)[0] == mviews(ms@)[i as int]);
            }
            return Some(&ms[i].1);
        }
        i += 1;
    }
    proof {
        lemma_obj_get_skip(mviews(ms@), key@, n as int);
        assert(mviews(ms@).skip(n as int).len() == 0);
    }
    None
}

/// Where the first layout of a name stands: in range, of that name, and
/// nothing before it is.
proof fn lemma_first_layout_named(ls: Seq<Layout>, n: Option<Seq<char>>)
    ensures
        (match first_layout_named(ls, n) {
            Some(i) => 0 <= i < ls.len() && layout_name_view(ls[i]) == n && forall|k: int|
                0 <= k < i ==> layout_name_view(ls[k]) != n,
            None => forall|k: int| 0 <= k < ls.len() ==> layout_name_view(ls[k]) != n,
        }),
    decreases ls.len(),
{
    if ls.len() > 0 && layout_name_view(ls[0]) != n {
        lemma_first_layout_named(ls.skip(1), n);
        match first_layout_named(ls.skip(1), n) {
            Some(i) => {
                assert(first_layout_named(ls, n) == Some(i + 1));
                assert forall|k: int| 0 <= k < i + 1 implies layout_name_view(ls[k]) != n by {
                    if k > 0 {
                        assert(layout_name_view(ls.skip(1)[k - 1]) != n);
                    }
                }
            },
            None => {
                assert forall|k: int| 0 <= k < ls.len() implies layout_name_view(ls[k]) != n by {
                    if k > 0 {
                        assert(layout_name_view(ls.skip(1)[k - 1]) != n);
                    }
                }
            },
        }
    }
}

/// Compares a layout's optional name against a wanted optional name.
fn opt_name_eq(a: &Option<Vec<char>>, b: &Option<Vec<char>>) -> (r: bool)
    ensures
        r == ((match a {
            Some(v) => Some(v@),
            None => None::<Seq<char>>,
        }) == (match b {
            Some(v) => Some(v@),
            None => None::<Seq<char>>,
        })),
{
    match (a, b) {
        (Some(x), Some(y)) => crate::text::text_eq(x, y),
        (None, None) => true,
        _ => false,
    }
}

impl LightDm {
    /// A fresh handler: an empty snapshot, and the brightness at its
    /// default level of eighty-five.
    pub fn new() -> (r: LightDm)
        ensures
            r.brightness == 85,
            r.shared_data_directory@ == Seq::<char>::empty(),
            r.authentication_user is None,
            r.autologin_guest == false,
            r.autologin_timeout == 0,
            r.autologin_user is None,
            r.can_hibernate == false,
            r.can_restart == false,
            r.can_shutdown == false,
            r.can_suspend == false,
            r.default_session is None,
            r.has_guest_account == false,
            r.hide_users_hint == false,
            r.hostname is None,
            r.in_authentication == false,
            r.is_authenticated == false,
            r.language is None,
            r.languages@ == Seq::<Language>::empty(),
            r.layout is None,
            r.layouts@ == Seq::<Layout>::empty(),
            r.lock_hint == false,
            r.remote_sessions@ == Seq::<SessionEntry>::empty(),
            r.select_guest_hint == false,
            r.select_user_hint is None,
            r.sessions@ == Seq::<SessionEntry>::empty(),
            r.show_manual_login_hint == false,
            r.show_remote_login_hint == false,
            r.users@ == Seq::<User>::empty(),
    {
        LightDm {
            brightness: 85,
            shared_data_directory: Vec::new(),
            authentication_user: None,
            autologin_guest: false,
            autologin_timeout: 0,
            autologin_user: None,
            can_hibernate: false,
            can_restart: false,
            can_shutdown: false,
            can_suspend: false,
            default_session: None,
            has_guest_account: false,
            hide_users_hint: false,
            hostname: None,
            in_authentication: false,
            is_authenticated: false,
            language: None,
            languages: Vec::new(),
            layout: None,
            layouts: Vec::new(),
            lock_hint: false,
            remote_sessions: Vec::new(),
            select_guest_hint: false,
            select_user_hint: None,
            sessions: Vec::new(),
            show_manual_login_hint: false,
            show_remote_login_hint: false,
            users: Vec::new(),
        }
    }

    /// Answers one call of the session API, following the method table
    /// [`lightdm_out`] and changing the state as [`lightdm_next`] says.
    #[verifier::rlimit(100)]
    pub fn handle(&mut self, method: &Vec<char>, args: &Vec<Json>) -> (r: Outcome)
        ensures
            *final(self) == lightdm_next(*old(self), method@, jviews(args@)),
            outcome_view(r) == lightdm_out(*old(self), method@, jviews(args@)),
    {
        proof {
            lemma_jviews_len(args@);
        }
        if args.len() == 0 {
            self.handle_query(method)
        } else {
            self.handle_command(method, args)
        }
    }

    /// The no-argument half of the table.
    #[verifier::rlimit(100)]
    fn handle_query(&self, method: &Vec<char>) -> (r: Outcome)
        ensures
            outcome_view(r) == lightdm_query(*self, method@),
    {
        if is_lit(method, "authentication_user") {
            Outcome::Reply(HandlerResult::Value(opt_str_to_json(&self.authentication_user)))
        } else if is_lit(method, "autologin_guest") {
            Outcome::Reply(HandlerResult::Value(Json::Bool(self.autologin_guest)))
        } else if is_lit(method, "autologin_timeout") {
            Outcome::Reply(HandlerResult::Value(Json::Num(self.autologin_timeout)))
        } else if is_lit(method, "autologin_user") {
            Outcome::Reply(HandlerResult::Value(opt_str_to_json(&self.autologin_user)))
        } else if is_lit(method, "brightness") {
            Outcome::Reply(HandlerResult::Value(Json::Num(self.brightness)))
        } else if is_lit(method, "can_hibernate") {
            Outcome::Reply(HandlerResult::Value(Json::Bool(self.can_hibernate)))
        } else if is_lit(method, "can_restart") {
            Outcome::Reply(HandlerResult::Value(Json::Bool(self.can_restart)))
        } else if is_lit(method, "can_shutdown") {
            Outcome::Reply(HandlerResult::Value(Json::Bool(self.can_shutdown)))
        } else if is_lit(method, "can_suspend") {
            Outcome::Reply(HandlerResult::Value(Json::Bool(self.can_suspend)))
        } else if is_lit(method, "default_session") {
            Outcome::Reply(HandlerResult::Value(opt_str_to_json(&self.default_session)))
        } else if is_lit(method, "has_guest_account") {
            Outcome::Reply(HandlerResult::Value(Json::Bool(self.has_guest_account)))
        } else if is_lit(method, "hide_users_hint") {
            Outcome::Reply(HandlerResult::Value(Json::Bool(self.hide_users_hint)))
        } else if is_lit(method, "hostname") {
            Outcome::Reply(HandlerResult::Value(opt_str_to_json(&self.hostname)))
        } else if is_lit(method, "in_authentication") {
            Outcome::Reply(HandlerResult::Value(Json::Bool(self.in_authentication)))
        } else if is_lit(method, "is_authenticated") {
            Outcome::Reply(HandlerResult::Value(Json::Bool(self.is_authenticated)))
        } else if is_lit(method, "language") {
            match &self.language {
                Some(l) => Outcome::Reply(HandlerResult::Value(language_to_json(l))),
                None => {
                    if self.languages.len() > 0 {
                        Outcome::Reply(HandlerResult::Value(language_to_json(&self.languages[0])))
                    } else {
                        Outcome::Reply(HandlerResult::Undefined)
                    }
                },
            }
        } else if is_lit(method, "languages") {
            Outcome::Reply(HandlerResult::Value(languages_to_json(&self.languages)))
        } else if is_lit(method, "layout") {
            match &self.layout {
                Some(l) => Outcome::Reply(HandlerResult::Value(layout_to_json(l))),
                None => {
                    if self.layouts.len() > 0 {
                        Outcome::Reply(HandlerResult::Value(layout_to_json(&self.layouts[0])))
                    } else {
                        Outcome::Reply(HandlerResult::Undefined)
                    }
                },
            }
        } else if is_lit(method, "layouts") {
            Outcome::Reply(HandlerResult::Value(layouts_to_json(&self.layouts)))
        } else if is_lit(method, "lock_hint") {
            Outcome::Reply(HandlerResult::Value(Json::Bool(self.lock_hint)))
        } else if is_lit(method, "remote_sessions") {
            Outcome::Reply(HandlerResult::Value(sessions_to_json(&self.remote_sessions)))
        } else if is_lit(method, "select_guest_hint") {
            Outcome::Reply(HandlerResult::Value(Json::Bool(self.select_guest_hint)))
        } else if is_lit(method, "select_user_hint") {
            Outcome::Reply(HandlerResult::Value(opt_str_to_json(&self.select_user_hint)))
        } else if is_lit(method, "sessions") {
            Outcome::Reply(HandlerResult::Value(sessions_to_json(&self.sessions)))
        } else if is_lit(method, "shared_data_directory") {
            if self.shared_data_directory.len() == 0 {
                Outcome::Reply(HandlerResult::Value(Json::Null))
            } else {
                Outcome::Reply(
                    HandlerResult::Value(Json::Str(copy_text(&self.shared_data_directory))),
                )
            }
        } else if is_lit(method, "show_manual_login_hint") {
            Outcome::Reply(HandlerResult::Value(Json::Bool(self.show_manual_login_hint)))
        } else if is_lit(method, "show_remote_login_hint") {
            Outcome::Reply(HandlerResult::Value(Json::Bool(self.show_remote_login_hint)))
        } else if is_lit(method, "users") {
            Outcome::Reply(HandlerResult::Value(users_to_json(&self.users)))
        } else if is_lit(method, "authenticate_as_guest") {
            Outcome::AwaitAction(HostAction::AuthenticateAsGuest)
        } else if is_lit(method, "cancel_authentication") {
            Outcome::AwaitAction(HostAction::CancelAuthentication)
        } else if is_lit(method, "cancel_autologin") {
            Outcome::ReplyWithAction(
                HandlerResult::Value(Json::Bool(true)),
                HostAction::CancelAutologin,
            )
        } else if is_lit(method, "hibernate") {
            Outcome::AwaitAction(HostAction::Hibernate)
        } else if is_lit(method, "restart") {
            Outcome::AwaitAction(HostAction::Restart)
        } else if is_lit(method, "shutdown") {
            Outcome::AwaitAction(HostAction::Shutdown)
        } else if is_lit(method, "suspend") {
            Outcome::AwaitAction(HostAction::Suspend)
        } else {
            Outcome::Reply(HandlerResult::Undefined)
        }
    }

    /// The argument-taking half of the table.
    #[verifier::rlimit(100)]
    fn handle_command(&mut self, method: &Vec<char>, args: &Vec<Json>) -> (r: Outcome)
        requires
            args@.len() >= 1,
        ensures
            *final(self) == lightdm_next(*old(self), method@, jviews(args@)),
            outcome_view(r) == lightdm_command(*old(self), method@, jviews(args@)),
    {
        proof {
            lemma_jviews_len(args@);
            lemma_jviews_index(args@, 0);
        }
        if is_lit(method, "brightness") {
            let level: i64 = match &args[0] {
                Json::Num(n) => {
                    let t: i32 = (*n) as i32;
                    t as i64
                },
                _ => 0,
            };
            self.brightness = level;
            Outcome::Reply(HandlerResult::Value(Json::Bool(true)))
        } else if is_lit(method, "layout") {
            self.set_layout(&args[0])
        } else if is_lit(method, "authenticate") {
            Outcome::AwaitAction(HostAction::Authenticate(Some(json_as_text(&args[0]))))
        } else if is_lit(method, "respond") {
            Outcome::AwaitAction(HostAction::Respond(json_as_text(&args[0])))
        } else if is_lit(method, "set_language") {
            Outcome::AwaitAction(HostAction::SetLanguage(json_as_text(&args[0])))
        } else if is_lit(method, "start_session") {
            Outcome::AwaitAction(HostAction::StartSession(Some(json_as_text(&args[0]))))
        } else {
            Outcome::Reply(HandlerResult::Undefined)
        }
    }

    /// Accepts a script-supplied layout: the object must carry `name`,
    /// `description` and `short_description`, else the call faults with
    /// `Invalid Layout`; a complete object selects the known layout of
    /// that name, or answers `false` where none matches.
    #[verifier::loop_isolation(false)]
    fn set_layout(&self, value: &Json) -> (r: Outcome)
        ensures
            outcome_view(r) == lightdm_command(*self, "layout"@, seq![value@]),
    {
        proof {
            reveal_strlit("layout");
            reveal_strlit("brightness");
            assert("layout"@.len() == 6);
            assert("brightness"@.len() == 10);
            assert("layout"@ != "brightness"@);
        }
        let ms: &Vec<(Vec<char>, Json)> = match value {
            Json::Obj(ms) => ms,
            _ => {
                return Outcome::Fault(text("Invalid Layout"));
            },
        };
        let has_all = match obj_lookup(ms, "name") {
            Some(_) => match obj_lookup(ms, "description") {
                Some(_) => match obj_lookup(ms, "short_description") {
                    Some(_) => true,
                    None => false,
                },
                None => false,
            },
            None => false,
        };
        if !has_all {
            return Outcome::Fault(text("Invalid Layout"));
        }
        let wanted: Option<Vec<char>> = match obj_lookup(ms, "name") {
            Some(Json::Str(s)) => Some(copy_text(s)),
            _ => None,
        };
        proof {
            assert((match wanted {
                Some(v) => Some(v@),
                None => None::<Seq<char>>,
            }) == supplied_layout_name(value@));
            lemma_first_layout_named(self.layouts@, supplied_layout_name(value@));
        }
        let n = self.layouts.len();
        let mut i: usize = 0;
        while i < n
            invariant
                i <= n,
                n == self.layouts@.len(),
                (match wanted {
                    Some(v) => Some(v@),
                    None => None::<Seq<char>>,
                }) == supplied_layout_name(value@),
                forall|k: int|
                    0 <= k < i ==> layout_name_view(self.layouts@[k]) != supplied_layout_name(
                        value@,
                    ),
            decreases n - i,
        {
            if opt_name_eq(&self.layouts[i].name, &wanted) {
                proof {
                    lemma_first_layout_named(self.layouts@, supplied_layout_name(value@));
                    assert(first_layout_named(self.layouts@, supplied_layout_name(value@)) == Some(
                        i as int,
                    )) by {
                        match first_layout_named(self.layouts@, supplied_layout_name(value@)) {
                            Some(j) => {
                                if j < i as int {
                                    assert(layout_name_view(self.layouts@[j])
                                        == supplied_layout_name(value@));
                                } else if j > i as int {
                                    assert(layout_name_view(self.layouts@[i as int])
                                        != supplied_layout_name(value@));
                                }
                            },
                            None => {
                                assert(layout_name_view(self.layouts@[i as int])
                                    != supplied_layout_name(value@));
                            },
                        }
                    }
                }
                proof {
                    assert(seq![value@][0] == value@);
                    assert(layout_fields_present(value@));
                    assert("layout"@ != "brightness"@);
                }
                match wanted {
                    Some(nm) => {
                        proof {
                            assert(supplied_layout_name(value@) == Some(nm@));
                            assert(lightdm_command(*self, "layout"@, seq![value@])
                                == OutcomeV::ReplyWithAction(
                                ResultV::Value(JsonV::Bool(true)),
                                ActionV::SetLayout(nm@),
                            ));
                        }
                        return Outcome::ReplyWithAction(
                            HandlerResult::Value(Json::Bool(true)),
                            HostAction::SetLayout(nm),
                        );
                    },
                    None => {
                        return Outcome::Reply(HandlerResult::Value(Json::Bool(false)));
                    },
                }
            }
            i += 1;
        }
        proof {
            lemma_first_layout_named(self.layouts@, supplied_layout_name(value@));
        }
        Outcome::Reply(HandlerResult::Value(Json::Bool(false)))
    }
}

/// The text form of an argument: a string's characters, or the value's
/// JSON text.
pub fn json_as_text(j: &Json) -> (r: Vec<char>)
    ensures
        r@ == text_of(j@),
{
    match j {
        Json::Str(s) => copy_text(s),
        _ => encode(j),
    }
}

} // verus!
