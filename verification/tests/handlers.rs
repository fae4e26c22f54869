//! The namespace handlers: the session API, the configuration snapshot,
//! and the broadcast channel.

use greeter_bridge::comm::{GreeterComm, WindowMeta};
use greeter_bridge::config::GreeterConfig;
use greeter_bridge::envelope::HandlerResult;
use greeter_bridge::json::Json;
use greeter_bridge::lightdm::{
    finish_command, HostAction, Language, Layout, LightDm, Outcome, SessionEntry, User,
};
use greeter_bridge::settings::Settings;

fn t(s: &str) -> Vec<char> {
    s.chars().collect()
}

fn value(o: Outcome) -> Json {
    match o {
        Outcome::Reply(HandlerResult::Value(j)) => j,
        other => panic!("expected a ready value, got {other:?}", other = kind(&other)),
    }
}

fn kind(o: &Outcome) -> &'static str {
    match o {
        Outcome::Reply(_) => "Reply",
        Outcome::ReplyWithAction(_, _) => "ReplyWithAction",
        Outcome::AwaitAction(_) => "AwaitAction",
        Outcome::Fault(_) => "Fault",
    }
}

#[test]
fn brightness_defaults_to_eighty_five() {
    let mut ldm = LightDm::new();
    let r = ldm.handle(&t("brightness"), &vec![]);
    assert_eq!(value(r), Json::Num(85));
}

#[test]
fn brightness_store_and_read_back() {
    let mut ldm = LightDm::new();
    let r = ldm.handle(&t("brightness"), &vec![Json::Num(42)]);
    assert_eq!(value(r), Json::Bool(true));
    let r2 = ldm.handle(&t("brightness"), &vec![]);
    assert_eq!(value(r2), Json::Num(42));
}

#[test]
fn noarg_queries_are_idempotent() {
    let mut ldm = LightDm::new();
    ldm.hostname = Some(t("machine"));
    let first = ldm.handle(&t("hostname"), &vec![]);
    let second = ldm.handle(&t("hostname"), &vec![]);
    assert_eq!(value(first), value(second));
}

#[test]
fn unknown_method_is_undefined() {
    let mut ldm = LightDm::new();
    let r = ldm.handle(&t("frobnicate"), &vec![]);
    assert!(matches!(r, Outcome::Reply(HandlerResult::Undefined)));
}

#[test]
fn incomplete_layout_faults_without_mutation() {
    let mut ldm = LightDm::new();
    let incomplete = Json::Obj(vec![
        (t("name"), Json::Str(t("us"))),
        (t("description"), Json::Str(t("English (US)"))),
    ]);
    let before = ldm.brightness;
    let r = ldm.handle(&t("layout"), &vec![incomplete]);
    match r {
        Outcome::Fault(msg) => assert_eq!(msg, t("Invalid Layout")),
        other => panic!("expected a fault, got {}", kind(&other)),
    }
    assert_eq!(ldm.brightness, before);
}

#[test]
fn complete_layout_selects_the_known_one() {
    let mut ldm = LightDm::new();
    ldm.layouts = vec![Layout {
        name: Some(t("us")),
        description: Some(t("English (US)")),
        short_description: Some(t("en")),
    }];
    let full = Json::Obj(vec![
        (t("name"), Json::Str(t("us"))),
        (t("description"), Json::Str(t("English (US)"))),
        (t("short_description"), Json::Str(t("en"))),
    ]);
    let r = ldm.handle(&t("layout"), &vec![full]);
    match r {
        Outcome::ReplyWithAction(HandlerResult::Value(j), HostAction::SetLayout(n)) => {
            assert_eq!(j, Json::Bool(true));
            assert_eq!(n, t("us"));
        }
        other => panic!("expected a set-layout action, got {}", kind(&other)),
    }
}

#[test]
fn complete_layout_of_unknown_name_answers_false() {
    let mut ldm = LightDm::new();
    let full = Json::Obj(vec![
        (t("name"), Json::Str(t("nowhere"))),
        (t("description"), Json::Str(t("x"))),
        (t("short_description"), Json::Str(t("y"))),
    ]);
    let r = ldm.handle(&t("layout"), &vec![full]);
    assert_eq!(value(r), Json::Bool(false));
}

#[test]
fn commands_wait_for_the_host() {
    let mut ldm = LightDm::new();
    let r = ldm.handle(&t("shutdown"), &vec![]);
    assert!(matches!(r, Outcome::AwaitAction(HostAction::Shutdown)));
    let r2 = ldm.handle(&t("respond"), &vec![Json::Str(t("secret"))]);
    match r2 {
        Outcome::AwaitAction(HostAction::Respond(text)) => assert_eq!(text, t("secret")),
        other => panic!("expected a respond action, got {}", kind(&other)),
    }
    assert_eq!(finish_command(true), HandlerResult::Value(Json::Bool(true)));
    assert_eq!(finish_command(false), HandlerResult::Value(Json::Bool(false)));
}

#[test]
fn shared_data_directory_empty_reads_null() {
    let mut ldm = LightDm::new();
    assert_eq!(value(ldm.handle(&t("shared_data_directory"), &vec![])), Json::Null);
    ldm.shared_data_directory = t("/var/lib/lightdm-data");
    assert_eq!(
        value(ldm.handle(&t("shared_data_directory"), &vec![])),
        Json::Str(t("/var/lib/lightdm-data"))
    );
}

#[test]
fn users_query_lists_every_field() {
    let mut ldm = LightDm::new();
    ldm.users = vec![User {
        background: None,
        display_name: Some(t("Jo Doe")),
        home_directory: Some(t("/home/jo")),
        image: None,
        language: None,
        layout: None,
        layouts: vec![t("us")],
        logged_in: true,
        session: Some(t("sway")),
        username: Some(t("jo")),
    }];
    let r = value(ldm.handle(&t("users"), &vec![]));
    let expected = Json::Arr(vec![Json::Obj(vec![
        (t("background"), Json::Null),
        (t("display_name"), Json::Str(t("Jo Doe"))),
        (t("home_directory"), Json::Str(t("/home/jo"))),
        (t("image"), Json::Null),
        (t("language"), Json::Null),
        (t("layout"), Json::Null),
        (t("layouts"), Json::Arr(vec![Json::Str(t("us"))])),
        (t("logged_in"), Json::Bool(true)),
        (t("session"), Json::Str(t("sway"))),
        (t("username"), Json::Str(t("jo"))),
    ])]);
    assert_eq!(r, expected);
}

#[test]
fn language_falls_back_to_the_first_known() {
    let mut ldm = LightDm::new();
    assert!(matches!(
        ldm.handle(&t("language"), &vec![]),
        Outcome::Reply(HandlerResult::Undefined)
    ));
    ldm.languages = vec![Language {
        code: Some(t("en_US")),
        name: Some(t("English")),
        territory: Some(t("US")),
    }];
    let r = value(ldm.handle(&t("language"), &vec![]));
    let expected = Json::Obj(vec![
        (t("code"), Json::Str(t("en_US"))),
        (t("name"), Json::Str(t("English"))),
        (t("territory"), Json::Str(t("US"))),
    ]);
    assert_eq!(r, expected);
}

#[test]
fn sessions_query_uses_the_type_key() {
    let mut ldm = LightDm::new();
    ldm.sessions = vec![SessionEntry {
        comment: None,
        key: Some(t("sway")),
        name: Some(t("Sway")),
        session_type: Some(t("wayland")),
    }];
    let r = value(ldm.handle(&t("sessions"), &vec![]));
    let expected = Json::Arr(vec![Json::Obj(vec![
        (t("comment"), Json::Null),
        (t("key"), Json::Str(t("sway"))),
        (t("name"), Json::Str(t("Sway"))),
        (t("type"), Json::Str(t("wayland"))),
    ])]);
    assert_eq!(r, expected);
}

#[test]
fn config_greeter_snapshot() {
    let settings = Settings::new(false, None);
    let cfg = GreeterConfig::new(settings, vec![]);
    let r = cfg.handle(&t("greeter"));
    let expected = Json::Obj(vec![
        (t("debug_mode"), Json::Bool(false)),
        (t("detect_theme_errors"), Json::Bool(true)),
        (t("screensaver_timeout"), Json::Num(300)),
        (t("secure_mode"), Json::Bool(true)),
        (t("theme"), Json::Str(t("gruvbox"))),
        (t("icon_theme"), Json::Str(t(""))),
        (t("time_language"), Json::Str(t(""))),
    ]);
    assert_eq!(r, HandlerResult::Value(expected));
}

#[test]
fn config_features_snapshot() {
    let settings = Settings::default();
    let cfg = GreeterConfig::new(settings, vec![]);
    let r = cfg.handle(&t("features"));
    let expected = Json::Obj(vec![
        (t("battery"), Json::Bool(false)),
        (
            t("backlight"),
            Json::Obj(vec![
                (t("enabled"), Json::Bool(false)),
                (t("value"), Json::Num(10)),
                (t("steps"), Json::Num(0)),
            ]),
        ),
    ]);
    assert_eq!(r, HandlerResult::Value(expected));
}

#[test]
fn config_layouts_filter_tabs_for_spaces() {
    let mut settings = Settings::default();
    settings.layouts = vec!["us".to_string(), "de neo".to_string()];
    let daemon = vec![
        Layout { name: Some(t("us")), description: None, short_description: None },
        Layout { name: Some(t("de\tneo")), description: Some(t("German (Neo)")), short_description: None },
        Layout { name: Some(t("fr")), description: None, short_description: None },
        Layout { name: None, description: None, short_description: None },
    ];
    let cfg = GreeterConfig::new(settings, daemon);
    let r = cfg.handle(&t("layouts"));
    let expected = Json::Arr(vec![
        Json::Obj(vec![
            (t("name"), Json::Str(t("us"))),
            (t("description"), Json::Null),
            (t("short_description"), Json::Null),
        ]),
        Json::Obj(vec![
            (t("name"), Json::Str(t("de\tneo"))),
            (t("description"), Json::Str(t("German (Neo)"))),
            (t("short_description"), Json::Null),
        ]),
    ]);
    assert_eq!(r, HandlerResult::Value(expected));
}

#[test]
fn config_unknown_method_is_undefined() {
    let cfg = GreeterConfig::new(Settings::default(), vec![]);
    assert_eq!(cfg.handle(&t("nope")), HandlerResult::Undefined);
}

fn meta() -> WindowMeta {
    WindowMeta { id: 7, x: 0, y: 0, width: 1920, height: 1080, is_primary: true }
}

#[test]
fn comm_window_metadata() {
    let comm = GreeterComm::new();
    let (hr, action) = comm.handle(&t("window_metadata"), vec![], &meta());
    assert!(action.is_none());
    let expected = Json::Obj(vec![
        (t("id"), Json::Num(7)),
        (t("x"), Json::Num(0)),
        (t("y"), Json::Num(0)),
        (t("width"), Json::Num(1920)),
        (t("height"), Json::Num(1080)),
        (t("is_primary"), Json::Bool(true)),
    ]);
    assert_eq!(hr, HandlerResult::Value(expected));
}

#[test]
fn comm_broadcast_hands_the_data_out() {
    let comm = GreeterComm::new();
    let (hr, action) = comm.handle(&t("broadcast"), vec![Json::Str(t("hello"))], &meta());
    assert_eq!(hr, HandlerResult::Value(Json::Bool(true)));
    assert_eq!(action, Some(Json::Str(t("hello"))));
    let (hr2, action2) = comm.handle(&t("broadcast"), vec![], &meta());
    assert_eq!(hr2, HandlerResult::Undefined);
    assert!(action2.is_none());
}
