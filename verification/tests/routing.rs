//! Routing, envelopes, signals and the broadcast fan-out.

use greeter_bridge::comm::{classify_script_event, fan_out, GreeterComm, ScriptEvent, WindowMeta};
use greeter_bridge::config::GreeterConfig;
use greeter_bridge::dispatcher::{Dispatcher, Routed};
use greeter_bridge::envelope::{parse_message, Namespace, RawMessage};
use greeter_bridge::json::Json;
use greeter_bridge::lightdm::LightDm;
use greeter_bridge::settings::Settings;
use greeter_bridge::signals::{Signal, SignalRegistry};
use greeter_bridge::theme_utils::ThemeUtils;

fn t(s: &str) -> Vec<char> {
    s.chars().collect()
}

fn s(v: &[char]) -> String {
    v.iter().collect()
}

fn msg(name: &str, parts: &[&str]) -> RawMessage {
    RawMessage { name: t(name), parts: parts.iter().map(|p| t(p)).collect() }
}

fn dispatcher() -> Dispatcher {
    Dispatcher::new(
        LightDm::new(),
        GreeterConfig::new(Settings::default(), vec![]),
        GreeterComm::new(),
        ThemeUtils::new(vec![t("/usr/share/web-greeter/themes/")]),
    )
}

fn meta() -> WindowMeta {
    WindowMeta { id: 1, x: 0, y: 0, width: 800, height: 600, is_primary: true }
}

fn reply_text(r: Routed) -> String {
    match r {
        Routed::Reply(rep) => {
            assert_eq!(s(&rep.name), "reply");
            s(&rep.body.expect("a reply has a body"))
        }
        _ => panic!("expected a ready reply"),
    }
}

#[test]
fn classification_accepts_the_four_namespaces() {
    for (name, ns) in [
        ("session-api", Namespace::SessionApi),
        ("broadcast-channel", Namespace::BroadcastChannel),
        ("config-snapshot", Namespace::ConfigSnapshot),
        ("filesystem-utility", Namespace::FilesystemUtility),
    ] {
        let parsed = parse_message(msg(name, &["brightness", "[]"]));
        let (got, method, args) = parsed.expect("a known namespace classifies");
        assert_eq!(got, ns);
        assert_eq!(s(&method), "brightness");
        assert_eq!(s(&args), "[]");
    }
}

#[test]
fn classification_refuses_malformed_messages() {
    // wrong arity
    assert!(parse_message(msg("session-api", &[])).is_none());
    assert!(parse_message(msg("session-api", &["a", "b", "c"])).is_none());
    // empty method name
    assert!(parse_message(msg("session-api", &["", "[]"])).is_none());
    // unknown namespace
    assert!(parse_message(msg("nowhere", &["brightness", "[]"])).is_none());
}

#[test]
fn one_part_body_reads_as_no_arguments() {
    let (_, method, args) = parse_message(msg("session-api", &["hostname"])).unwrap();
    assert_eq!(s(&method), "hostname");
    assert_eq!(s(&args), "[]");
}

#[test]
fn unknown_namespace_gets_the_inert_reply() {
    let mut d = dispatcher();
    let r = d.route(msg("unknown-namespace", &["anything", "[]"]), &meta());
    match r {
        Routed::Reply(rep) => {
            assert_eq!(s(&rep.name), "");
            assert!(rep.body.is_none());
        }
        _ => panic!("expected the inert reply"),
    }
}

#[test]
fn unknown_method_gets_the_undefined_reply() {
    let mut d = dispatcher();
    let r = d.route(msg("session-api", &["frobnicate", "[]"]), &meta());
    assert_eq!(reply_text(r), "undefined");
    let mut d2 = dispatcher();
    let r2 = d2.route(msg("config-snapshot", &["frobnicate", "[]"]), &meta());
    assert_eq!(reply_text(r2), "undefined");
}

#[test]
fn brightness_round_trip_through_route() {
    let mut d = dispatcher();
    let r = d.route(msg("session-api", &["brightness", "[]"]), &meta());
    assert_eq!(reply_text(r), "85");
    let r2 = d.route(msg("session-api", &["brightness", "[42]"]), &meta());
    assert_eq!(reply_text(r2), "true");
    let r3 = d.route(msg("session-api", &["brightness", "[]"]), &meta());
    assert_eq!(reply_text(r3), "42");
}

#[test]
fn layout_fault_surfaces_through_route() {
    let mut d = dispatcher();
    let r = d.route(
        msg("session-api", &["layout", "[{\"name\":\"us\"}]"]),
        &meta(),
    );
    match r {
        Routed::Fault(m) => assert_eq!(s(&m), "Invalid Layout"),
        _ => panic!("expected a fault"),
    }
}

#[test]
fn broadcast_route_hands_data_and_reply() {
    let mut d = dispatcher();
    let r = d.route(msg("broadcast-channel", &["broadcast", "[{\"k\":1}]"]), &meta());
    match r {
        Routed::ReplyWithBroadcast(rep, data) => {
            assert_eq!(s(&rep.body.unwrap()), "true");
            assert_eq!(data, Json::Obj(vec![(t("k"), Json::Num(1))]));
        }
        _ => panic!("expected a broadcast"),
    }
}

#[test]
fn reply_bodies_decode_to_the_handler_value() {
    // what the handler would return directly
    let direct = Json::Obj(vec![
        (t("debug_mode"), Json::Bool(false)),
        (t("detect_theme_errors"), Json::Bool(true)),
        (t("screensaver_timeout"), Json::Num(300)),
        (t("secure_mode"), Json::Bool(true)),
        (t("theme"), Json::Str(t("gruvbox"))),
        (t("icon_theme"), Json::Str(t(""))),
        (t("time_language"), Json::Str(t(""))),
    ]);
    // the same value, routed, encoded and decoded again
    let mut d = dispatcher();
    let r = d.route(msg("config-snapshot", &["greeter", "[]"]), &meta());
    let body = match r {
        Routed::Reply(rep) => rep.body.unwrap(),
        _ => panic!("expected a ready reply"),
    };
    assert_eq!(greeter_bridge::json::parse(&body), Some(direct));
}

#[test]
fn signal_order_is_insertion_order() {
    let mut sig = Signal::new(t("show_prompt"));
    sig.connect(1);
    sig.connect(2);
    assert_eq!(sig.emit(), vec![1, 2]);
    sig.disconnect(1);
    assert_eq!(sig.emit(), vec![2]);
}

#[test]
fn signal_duplicates_are_kept_and_all_removed() {
    let mut sig = Signal::new(t("show_message"));
    sig.connect(5);
    sig.connect(6);
    sig.connect(5);
    assert_eq!(sig.emit(), vec![5, 6, 5]);
    sig.disconnect(5);
    assert_eq!(sig.emit(), vec![6]);
    sig.disconnect(99);
    assert_eq!(sig.emit(), vec![6]);
}

#[test]
fn registry_holds_the_four_session_signals() {
    let mut reg = SignalRegistry::session_registry();
    assert!(reg.connect_to(&t("show_prompt"), 11));
    assert!(reg.connect_to(&t("show_prompt"), 12));
    assert!(!reg.connect_to(&t("no_such_signal"), 13));
    assert_eq!(reg.emit_by_name(&t("show_prompt")), Some(vec![11, 12]));
    assert_eq!(reg.emit_by_name(&t("authentication_complete")), Some(vec![]));
    assert_eq!(reg.emit_by_name(&t("no_such_signal")), None);
}

#[test]
fn two_surfaces_get_two_prompt_envelopes() {
    let surfaces: Vec<u64> = vec![100, 200];
    let deliveries = fan_out(
        &surfaces,
        "session-api",
        "show_prompt",
        vec![Json::Str(t("Password:")), Json::Num(1)],
    );
    assert_eq!(deliveries.len(), 2);
    for (i, (id, env)) in deliveries.iter().enumerate() {
        assert_eq!(*id, surfaces[i]);
        assert_eq!(s(&env.name), "session-api");
        assert_eq!(env.parts.len(), 2);
        assert_eq!(s(&env.parts[0]), "show_prompt");
        assert_eq!(s(&env.parts[1]), "[\"Password:\",1]");
    }
}

#[test]
fn script_side_reads_signal_envelopes() {
    let ev = classify_script_event(msg("session-api", &["show_prompt", "[\"Password:\",1]"]));
    match ev {
        ScriptEvent::SessionSignal(name, args) => {
            assert_eq!(s(&name), "show_prompt");
            assert_eq!(args, vec![Json::Str(t("Password:")), Json::Num(1)]);
        }
        _ => panic!("a session-api envelope names a signal"),
    }
    let ev2 = classify_script_event(msg("broadcast-channel", &["_emit", "[{\"k\":2}]"]));
    match ev2 {
        ScriptEvent::Broadcast(d) => assert_eq!(d, Json::Obj(vec![(t("k"), Json::Num(2))])),
        _ => panic!("an emit envelope carries its data"),
    }
    assert!(matches!(
        classify_script_event(msg("broadcast-channel", &["other", "[1]"])),
        ScriptEvent::Ignored
    ));
    assert!(matches!(
        classify_script_event(msg("reply", &["x", "[]"])),
        ScriptEvent::Ignored
    ));
    assert!(matches!(
        classify_script_event(msg("session-api", &[])),
        ScriptEvent::Ignored
    ));
}

#[test]
fn fan_out_to_no_surfaces_sends_nothing() {
    let deliveries = fan_out(&vec![], "session-api", "authentication_complete", vec![]);
    assert!(deliveries.is_empty());
}
