//! Theme resolution, the directory allow-list, settings, and the proxy
//! plumbing.

use greeter_bridge::envelope::HandlerResult;
use greeter_bridge::json::Json;
use greeter_bridge::proxy::{
    build_send_request, comm_members, config_members, console_forward, console_prompt_outcome,
    decode_reply, getter_request, lightdm_members, method_request, secure_mode_blocks,
    setter_request, surface_id, ConsoleChoice, DefaultValue, MemberKind, ReadyLatch,
};
use greeter_bridge::settings::Settings;
use greeter_bridge::theme::{
    join_path, parent_dir_of, parse_theme_config, primary_html_path, secondary_html_path,
    choose_theme_dir, theme_absolute_path, theme_dir_of,
};
use greeter_bridge::theme_utils::{
    dirlist_entries, standard_allow_list, DirEntry, DirStep, ThemeUtils, ThemeUtilsStep,
};

fn t(s: &str) -> Vec<char> {
    s.chars().collect()
}

fn s(v: &[char]) -> String {
    v.iter().collect()
}

#[test]
fn outside_path_yields_the_empty_list() {
    let utils = ThemeUtils::new(vec![
        t("/usr/share/web-greeter/themes/"),
        t("/usr/share/backgrounds"),
    ]);
    let step = utils.handle(
        &t("dirlist"),
        vec![Json::Str(t("/etc/passwd-like-dir")), Json::Bool(true)],
    );
    let (path, only_images) = match step {
        ThemeUtilsStep::Resolve(p, oi) => (p, oi),
        _ => panic!("a plausible path asks for resolution"),
    };
    assert_eq!(s(&path), "/etc/passwd-like-dir");
    assert!(only_images);
    // the driver resolved it; it is a real directory, but outside every root
    match utils.dirlist_resolved(Some(path), true) {
        DirStep::Refused(h) => assert_eq!(h, HandlerResult::Value(Json::Arr(vec![]))),
        DirStep::List(_) => panic!("a path outside the allow-list must not be listed"),
    }
}

#[test]
fn inside_path_is_listed() {
    let utils = ThemeUtils::new(vec![t("/usr/share/web-greeter/themes/")]);
    match utils.dirlist_resolved(Some(t("/usr/share/web-greeter/themes/gruvbox")), true) {
        DirStep::List(p) => assert_eq!(s(&p), "/usr/share/web-greeter/themes/gruvbox"),
        DirStep::Refused(_) => panic!("a path under an allowed root must be listed"),
    }
}

#[test]
fn sibling_with_common_prefix_is_refused() {
    let utils = ThemeUtils::new(vec![t("/opt/data")]);
    match utils.dirlist_resolved(Some(t("/opt/database")), true) {
        DirStep::Refused(_) => {}
        DirStep::List(_) => panic!("a name sharing only a string prefix is outside"),
    }
}

#[test]
fn unresolved_or_nondirectory_paths_are_refused() {
    let utils = ThemeUtils::new(vec![t("/")]);
    assert!(matches!(utils.dirlist_resolved(None, true), DirStep::Refused(_)));
    assert!(matches!(
        utils.dirlist_resolved(Some(t("/etc/passwd")), false),
        DirStep::Refused(_)
    ));
}

#[test]
fn dirlist_rejects_blank_root_and_relative_paths() {
    let utils = ThemeUtils::new(vec![]);
    for bad in ["  ", "/", "./x"] {
        let step = utils.handle(&t("dirlist"), vec![Json::Str(t(bad)), Json::Bool(false)]);
        match step {
            ThemeUtilsStep::Done(h) => assert_eq!(h, HandlerResult::Value(Json::Arr(vec![]))),
            _ => panic!("{bad:?} must be answered at once"),
        }
    }
    let one_arg = utils.handle(&t("dirlist"), vec![Json::Str(t("/x"))]);
    match one_arg {
        ThemeUtilsStep::Done(h) => assert_eq!(h, HandlerResult::Value(Json::Null)),
        _ => panic!("one argument answers null"),
    }
    let unknown = utils.handle(&t("mklist"), vec![Json::Str(t("/x")), Json::Bool(false)]);
    assert!(matches!(unknown, ThemeUtilsStep::Done(HandlerResult::Undefined)));
}

#[test]
fn entries_filtered_to_images_when_asked() {
    let entries = vec![
        DirEntry { name: t("."), is_file: false },
        DirEntry { name: t(".."), is_file: false },
        DirEntry { name: t("wall.PNG"), is_file: true },
        DirEntry { name: t("photo.jpeg"), is_file: true },
        DirEntry { name: t("notes.txt"), is_file: true },
        DirEntry { name: t("gallery.png"), is_file: false },
    ];
    let resolved = t("/usr/share/backgrounds");
    let all = dirlist_entries(&resolved, &entries, false);
    assert_eq!(
        all,
        HandlerResult::Value(Json::Arr(vec![
            Json::Str(t("/usr/share/backgrounds/wall.PNG")),
            Json::Str(t("/usr/share/backgrounds/photo.jpeg")),
            Json::Str(t("/usr/share/backgrounds/notes.txt")),
            Json::Str(t("/usr/share/backgrounds/gallery.png")),
        ]))
    );
    let images = dirlist_entries(&resolved, &entries, true);
    assert_eq!(
        images,
        HandlerResult::Value(Json::Arr(vec![
            Json::Str(t("/usr/share/backgrounds/wall.PNG")),
            Json::Str(t("/usr/share/backgrounds/photo.jpeg")),
        ]))
    );
}

#[test]
fn allow_list_leaves_an_empty_data_directory_out() {
    let with_all = standard_allow_list(
        &t("/usr/share/web-greeter/themes/"),
        &t("/usr/share/backgrounds"),
        &t("/var/lib/lightdm-data"),
        Some(t("/usr/share/web-greeter/themes/gruvbox/")),
        t("/tmp"),
    );
    let views: Vec<String> = with_all.iter().map(|d| s(d)).collect();
    assert_eq!(
        views,
        vec![
            "/usr/share/web-greeter/themes/".to_string(),
            "/usr/share/backgrounds".to_string(),
            "/var/lib/lightdm-data".to_string(),
            "/usr/share/web-greeter/themes/gruvbox/".to_string(),
            "/tmp".to_string(),
        ]
    );
    let without = standard_allow_list(&t("/a"), &t("/b"), &t(""), None, t("/tmp"));
    let views2: Vec<String> = without.iter().map(|d| s(d)).collect();
    assert_eq!(views2, vec!["/a".to_string(), "/b".to_string(), "/tmp".to_string()]);
}

#[test]
fn theme_declaration_is_read_from_yaml() {
    let (primary, secondary) =
        parse_theme_config("primary_html: main.html\nsecondary_html: second.html\n");
    assert_eq!(primary, "main.html");
    assert_eq!(secondary, Some("second.html".to_string()));
    let (p2, s2) = parse_theme_config("secondary_html: second.html\n");
    assert_eq!(p2, "index.html");
    assert_eq!(s2, Some("second.html".to_string()));
    let (p3, s3) = parse_theme_config("[ this is not : a map ]");
    assert_eq!(p3, "index.html");
    assert_eq!(s3, None);
}

#[test]
fn theme_names_resolve_to_paths() {
    let themes_dir = t("/usr/share/web-greeter/themes/");
    // a bare name lives under the themes directory
    assert_eq!(
        s(&theme_absolute_path(&t("gruvbox"), &themes_dir, None)),
        "/usr/share/web-greeter/themes/gruvbox"
    );
    // an absolute name stands as it is
    assert_eq!(
        s(&theme_absolute_path(&t("/opt/theme"), &themes_dir, None)),
        "/opt/theme"
    );
    // a relative name is taken from the working directory
    let cwd = t("/home/jo");
    assert_eq!(
        s(&theme_absolute_path(&t("themes/mine"), &themes_dir, Some(&cwd))),
        "/home/jo/themes/mine"
    );
    // without a working directory it falls back to the default theme
    assert_eq!(
        s(&theme_absolute_path(&t("themes/mine"), &themes_dir, None)),
        "/usr/share/web-greeter/themes/default"
    );
}

#[test]
fn theme_directory_and_pages_are_chosen() {
    let themes_dir = t("/usr/share/web-greeter/themes/");
    // a direct .html file: its directory carries the theme
    let dir = theme_dir_of(&t("/opt/my/index.html"), true, &t("/opt/my/index.html"));
    assert_eq!(s(&dir), "/opt/my/");
    // otherwise the path itself
    let dir2 = theme_dir_of(&t("/opt/my"), false, &t("my"));
    assert_eq!(s(&dir2), "/opt/my");
    // a missing directory falls back to the default theme
    assert_eq!(
        s(&choose_theme_dir(t("/opt/nowhere"), false, &themes_dir)),
        "/usr/share/web-greeter/themes/default"
    );
    assert_eq!(s(&choose_theme_dir(t("/opt/my"), true, &themes_dir)), "/opt/my");
    // the declared page is used where it exists as an HTML file
    let candidate = join_path(&t("/opt/my"), "main.html");
    assert_eq!(s(&candidate), "/opt/my/main.html");
    let default_index = t("/usr/share/web-greeter/themes/default/index.html");
    let p = primary_html_path(
        &t("/opt/my"),
        false,
        &t("my"),
        &candidate,
        true,
        &t("main.html"),
        &default_index,
    );
    assert_eq!(s(&p), "/opt/my/main.html");
    let p2 = primary_html_path(
        &t("/opt/my"),
        false,
        &t("my"),
        &candidate,
        false,
        &t("main.html"),
        &default_index,
    );
    assert_eq!(s(&p2), s(&default_index));
    // the secondary page falls back to the primary
    assert_eq!(s(&secondary_html_path(&p, None)), "/opt/my/main.html");
    assert_eq!(
        s(&secondary_html_path(&p, Some((t("/opt/my/second.html"), true)))),
        "/opt/my/second.html"
    );
    assert_eq!(
        s(&secondary_html_path(&p, Some((t("/opt/my/second.html"), false)))),
        "/opt/my/main.html"
    );
}

#[test]
fn parent_directory_of_the_shared_data_dir() {
    assert_eq!(
        parent_dir_of(&t("/var/lib/lightdm-data/jo")).map(|v| s(&v)),
        Some("/var/lib/lightdm-data".to_string())
    );
    assert_eq!(parent_dir_of(&t("no-separator")), None);
}

#[test]
fn settings_defaults_and_overrides() {
    let s0 = Settings::default();
    assert_eq!(s0.theme(), "gruvbox");
    assert_eq!(s0.screensaver_timeout(), 300);
    assert!(s0.secure_mode());
    assert!(s0.detect_theme_errors());
    assert!(!s0.debug_mode());
    assert!(s0.themes_dir().is_none());
    let s1 = Settings::new(true, Some("litarvan"));
    assert!(s1.debug_mode());
    assert_eq!(s1.theme(), "litarvan");
    assert_eq!(s1.themes_dir(), Some("/usr/share/web-greeter/themes/"));
    // debug mode is turned on but never off
    let mut s2 = Settings::new(true, None);
    s2.set_debug_mode(false);
    assert!(s2.debug_mode());
    // page fallbacks
    assert_eq!(s2.primary_html(), "index.html");
    assert_eq!(s2.secondary_html(), Some("index.html".to_string()));
    s2.set_theme_html("main.html".to_string(), None);
    assert_eq!(s2.primary_html(), "main.html");
    assert_eq!(s2.secondary_html(), None);
}

#[test]
fn proxy_requests_take_the_wire_shape() {
    let g = getter_request("session-api", &t("brightness"));
    assert_eq!(s(&g.name), "session-api");
    assert_eq!(s(&g.parts[0]), "brightness");
    assert_eq!(s(&g.parts[1]), "[]");
    let w = setter_request("session-api", &t("brightness"), Json::Num(42));
    assert_eq!(s(&w.parts[0]), "brightness");
    assert_eq!(s(&w.parts[1]), "[42]");
    let m = method_request("session-api", &t("respond"), vec![Json::Str(t("pw"))]);
    assert_eq!(s(&m.parts[0]), "respond");
    assert_eq!(s(&m.parts[1]), "[\"pw\"]");
}

#[test]
fn failed_round_trips_fall_back_to_the_default() {
    assert_eq!(decode_reply(None, DefaultValue::Num(-1)), Json::Num(-1));
    assert_eq!(decode_reply(None, DefaultValue::Null), Json::Null);
    assert_eq!(decode_reply(None, DefaultValue::False), Json::Bool(false));
    assert_eq!(decode_reply(None, DefaultValue::EmptyArray), Json::Arr(vec![]));
    assert_eq!(decode_reply(Some(t("85")), DefaultValue::Num(-1)), Json::Num(85));
    assert_eq!(decode_reply(Some(t("not json")), DefaultValue::Num(-1)), Json::Null);
}

#[test]
fn member_tables_match_the_protocol_surface() {
    let ldm = lightdm_members();
    assert_eq!(ldm.len(), 39);
    assert_eq!(s(&ldm[0].name), "authentication_user");
    assert_eq!(ldm[0].kind, MemberKind::ReadOnly);
    assert_eq!(ldm[0].default, DefaultValue::Null);
    let brightness = ldm.iter().find(|m| s(&m.name) == "brightness").unwrap();
    assert_eq!(brightness.kind, MemberKind::ReadWrite);
    assert_eq!(brightness.default, DefaultValue::Num(-1));
    let shutdown = ldm.iter().find(|m| s(&m.name) == "shutdown").unwrap();
    assert_eq!(shutdown.kind, MemberKind::Method);
    assert_eq!(config_members().len(), 4);
    let comm = comm_members();
    assert_eq!(comm.len(), 2);
    assert_eq!(s(&comm[1].name), "broadcast");
}

#[test]
fn send_request_builds_the_envelope() {
    let req = Json::Obj(vec![
        (t("target"), Json::Str(t("session-api"))),
        (t("method"), Json::Str(t("brightness"))),
        (t("args"), Json::Arr(vec![Json::Num(42)])),
    ]);
    let m = build_send_request(&req).expect("a full request builds");
    assert_eq!(s(&m.name), "session-api");
    assert_eq!(s(&m.parts[0]), "brightness");
    assert_eq!(s(&m.parts[1]), "[42]");
    // a request with none of the members is refused
    assert!(build_send_request(&Json::Obj(vec![])).is_none());
    assert!(build_send_request(&Json::Num(1)).is_none());
    // a partial request coerces the missing members
    let partial = Json::Obj(vec![(t("method"), Json::Str(t("m")))]);
    let pm = build_send_request(&partial).unwrap();
    assert_eq!(s(&pm.name), "undefined");
    assert_eq!(s(&pm.parts[1]), "[]");
}

#[test]
fn secure_mode_blocks_remote_schemes() {
    assert!(!secure_mode_blocks(Some(&t("file"))));
    assert!(!secure_mode_blocks(Some(&t("data"))));
    assert!(!secure_mode_blocks(Some(&t("web-greeter"))));
    assert!(secure_mode_blocks(Some(&t("https"))));
    assert!(secure_mode_blocks(Some(&t("ftp"))));
    assert!(secure_mode_blocks(None));
}

#[test]
fn lifecycle_helpers_decide_once() {
    let mut latch = ReadyLatch::new();
    assert!(latch.should_present());
    assert!(!latch.should_present());
    assert!(console_forward(true, false, true));
    assert!(!console_forward(true, true, true));
    assert!(!console_forward(true, false, false));
    assert!(!console_forward(false, false, true));
    assert_eq!(console_prompt_outcome(0), (false, ConsoleChoice::Keep));
    assert_eq!(console_prompt_outcome(1), (true, ConsoleChoice::UseDefaultTheme));
    assert_eq!(console_prompt_outcome(2), (true, ConsoleChoice::ReloadTheme));
    assert_eq!(console_prompt_outcome(9), (false, ConsoleChoice::Keep));
    assert_eq!(surface_id(1, 1), (1u64 << 24) | (1u64 << 8));
}
