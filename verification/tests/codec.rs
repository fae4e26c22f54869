//! The wire codec: round trips, escaping, and refusals.

use greeter_bridge::json::{decode_args, encode, parse, Json};

fn t(s: &str) -> Vec<char> {
    s.chars().collect()
}

fn s(v: &[char]) -> String {
    v.iter().collect()
}

fn roundtrip(j: Json) -> Json {
    let text = encode(&j);
    parse(&text).expect("an encoded value must parse")
}

#[test]
fn roundtrip_scalars() {
    assert_eq!(roundtrip(Json::Null), Json::Null);
    assert_eq!(roundtrip(Json::Bool(true)), Json::Bool(true));
    assert_eq!(roundtrip(Json::Bool(false)), Json::Bool(false));
    assert_eq!(roundtrip(Json::Num(0)), Json::Num(0));
    assert_eq!(roundtrip(Json::Num(85)), Json::Num(85));
    assert_eq!(roundtrip(Json::Num(-1)), Json::Num(-1));
    assert_eq!(roundtrip(Json::Num(i64::MAX)), Json::Num(i64::MAX));
    assert_eq!(roundtrip(Json::Num(i64::MIN)), Json::Num(i64::MIN));
}

#[test]
fn roundtrip_strings() {
    for raw in [
        "",
        "Password:",
        "a\"b",
        "back\\slash",
        "line\nbreak\ttab\rret",
        "control\u{1}\u{1f}",
        "ünïcode ❄",
    ] {
        let j = Json::Str(t(raw));
        assert_eq!(roundtrip(j), Json::Str(t(raw)));
    }
}

#[test]
fn roundtrip_containers() {
    let v = Json::Arr(vec![
        Json::Num(1),
        Json::Str(t("two")),
        Json::Arr(vec![]),
        Json::Obj(vec![(t("k"), Json::Null)]),
    ]);
    let expected = Json::Arr(vec![
        Json::Num(1),
        Json::Str(t("two")),
        Json::Arr(vec![]),
        Json::Obj(vec![(t("k"), Json::Null)]),
    ]);
    assert_eq!(roundtrip(v), expected);
    let o = Json::Obj(vec![
        (t("name"), Json::Str(t("us"))),
        (t("list"), Json::Arr(vec![Json::Bool(false), Json::Num(-7)])),
    ]);
    let eo = Json::Obj(vec![
        (t("name"), Json::Str(t("us"))),
        (t("list"), Json::Arr(vec![Json::Bool(false), Json::Num(-7)])),
    ]);
    assert_eq!(roundtrip(o), eo);
}

#[test]
fn encoding_is_the_compact_text() {
    assert_eq!(s(&encode(&Json::Null)), "null");
    assert_eq!(s(&encode(&Json::Num(-42))), "-42");
    assert_eq!(s(&encode(&Json::Str(t("a\"b")))), "\"a\\\"b\"");
    assert_eq!(s(&encode(&Json::Str(t("x\u{1}")))), "\"x\\u0001\"");
    assert_eq!(
        s(&encode(&Json::Arr(vec![Json::Str(t("Password:")), Json::Num(1)]))),
        "[\"Password:\",1]"
    );
    assert_eq!(
        s(&encode(&Json::Obj(vec![(t("a"), Json::Num(1)), (t("b"), Json::Num(2))]))),
        "{\"a\":1,\"b\":2}"
    );
    assert_eq!(s(&encode(&Json::Num(i64::MIN))), "-9223372036854775808");
}

#[test]
fn parser_refuses_malformed_text() {
    for bad in ["", "nul", "trux", "[1,2", "{\"a\":}", "\"open", "[1,]", "--1", "[1,2]x"] {
        assert_eq!(parse(&t(bad)), None, "{bad:?} must not parse");
    }
}

#[test]
fn parser_reads_plain_json() {
    assert_eq!(parse(&t("[]")), Some(Json::Arr(vec![])));
    assert_eq!(parse(&t("{}")), Some(Json::Obj(vec![])));
    assert_eq!(parse(&t("[42]")), Some(Json::Arr(vec![Json::Num(42)])));
    assert_eq!(
        parse(&t("{\"x\":null}")),
        Some(Json::Obj(vec![(t("x"), Json::Null)]))
    );
}

#[test]
fn argument_lists_decode_to_their_elements() {
    let args = decode_args(&t("[\"Password:\",1]"));
    assert_eq!(args, vec![Json::Str(t("Password:")), Json::Num(1)]);
    assert_eq!(decode_args(&t("[]")), Vec::<Json>::new());
    assert_eq!(decode_args(&t("not json")), Vec::<Json>::new());
    assert_eq!(decode_args(&t("42")), Vec::<Json>::new());
}
