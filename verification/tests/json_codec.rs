//! The JSON codec: rendering, parsing, and their round trip, checked
//! against concrete texts and against serde_json as an outside reference.

use hellomoon::json::Json;
use hellomoon::parse_exec::parse;
use hellomoon::render::{pretty_json, render};

fn obj(members: Vec<(&str, Json)>) -> Json {
    Json::Obj(members.into_iter().map(|(k, v)| (k.to_string(), v)).collect())
}

fn s(t: &str) -> Json {
    Json::Str(t.to_string())
}

#[test]
fn renders_scalars() {
    assert_eq!(render(&Json::Null), "null");
    assert_eq!(render(&Json::Bool(true)), "true");
    assert_eq!(render(&Json::Bool(false)), "false");
    assert_eq!(render(&Json::UInt(0)), "0");
    assert_eq!(render(&Json::UInt(1234567890)), "1234567890");
    assert_eq!(render(&Json::UInt(u64::MAX)), "18446744073709551615");
    assert_eq!(render(&Json::NegInt(1)), "-1");
    assert_eq!(render(&Json::NegInt(9223372036854775808)), "-9223372036854775808");
    assert_eq!(render(&Json::NumText("1.5".to_string())), "1.5");
}

#[test]
fn renders_strings_with_escapes() {
    assert_eq!(render(&s("hello")), "\"hello\"");
    assert_eq!(render(&s("a\"b")), "\"a\\\"b\"");
    assert_eq!(render(&s("a\\b")), "\"a\\\\b\"");
    assert_eq!(render(&s("a\nb\tc\rd")), "\"a\\nb\\tc\\rd\"");
    assert_eq!(render(&s("\u{8}\u{c}")), "\"\\b\\f\"");
    assert_eq!(render(&s("\u{1}")), "\"\\u0001\"");
    assert_eq!(render(&s("\u{1f}")), "\"\\u001f\"");
    assert_eq!(render(&s("snowman \u{2603}")), "\"snowman \u{2603}\"");
}

#[test]
fn renders_collections() {
    let doc = obj(vec![
        ("data", Json::Arr(vec![Json::UInt(1), Json::Null, s("x")])),
        ("paginationToken", Json::Null),
    ]);
    assert_eq!(render(&doc), "{\"data\":[1,null,\"x\"],\"paginationToken\":null}");
    assert_eq!(render(&Json::Arr(vec![])), "[]");
    assert_eq!(render(&Json::Obj(vec![])), "{}");
}

#[test]
fn parses_scalars() {
    assert_eq!(parse("null"), Some(Json::Null));
    assert_eq!(parse("true"), Some(Json::Bool(true)));
    assert_eq!(parse("false"), Some(Json::Bool(false)));
    assert_eq!(parse("0"), Some(Json::UInt(0)));
    assert_eq!(parse("-0"), Some(Json::UInt(0)));
    assert_eq!(parse("42"), Some(Json::UInt(42)));
    assert_eq!(parse("-7"), Some(Json::NegInt(7)));
    assert_eq!(parse("18446744073709551615"), Some(Json::UInt(u64::MAX)));
    assert_eq!(
        parse("18446744073709551616"),
        Some(Json::NumText("18446744073709551616".to_string()))
    );
    assert_eq!(parse("-9223372036854775808"), Some(Json::NegInt(9223372036854775808)));
    assert_eq!(
        parse("-9223372036854775809"),
        Some(Json::NumText("-9223372036854775809".to_string()))
    );
    assert_eq!(parse("1.5"), Some(Json::NumText("1.5".to_string())));
    assert_eq!(parse("-2.25e10"), Some(Json::NumText("-2.25e10".to_string())));
    assert_eq!(parse("1e3"), Some(Json::NumText("1e3".to_string())));
}

#[test]
fn parses_strings() {
    assert_eq!(parse("\"hi\""), Some(s("hi")));
    assert_eq!(parse("\"a\\nb\""), Some(s("a\nb")));
    assert_eq!(parse("\"q\\\"q\""), Some(s("q\"q")));
    assert_eq!(parse("\"back\\\\slash\""), Some(s("back\\slash")));
    assert_eq!(parse("\"slash\\/ok\""), Some(s("slash/ok")));
    assert_eq!(parse("\"\\u0041\""), Some(s("A")));
    assert_eq!(parse("\"\\u00e9\""), Some(s("\u{e9}")));
    assert_eq!(parse("\"\\b\\f\\r\\t\""), Some(s("\u{8}\u{c}\r\t")));
}

#[test]
fn parses_collections_and_whitespace() {
    let doc = parse(" { \"data\" : [ 1 , null ] , \"paginationToken\" : \"t\" } ").unwrap();
    assert_eq!(
        doc,
        obj(vec![
            ("data", Json::Arr(vec![Json::UInt(1), Json::Null])),
            ("paginationToken", s("t")),
        ])
    );
    assert_eq!(parse("[]"), Some(Json::Arr(vec![])));
    assert_eq!(parse("[ ]"), Some(Json::Arr(vec![])));
    assert_eq!(parse("{}"), Some(Json::Obj(vec![])));
    assert_eq!(parse("{ }"), Some(Json::Obj(vec![])));
}

#[test]
fn rejects_invalid_bodies() {
    for bad in [
        "",
        "   ",
        "nul",
        "truee",
        "{",
        "}",
        "[1,]",
        "{\"a\":}",
        "{\"a\" 1}",
        "{\"a\":1,}",
        "{'a':1}",
        "01",
        "-",
        "1.",
        ".5",
        "1e",
        "+1",
        "\"unterminated",
        "\"bad\\escape\"",
        "\"\\u12g4\"",
        "[1] extra",
        "{\"a\":1}{",
    ] {
        assert_eq!(parse(bad), None, "accepted invalid body: {}", bad);
    }
}

#[test]
fn surrogate_escapes_pair_up_or_are_rejected() {
    // a high surrogate followed by a low surrogate combines to one
    // character; a lone surrogate escape is invalid
    assert_eq!(parse("\"\\ud83d\\ude00\""), Some(s("\u{1f600}")));
    assert_eq!(parse("\"\\uD801\\uDC37\""), Some(s("\u{10437}")));
    assert_eq!(parse("\"\\ud800\""), None);
    assert_eq!(parse("\"\\ude00\""), None);
    assert_eq!(parse("\"\\ud83d\\u0041\""), None);
    assert_eq!(parse("\"\\ud83dx\""), None);
}

#[test]
fn round_trips_documents() {
    let docs = vec![
        Json::Null,
        Json::Bool(false),
        Json::UInt(7),
        Json::NegInt(40),
        Json::NumText("6.02e23".to_string()),
        s("text with \"quotes\" and \\ and \n"),
        Json::Arr(vec![Json::UInt(1), s("two"), Json::Null, Json::Arr(vec![])]),
        obj(vec![
            ("data", Json::Arr(vec![obj(vec![("mint", s("abc")), ("amount", Json::UInt(5))])])),
            ("paginationToken", s("tok")),
        ]),
    ];
    for doc in docs {
        let text = render(&doc);
        assert_eq!(parse(&text), Some(doc), "round trip failed for {}", text);
    }
}

#[test]
fn agrees_with_outside_parser_on_acceptance() {
    for body in [
        "null",
        "true",
        "0",
        "-0",
        "12",
        "-12",
        "1.5",
        "-1.5e-3",
        "01",
        "1.",
        ".5",
        "\"abc\"",
        "\"a\\u0041b\"",
        "\"bad\\q\"",
        "[]",
        "[1,2,3]",
        "[1,2,]",
        "{}",
        "{\"a\":1}",
        "{\"a\":1,\"b\":[null,true]}",
        "{\"a\":1,}",
        "{\"a\"}",
        "  {\"a\" : \"b\"}  ",
        "[1] trailing",
        "nan",
        "18446744073709551616",
        "-9223372036854775809",
        "\"\\ud83d\\ude00\"",
        "\"\\ud800\"",
        "\"\\ude00\"",
    ] {
        let ours = parse(body).is_some();
        let theirs = serde_json::from_str::<serde_json::Value>(body).is_ok();
        assert_eq!(ours, theirs, "acceptance disagrees on {:?}", body);
    }
}

#[test]
fn rendered_text_is_read_back_by_outside_parser() {
    let doc = obj(vec![
        ("limit", Json::UInt(25)),
        ("name", s("line\nbreak \"q\" \u{3b1}")),
        ("values", Json::Arr(vec![Json::NegInt(3), Json::NumText("2.5".to_string())])),
        ("gone", Json::Null),
    ]);
    let text = render(&doc);
    let v: serde_json::Value = serde_json::from_str(&text).expect("outside parser rejected");
    assert_eq!(v["limit"], serde_json::Value::from(25u64));
    assert_eq!(v["name"], serde_json::Value::from("line\nbreak \"q\" \u{3b1}"));
    assert_eq!(v["values"][0], serde_json::Value::from(-3i64));
    assert_eq!(v["values"][1], serde_json::Value::from(2.5f64));
    assert_eq!(v["gone"], serde_json::Value::Null);
}

#[test]
fn pretty_text_is_indented_and_reads_back_the_same() {
    let doc = obj(vec![
        ("data", Json::Arr(vec![Json::UInt(1), s("x")])),
        ("paginationToken", Json::Null),
    ]);
    assert_eq!(
        pretty_json(&doc),
        "{\n  \"data\": [\n    1,\n    \"x\"\n  ],\n  \"paginationToken\": null\n}"
    );
    assert_eq!(pretty_json(&Json::Arr(vec![])), "[]");
    assert_eq!(pretty_json(&Json::Obj(vec![])), "{}");
    // the pretty text holds the same document as the compact text
    assert_eq!(parse(&pretty_json(&doc)), parse(&render(&doc)));
}
