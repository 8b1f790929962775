use collab::draft_panel::draft_apply_expression;
use collab::json::{entry, number_entry, object, parse_json, Json};
use collab::paths::{
    ancestors, components, extension, is_same_path, join, parent, strip_prefix, Component,
};
use collab::text::{
    decimal_of, is_blank, is_text_before, same_text, signed_decimal_of, trim, utf8_len_of,
};

#[test]
fn documents_are_read_with_their_values() {
    let document = parse_json(r#"{"a":[true,null,-1.5e3],"b":"xA\n"}"#).unwrap();
    assert_eq!(document.text_field("b").unwrap(), "xA\n");
    match document.get("a") {
        Some(Json::Array(items)) => {
            assert_eq!(items[0], Json::Bool(true));
            assert_eq!(items[1], Json::Null);
            assert_eq!(items[2], Json::Number("-1500.0".into()));
        }
        other => panic!("unexpected value {other:?}"),
    }
    assert!(document.get("c").is_none());
    assert!(parse_json("{").is_err());
    assert!(parse_json("1 2").is_err());
}

#[test]
fn texts_are_quoted_for_scripts() {
    let script = draft_apply_expression("\"\\\u{8}\u{c}\n\r\t\u{1}\u{7f}/台");
    assert!(script.contains("\"\\\"\\\\\\b\\f\\n\\r\\t\\u0001\u{7f}/台\""));
}

#[test]
fn fields_are_set_in_place_or_added() {
    let document = object(vec![number_entry("a", 1), entry("b", Json::Null)]);
    let set = document.with_field("b", Json::Bool(true)).with_field("c", Json::Null);
    assert_eq!(set.bool_field("b"), Some(true));
    match set {
        Json::Object(fields) => assert_eq!(fields.len(), 3),
        other => panic!("unexpected value {other:?}"),
    }
    assert_eq!(Json::Null.with_field("x", Json::Null), Json::Null);
}

#[test]
fn paths_are_taken_apart_and_put_together() {
    assert_eq!(join("/p", "a"), "/p/a");
    assert_eq!(join("/p/", "a"), "/p/a");
    assert_eq!(join("", "a"), "a");
    assert!(matches!(components("./a").as_slice(), [Component::CurDir, Component::Normal(_)]));
    assert!(matches!(
        components("/a//./../b/").as_slice(),
        [
            Component::RootDir,
            Component::Normal(_),
            Component::ParentDir,
            Component::Normal(_)
        ]
    ));
    assert!(is_same_path("/a//b/", "/a/./b"));
    assert!(!is_same_path("/a/b", "/a/b/c"));
    assert!(strip_prefix("/projects/x", "/p").is_none());
    assert_eq!(parent("/a/b").unwrap(), "/a");
    assert_eq!(parent("/a").unwrap(), "/");
    assert!(parent("/").is_none());
    assert_eq!(ancestors("/a/b"), ["/a/b", "/a", "/"]);
    assert_eq!(ancestors("a/b"), ["a/b", "a", ""]);
    assert_eq!(extension("/a/b.tar.gz").unwrap(), "gz");
    assert!(extension("/a/.hidden").is_none());
    assert!(extension("/a/b").is_none());
}

#[test]
fn texts_are_measured_and_trimmed() {
    assert_eq!(trim("\u{a0} x y\u{2003}\n"), "x y");
    assert!(is_blank(" \u{3000}\t") && !is_blank(" x "));
    assert_eq!(utf8_len_of("a台😀"), 8);
    assert_eq!(decimal_of(18446744073709551615), "18446744073709551615");
    assert_eq!(signed_decimal_of(i64::MIN), "-9223372036854775808");
    assert!(is_text_before("a", "b") && is_text_before("a", "aa") && !is_text_before("b", "a"));
    assert!(same_text("x", "x") && !same_text("x", "y"));
}
