//! Texts, maps, JSON values and paths.
use greentic_qa::answers::{AnswerSet, Meta};
use greentic_qa::cbor::render_cbor;
use greentic_qa::entries::{add_member, find, put_text, text_at};
use greentic_qa::json::{double_below, put_member, Json, Number};
use greentic_qa::json_text::{finite, parse_json, parse_text_map, render_json};
use greentic_qa::paths::{
    candidate_form_paths, file_name, infer_i18n_dir_from_form_path, join_path, locale_file_path,
    is_absolute, parent_path, path_parts, path_within, PathRules,
};
use greentic_qa::text::{
    blank, encode_hex, head_before, join, less, number_text, parse_i64, parse_usize,
    replace_char, replace_token, same_ignoring_ascii_case, split, starts_with, strip_prefix,
    to_ascii_lower, trim,
};

fn json(text: &str) -> Json {
    parse_json(text).unwrap()
}

fn strings(list: &[&str]) -> Vec<String> {
    list.iter().map(|s| s.to_string()).collect()
}

#[test]
fn trimming_takes_white_space_off_both_ends() {
    assert_eq!(trim("  a b\t\n"), "a b");
    assert_eq!(trim("\u{a0}x\u{2003}"), "x");
    assert_eq!(trim(" \r\n "), "");
    assert!(blank(" \t "));
    assert!(!blank(" x "));
}

#[test]
fn letter_case() {
    assert_eq!(to_ascii_lower("Ab\u{c4}"), "ab\u{c4}");
    assert!(same_ignoring_ascii_case("Exit", "eXIT"));
    assert!(!same_ignoring_ascii_case("exit", "exits"));
}

#[test]
fn pieces_of_texts() {
    assert_eq!(split("a,b,,c", ','), strings(&["a", "b", "", "c"]));
    assert_eq!(split("", ','), strings(&[""]));
    assert_eq!(join(&strings(&["a", "b", "c"]), ", "), "a, b, c");
    assert_eq!(join(&Vec::new(), ", "), "");
    assert_eq!(head_before("nl-NL", '-'), Some("nl".to_string()));
    assert_eq!(head_before("nl", '-'), None);
    assert_eq!(replace_char("en_GB_x", '_', '-'), "en-GB-x");
    assert_eq!(replace_token("{a} and {a} {b}", "{a}", "1"), "1 and 1 {b}");
    assert!(starts_with("qa_spec.min", "qa_spec."));
    assert_eq!(strip_prefix("--locale=nl", "--locale="), Some("nl".to_string()));
    assert_eq!(strip_prefix("--loc", "--locale="), None);
}

#[test]
fn numbers_in_texts() {
    assert_eq!(number_text(0), "0");
    assert_eq!(number_text(1204), "1204");
    assert_eq!(parse_i64("-9223372036854775808"), Some(i64::MIN));
    assert_eq!(parse_i64("9223372036854775807"), Some(i64::MAX));
    assert_eq!(parse_i64("9223372036854775808"), None);
    assert_eq!(parse_i64("+7"), Some(7));
    assert_eq!(parse_i64(""), None);
    assert_eq!(parse_i64("-"), None);
    assert_eq!(parse_i64(" 1"), None);
    assert_eq!(parse_usize("12"), Some(12));
    assert_eq!(parse_usize("-1"), None);
    assert_eq!(encode_hex(&[0, 15, 255]), "000fff");
}

#[test]
fn texts_are_ordered_by_characters() {
    assert!(less("a", "b"));
    assert!(less("a", "ab"));
    assert!(less("Z", "a"));
    assert!(!less("a", "a"));
}

#[test]
fn maps_keep_their_keys_in_order() {
    let mut map: Vec<(String, String)> = Vec::new();
    put_text(&mut map, "b".into(), "1".into());
    put_text(&mut map, "a".into(), "2".into());
    put_text(&mut map, "b".into(), "3".into());
    assert_eq!(map, vec![("a".to_string(), "2".to_string()), ("b".to_string(), "3".to_string())]);
    assert_eq!(text_at(&map, "b"), Some("3".to_string()));
    assert_eq!(text_at(&map, "c"), None);
    assert_eq!(find(&map, "a"), Some(0));
    let mut set = strings(&["a", "c"]);
    add_member(&mut set, "b".into());
    add_member(&mut set, "c".into());
    assert_eq!(set, strings(&["a", "b", "c"]));
}

#[test]
fn json_is_read() {
    let value = json(r#"{"b": [1, -2, 1.5, true, null], "a": "x"}"#);
    assert_eq!(
        value,
        Json::Object(vec![
            ("a".to_string(), Json::String("x".to_string())),
            (
                "b".to_string(),
                Json::Array(vec![
                    Json::Number(Number::PosInt(1)),
                    Json::Number(Number::NegInt(-2)),
                    Json::Number(Number::Float(1.5f64.to_bits())),
                    Json::Bool(true),
                    Json::Null,
                ]),
            ),
        ])
    );
    assert!(parse_json("{").is_err());
    assert_eq!(value.get_str("a"), Some("x"));
    assert_eq!(value.get_str("b"), None);
    assert_eq!(value.get("c"), None);
}

#[test]
fn json_is_written_and_reads_back() {
    let value = json(r#"{"b":[1,-2,true,null,{}],"a":"q\"\n"}"#);
    let text = render_json(&value);
    assert_eq!(text, r#"{"a":"q\"\n","b":[1,-2,true,null,{}]}"#);
    assert_eq!(json(&text), value);
    assert_eq!(render_json(&Json::Number(Number::Float(1.5f64.to_bits()))), "1.5");
    assert_eq!(render_json(&Json::Number(Number::Float(f64::INFINITY.to_bits()))), "null");
}

#[test]
fn members_out_of_order_are_written_in_order() {
    let value = Json::Object(vec![
        ("b".to_string(), Json::Bool(true)),
        ("a".to_string(), Json::Null),
        ("b".to_string(), Json::Bool(false)),
    ]);
    assert_eq!(render_json(&value), r#"{"a":null,"b":false}"#);
}

#[test]
fn white_space_is_by_code_point() {
    for c in '\0'..=char::MAX {
        let white = matches!(
            c as u32,
            0x9..=0xd
                | 0x20
                | 0x85
                | 0xa0
                | 0x1680
                | 0x2000..=0x200a
                | 0x2028
                | 0x2029
                | 0x202f
                | 0x205f
                | 0x3000
        );
        assert_eq!(blank(&c.to_string()), white, "{:x}", c as u32);
    }
}

#[test]
fn cbor_is_canonical() {
    let bytes = render_cbor(&json(r#"{"bb":1,"a":true}"#)).unwrap();
    assert_eq!(encode_hex(&bytes), "a26161f562626201");
    let bytes = render_cbor(&json(r#"{"b":{"zz":[],"y":-1},"aa":"\u00e9","a":null}"#)).unwrap();
    assert_eq!(encode_hex(&bytes), "a36161f66162a2617920627a7a8062616162c3a9");
}

#[test]
fn cbor_reads_back() {
    let doubles = [0.1f64, 1.5, -0.0, 1e300, 5e-324, 16777217.0, 65504.0];
    let mut items: Vec<Json> =
        doubles.iter().map(|d| Json::Number(Number::Float(d.to_bits()))).collect();
    items.push(json(r#"{"k":[18446744073709551615,-9223372036854775808,"x",true,null]}"#));
    for item in items {
        let bytes = render_cbor(&item).unwrap();
        let read: serde_json::Value = serde_cbor::from_slice(&bytes).unwrap();
        assert_eq!(read.to_string(), render_json(&item));
    }
    let nested = |n: usize| json(&format!("{}{}", "[".repeat(n), "]".repeat(n)));
    let bytes = render_cbor(&nested(127)).unwrap();
    assert!(serde_cbor::from_slice::<serde_json::Value>(&bytes).is_ok());
    let bytes = render_cbor(&Json::Array(vec![nested(127)])).unwrap();
    assert!(serde_cbor::from_slice::<serde_json::Value>(&bytes).is_err());
}

#[test]
fn doubles_are_written_as_they_are() {
    let shown = |d: f64| render_json(&Json::Number(Number::Float(d.to_bits())));
    assert_eq!(shown(0.1), "0.1");
    assert_eq!(shown(-2.5e-7), "-2.5e-7");
    assert_eq!(shown(f64::MAX), "1.7976931348623157e+308");
    assert_eq!(shown(f64::INFINITY), "null");
    assert_eq!(shown(f64::NAN), "null");
}

#[test]
fn equal_answer_sets_have_equal_bytes() {
    let set = |answers: Vec<(&str, Json)>| AnswerSet {
        form_id: "f".to_string(),
        spec_version: "1".to_string(),
        answers: Json::Object(answers.into_iter().map(|(k, v)| (k.to_string(), v)).collect()),
        meta: Some(Meta { created_at: Some("c".to_string()), updated_at: None }),
    };
    let a = set(vec![("bb", Json::Null), ("c", Json::Bool(true)), ("a", Json::empty())]);
    let b = set(vec![("a", Json::empty()), ("bb", Json::Null), ("c", Json::Bool(true))]);
    let bytes = a.to_cbor().unwrap();
    assert_eq!(bytes, b.to_cbor().unwrap());
    let read: serde_json::Value = serde_cbor::from_slice(&bytes).unwrap();
    assert_eq!(read.to_string(), render_json(&a.to_json()));
    assert_eq!(
        encode_hex(&bytes),
        "a4646d657461a16a637265617465645f6174616367616e7377657273a36161a06163f5626262f6\
         67666f726d5f696461666c737065635f76657273696f6e6131"
    );
}

#[test]
fn text_maps_are_read() {
    assert_eq!(
        parse_text_map(r#"{"b":"2","a":"1"}"#).unwrap(),
        vec![("a".to_string(), "1".to_string()), ("b".to_string(), "2".to_string())]
    );
    assert!(parse_text_map(r#"{"a":1}"#).is_err());
}

#[test]
fn members_are_put_in_order() {
    let mut members = vec![("b".to_string(), Json::Null)];
    put_member(&mut members, "a".to_string(), Json::Bool(true));
    put_member(&mut members, "b".to_string(), Json::Bool(false));
    assert_eq!(
        members,
        vec![("a".to_string(), Json::Bool(true)), ("b".to_string(), Json::Bool(false))]
    );
}

#[test]
fn doubles_are_compared_by_value() {
    let bits = |value: f64| value.to_bits();
    assert!(double_below(bits(-1.5), bits(-1.0)));
    assert!(double_below(bits(-1.0), bits(0.5)));
    assert!(double_below(bits(0.5), bits(2.0)));
    assert!(!double_below(bits(0.0), bits(-0.0)));
    assert!(!double_below(bits(-0.0), bits(0.0)));
    assert!(!double_below(bits(f64::NAN), bits(1.0)));
    assert!(double_below(bits(1e300), bits(f64::INFINITY)));
    assert!(finite(bits(1e308)));
    assert!(!finite(bits(f64::NEG_INFINITY)));
    assert!(!finite(bits(f64::NAN)));
}

fn host() -> PathRules {
    PathRules::host()
}

#[test]
fn the_rules_of_paths_are_those_of_the_host() {
    let slashes = std::path::MAIN_SEPARATOR == '/' && !std::path::Path::new("c:/").is_absolute();
    assert_eq!(host().has_slashes(), slashes);
}

#[test]
fn paths_are_joined_and_taken_apart() {
    assert_eq!(join_path(&host(), "assets", "qa/a.json"), "assets/qa/a.json");
    assert_eq!(join_path(&host(), "assets/", "a"), "assets/a");
    assert_eq!(join_path(&host(), "assets", "/a"), "/a");
    assert_eq!(join_path(&host(), "", "a"), "a");
    assert_eq!(path_parts(&host(), "/a//./b/"), strings(&["/", "a", "b"]));
    assert_eq!(path_parts(&host(), "./a/../b"), strings(&[".", "a", "..", "b"]));
    assert_eq!(parent_path(&host(), "a/b/c.json"), Some("a/b".to_string()));
    assert_eq!(parent_path(&host(), "/a"), Some("/".to_string()));
    assert_eq!(parent_path(&host(), "a"), Some(String::new()));
    assert_eq!(parent_path(&host(), "/"), None);
    assert_eq!(parent_path(&host(), ""), None);
    assert!(path_within(&host(), "/a/b/c", "/a/b"));
    assert!(path_within(&host(), "/a/b", "/a/b"));
    assert!(!path_within(&host(), "/a/bc", "/a/b"));
    assert_eq!(locale_file_path(&host(), "qa/i18n", "nl"), "qa/i18n/nl.json");
}

#[test]
fn paths_agree_with_std() {
    for text in ["a/b", "/a/./b/", "a//b/.", "./x", "/", "", "..", "a/..", "//x/y"] {
        let path = std::path::Path::new(text);
        let parts: Vec<String> =
            path.iter().map(|part| part.to_string_lossy().to_string()).collect();
        assert_eq!(path_parts(&host(), text), parts, "{}", text);
        let parent = path.parent().map(|p| p.to_string_lossy().to_string());
        assert_eq!(parent_path(&host(), text), parent, "{}", text);
        let name = path.file_name().map(|name| name.to_string_lossy().to_string());
        assert_eq!(file_name(&host(), text), name, "{}", text);
        assert_eq!(is_absolute(&host(), text), path.is_absolute(), "{}", text);
        assert_eq!(path_within(&host(), text, "/a"), path.starts_with("/a"), "{}", text);
        let joined = path.join("i18n").to_string_lossy().to_string();
        assert_eq!(join_path(&host(), text, "i18n"), joined, "{}", text);
    }
}

#[test]
fn forms_are_looked_for_below_the_base_first() {
    assert_eq!(
        candidate_form_paths(&host(), "assets", "qa/form.json"),
        strings(&["assets/qa/form.json", "qa/form.json", "/assets/qa/form.json"])
    );
    assert_eq!(
        candidate_form_paths(&host(), "/assets", "qa/form.json"),
        strings(&["/assets/qa/form.json", "qa/form.json"])
    );
    assert_eq!(candidate_form_paths(&host(), "assets", "/form.json"), strings(&["/form.json"]));
}

#[test]
fn locale_files_stand_beside_the_forms_directory() {
    assert_eq!(infer_i18n_dir_from_form_path(&host(), "qa/forms/support.form.json"), "qa/i18n");
    assert_eq!(infer_i18n_dir_from_form_path(&host(), "/srv/qa/forms/deep/a.json"), "/srv/qa/i18n");
    assert_eq!(infer_i18n_dir_from_form_path(&host(), "forms/a.json"), "i18n");
    assert_eq!(infer_i18n_dir_from_form_path(&host(), "qa/a.json"), "qa/i18n");
    assert_eq!(infer_i18n_dir_from_form_path(&host(), "a.json"), "i18n");
    assert_eq!(infer_i18n_dir_from_form_path(&host(), ""), "./i18n");
}
