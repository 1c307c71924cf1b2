//! Checking answers against a form.
use greentic_qa::answers::{AnswerSet, Meta, ValidationError};
use greentic_qa::form::{
    Bound, Constraint, CrossFieldValidation, Expr, FormSpec, ListSpec, QuestionSpec, QuestionType,
};
use greentic_qa::json::Json;
use greentic_qa::json_text::{parse_json, render_json};
use greentic_qa::text::encode_hex;
use greentic_qa::validate::{validate, validate_value};

fn json(text: &str) -> Json {
    parse_json(text).unwrap()
}

fn question(id: &str, kind: QuestionType) -> QuestionSpec {
    QuestionSpec {
        id: id.to_string(),
        kind,
        title: id.to_string(),
        title_i18n: None,
        description: None,
        description_i18n: None,
        required: true,
        choices: None,
        default_value: None,
        secret: false,
        visible_if: None,
        constraint: None,
        list: None,
        computed: None,
        computed_overridable: false,
    }
}

fn form(questions: Vec<QuestionSpec>, validations: Vec<CrossFieldValidation>) -> FormSpec {
    FormSpec {
        id: "f".to_string(),
        title: "F".to_string(),
        version: "1".to_string(),
        description: None,
        presentation: None,
        progress_policy: None,
        secrets_policy: None,
        store: Vec::new(),
        validations,
        includes: Vec::new(),
        questions,
    }
}

fn none() -> Constraint {
    Constraint { pattern: None, min: None, max: None, min_len: None, max_len: None }
}

fn bound(value: f64) -> Option<Bound> {
    Some(Bound { bits: value.to_bits(), text: value.to_string() })
}

fn code(error: Option<ValidationError>) -> Option<String> {
    error.and_then(|e| e.code)
}

#[test]
fn types_are_checked() {
    let cases = [
        (QuestionType::String, r#""x""#, "1"),
        (QuestionType::Boolean, "true", r#""true""#),
        (QuestionType::Integer, "-3", "1.5"),
        (QuestionType::Number, "1.5", r#""1""#),
    ];
    for (kind, good, bad) in cases {
        let q = question("q", kind);
        assert_eq!(validate_value(&q, &json(good)), None);
        let error = validate_value(&q, &json(bad)).unwrap();
        assert_eq!(error.code, Some("type_mismatch".to_string()));
        assert_eq!(error.path, Some("/q".to_string()));
    }
}

#[test]
fn limits_are_checked() {
    let mut q = question("q", QuestionType::Number);
    q.constraint = Some(Constraint { min: bound(1.0), max: bound(2.5), ..none() });
    assert_eq!(validate_value(&q, &json("2")), None);
    assert_eq!(validate_value(&q, &json("2.5")), None);
    assert_eq!(code(validate_value(&q, &json("0"))), Some("min".to_string()));
    assert_eq!(code(validate_value(&q, &json("-1"))), Some("min".to_string()));
    assert_eq!(code(validate_value(&q, &json("2.6"))), Some("max".to_string()));
    let mut s = question("s", QuestionType::String);
    s.constraint = Some(Constraint { min_len: Some(2), max_len: Some(3), ..none() });
    assert_eq!(validate_value(&s, &json(r#""ab""#)), None);
    assert_eq!(code(validate_value(&s, &json(r#""a""#))), Some("min_length".to_string()));
    assert_eq!(code(validate_value(&s, &json(r#""abcd""#))), Some("max_length".to_string()));
}

#[test]
fn patterns_are_checked() {
    let mut q = question("q", QuestionType::String);
    q.constraint = Some(Constraint { pattern: Some("^[a-z]+$".to_string()), ..none() });
    assert_eq!(validate_value(&q, &json(r#""abc""#)), None);
    assert_eq!(code(validate_value(&q, &json(r#""ab1""#))), Some("pattern_mismatch".to_string()));
    q.constraint = Some(Constraint { pattern: Some("(".to_string()), ..none() });
    assert_eq!(validate_value(&q, &json(r#""ab1""#)), None);
}

#[test]
fn choices_are_checked() {
    let mut q = question("q", QuestionType::Enum);
    q.choices = Some(vec!["a".to_string(), "b".to_string()]);
    assert_eq!(validate_value(&q, &json(r#""b""#)), None);
    assert_eq!(code(validate_value(&q, &json(r#""c""#))), Some("enum_mismatch".to_string()));
}

#[test]
fn lists_are_checked_entry_by_entry() {
    let mut q = question("l", QuestionType::List);
    let mut optional = question("note", QuestionType::String);
    optional.required = false;
    q.list = Some(ListSpec {
        min_items: Some(1),
        max_items: Some(2),
        fields: vec![question("name", QuestionType::String), optional],
    });
    assert_eq!(validate_value(&q, &json(r#"[{"name":"x"}]"#)), None);
    assert!(validate_value(&q, &json("{}")).is_some());
    assert_eq!(code(validate_value(&q, &json("[]"))), Some("min_items".to_string()));
    assert_eq!(
        code(validate_value(&q, &json(r#"[{"name":"1"},{"name":"2"},{"name":"3"}]"#))),
        Some("max_items".to_string())
    );
    let missing = validate_value(&q, &json(r#"[{"name":"1"},{"note":"n"}]"#)).unwrap();
    assert_eq!(missing.path, Some("/l/1/name".to_string()));
    let wrong = validate_value(&q, &json(r#"[{"name":"1","note":2}]"#)).unwrap();
    assert_eq!(wrong.path, Some("/l/0/note".to_string()));
    assert!(validate_value(&q, &json("[1]")).is_some());
}

#[test]
fn answers_are_checked_against_the_form() {
    let rule = CrossFieldValidation {
        id: Some("r".to_string()),
        message: "broken".to_string(),
        fields: vec!["a".to_string()],
        condition: Expr::IsSet { path: "a".to_string() },
        code: None,
    };
    let spec = form(
        vec![
            question("a", QuestionType::String),
            question("b", QuestionType::String),
            question("c", QuestionType::String),
        ],
        vec![rule],
    );
    let hidden = vec![("c".to_string(), false)];
    let result = validate(&spec, &json(r#"{"a":1,"c":2,"z":3}"#), &hidden, &vec![Some(true)]);
    assert!(!result.valid);
    assert_eq!(result.errors.len(), 2);
    assert_eq!(result.errors[0].question_id, Some("a".to_string()));
    assert_eq!(result.errors[1].message, "broken");
    assert_eq!(result.missing_required, vec!["b".to_string()]);
    assert_eq!(result.unknown_fields, vec!["z".to_string()]);
    let fine = validate(&spec, &json(r#"{"a":"1","b":"2"}"#), &hidden, &vec![Some(false)]);
    assert!(fine.valid);
    let unknown = validate(&spec, &json(r#"{"a":"1","b":"2"}"#), &hidden, &vec![None]);
    assert!(unknown.valid);
}

#[test]
fn an_answer_set_is_written() {
    let fresh = AnswerSet::new("f".to_string(), "1".to_string());
    assert_eq!(
        render_json(&fresh.to_json()),
        r#"{"answers":{},"form_id":"f","spec_version":"1"}"#
    );
    assert_eq!(
        encode_hex(&fresh.to_cbor().unwrap()),
        "a367616e7377657273a067666f726d5f696461666c737065635f76657273696f6e6131"
    );
    let dated = AnswerSet {
        meta: Some(Meta { created_at: Some("now".to_string()), updated_at: None }),
        ..AnswerSet::new("f".to_string(), "1".to_string())
    };
    assert_eq!(
        render_json(&dated.to_json()),
        r#"{"answers":{},"form_id":"f","meta":{"created_at":"now"},"spec_version":"1"}"#
    );
}
