//! Typed answers, defaults and prompts.
use greentic_qa::answers::{AnswerSet, ValidationError, ValidationResult};
use greentic_qa::builder::{CliQuestionType, ListInput, QuestionInput};
use greentic_qa::catalog::{
    extract_locale_arg, init_from_cli_args, load_catalog, normalize_locale, resolve_locale,
    select_locale, supported_locales, I18n,
};
use greentic_qa::cli::{
    allowed_roots, bundle_slot, canonicalize_target, describe_validation, dump_bundle,
    ensure_allowed_root, format_validation_error, frontend_for, load_resolved_i18n_map,
    output_candidate, path_is_writable, pending_question, print_render_output, read_answer,
    resolve_output_root, review_submission, run_validate, take_numbered_turn, take_turn,
    AnswerStep, BundleTexts, Place, RenderMode, WizardTurn,
};
use greentic_qa::driver::WizardFrontend;
use greentic_qa::form::Expr;
use greentic_qa::hints::{
    build_binary_expression, default_prompt_for, describe_list_size, describe_type_hint,
    existing_question_ids, question_exists, render_list_example, summarize_list_fields,
};
use greentic_qa::json::{Json, Number};
use greentic_qa::json_text::{parse_json, render_json};
use greentic_qa::paths::PathRules;
use greentic_qa::typed::{
    describe_list_fields, ensure_default_matches_type, number_answer, parse_answer, parse_double,
    parse_expression_literal, validate_question_input, ReadDouble,
};
use greentic_qa::wizard::{
    AnswerParseError, Line, PromptContext, QuestionKind, RenderStatus, Verbosity, WizardPayload,
    WizardPresenter,
};
use tempfile::TempDir;

fn json(text: &str) -> Json {
    parse_json(text).unwrap()
}

fn plain() -> I18n {
    I18n { active: Vec::new(), english: Vec::new() }
}

fn speaking(messages: &[(&str, &str)]) -> I18n {
    let english = messages.iter().map(|m| (m.0.to_string(), m.1.to_string())).collect();
    I18n { active: Vec::new(), english }
}

fn strings(list: &[&str]) -> Vec<String> {
    list.iter().map(|s| s.to_string()).collect()
}

fn asked(id: &str, kind: CliQuestionType) -> QuestionInput {
    QuestionInput {
        id: id.to_string(),
        kind,
        title: id.to_string(),
        description: None,
        required: true,
        default_value: None,
        choices: None,
        secret: false,
        list: None,
        visible_if: None,
        constraint: None,
        computed: None,
        computed_overridable: false,
    }
}

#[test]
fn parse_answer_boolean_accepts_yes() {
    let question = json(r#"{ "type": "boolean", "required": true }"#);
    assert_eq!(parse_answer(&question, "yes", &plain()).unwrap(), Json::Bool(true));
}

#[test]
fn parse_answer_integer_handles_numbers() {
    let question = json(r#"{ "type": "integer" }"#);
    assert_eq!(
        parse_answer(&question, "42", &plain()).unwrap(),
        Json::Number(Number::PosInt(42))
    );
}

#[test]
fn parse_answer_enum_checks_choices() {
    let question = json(
        r#"{
            "type": "enum",
            "choices": ["alpha", "beta"],
            "required": true
        }"#,
    );
    assert!(parse_answer(&question, "gamma", &plain()).is_err());
    assert_eq!(
        parse_answer(&question, "alpha", &plain()).unwrap(),
        Json::String("alpha".into())
    );
}

#[test]
fn parse_answer_list_accepts_array() {
    let question = json(
        r#"{
            "type": "list",
            "required": true,
            "list": {
                "fields": [
                    { "id": "name" },
                    { "id": "value" }
                ]
            }
        }"#,
    );
    let value =
        parse_answer(&question, r#"[{"name": "alpha", "value": "v1"}]"#, &plain()).unwrap();
    assert!(matches!(value, Json::Array(_)));
}

#[test]
fn parse_answer_list_rejects_non_array() {
    let question = json(
        r#"{
            "type": "list",
            "required": true,
            "list": {
                "fields": [
                    { "id": "name" }
                ]
            }
        }"#,
    );
    assert!(parse_answer(&question, r#"{"name": "alpha"}"#, &plain()).is_err());
}

#[test]
fn parse_answer_respects_defaults() {
    let question = json(
        r#"{
            "type": "string",
            "default": "default-value",
            "required": true
        }"#,
    );
    assert_eq!(
        parse_answer(&question, "", &plain()).unwrap(),
        Json::String("default-value".into())
    );
}

#[test]
fn load_resolved_i18n_map_requires_flat_string_map() {
    let loaded =
        load_resolved_i18n_map(r#"{"q1.title":"Naam"}"#, &plain()).expect("flat map should load");
    assert_eq!(loaded, vec![("q1.title".to_string(), "Naam".to_string())]);

    assert!(load_resolved_i18n_map(r#"{"q1":{"title":"Naam"}}"#, &plain()).is_err());
}

#[test]
fn default_validation_accepts_boolean_values() {
    let i18n = plain();
    assert!(ensure_default_matches_type(CliQuestionType::Boolean, "y", None, &i18n).is_ok());
    assert!(ensure_default_matches_type(CliQuestionType::Boolean, "false", None, &i18n).is_ok());
    assert!(ensure_default_matches_type(CliQuestionType::Boolean, "maybe", None, &i18n).is_err());
}

#[test]
fn default_validation_requires_numeric_defaults() {
    let i18n = plain();
    assert!(ensure_default_matches_type(CliQuestionType::Integer, "0", None, &i18n).is_ok());
    assert!(ensure_default_matches_type(CliQuestionType::Integer, "1.5", None, &i18n).is_err());
    assert!(ensure_default_matches_type(CliQuestionType::Number, "1.5", None, &i18n).is_ok());
    assert!(ensure_default_matches_type(CliQuestionType::Number, "bad", None, &i18n).is_err());
}

#[test]
fn default_validation_checks_enum_choice() {
    let i18n = plain();
    let choices = vec!["one".into(), "two".into()];
    assert!(
        ensure_default_matches_type(CliQuestionType::Enum, "one", Some(&choices), &i18n).is_ok()
    );
    assert!(
        ensure_default_matches_type(CliQuestionType::Enum, "three", Some(&choices), &i18n)
            .is_err()
    );
}

#[test]
fn validate_question_input_rejects_bad_boolean_default() {
    let question = QuestionInput {
        id: "bool".into(),
        kind: CliQuestionType::Boolean,
        title: "Bool".into(),
        description: None,
        required: true,
        default_value: Some("we".into()),
        choices: None,
        secret: false,
        list: None,
        visible_if: None,
        constraint: None,
        computed: None,
        computed_overridable: false,
    };
    assert!(validate_question_input(&question, &plain()).is_err());
}

#[test]
fn ensure_allowed_root_accepts_writable_paths_outside_allowed_roots() {
    let allowed_root = TempDir::new().expect("temp dir");
    let other_root = TempDir::new().expect("temp dir");
    let roots = allowed_roots(&allowed_root.path().to_string_lossy());
    assert!(ensure_allowed_root(&PathRules::host(), &other_root.path().to_string_lossy(), &roots, true).is_ok());
}

#[test]
fn places_outside_the_roots_are_refused() {
    let roots = allowed_roots(" /srv/a :: /srv/b");
    assert_eq!(roots, strings(&["/srv/a", "/srv/b"]));
    assert_eq!(ensure_allowed_root(&PathRules::host(), "/srv/b/x", &roots, false), Ok(()));
    assert_eq!(
        ensure_allowed_root(&PathRules::host(), "/etc", &roots, false),
        Err(r#"path '/etc' is outside allowed roots ["/srv/a", "/srv/b"]"#.to_string())
    );
    let odd = vec!["/it's".to_string()];
    assert_eq!(
        ensure_allowed_root(&PathRules::host(), "/etc", &odd, false),
        Err(format!("path '/etc' is outside allowed roots {:?}", [std::path::Path::new("/it's")]))
    );
}

#[test]
fn words_for_truth() {
    let question = json(r#"{"type":"boolean"}"#);
    for raw in ["true", "T", "Yes", "y", "1"] {
        assert_eq!(parse_answer(&question, raw, &plain()), Ok(Json::Bool(true)));
    }
    for raw in ["false", "F", "No", "n", "0"] {
        assert_eq!(parse_answer(&question, raw, &plain()), Ok(Json::Bool(false)));
    }
    assert_eq!(
        parse_answer(&question, "maybe", &plain()),
        Err(AnswerParseError::new(
            "cli.parse.boolean_prompt".to_string(),
            Some("expected boolean (y/n/true/false)".to_string()),
        ))
    );
}

#[test]
fn refused_answers_say_why() {
    let refusal = |question: &str, raw: &str| {
        let error = parse_answer(&json(question), raw, &plain()).unwrap_err();
        (error.user_message, error.debug_message)
    };
    let some = |text: &str| Some(text.to_string());
    assert_eq!(
        refusal(r#"{"type":"integer"}"#, "4.2"),
        ("cli.parse.integer_prompt".to_string(), some("expected integer"))
    );
    assert_eq!(
        refusal(r#"{"type":"number"}"#, "x"),
        ("cli.parse.number_prompt".to_string(), some("expected number"))
    );
    assert_eq!(
        refusal(r#"{"type":"number"}"#, "inf"),
        ("cli.parse.number_finite".to_string(), some("number must be finite"))
    );
    assert_eq!(refusal(r#"{"type":"enum"}"#, "x"), ("cli.parse.choices_missing".to_string(), None));
    assert_eq!(refusal("{}", ""), ("cli.wizard.required_answer".to_string(), None));
    assert_eq!(refusal(r#"{"type":"list"}"#, "{").0, "cli.parse.list_invalid");
    assert_eq!(
        refusal(r#"{"type":"list"}"#, "{}"),
        ("cli.parse.list_array".to_string(), some("cli.parse.list_expected_fields"))
    );
}

#[test]
fn answers_take_the_type_of_the_question() {
    let i18n = plain();
    assert_eq!(
        parse_answer(&json(r#"{"type":"number"}"#), " 1.5 ", &i18n),
        Ok(Json::Number(Number::Float(1.5f64.to_bits())))
    );
    assert_eq!(
        parse_answer(&json(r#"{"type":"integer"}"#), "-7", &i18n),
        Ok(Json::Number(Number::NegInt(-7)))
    );
    assert_eq!(
        parse_answer(&json(r#"{"type":"enum","choices":["Alpha"]}"#), "aLPHA", &i18n),
        Ok(Json::String("Alpha".to_string()))
    );
    assert_eq!(parse_answer(&json(r#"{"required":false}"#), "", &i18n), Ok(Json::Null));
    assert_eq!(
        parse_answer(&json(r#"{"type":"odd"}"#), " x ", &i18n),
        Ok(Json::String("x".to_string()))
    );
}

#[test]
fn doubles_are_read() {
    assert_eq!(
        parse_double("2.50"),
        Some(ReadDouble { bits: 2.5f64.to_bits(), text: "2.5".to_string(), number: true })
    );
    assert_eq!(parse_double("NaN").map(|read| read.number), Some(false));
    assert_eq!(parse_double("two"), None);
    assert!(number_answer(None, &plain()).is_err());
}

#[test]
fn fields_of_lists_are_named() {
    let question = json(r#"{"list":{"fields":[{"id":"a"},{},{"id":"b"}]}}"#);
    assert_eq!(describe_list_fields(&question, &plain()), "a, b");
    assert_eq!(describe_list_fields(&json("{}"), &plain()), "cli.common.unknown");
}

#[test]
fn literals_are_read_as_json_or_else_as_text() {
    assert_eq!(parse_expression_literal(" 3 "), Json::Number(Number::PosInt(3)));
    assert_eq!(parse_expression_literal("true"), Json::Bool(true));
    assert_eq!(parse_expression_literal("blue"), Json::String("blue".to_string()));
}

#[test]
fn descriptions_of_questions_are_checked() {
    let mut choice = asked("c", CliQuestionType::Enum);
    assert!(validate_question_input(&choice, &plain()).is_err());
    choice.choices = Some(strings(&["a", "b"]));
    assert_eq!(validate_question_input(&choice, &plain()), Ok(()));
    choice.default_value = Some("z".to_string());
    assert!(validate_question_input(&choice, &plain()).is_err());
    let mut list = asked("l", CliQuestionType::List);
    assert!(validate_question_input(&list, &plain()).is_err());
    list.list = Some(ListInput {
        min_items: Some(1),
        max_items: None,
        fields: vec![asked("f", CliQuestionType::String)],
    });
    assert_eq!(validate_question_input(&list, &plain()), Ok(()));
}

#[test]
fn hints_for_the_author() {
    let i18n = speaking(&[
        ("cli.prompt.list_size_range", "{min}..{max}"),
        ("cli.prompt.list_size_min", ">={min}"),
        ("cli.prompt.list_size_max", "<={max}"),
        ("cli.type_hint.enum.one_of", "one of {choices}"),
        ("cli.type_hint.string.example", "\"text\""),
        ("cli.type_hint.list.expected", "list of {fields}"),
        ("cli.prompt.default_value_enum_one_of", "default ({choices})"),
    ]);
    assert_eq!(describe_list_size(Some(1), Some(2), &i18n), "1..2");
    assert_eq!(describe_list_size(Some(1), None, &i18n), ">=1");
    assert_eq!(describe_list_size(None, Some(2), &i18n), "<=2");
    assert_eq!(describe_list_size(None, None, &i18n), "cli.prompt.list_size_unrestricted");
    let choices = strings(&["a", "b"]);
    let hint = describe_type_hint(CliQuestionType::Enum, Some(&choices), None, &i18n);
    assert_eq!((hint.expected.as_str(), hint.example.as_str()), ("one of a, b", "a"));
    let fields = vec![asked("name", CliQuestionType::String)];
    assert_eq!(summarize_list_fields(&fields), "name (string)");
    let hint = describe_type_hint(CliQuestionType::List, None, Some(&fields), &i18n);
    assert_eq!(hint.expected, "list of name (string)");
    assert_eq!(render_list_example(&fields, &i18n), r#"[{ "name": "text" }]"#);
    assert_eq!(
        default_prompt_for(CliQuestionType::Enum, Some(&choices), &i18n),
        "default (a/b)"
    );
    assert_eq!(existing_question_ids(&Vec::new(), &i18n), "cli.common.none");
    assert_eq!(existing_question_ids(&choices, &i18n), "a, b");
    assert!(question_exists(&choices, "a"));
    assert!(!question_exists(&choices, "c"));
    let left = || Expr::Answer { path: "a".to_string() };
    let right = || Expr::Literal { value: Json::Null };
    assert_eq!(
        build_binary_expression("lte", left(), right()),
        Expr::Lte { left: Box::new(left()), right: Box::new(right()) }
    );
    assert_eq!(
        build_binary_expression("like", left(), right()),
        Expr::Eq { left: Box::new(left()), right: Box::new(right()) }
    );
}

#[test]
fn messages_fall_back_to_english_and_to_their_keys() {
    let i18n = I18n {
        active: vec![("a".to_string(), "A {x}".to_string())],
        english: vec![("b".to_string(), "B".to_string())],
    };
    assert_eq!(i18n.t("a"), "A {x}");
    assert_eq!(i18n.t("b"), "B");
    assert_eq!(i18n.t("c"), "c");
    assert_eq!(i18n.tf("a", &vec![("x", "1".to_string())]), "A 1");
    let loaded = I18n::load(None, load_catalog(r#"{"k":"v","n":1}"#));
    assert_eq!(loaded.t("k"), "v");
    assert_eq!(loaded.t("n"), "n");
    assert_eq!(load_catalog("[]"), None);
}

#[test]
fn locales_are_selected() {
    let supported = supported_locales();
    assert!(supported.contains(&"en-GB".to_string()));
    assert_eq!(normalize_locale("nl_NL.UTF-8@euro"), Some("nl-NL".to_string()));
    assert_eq!(normalize_locale(" "), None);
    assert_eq!(normalize_locale("a b"), None);
    assert_eq!(resolve_locale("en_GB", &supported), Some("en-GB".to_string()));
    assert_eq!(resolve_locale("NL-BE", &supported), Some("nl".to_string()));
    assert_eq!(resolve_locale("xx", &supported), None);
    let some = |text: &str| Some(text.to_string());
    assert_eq!(select_locale(&some("xx"), &some("de"), &None, &supported), "de");
    assert_eq!(select_locale(&None, &None, &None, &supported), "en");
    assert_eq!(extract_locale_arg(&strings(&["qa", "--locale", "fr"])), some("fr"));
    assert_eq!(extract_locale_arg(&strings(&["qa", "--locale=it"])), some("it"));
    assert_eq!(extract_locale_arg(&strings(&["qa", "--locale"])), None);
    assert_eq!(
        init_from_cli_args(&strings(&["qa"]), &vec![None, some(" "), some("es_ES")]),
        "es"
    );
}

fn rendered() -> Json {
    json(
        r#"{"form_title":"Form","help":"Fill in","status":"need_input","next_question_id":"b",
            "progress":{"answered":1,"total":2},
            "questions":[
              {"id":"a","title":"A","type":"string","required":true,"visible":true},
              {"id":"b","title":"B","type":"enum","required":true,"visible":true,"choices":["x","y"],"description":"Pick"},
              {"id":"c","title":"C","type":"odd","required":false,"visible":false}]}"#,
    )
}

#[test]
fn rendered_forms_are_presented() {
    let i18n = speaking(&[
        ("cli.wizard.form", "Form: {title}"),
        ("cli.wizard.help", "Help: {help}"),
        ("cli.wizard.status", "{status} {answered}/{total}"),
        ("cli.wizard.hint.enum", "[{choices}]"),
        ("cli.wizard.choices", "Choices: {choices}"),
        ("cli.wizard.invalid_answer", "Invalid: {error}"),
        ("cli.wizard.expected", "Expected: {expected}"),
    ]);
    let payload = WizardPayload::from_json(&rendered(), &i18n).unwrap();
    assert_eq!(payload.status, RenderStatus::NeedInput);
    assert_eq!(payload.visible_count(), 2);
    assert_eq!(payload.question("c").unwrap().kind, QuestionKind::Unknown);
    assert!(payload.question("d").is_none());
    let mut presenter = WizardPresenter::new(Verbosity::from_verbose(true), true);
    assert_eq!(presenter.show_header(&payload, &i18n), strings(&["Form: Form", "Help: Fill in"]));
    assert_eq!(presenter.show_header(&payload, &i18n), strings(&[]));
    assert_eq!(
        presenter.show_status(&payload, &i18n),
        strings(&[
            "need_input 1/2",
            "cli.wizard.visible_questions",
            " - a (A) [required]",
            " - b (B) [required]",
        ])
    );
    let prompt = PromptContext::new(payload.question("b").unwrap(), &payload.progress, &i18n);
    assert_eq!(
        presenter.show_prompt(&prompt, &i18n),
        strings(&["2/2 B * [x/y]", "Pick", "Choices: x, y"])
    );
    assert_eq!(
        presenter.show_parse_error(
            &AnswerParseError::new("no".to_string(), Some("yes".to_string())),
            &i18n
        ),
        strings(&["Invalid: no", "Expected: yes"])
    );
    let set = AnswerSet::new("f".to_string(), "1".to_string());
    let lines = presenter.show_completion(&set, Err("deep".to_string()), &i18n);
    assert_eq!(lines[0], Line::Out("cli.wizard.done".to_string()));
    assert!(matches!(lines[1], Line::Out(_)));
    assert_eq!(lines[2], Line::Complaint("cli.wizard.json_serialize_failed".to_string()));
}

#[test]
fn a_pending_question_is_found() {
    let i18n = plain();
    let ui = rendered();
    let payload = WizardPayload::from_json(&ui, &i18n).unwrap();
    let pending = pending_question(&ui, &payload, &i18n).unwrap();
    assert_eq!(pending.question_id, "b");
    assert_eq!(pending.prompt.index, 2);
    assert_eq!(
        pending_question(&json("{}"), &payload, &i18n),
        Err("cli.wizard.next_question_missing".to_string())
    );
    assert_eq!(
        pending_question(&json(r#"{"next_question_id":"z"}"#), &payload, &i18n),
        Err("cli.wizard.question_not_found".to_string())
    );
    assert_eq!(
        pending_question(
            &json(r#"{"next_question_id":"z","questions":[{"id":"z"}]}"#),
            &payload,
            &i18n
        ),
        Err("cli.wizard.payload_missing_question".to_string())
    );
}

#[test]
fn lines_are_answers_or_end_the_run() {
    let question = json(r#"{"type":"string"}"#);
    assert_eq!(
        read_answer(&question, " EXIT\n", &plain()),
        AnswerStep::Aborted("cli.wizard.aborted".to_string())
    );
    assert_eq!(
        read_answer(&question, " hi\n", &plain()),
        AnswerStep::Accepted(Json::String("hi".to_string()))
    );
    assert!(matches!(read_answer(&question, "\n", &plain()), AnswerStep::Refused(_)));
}

#[test]
fn refusals_are_listed() {
    let i18n = speaking(&[
        ("cli.validate.missing_required", "Missing: {fields}"),
        ("cli.validate.unknown_fields", "Unknown: {fields}"),
        ("cli.validate.error.qa_spec.min", "at least {min}"),
        ("cli.validate.result", "Result: {result}"),
    ]);
    let response = json(
        r#"{"status":"error","validation":{"errors":[{"path":"/a","message":"bad"},{}],"missing_required":["b"],"unknown_fields":["c","d"]}}"#,
    );
    assert_eq!(
        review_submission(&response, &i18n),
        strings(&[
            "cli.validate.errors_header",
            "  /a: bad",
            "  cli.common.unknown: cli.validate.failed",
            "Missing: b",
            "Unknown: c, d",
        ])
    );
    assert_eq!(review_submission(&json(r#"{"status":"complete"}"#), &i18n), strings(&[]));
    let error = ValidationError {
        question_id: None,
        path: Some("/n".to_string()),
        message: "qa_spec.min".to_string(),
        code: None,
        params: vec![("min".to_string(), "3".to_string())],
    };
    assert_eq!(format_validation_error(&error, &i18n), "at least 3");
    let result = ValidationResult {
        valid: false,
        errors: vec![error],
        missing_required: Vec::new(),
        unknown_fields: Vec::new(),
    };
    assert_eq!(
        describe_validation(&result, &i18n),
        strings(&["cli.validate.errors_header", "  /n - at least 3"])
    );
    let (lines, failure) = run_validate(&result, &i18n);
    assert_eq!(lines[0], "Result: cli.validate.invalid");
    assert_eq!(failure, Some("cli.validate.failed".to_string()));
}

#[test]
fn output_goes_where_it_is_asked_for() {
    let some = |text: &str| Some(text.to_string());
    let i18n = plain();
    assert_eq!(resolve_output_root(&some("a"), &some("b"), Ok(()), &i18n), Ok("a".to_string()));
    assert_eq!(resolve_output_root(&None, &some("b"), Ok(()), &i18n), Ok("b".to_string()));
    assert_eq!(resolve_output_root(&None, &None, Ok(()), &i18n), Ok(".".to_string()));
    assert_eq!(
        resolve_output_root(&some(""), &None, Err("no".to_string()), &i18n),
        Err("cli.output_dir.empty".to_string())
    );
    let refused = Err("outside".to_string());
    assert_eq!(
        resolve_output_root(&some("a"), &some("b"), refused, &i18n),
        Err("outside".to_string())
    );
    assert_eq!(output_candidate(&some("a"), &some("b")), "a");
    assert_eq!(output_candidate(&None, &None), ".");
    assert_eq!(bundle_slot(false, false, "p", &i18n), Ok(false));
    assert_eq!(bundle_slot(true, true, "p", &i18n), Ok(true));
    assert_eq!(bundle_slot(true, false, "p", &i18n), Err("cli.bundle.exists".to_string()));
}

#[test]
fn rendered_output() {
    let i18n = speaking(&[
        ("cli.output.adaptive_card", "Card: {payload}"),
        ("cli.output.json_ui", "UI: {payload}"),
    ]);
    assert_eq!(frontend_for(RenderMode::Json), WizardFrontend::JsonUi);
    assert_eq!(print_render_output(RenderMode::Text, "p", Some("u"), &i18n), None);
    assert_eq!(
        print_render_output(RenderMode::Card, "p", Some("u"), &i18n),
        Some("Card: p".to_string())
    );
    assert_eq!(
        print_render_output(RenderMode::Json, "p", Some("u"), &i18n),
        Some("UI: u".to_string())
    );
    assert_eq!(dump_bundle("b", None, &i18n), strings(&["cli.bundle.generated"]));
    let texts = BundleTexts {
        spec: "1".to_string(),
        flow: "2".to_string(),
        schema: "3".to_string(),
        examples: "4".to_string(),
    };
    assert_eq!(
        dump_bundle("b", Some(texts), &i18n),
        strings(&[
            "cli.bundle.generated",
            "cli.bundle.details",
            "cli.bundle.form_spec",
            "1",
            "cli.bundle.flow_spec",
            "2",
            "cli.bundle.answer_schema",
            "3",
            "cli.bundle.example_answers",
            "4",
        ])
    );
}

#[test]
fn the_first_place_that_is_there_decides() {
    assert!(path_is_writable(&vec![Place::Absent, Place::Writable, Place::ReadOnly]));
    assert!(!path_is_writable(&vec![Place::Absent, Place::ReadOnly, Place::Writable]));
    assert!(!path_is_writable(&vec![Place::Unreadable, Place::Writable]));
    assert!(!path_is_writable(&vec![Place::Absent]));
}

#[test]
fn paths_are_made_full() {
    let some = |text: &str| Some(text.to_string());
    assert_eq!(canonicalize_target(&PathRules::host(), "a", some("/srv/a"), some("/srv"), "/here"), "/srv/a");
    assert_eq!(canonicalize_target(&PathRules::host(), "x/a", None, some("/srv/x"), "/here"), "/srv/x/a");
    assert_eq!(canonicalize_target(&PathRules::host(), "x/..", None, some("/srv/x"), "/here"), "/srv/x");
    assert_eq!(canonicalize_target(&PathRules::host(), "x/a", None, None, "/here"), "/here/x/a");
}

#[test]
fn turns_whose_question_has_no_number_are_not_taken() {
    let i18n = plain();
    let mut presenter = WizardPresenter::new(Verbosity::Clean, false);
    let text = |status: &str| {
        format!(
            r#"{{"form_title":"F","status":"{status}","progress":{{"answered":{}}},"questions":[]}}"#,
            usize::MAX
        )
    };
    let asking = text("need_input");
    assert_eq!(
        take_numbered_turn(RenderMode::Text, "p", &asking, &mut presenter, &i18n),
        None
    );
    assert_eq!(presenter, WizardPresenter::new(Verbosity::Clean, false));
    let complete = text("complete");
    let turn = take_numbered_turn(RenderMode::Text, "p", &complete, &mut presenter, &i18n);
    assert_eq!(turn.unwrap().1, WizardTurn::Complete);
}

#[test]
fn clean_output_complains_without_details() {
    let i18n = speaking(&[
        ("cli.wizard.invalid_answer", "Invalid: {error}"),
        ("cli.wizard.expected", "Expected: {expected}"),
    ]);
    let error =
        AnswerParseError::new("bad".to_string(), Some("expected integer".to_string()));
    let clean = WizardPresenter::new(Verbosity::Clean, false);
    assert_eq!(clean.show_parse_error(&error, &i18n), strings(&["Invalid: bad"]));
    let verbose = WizardPresenter::new(Verbosity::Verbose, false);
    assert_eq!(
        verbose.show_parse_error(&error, &i18n),
        strings(&["Invalid: bad", "Expected: expected integer"])
    );
    let brief = AnswerParseError::new("bad".to_string(), None);
    assert_eq!(verbose.show_parse_error(&brief, &i18n), strings(&["Invalid: bad"]));
}

#[test]
fn turns_of_the_wizard() {
    let i18n = speaking(&[
        ("cli.output.json_ui", "UI: {payload}"),
        ("cli.wizard.form", "Form: {title}"),
        ("cli.wizard.ui_error", "Bad: {error}"),
    ]);
    let mut presenter = WizardPresenter::new(Verbosity::from_verbose(false), false);
    let ui = render_json(&rendered());
    let (lines, turn) = take_turn(RenderMode::Json, "p", &ui, &mut presenter, &i18n);
    assert_eq!(lines, vec![format!("UI: {ui}"), "Form: Form".to_string()]);
    match turn {
        WizardTurn::Ask(pending) => assert_eq!(pending.question_id, "b"),
        other => panic!("{:?}", other),
    }
    let complete = r#"{"form_title":"Form","status":"complete","progress":{},"questions":[]}"#;
    let (lines, turn) = take_turn(RenderMode::Text, "p", complete, &mut presenter, &i18n);
    assert_eq!((lines, turn), (strings(&[]), WizardTurn::Complete));
    let (lines, turn) = take_turn(RenderMode::Json, "p", "{", &mut presenter, &i18n);
    assert_eq!(lines, strings(&[]));
    assert!(matches!(turn, WizardTurn::Failed(_)));
    let (lines, turn) = take_turn(RenderMode::Text, "p", "{}", &mut presenter, &i18n);
    assert_eq!(lines, strings(&[]));
    assert_eq!(
        turn,
        WizardTurn::Failed("Bad: cli.wizard.payload_missing_form_title".to_string())
    );
}
