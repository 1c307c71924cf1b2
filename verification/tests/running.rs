//! Runs of the wizard.
use greentic_qa::driver::{
    build_ctx_json, collect_i18n_defaults, find_question, materialize_spec_assets, normalize_answers,
    parse_component_result, read_patch, submission_outcome, I18nConfig, QaLibError, QaRunner,
    RunStep, ValidationOrProgress, WizardDriver, WizardFrontend, WizardRunConfig,
};
use greentic_qa::json::Json;
use greentic_qa::json_text::{parse_json, parse_text_map, render_json};
use greentic_qa::paths::PathRules;

fn json(text: &str) -> Json {
    parse_json(text).unwrap()
}

fn config(frontend: WizardFrontend, answers: Option<&str>) -> WizardRunConfig {
    WizardRunConfig {
        spec_json: r#"{"id":"f","version":"1.2.3"}"#.to_string(),
        initial_answers_json: answers.map(|raw| raw.to_string()),
        frontend,
        i18n: I18nConfig::default(),
        verbose: false,
    }
}

fn started(frontend: WizardFrontend) -> WizardDriver {
    WizardDriver::new(config(frontend, None), Ok("forms/wizard.form.json".to_string())).unwrap()
}

#[test]
fn a_run_starts_with_its_form() {
    let driver = started(WizardFrontend::JsonUi);
    assert_eq!(driver.form_id, "f");
    assert_eq!(driver.spec_version, "1.2.3");
    assert_eq!(driver.config_json, r#"{"qa_form_asset_path":"forms/wizard.form.json"}"#);
    assert_eq!(driver.ctx_json, "{}");
    assert_eq!(driver.answers_json(), "{}");
    assert!(!driver.is_complete());
    assert_eq!(driver.last_ui_json(), None);
}

#[test]
fn a_run_may_start_with_answers() {
    let new = |raw: &str| {
        WizardDriver::new(config(WizardFrontend::Text, Some(raw)), Ok("p".to_string()))
    };
    assert_eq!(new(r#"{"a":1}"#).unwrap().answers_json(), r#"{"a":1}"#);
    assert_eq!(new("[1]").unwrap().answers_json(), "{}");
    assert!(matches!(new("{"), Err(QaLibError::Json(_))));
}

#[test]
fn a_run_that_cannot_start() {
    let mut without_id = config(WizardFrontend::Text, None);
    without_id.spec_json = "{}".to_string();
    assert_eq!(
        WizardDriver::new(without_id, Ok("p".to_string())),
        Err(QaLibError::MissingField("id".to_string()))
    );
    let mut broken = config(WizardFrontend::Text, None);
    broken.spec_json = "{".to_string();
    assert!(matches!(WizardDriver::new(broken, Ok("p".to_string())), Err(QaLibError::Json(_))));
    assert_eq!(
        WizardDriver::new(config(WizardFrontend::Text, None), Err("disk full".to_string())),
        Err(QaLibError::Component("disk full".to_string()))
    );
}

#[test]
fn contexts_are_written() {
    let i18n = I18nConfig {
        locale: Some("nl".to_string()),
        resolved: Some(vec![("k".to_string(), "v".to_string())]),
        debug: true,
    };
    assert_eq!(
        build_ctx_json(&i18n),
        r#"{"debug_i18n":true,"i18n_debug":true,"i18n_resolved":{"k":"v"},"locale":"nl"}"#
    );
    assert_eq!(build_ctx_json(&I18nConfig::default()), "{}");
}

#[test]
fn replies_of_the_component() {
    assert_eq!(parse_component_result(r#"{"a":1}"#), Ok(json(r#"{"a":1}"#)));
    assert_eq!(
        parse_component_result(r#"{"error":"no"}"#),
        Err(QaLibError::Component("no".to_string()))
    );
    assert!(matches!(parse_component_result("{"), Err(QaLibError::Json(_))));
    assert_eq!(normalize_answers(json("[1]")), json("{}"));
    assert_eq!(normalize_answers(json(r#"{"a":1}"#)), json(r#"{"a":1}"#));
}

#[test]
fn forms_are_shown_as_the_frontend_wants() {
    let ui = r#"{"status":"complete","progress":{"answered":1,"total":1}}"#;
    let mut driver = started(WizardFrontend::JsonUi);
    assert_eq!(driver.next_payload_json(ui.to_string(), String::new()), Ok(ui.to_string()));
    assert!(driver.is_complete());
    assert_eq!(driver.last_ui_json(), Some(ui));
    let mut driver = started(WizardFrontend::Card);
    assert_eq!(
        driver.next_payload_json(ui.to_string(), "{}".to_string()),
        Ok("{}".to_string())
    );
    assert_eq!(
        driver.next_payload_json(ui.to_string(), r#"{"error":"no"}"#.to_string()),
        Err(QaLibError::Component("no".to_string()))
    );
    let mut driver = started(WizardFrontend::Text);
    assert_eq!(
        driver.next_payload_json("{}".to_string(), "hello".to_string()),
        Ok(r#"{"next_question_id":null,"progress":{"answered":0,"total":0},"status":"need_input","text":"hello"}"#.to_string())
    );
    assert!(!driver.is_complete());
}

#[test]
fn patches_are_submitted_answer_by_answer() {
    let mut driver = started(WizardFrontend::JsonUi);
    let replies = vec![
        r#"{"status":"need_input","answers":{"a":1}}"#.to_string(),
        r#"{"status":"complete","answers":{"a":1,"b":2}}"#.to_string(),
    ];
    let outcome = driver.submit_patch_json(r#"{"a":1,"b":2}"#, &replies).unwrap();
    assert_eq!(outcome.status, "complete");
    assert_eq!(outcome.response_json, r#"{"answers":{"a":1,"b":2},"status":"complete"}"#);
    assert!(driver.is_complete());
    assert_eq!(driver.answers_json(), r#"{"a":1,"b":2}"#);
    let result = driver.finish().unwrap();
    assert_eq!(result.answer_set.form_id, "f");
    assert_eq!(
        result.answer_set_cbor_hex,
        "a367616e7377657273a2616101616202\
         67666f726d5f696461666c737065635f76657273696f6e65312e322e33"
    );
}

#[test]
fn answers_without_replies_are_not_submitted() {
    let mut driver = started(WizardFrontend::JsonUi);
    let patch = r#"{"a":1,"b":2}"#;
    let fine = r#"{"status":"need_input","answers":{"a":1}}"#.to_string();
    let fault = r#"{"error":"no"}"#.to_string();
    assert_eq!(driver.submit_replied(patch, &Vec::new()), None);
    assert_eq!(driver.submit_replied(patch, &vec![fine.clone()]), None);
    assert_eq!(driver, started(WizardFrontend::JsonUi));
    assert_eq!(
        driver.submit_replied(patch, &vec![fault]),
        Some(Err(QaLibError::Component("no".to_string())))
    );
    let outcome = driver.submit_replied(patch, &vec![fine.clone(), fine]);
    assert_eq!(outcome.unwrap().unwrap().status, "need_input");
    assert_eq!(driver.answers_json(), r#"{"a":1}"#);
    assert!(matches!(driver.submit_replied("{}", &Vec::new()), Some(Err(_))));
}

#[test]
fn patches_must_be_objects_with_members() {
    let mut driver = started(WizardFrontend::JsonUi);
    assert_eq!(
        driver.submit_patch_json("[]", &Vec::new()),
        Err(QaLibError::InvalidPatch(
            "patch_json must be a JSON object map of question_id -> value".to_string()
        ))
    );
    assert_eq!(
        driver.submit_patch_json("{}", &Vec::new()),
        Err(QaLibError::InvalidPatch("patch_json cannot be empty".to_string()))
    );
    assert!(matches!(driver.submit_patch_json("{", &Vec::new()), Err(QaLibError::Json(_))));
    assert_eq!(driver, started(WizardFrontend::JsonUi));
    assert_eq!(read_patch(r#"{"b":1,"a":2}"#).unwrap()[0].0, "a");
}

#[test]
fn an_unfinished_run_has_no_result() {
    assert_eq!(
        started(WizardFrontend::JsonUi).finish(),
        Err(QaLibError::NeedsInteraction)
    );
}

#[test]
fn a_runner_asks_what_comes_next() {
    let mut driver = started(WizardFrontend::JsonUi);
    assert_eq!(
        QaRunner::next_step(&driver),
        Err(QaLibError::MissingField("last_ui_json".to_string()))
    );
    driver
        .next_payload_json(
            r#"{"next_question_id":"a","questions":[{"id":"a","type":"string"}]}"#.to_string(),
            String::new(),
        )
        .unwrap();
    assert_eq!(
        QaRunner::next_step(&driver),
        Ok(RunStep::Ask {
            question_id: "a".to_string(),
            question: json(r#"{"id":"a","type":"string"}"#),
        })
    );
    driver.next_payload_json("{}".to_string(), String::new()).unwrap();
    assert_eq!(
        QaRunner::next_step(&driver),
        Err(QaLibError::MissingField("next_question_id".to_string()))
    );
    driver.next_payload_json(r#"{"status":"complete"}"#.to_string(), String::new()).unwrap();
    assert_eq!(QaRunner::next_step(&driver), Ok(RunStep::Finish));
    assert_eq!(QaRunner::answer_patch("q", Json::Bool(true)), r#"{"q":true}"#);
}

#[test]
fn refused_submissions_stop_a_run() {
    let refused = ValidationOrProgress {
        status: "error".to_string(),
        response_json: r#"{"status":"error"}"#.to_string(),
    };
    let fault = QaRunner::check_submission(&refused).unwrap_err();
    assert_eq!(fault, QaLibError::Validation(r#"{"status":"error"}"#.to_string()));
    let outcome = submission_outcome(&json("{}"));
    assert_eq!(outcome.status, "need_input");
    assert_eq!(QaRunner::check_submission(&outcome), Ok(()));
}

#[test]
fn missing_questions_are_named() {
    assert_eq!(
        find_question(&json(r#"{"questions":[{"id":"a"}]}"#), "b"),
        Err(QaLibError::MissingField("questions[b]".to_string()))
    );
    assert_eq!(
        QaLibError::MissingField("x".to_string()).message(),
        "wizard payload missing field 'x'"
    );
}

#[test]
fn english_texts_are_collected_from_a_form() {
    let spec = json(
        r#"{"questions":[
            {"title":"A","title_i18n":{"key":"k.a"},"description_i18n":{"key":"k.b"}},
            {"title":"B","title_i18n":{"key":"k.a"},"list":{"fields":[{"title":"F","title_i18n":{"key":"k.f"}}]}}]}"#,
    );
    let pair = |a: &str, b: &str| (a.to_string(), b.to_string());
    assert_eq!(
        collect_i18n_defaults(&spec),
        vec![pair("k.a", "A"), pair("k.b", "k.b"), pair("k.f", "F")]
    );
    assert_eq!(render_json(&json("{}")), "{}");
}

#[test]
fn a_form_is_laid_out_in_files() {
    let spec = json(r#"{"id":"f","questions":[{"title":"A","title_i18n":{"key":"k"}}]}"#);
    let assets = materialize_spec_assets(&PathRules::host(), "/tmp/run", &spec);
    assert_eq!(assets.forms_dir, "/tmp/run/forms");
    assert_eq!(assets.i18n_dir, "/tmp/run/i18n");
    assert_eq!(assets.form_file, "/tmp/run/forms/wizard.form.json");
    assert_eq!(assets.english_file, "/tmp/run/i18n/en.json");
    assert_eq!(assets.english_text, "{\n  \"k\": \"A\"\n}");
    assert_eq!(json(&assets.form_text), spec);
    assert_eq!(
        parse_text_map(&assets.english_text),
        Ok(vec![("k".to_string(), "A".to_string())])
    );
}
