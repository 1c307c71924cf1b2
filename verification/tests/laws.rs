//! What holds across functions, on chosen values.
use greentic_qa::assets::{validate_form_i18n_keys, LocaleFile};
use greentic_qa::builder::{
    sanitize_file_name, sanitize_identifier, validate_input, CliQuestionType, FormInput,
    GenerationInput, QuestionInput,
};
use greentic_qa::catalog::{in_order, supported_locales, I18n};
use greentic_qa::cli::ensure_allowed_root;
use greentic_qa::driver::{I18nConfig, WizardDriver, WizardFrontend, WizardRunConfig};
use greentic_qa::form::{FormSpec, QuestionSpec, QuestionType};
use greentic_qa::inclusion::{combine_prefix, prefix_expr_value, prefix_key};
use greentic_qa::json_text::parse_json;
use greentic_qa::paths::PathRules;
use greentic_qa::text::encode_hex;
use greentic_qa::wizard::RenderStatus;

fn strings(list: &[&str]) -> Vec<String> {
    list.iter().map(|s| s.to_string()).collect()
}

fn plain() -> I18n {
    I18n { active: Vec::new(), english: Vec::new() }
}

#[test]
fn states_are_found_again_by_their_labels() {
    for status in [RenderStatus::NeedInput, RenderStatus::Complete, RenderStatus::Error] {
        assert_eq!(RenderStatus::from_label(status.as_str()), status);
    }
}

#[test]
fn different_bytes_are_shown_differently() {
    assert_ne!(encode_hex(&[1, 16]), encode_hex(&[17, 0]));
    assert_ne!(encode_hex(&[1]), encode_hex(&[0, 1]));
}

#[test]
fn a_name_is_its_own_name() {
    let name = sanitize_file_name("a b/\u{e4}");
    assert_eq!(name, "a-b--");
    assert_eq!(sanitize_file_name(&name), name);
    let name = sanitize_identifier("a b");
    assert_eq!(sanitize_identifier(&name), name);
}

#[test]
fn lists_in_order_hold_each_member_once() {
    assert_eq!(in_order(&strings(&["b", "a", "b", "C"])), strings(&["C", "a", "b"]));
    let locales = supported_locales();
    assert!(locales.windows(2).all(|pair| pair[0] < pair[1]));
}

#[test]
fn a_path_is_within_itself() {
    assert_eq!(ensure_allowed_root(&PathRules::host(), "/srv/a", &strings(&["/srv/a"]), false), Ok(()));
    assert_eq!(ensure_allowed_root(&PathRules::host(), "/srv/a", &strings(&["/srv/a", "/x"]), false), Ok(()));
}

#[test]
fn prefixes_compose() {
    let inner = prefix_key("in", "key");
    assert_eq!(prefix_key("out", &inner), prefix_key(&combine_prefix("out", Some("in")), "key"));
    let expr = parse_json(r#"{"op":"answer","path":"x"}"#).unwrap();
    assert_eq!(prefix_expr_value(&expr, ""), expr);
}

#[test]
fn forms_with_all_english_texts_are_accepted() {
    let question = QuestionSpec {
        id: "q".to_string(),
        kind: QuestionType::String,
        title: "Q".to_string(),
        title_i18n: Some("k".to_string()),
        description: None,
        description_i18n: None,
        required: true,
        choices: None,
        default_value: None,
        secret: false,
        visible_if: None,
        constraint: None,
        list: None,
        computed: None,
        computed_overridable: false,
    };
    let form = FormSpec {
        id: "f".to_string(),
        title: "F".to_string(),
        version: "1".to_string(),
        description: None,
        presentation: None,
        progress_policy: None,
        secrets_policy: None,
        store: Vec::new(),
        validations: Vec::new(),
        includes: Vec::new(),
        questions: vec![question],
    };
    let english = LocaleFile::Text(r#"{"k":"Q","other":"O"}"#.to_string());
    assert_eq!(validate_form_i18n_keys(&PathRules::host(), &form, "forms/a.json", &english), Ok(()));
}

#[test]
fn blank_ids_are_refused() {
    let question = QuestionInput {
        id: " ".to_string(),
        kind: CliQuestionType::String,
        title: "T".to_string(),
        description: None,
        required: true,
        default_value: None,
        choices: None,
        secret: false,
        list: None,
        visible_if: None,
        constraint: None,
        computed: None,
        computed_overridable: false,
    };
    let input = GenerationInput {
        dir_name: "d".to_string(),
        summary_md: None,
        form: FormInput {
            id: "f".to_string(),
            title: "F".to_string(),
            version: "1".to_string(),
            description: None,
            progress_policy: None,
        },
        questions: vec![question],
        validations: Vec::new(),
    };
    assert_eq!(
        validate_input(&input, &plain()),
        Err("cli.builder.question_id_empty".to_string())
    );
}

#[test]
fn replies_keep_the_form_of_a_run() {
    let config = WizardRunConfig {
        spec_json: r#"{"id":"f"}"#.to_string(),
        initial_answers_json: None,
        frontend: WizardFrontend::JsonUi,
        i18n: I18nConfig::default(),
        verbose: false,
    };
    let mut driver = WizardDriver::new(config, Ok("p".to_string())).unwrap();
    assert_eq!(driver.spec_version, "0.0.0");
    driver.take_reply(r#"{"status":"complete","answers":[1]}"#).unwrap();
    driver.take_reply(r#"{"status":"need_input"}"#).unwrap();
    assert!(driver.is_complete());
    assert_eq!(driver.answers_json(), "{}");
    assert_eq!((driver.form_id.as_str(), driver.config_json.as_str()), ("f", r#"{"qa_form_asset_path":"p"}"#));
}
