//! Requests, form assets and modes of the component.
use greentic_qa::assets::{
    load_form_spec, load_form_spec_value, load_locale_map, normalize_locale_chain,
    parse_include_registry, read_qa_form_asset, validate_form_i18n_keys, Attempt, ComponentConfig,
    LoadedFormValue, LocaleFile,
};
use greentic_qa::context::{
    i18n_debug_enabled, parse_resolved_i18n, parse_runtime_context, payload_answers,
    payload_config_json, payload_ctx_json, payload_form_id, resolve_context_answers,
    secrets_host_available,
};
use greentic_qa::faults::ComponentError;
use greentic_qa::form::{FormSpec, QuestionSpec, QuestionType};
use greentic_qa::inclusion::{
    combine_prefix, expand_includes_value, prefix_expr_value, prefix_key, prefix_path,
    prefix_question_value,
};
use greentic_qa::json::{Json, Number};
use greentic_qa::json_text::{parse_json, render_json};
use greentic_qa::localize::{
    apply_i18n_to_payload, attach_i18n_debug_metadata, resolve_i18n_value, RenderPayload,
    RenderQuestion,
};
use greentic_qa::modes::{
    applied_config, apply_answers, host_spec, i18n_keys, mode_title, normalize_mode,
    qa_mode_to_normalized, qa_spec_json, run_operation, spec_locales, HostMode, NormalizedMode,
    Operation,
};
use greentic_qa::paths::PathRules;
use greentic_qa::requests::{
    apply_store, build_submission_plan, describe, describe_payload, effects_to_run,
    get_answer_schema, get_example_answers, handle_message, next, next_with_ctx, render_card,
    render_json_ui,
    render_payload, render_text, schema_answers, submit_all, submit_patch, validate_answers,
};
use greentic_qa::validate::Evaluated;
use greentic_qa::wizard::RenderProgress;

const MISSING_CONFIG_MESSAGE: &str =
    "No QA form configured. Create one with `greentic-qa new` and reference its asset path.";

fn json(text: &str) -> Json {
    parse_json(text).unwrap()
}

fn strings(list: &[&str]) -> Vec<String> {
    list.iter().map(|s| s.to_string()).collect()
}

fn question(id: &str, kind: QuestionType, title: &str) -> QuestionSpec {
    QuestionSpec {
        id: id.to_string(),
        kind,
        title: title.to_string(),
        title_i18n: None,
        description: None,
        description_i18n: None,
        required: true,
        choices: None,
        default_value: None,
        secret: false,
        visible_if: None,
        constraint: None,
        list: None,
        computed: None,
        computed_overridable: false,
    }
}

fn translated(id: &str, title: &str, help: &str) -> QuestionSpec {
    let mut made = question(id, QuestionType::String, title);
    made.title_i18n = Some(format!("qa.form.support.field.{}.label", id));
    made.description = Some(help.to_string());
    made.description_i18n = Some(format!("qa.form.support.field.{}.help", id));
    made
}

fn form(questions: Vec<QuestionSpec>) -> FormSpec {
    FormSpec {
        id: "support-form".to_string(),
        title: "Support".to_string(),
        version: "0.1.0".to_string(),
        description: None,
        presentation: None,
        progress_policy: None,
        secrets_policy: None,
        store: vec![json(r#"{"op":"set"}"#)],
        validations: Vec::new(),
        includes: Vec::new(),
        questions,
    }
}

fn support_form() -> FormSpec {
    form(vec![
        translated("api_key", "API key", "Secret key for provider auth"),
        translated("enabled", "Enable provider", "Enable after setup"),
    ])
}

fn loaded() -> Result<LoadedFormValue, ComponentError> {
    Ok(LoadedFormValue {
        spec_value: json(r#"{"id":"support-form"}"#),
        form_asset_path: "qa/forms/support.form.json".to_string(),
    })
}

fn all_shown(ids: &[&str]) -> Vec<(String, bool)> {
    ids.iter().map(|id| (id.to_string(), true)).collect()
}

fn evaluated(answers: &str, ids: &[&str]) -> Evaluated {
    Evaluated { answers: json(answers), visibility: all_shown(ids), conditions: Vec::new() }
}

fn payload(next: Option<&str>, answered: usize, total: usize) -> RenderPayload {
    RenderPayload {
        next_question_id: next.map(|id| id.to_string()),
        progress: RenderProgress { answered, total },
        questions: Vec::new(),
    }
}

fn text_at<'a>(value: &'a Json, keys: &[&str]) -> Option<&'a str> {
    let mut at = value;
    for key in keys {
        at = at.get(key)?;
    }
    at.as_str()
}

#[test]
fn describe_payload_is_json() {
    let payload = describe_payload();
    let json: serde_json::Value = serde_json::from_str(&payload).expect("valid json");
    assert_eq!(json["component"]["name"], "component-qa");
}

#[test]
fn handle_message_round_trips() {
    let body = handle_message("handle", "demo");
    assert!(body.contains("demo"));
}

#[test]
fn handle_message_trims_its_input() {
    assert_eq!(handle_message("op", " demo \n"), "component-qa::op => demo");
}

#[test]
fn qa_form_asset_path_loads_real_form_instead_of_placeholder() {
    let payload = json(
        r#"{"form_id":"support-form","config":{"qa_form_asset_path":"qa/forms/support.form.json"},"ctx":{"locale":"en"}}"#,
    );
    let config = Ok(ComponentConfig {
        qa_form_asset_path: Some("qa/forms/support.form.json".to_string()),
        include_registry: Vec::new(),
    });
    assert_eq!(
        payload_config_json(&payload),
        r#"{"qa_form_asset_path":"qa/forms/support.form.json"}"#
    );
    let loaded = load_form_spec_value(
        &payload_config_json(&payload),
        config,
        Ok((r#"{"id":"support-form"}"#.to_string(), "assets/qa/forms/support.form.json".to_string())),
    );
    let spec = Ok(form(vec![
        question("api_key", QuestionType::String, "API key"),
        question("enabled", QuestionType::Boolean, "Enabled"),
    ]));
    let reply = qa_spec_json(
        NormalizedMode::Setup,
        &payload,
        &spec,
        &loaded,
        &all_shown(&["api_key", "enabled"]),
        &Vec::new(),
    );
    let questions = reply.get("questions").unwrap().as_array().unwrap();
    assert_eq!(questions.len(), 2);
    assert_eq!(questions[0].get_str("id"), Some("api_key"));
    assert_eq!(questions[1].get_str("id"), Some("enabled"));
}

#[test]
fn missing_qa_form_asset_path_fails_fast_with_guidance() {
    let payload = json(r#"{"form_id": "support-form"}"#);
    let config_json = payload_config_json(&payload);
    assert_eq!(config_json, "{}");
    let config =
        || Ok(ComponentConfig { qa_form_asset_path: None, include_registry: Vec::new() });
    let never = || Err(ComponentError::MissingQaFormAssetPath);
    let loaded = load_form_spec_value(&config_json, config(), never());
    let spec = load_form_spec(
        &PathRules::host(),
        load_form_spec_value(&config_json, config(), never()),
        Err("no form".to_string()),
        &LocaleFile::Absent,
    );
    let reply = qa_spec_json(
        NormalizedMode::Setup,
        &payload,
        &spec,
        &loaded,
        &Vec::new(),
        &Vec::new(),
    );
    assert_eq!(text_at(&reply, &["description", "default"]), Some(MISSING_CONFIG_MESSAGE));
    assert_eq!(reply.get("questions").unwrap().as_array().map(|list| list.len()), Some(0));
}

fn support_payload(locale: &str) -> Json {
    json(&format!(
        r#"{{"form_id":"support-form","config":{{"qa_form_asset_path":"qa/forms/support.form.json"}},"ctx":{{"locale":"{locale}"}}}}"#
    ))
}

fn support_value(payload: &Json) -> Result<LoadedFormValue, ComponentError> {
    let config = Ok(ComponentConfig {
        qa_form_asset_path: Some("qa/forms/support.form.json".to_string()),
        include_registry: Vec::new(),
    });
    let asset = (
        r#"{"id":"support-form"}"#.to_string(),
        "qa/forms/support.form.json".to_string(),
    );
    load_form_spec_value(&payload_config_json(payload), config, Ok(asset))
}

const ENGLISH: &str = r#"{
  "qa.form.support.field.api_key.help": "Secret key for provider auth",
  "qa.form.support.field.api_key.label": "API key",
  "qa.form.support.field.enabled.help": "Enable after setup",
  "qa.form.support.field.enabled.label": "Enable provider"
}"#;

const DUTCH: &str = r#"{
  "qa.form.support.field.api_key.label": "API-sleutel",
  "qa.form.support.field.enabled.label": "Provider inschakelen"
}"#;

#[test]
fn missing_i18n_keys_in_en_are_reported_deterministically() {
    let payload = support_payload("en");
    let english =
        LocaleFile::Text(r#"{"qa.form.support.field.api_key.label": "API key"}"#.to_string());
    let rules = PathRules::host();
    let spec = load_form_spec(&rules, support_value(&payload), Ok(support_form()), &english);
    let reply = qa_spec_json(
        NormalizedMode::Setup,
        &payload,
        &spec,
        &support_value(&payload),
        &all_shown(&["api_key", "enabled"]),
        &Vec::new(),
    );
    let description = text_at(&reply, &["description", "default"]).expect("error description");
    assert!(description.contains("references i18n keys missing"));
    assert!(description.contains("qa.form.support.field.api_key.help"));
    assert!(description.contains("qa.form.support.field.enabled.help"));
    assert!(description.contains("qa.form.support.field.enabled.label"));
    assert_eq!(
        description,
        "QA form 'qa/forms/support.form.json' references i18n keys missing from 'qa/i18n/en.json': \
         qa.form.support.field.api_key.help, qa.form.support.field.enabled.help, \
         qa.form.support.field.enabled.label"
    );
}

#[test]
fn golden_generated_form_uses_locale_and_en_fallback() {
    let payload = support_payload("nl-NL");
    let rules = PathRules::host();
    let english = LocaleFile::Text(ENGLISH.to_string());
    let spec = load_form_spec(&rules, support_value(&payload), Ok(support_form()), &english);
    let locales = spec_locales(&payload_ctx_json(&payload));
    assert_eq!(locales, strings(&["nl-NL", "nl", "en"]));
    let files = [LocaleFile::Absent, LocaleFile::Text(DUTCH.to_string()), english];
    let maps = locales
        .iter()
        .zip(&files)
        .map(|(locale, file)| load_locale_map(&rules, "qa/i18n", locale, file).unwrap())
        .collect();
    let reply = qa_spec_json(
        NormalizedMode::Setup,
        &payload,
        &spec,
        &support_value(&payload),
        &all_shown(&["api_key", "enabled"]),
        &maps,
    );
    let questions = reply.get("questions").unwrap().as_array().unwrap();
    assert_eq!(text_at(&questions[0], &["label", "fallback"]), Some("API-sleutel"));
    assert_eq!(text_at(&questions[1], &["label", "fallback"]), Some("Provider inschakelen"));
    assert_eq!(
        text_at(&questions[0], &["help", "fallback"]),
        Some("Secret key for provider auth")
    );
    assert_eq!(text_at(&questions[1], &["help", "fallback"]), Some("Enable after setup"));
}

#[test]
fn questions_for_a_host_are_written_as_its_types_are() {
    let mut color = question("color", QuestionType::Enum, "Color");
    color.choices = Some(strings(&["red", "blue"]));
    color.required = false;
    let mut count = question("count", QuestionType::Integer, "Count");
    count.description = Some("How many".to_string());
    let spec = Ok(form(vec![color, count, question("hidden", QuestionType::Boolean, "Hidden")]));
    let reply = qa_spec_json(
        NormalizedMode::Update,
        &json(r#"{"form_id":"support-form"}"#),
        &spec,
        &loaded(),
        &all_shown(&["color", "count"]),
        &Vec::new(),
    );
    assert_eq!(
        render_json(&reply),
        concat_lines(&[
            r#"{"defaults":{},"description":null,"mode":"update","questions":["#,
            r#"{"id":"color","kind":{"options":["#,
            r#"{"label":{"fallback":"red","key":"qa.field.color.option.red"},"value":"red"},"#,
            r#"{"label":{"fallback":"blue","key":"qa.field.color.option.blue"},"value":"blue"}"#,
            r#"],"type":"choice"},"label":{"fallback":"Color","key":"qa.field.color.label"},"required":false},"#,
            r#"{"help":{"fallback":"How many","key":"qa.field.count.help"},"id":"count","kind":{"type":"number"},"#,
            r#""label":{"fallback":"Count","key":"qa.field.count.label"},"required":true}"#,
            r#"],"title":{"fallback":"Support","key":"qa.update.title"}}"#,
        ])
    );
}

fn concat_lines(lines: &[&str]) -> String {
    lines.iter().map(|line| line.to_string()).collect()
}

#[test]
fn assets_are_taken_from_the_first_place() {
    assert!(Attempt::Found(String::new()).ends_search());
    assert!(Attempt::Failed(String::new()).ends_search());
    assert!(!Attempt::NotFound(String::new()).ends_search());
    let candidates = strings(&["a", "b", "c"]);
    let gone = || Attempt::NotFound("gone".to_string());
    assert_eq!(
        read_qa_form_asset(&candidates, &vec![gone(), Attempt::Found("text".to_string())]),
        Ok(("text".to_string(), "b".to_string()))
    );
    assert_eq!(
        read_qa_form_asset(&candidates, &vec![gone(), gone(), gone()]).unwrap_err().message(),
        "failed to read QA form asset; path='c'; details: gone"
    );
    assert_eq!(
        read_qa_form_asset(&candidates, &vec![gone(), Attempt::Failed("denied".to_string())]),
        Err(ComponentError::QaFormRead { path: "b".to_string(), details: "denied".to_string() })
    );
    assert_eq!(
        read_qa_form_asset(&Vec::new(), &Vec::new()),
        Err(ComponentError::MissingQaFormAssetPath)
    );
}

#[test]
fn loading_reports_each_fault() {
    let config = |path: &str, registry: Vec<(String, String)>| {
        Ok(ComponentConfig {
            qa_form_asset_path: Some(path.to_string()),
            include_registry: registry,
        })
    };
    let asset = |raw: &str| Ok((raw.to_string(), "forms/a.json".to_string()));
    assert_eq!(
        load_form_spec_value(" ", config("a", Vec::new()), asset("{}")),
        Err(ComponentError::MissingQaFormAssetPath)
    );
    assert_eq!(
        load_form_spec_value("{}", config("  ", Vec::new()), asset("{}")),
        Err(ComponentError::MissingQaFormAssetPath)
    );
    assert_eq!(
        load_form_spec_value("[", Err("bad config".to_string()), asset("{}"))
            .unwrap_err()
            .message(),
        "failed to parse config/bad config"
    );
    match load_form_spec_value("{}", config("a", Vec::new()), asset("{")) {
        Err(ComponentError::QaFormParse { path, .. }) => assert_eq!(path, "forms/a.json"),
        other => panic!("{:?}", other),
    }
    let broken = vec![("part".to_string(), "{".to_string())];
    match load_form_spec_value("{}", config("a", broken), asset("{}")) {
        Err(ComponentError::ConfigParse(_)) => {}
        other => panic!("{:?}", other),
    }
    let registry = vec![("part".to_string(), r#"{"id":"part"}"#.to_string())];
    assert_eq!(
        load_form_spec_value(
            "{}",
            config("a", registry),
            asset(r#"{"id":"root","includes":[{"form_ref":"other"}]}"#)
        )
        .unwrap_err()
        .message(),
        "include expansion failed: missing include target 'other'"
    );
    let fine = load_form_spec_value("{}", config(" a ", Vec::new()), asset(r#"{"id":"root"}"#));
    assert_eq!(fine.unwrap().spec_value, json(r#"{"id":"root"}"#));
}

#[test]
fn locale_files_are_read() {
    assert_eq!(load_locale_map(&PathRules::host(), "i18n", "nl", &LocaleFile::Absent), Ok(None));
    assert_eq!(
        load_locale_map(&PathRules::host(), "i18n", "nl", &LocaleFile::Text(r#"{"a":"1"}"#.to_string())),
        Ok(Some(vec![("a".to_string(), "1".to_string())]))
    );
    assert_eq!(
        load_locale_map(&PathRules::host(), "i18n", "nl", &LocaleFile::Unreadable("denied".to_string()))
            .unwrap_err()
            .message(),
        "failed to read i18n locale file 'i18n/nl.json': denied"
    );
    match load_locale_map(&PathRules::host(), "i18n", "nl", &LocaleFile::Text("[]".to_string())) {
        Err(ComponentError::I18nParse { path, .. }) => assert_eq!(path, "i18n/nl.json"),
        other => panic!("{:?}", other),
    }
}

#[test]
fn forms_need_english_texts() {
    assert_eq!(
        validate_form_i18n_keys(&PathRules::host(), &support_form(), "qa/forms/a.json", &LocaleFile::Absent)
            .unwrap_err()
            .message(),
        "missing i18n baseline file 'en.json' for QA form 'qa/forms/a.json' under 'qa/i18n'"
    );
    let plain = form(vec![question("a", QuestionType::String, "A")]);
    assert_eq!(validate_form_i18n_keys(&PathRules::host(), &plain, "qa/forms/a.json", &LocaleFile::Absent), Ok(()));
    let fault = load_form_spec(&PathRules::host(), loaded(), Err("bad form".to_string()), &LocaleFile::Absent);
    assert_eq!(fault.unwrap_err(), ComponentError::ConfigParse("bad form".to_string()));
    let spec = load_form_spec(&PathRules::host(), loaded(), Ok(plain), &LocaleFile::Absent).unwrap();
    assert_eq!(spec.id, "support-form");
}

#[test]
fn locale_chains() {
    assert_eq!(normalize_locale_chain(None), strings(&["en"]));
    assert_eq!(normalize_locale_chain(Some("nl_NL")), strings(&["nl-NL", "nl", "en"]));
    assert_eq!(normalize_locale_chain(Some("de")), strings(&["de", "en"]));
}

#[test]
fn registries_are_read_in_order() {
    let registry =
        parse_include_registry(&vec![("a".to_string(), "1".to_string())]).unwrap();
    assert_eq!(registry, vec![("a".to_string(), Json::Number(Number::PosInt(1)))]);
}

#[test]
fn inclusions_are_expanded_under_their_prefixes() {
    let root = json(
        r#"{"id":"root","questions":[{"id":"q"}],"includes":[{"form_ref":"part","prefix":"p"}]}"#,
    );
    let part = json(
        r#"{"id":"part","questions":[{"id":"q","visible_if":{"op":"is_set","path":"x"}}],"validations":[{"fields":["q"]}]}"#,
    );
    let expanded = expand_includes_value(&root, &vec![("part".to_string(), part)]).unwrap();
    assert_eq!(
        expanded,
        json(
            r#"{"id":"root","includes":[],"questions":[{"id":"q"},{"id":"p.q","visible_if":{"op":"is_set","path":"p.x"}}],"validations":[{"fields":["p.q"]}]}"#
        )
    );
}

#[test]
fn inclusions_that_cannot_be_expanded_are_refused() {
    let expand = |root: &str, part: &str| {
        expand_includes_value(&json(root), &vec![("part".to_string(), json(part))])
    };
    let including = r#"{"id":"root","questions":[{"id":"q"}],"includes":[{"form_ref":"part"}]}"#;
    assert_eq!(
        expand(including, r#"{"id":"part","questions":[{"id":"q"}]}"#),
        Err("duplicate question id after include expansion: 'q'".to_string())
    );
    assert_eq!(
        expand(including, r#"{"id":"part","includes":[{"form_ref":"part"}]}"#),
        Err(r#"include cycle detected: ["part", "part"]"#.to_string())
    );
    assert_eq!(expand("[]", "{}"), Err("form spec must be a JSON object".to_string()));
    assert_eq!(
        expand(r#"{"id":"root","includes":[{}]}"#, "{}"),
        Err("include missing form_ref".to_string())
    );
    assert_eq!(
        expand(r#"{"id":"root","includes":[{"form_ref":"x"}]}"#, "{}"),
        Err("missing include target 'x'".to_string())
    );
}

#[test]
fn prefixes() {
    assert_eq!(combine_prefix("", None), "");
    assert_eq!(combine_prefix("a", None), "a");
    assert_eq!(combine_prefix("", Some("b")), "b");
    assert_eq!(combine_prefix("a", Some("b")), "a.b");
    assert_eq!(prefix_key("a", "k"), "a.k");
    assert_eq!(prefix_key("", "k"), "k");
    assert_eq!(prefix_path("a", "/k"), "/k");
    assert_eq!(prefix_path("a", "k"), "a.k");
    assert_eq!(prefix_path("a", ""), "");
    let expr = json(
        r#"{"op":"and","expressions":[{"op":"answer","path":"x"},{"op":"not","expression":{"op":"is_set","path":"y"}}]}"#,
    );
    assert_eq!(
        prefix_expr_value(&expr, "p"),
        json(
            r#"{"op":"and","expressions":[{"op":"answer","path":"p.x"},{"op":"not","expression":{"op":"is_set","path":"p.y"}}]}"#
        )
    );
    let listed = json(r#"{"id":"l","list":{"fields":[{"id":"f"}]}}"#);
    assert_eq!(
        prefix_question_value(&listed, "p"),
        json(r#"{"id":"p.l","list":{"fields":[{"id":"p.f"}]}}"#)
    );
    assert_eq!(prefix_question_value(&listed, ""), listed);
}

#[test]
fn contexts_are_read() {
    assert_eq!(parse_runtime_context(r#"{"ctx":{"a":1}}"#), json(r#"{"a":1}"#));
    assert_eq!(parse_runtime_context(r#"{"ctx":5}"#), json(r#"{"ctx":5}"#));
    assert_eq!(parse_runtime_context("{"), json("{}"));
    assert_eq!(resolve_context_answers(&json(r#"{"answers":{"a":1}}"#)), json(r#"{"a":1}"#));
    assert_eq!(resolve_context_answers(&json("{}")), json("{}"));
    assert_eq!(schema_answers(r#"{"ctx":{"answers":{"b":2}}}"#), json(r#"{"b":2}"#));
    assert!(secrets_host_available(&json(r#"{"secrets_host_available":true}"#)));
    assert!(secrets_host_available(&json(r#"{"config":{"secrets_host_available":true}}"#)));
    assert!(!secrets_host_available(&json(
        r#"{"secrets_host_available":false,"config":{"secrets_host_available":true}}"#
    )));
    assert!(!secrets_host_available(&json("{}")));
    assert!(i18n_debug_enabled(&json(r#"{"i18n_debug":true}"#)));
    assert!(!i18n_debug_enabled(&json(r#"{"debug_i18n":false,"i18n_debug":true}"#)));
    assert_eq!(
        parse_resolved_i18n(&json(r#"{"i18n_resolved":{"a":"1","b":2}}"#)),
        vec![("a".to_string(), "1".to_string())]
    );
}

#[test]
fn payloads_are_read() {
    assert_eq!(payload_form_id(&json("{}")), "example-form");
    assert_eq!(payload_form_id(&json(r#"{"form_id":"f"}"#)), "f");
    assert_eq!(payload_config_json(&json(r#"{"config_json":"{ }"}"#)), "{ }");
    assert_eq!(
        payload_config_json(&json(r#"{"qa_form_asset_path":"a","include_registry":{}}"#)),
        r#"{"include_registry":{},"qa_form_asset_path":"a"}"#
    );
    assert_eq!(payload_answers(&json(r#"{"answers":"{\"a\":1}"}"#)), json(r#"{"a":1}"#));
    assert_eq!(payload_answers(&json(r#"{"answers":[1]}"#)), json("[1]"));
    assert_eq!(payload_answers(&json("{}")), json("{}"));
    assert_eq!(payload_ctx_json(&json(r#"{"ctx":{"b":1,"a":2}}"#)), r#"{"a":2,"b":1}"#);
    assert_eq!(payload_ctx_json(&json("{}")), "{}");
    assert_eq!(payload_ctx_json(&json(r#"{"ctx_json":"x"}"#)), "x");
}

#[test]
fn requests_for_another_form_are_refused() {
    let spec = Ok(form(Vec::new()));
    let refusal = r#"{"error":"form 'other' is not available"}"#;
    assert_eq!(describe("other", &spec, Ok(json("{}"))), refusal);
    assert_eq!(get_answer_schema("other", &spec, json("{}")), refusal);
    assert_eq!(get_example_answers("other", &spec, json("{}")), refusal);
    assert_eq!(validate_answers("other", &spec, "{}", &evaluated("{}", &[])), refusal);
    assert_eq!(apply_store("other", &spec, Ok(json("{}"))), refusal);
}

#[test]
fn requests_reply_with_what_they_come_to() {
    let spec = Ok(form(vec![question("a", QuestionType::String, "A")]));
    assert_eq!(describe("support-form", &spec, Ok(json(r#"{"id":1}"#))), r#"{"id":1}"#);
    assert_eq!(
        describe("support-form", &spec, Err("no".to_string())),
        r#"{"error":"json encode error: no"}"#
    );
    assert_eq!(get_answer_schema("support-form", &spec, json(r#"{"s":1}"#)), r#"{"s":1}"#);
    assert_eq!(get_example_answers("support-form", &spec, json(r#"{"e":1}"#)), r#"{"e":1}"#);
    assert_eq!(
        apply_store("support-form", &spec, Err("full".to_string())),
        r#"{"error":"store apply failed: full"}"#
    );
    assert_eq!(
        validate_answers("support-form", &spec, "{}", &evaluated("{}", &["a"])),
        r#"{"missing_required":["a"],"valid":false}"#
    );
    assert_eq!(
        validate_answers("support-form", &spec, "{}", &evaluated(r#"{"a":1}"#, &["a"])),
        r#"{"errors":[{"code":"type_mismatch","message":"qa_spec.type_mismatch","path":"/a","question_id":"a"}],"valid":false}"#
    );
    assert!(validate_answers("support-form", &spec, "{", &evaluated("{}", &["a"]))
        .starts_with(r#"{"error":"failed to parse config/"#));
}

#[test]
fn next_says_where_a_form_stands() {
    let spec = Ok(form(Vec::new()));
    let shown = vec![("a".to_string(), true), ("b".to_string(), false), ("c".to_string(), true)];
    assert_eq!(
        next("support-form", &spec, &shown, &Some("c".to_string()), 1),
        r#"{"next_question_id":"c","progress":{"answered":1,"total":2},"status":"need_input"}"#
    );
    assert_eq!(
        next_with_ctx("support-form", &spec, &shown, &None, 2),
        r#"{"next_question_id":null,"progress":{"answered":2,"total":2},"status":"complete"}"#
    );
}

#[test]
fn a_patch_is_submitted() {
    let spec = Ok(form(vec![
        question("a", QuestionType::String, "A"),
        question("b", QuestionType::String, "B"),
    ]));
    assert_eq!(
        submit_patch(
            "support-form",
            &spec,
            r#"{"a":"1"}"#,
            "b",
            r#""2""#,
            &evaluated(r#"{"a":"1","b":"2"}"#, &["a", "b"]),
            payload(None, 2, 2),
            Ok(json(r#"{"kept":true}"#)),
        ),
        r#"{"answers":{"a":"1","b":"2"},"next_question_id":null,"progress":{"answered":2,"total":2},"status":"complete","store":{"kept":true}}"#
    );
    assert_eq!(
        submit_patch(
            "support-form",
            &spec,
            "[]",
            "a",
            r#""1""#,
            &evaluated(r#"{"a":"1"}"#, &["a", "b"]),
            payload(Some("b"), 1, 2),
            Err("never run".to_string()),
        ),
        r#"{"answers":{"a":"1"},"next_question_id":"b","progress":{"answered":1,"total":2},"status":"error","validation":{"missing_required":["b"],"valid":false}}"#
    );
    assert!(submit_patch(
        "support-form",
        &spec,
        "{}",
        "a",
        "{",
        &evaluated("{}", &[]),
        payload(None, 0, 0),
        Ok(json("{}")),
    )
    .starts_with(r#"{"error":"failed to parse config/"#));
}

#[test]
fn all_answers_are_submitted() {
    let spec = Ok(form(vec![question("a", QuestionType::String, "A")]));
    let submit = |stored: Result<Json, String>| {
        submit_all(
            "support-form",
            &spec,
            r#"{"a":"1"}"#,
            &evaluated(r#"{"a":"1"}"#, &["a"]),
            payload(Some("z"), 1, 2),
            stored,
        )
    };
    assert_eq!(
        submit(Ok(json("{}"))),
        r#"{"answers":{"a":"1"},"next_question_id":"z","progress":{"answered":1,"total":2},"status":"need_input","store":{}}"#
    );
    assert_eq!(submit(Err("full".to_string())), r#"{"error":"store apply failed: full"}"#);
}

#[test]
fn refused_answers_have_no_effects() {
    let spec = form(vec![question("a", QuestionType::String, "A")]);
    let refused =
        build_submission_plan(&spec, json("{}"), &evaluated("{}", &["a"]), payload(None, 0, 1));
    assert!(!refused.validation.valid);
    assert!(refused.effects.is_empty());
    let accepted = build_submission_plan(
        &spec,
        json(r#"{"a":"1"}"#),
        &evaluated(r#"{"a":"1"}"#, &["a"]),
        payload(None, 1, 1),
    );
    assert!(accepted.validation.valid);
    assert_eq!(accepted.effects, vec![json(r#"{"op":"set"}"#)]);
    let (id, spec) = (spec.id.clone(), Ok(spec));
    let valid = evaluated(r#"{"a":"x"}"#, &["a"]);
    assert_eq!(effects_to_run(&id, &spec, &valid), Some(vec![json(r#"{"op":"set"}"#)]));
    assert_eq!(effects_to_run(&id, &spec, &evaluated("{}", &["a"])), None);
    assert_eq!(effects_to_run("other", &spec, &valid), None);
}

fn rendered() -> RenderPayload {
    RenderPayload {
        next_question_id: Some("q1".to_string()),
        progress: RenderProgress { answered: 0, total: 1 },
        questions: vec![
            RenderQuestion {
                id: "q1".to_string(),
                title: "Name".to_string(),
                description: None,
            },
            RenderQuestion {
                id: "q2".to_string(),
                title: "Other".to_string(),
                description: None,
            },
        ],
    }
}

#[test]
fn rendered_forms_are_translated() {
    let spec_value = json(
        r#"{"presentation":{"default_locale":"en"},"questions":[{"id":"q1","title_i18n":{"key":"q1.title"},"description_i18n":{"key":"q1.help"}}]}"#,
    );
    let ctx = json(
        r#"{"locale":"nl","i18n_resolved":{"nl:q1.title":"Naam","en/q1.help":"Help","q1.title":"Plain"}}"#,
    );
    let mut payload = rendered();
    apply_i18n_to_payload(&mut payload, &spec_value, &ctx);
    assert_eq!(payload.questions[0].title, "Naam");
    assert_eq!(payload.questions[0].description, Some("Help".to_string()));
    assert_eq!(payload.questions[1], rendered().questions[1]);
    let mut untouched = rendered();
    apply_i18n_to_payload(&mut untouched, &spec_value, &json("{}"));
    assert_eq!(untouched, rendered());
    let resolved = vec![("k".to_string(), "plain".to_string())];
    assert_eq!(
        resolve_i18n_value(&resolved, "k", Some("nl"), None),
        Some("plain".to_string())
    );
    assert_eq!(resolve_i18n_value(&resolved, "x", Some("nl"), None), None);
}

#[test]
fn cards_carry_translation_keys_where_asked_for() {
    let spec_value = json(r#"{"questions":[{"id":"q1","title_i18n":{"key":"q1.title"}}]}"#);
    let mut card = json(r#"{"type":"card"}"#);
    attach_i18n_debug_metadata(&mut card, &rendered(), &spec_value);
    assert_eq!(
        render_json(&card),
        r#"{"metadata":{"qa":{"i18n_debug":true,"questions":[{"description_key":null,"id":"q1","title_key":"q1.title"}]}},"type":"card"}"#
    );
    let loaded = Ok(LoadedFormValue { spec_value, form_asset_path: "a".to_string() });
    assert_eq!(
        render_card(Ok((rendered(), json("{}"))), "{}", &loaded),
        "{}"
    );
    assert!(render_card(Ok((rendered(), json("{}"))), r#"{"i18n_debug":true}"#, &loaded)
        .contains("q1.title"));
    assert_eq!(
        render_card(Err(ComponentError::MissingQaFormAssetPath), "{}", &loaded),
        format!(r#"{{"error":"{}"}}"#, MISSING_CONFIG_MESSAGE)
    );
}

#[test]
fn renderings_are_replied() {
    let spec = Ok(form(Vec::new()));
    let made = render_payload("support-form", &spec, &loaded(), rendered(), "{}").unwrap();
    assert_eq!(made, rendered());
    assert!(render_payload("x", &spec, &loaded(), rendered(), "{}").is_err());
    assert_eq!(render_text(Ok("plain".to_string())), "plain");
    assert_eq!(
        render_text(Err(ComponentError::FormUnavailable("x".to_string()))),
        r#"{"error":"form 'x' is not available"}"#
    );
    assert_eq!(render_json_ui(Ok(json("[1]"))), "[1]");
}

#[test]
fn modes_have_aliases() {
    for raw in ["default", "setup", "install"] {
        assert_eq!(normalize_mode(raw), Some(NormalizedMode::Setup));
    }
    for raw in ["update", "upgrade"] {
        assert_eq!(normalize_mode(raw), Some(NormalizedMode::Update));
    }
    assert_eq!(normalize_mode("remove"), Some(NormalizedMode::Remove));
    assert_eq!(normalize_mode("Remove"), None);
    for mode in [NormalizedMode::Setup, NormalizedMode::Update, NormalizedMode::Remove] {
        assert_eq!(normalize_mode(mode.as_str()), Some(mode));
    }
    assert_eq!(qa_mode_to_normalized(HostMode::Default), NormalizedMode::Setup);
    assert_eq!(mode_title(NormalizedMode::Remove), ("qa.remove.title", "qa.remove.description"));
}

#[test]
fn a_default_mode_keeps_its_name() {
    assert_eq!(host_spec(HostMode::Default, json(r#"{"mode":"setup"}"#)), json(r#"{"mode":"default"}"#));
    assert_eq!(host_spec(HostMode::Setup, json(r#"{"mode":"setup"}"#)), json(r#"{"mode":"setup"}"#));
}

#[test]
fn answers_are_applied_to_the_configuration() {
    let spec = Ok(form(vec![question("a", QuestionType::String, "A")]));
    let payload = json(
        r#"{"form_id":"support-form","answers":{"a":"1"},"current_config":{"a":"0","b":2}}"#,
    );
    let found = evaluated(r#"{"a":"1"}"#, &["a"]);
    let reply = apply_answers(NormalizedMode::Setup, &payload, &spec, &found);
    assert_eq!(
        render_json(&reply),
        r#"{"audit":{"reasons":["qa.apply_answers"],"timings_ms":{}},"config":{"a":"1","b":2},"errors":[],"meta":{"mode":"setup","version":"v1"},"ok":true,"warnings":[]}"#
    );
    assert_eq!(applied_config(&reply, &payload), json(r#"{"a":"1","b":2}"#));
    let removed = apply_answers(NormalizedMode::Remove, &payload, &spec, &found);
    assert_eq!(
        applied_config(&removed, &payload),
        json(r#"{"a":"1","b":2,"enabled":false}"#)
    );
}

#[test]
fn refused_answers_are_not_applied() {
    let spec = Ok(form(vec![question("a", QuestionType::String, "A")]));
    let payload = json(r#"{"form_id":"support-form","answers":{"a":1},"current_config":{"b":2}}"#);
    let reply = apply_answers(
        NormalizedMode::Update,
        &payload,
        &spec,
        &evaluated(r#"{"a":1}"#, &["a"]),
    );
    assert_eq!(reply.get_bool("ok"), Some(false));
    assert_eq!(applied_config(&reply, &payload), json(r#"{"b":2}"#));
    let missing = Err(ComponentError::MissingQaFormAssetPath);
    let reply = apply_answers(NormalizedMode::Update, &payload, &missing, &evaluated("{}", &[]));
    let errors = reply.get("errors").unwrap().as_array().unwrap();
    assert_eq!(errors[0].get_str("message"), Some(MISSING_CONFIG_MESSAGE));
    assert_eq!(applied_config(&json("{}"), &json("{}")), json("{}"));
}

#[test]
fn runs_are_told_apart() {
    assert_eq!(
        run_operation(&json(r#"{"operation":"qa-spec","mode":"upgrade"}"#)),
        Operation::QaSpec(NormalizedMode::Update)
    );
    assert_eq!(
        run_operation(&json(r#"{"operation":"apply-answers"}"#)),
        Operation::ApplyAnswers(NormalizedMode::Setup)
    );
    assert_eq!(
        run_operation(&json(r#"{"operation":"apply-answers","mode":"install"}"#)),
        run_operation(&json(r#"{"operation":"apply-answers","mode":"setup"}"#))
    );
    assert_eq!(run_operation(&json(r#"{"operation":"i18n-keys"}"#)), Operation::I18nKeys);
    assert_eq!(
        run_operation(&json(r#"{"input":" hi "}"#)),
        Operation::Message(json(r#"{"message":"component-qa::handle_message => hi"}"#))
    );
    assert_eq!(
        run_operation(&json(r#"{"operation":"x"}"#)),
        Operation::Message(json(
            r#"{"message":"component-qa::x => {\"operation\":\"x\"}"}"#
        ))
    );
    assert_eq!(i18n_keys(&strings(&["b", "a", "b"])), strings(&["a", "b"]));
}
