//! Making forms: by dialogue and from descriptions.
use greentic_qa::authoring::{run_new, NewForm};
use greentic_qa::builder::{
    build_bundle, build_form, build_readme, bundle_paths, question_step_id, sanitize_file_name,
    sanitize_identifier, validate_input, CliQuestionType, FormInput, GenerationInput, ListInput,
    ProgressPolicyInput, QuestionInput, StepSpec,
};
use greentic_qa::catalog::I18n;
use greentic_qa::console::{split_commas, Console, Said};
use greentic_qa::form::{Bound, Constraint, CrossFieldValidation, Expr};
use greentic_qa::json::{Json, Number};
use greentic_qa::paths::PathRules;

fn plain() -> I18n {
    I18n { active: Vec::new(), english: Vec::new() }
}

fn strings(list: &[&str]) -> Vec<String> {
    list.iter().map(|s| s.to_string()).collect()
}

fn asked(id: &str, kind: CliQuestionType) -> QuestionInput {
    QuestionInput {
        id: id.to_string(),
        kind,
        title: "Title".to_string(),
        description: None,
        required: true,
        default_value: None,
        choices: None,
        secret: false,
        list: None,
        visible_if: None,
        constraint: None,
        computed: None,
        computed_overridable: false,
    }
}

fn described(questions: Vec<QuestionInput>) -> GenerationInput {
    GenerationInput {
        dir_name: "smoke".to_string(),
        summary_md: None,
        form: FormInput {
            id: "smoke-form".to_string(),
            title: "Smoke".to_string(),
            version: "0.1.0".to_string(),
            description: None,
            progress_policy: None,
        },
        questions,
        validations: Vec::new(),
    }
}

fn dialogue(lines: &[&str]) -> (NewForm, Console) {
    let mut console = Console::new(strings(lines));
    let outcome = run_new(&mut console, None, &plain());
    (outcome, console)
}

#[test]
fn new_command_skips_advanced_prompts_when_not_selected() {
    let answers = [
        "form-id",
        "Form Title",
        "",
        "",
        "",
        "",
        "question-id",
        "Question Title",
        "",
        "",
        "",
        "",
        "",
        "",
        "",
        "",
        "",
        "",
    ];
    let (outcome, _) = dialogue(&answers);
    let input = match outcome {
        NewForm::Described(input) => input,
        other => panic!("{:?}", other),
    };
    assert_eq!(input.dir_name, "form-id");
    let spec = build_form(&input, &plain()).unwrap();
    let question = &spec.questions[0];
    assert_eq!(question.secret, false);
    assert!(question.visible_if.is_none());
    assert!(question.computed.is_none());
}

#[test]
fn fixture_generates_bundle() {
    let input = described(vec![asked("name", CliQuestionType::String)]);
    let bundle = build_bundle(&input, Json::Null, Json::Null, &plain())
        .expect("bundle build should succeed");
    assert_eq!(bundle.spec.id, "smoke-form");
    let paths = bundle_paths(&PathRules::host(), "out", &input.dir_name, &bundle.spec.id);
    assert_eq!(paths.bundle_dir, "out/smoke");
    assert_eq!(paths.form_file, "out/smoke/forms/smoke-form.form.json");
    assert_eq!(paths.flow_file, "out/smoke/flows/smoke-form.qaflow.json");
    assert_eq!(paths.example_file, "out/smoke/examples/smoke-form.answers.example.json");
    assert_eq!(paths.schema_file, "out/smoke/schemas/smoke-form.answers.schema.json");
    assert_eq!(paths.readme_file, "out/smoke/README.md");
}

#[test]
fn a_dialogue_waits_where_the_lines_run_out() {
    let (outcome, console) = dialogue(&["form-id"]);
    assert_eq!(outcome, NewForm::Waiting);
    assert!(console.waiting);
    assert!(matches!(console.said.last(), Some(Said::Ask(_))));
    let (_, longer) = dialogue(&["form-id", "Title"]);
    assert_eq!(longer.said[..console.said.len()], console.said[..]);
    assert!(longer.said.len() > console.said.len());
}

#[test]
fn a_form_needs_a_question_and_a_place() {
    let (outcome, _) = dialogue(&["f", "T", "", "", "", "", ""]);
    assert_eq!(outcome, NewForm::Failed("cli.new.at_least_one_question".to_string()));
    let mut console = Console::new(strings(&["f", "T", "", "", "", ""]));
    assert_eq!(
        run_new(&mut console, Some("no place"), &plain()),
        NewForm::Failed("no place".to_string())
    );
}

#[test]
fn lists_of_words() {
    assert_eq!(split_commas(" a, ,b ,"), strings(&["a", "b"]));
    assert_eq!(split_commas(""), strings(&[]));
}

#[test]
fn prompts_are_repeated_until_they_are_answered() {
    let i18n = plain();
    let mut console = Console::new(strings(&["maybe", "Y", "x", "7", "", "enum", "a,b"]));
    assert!(console.prompt_bool("Sure?", false, &i18n));
    assert_eq!(console.prompt_optional_usize("Count", &i18n), Some(7));
    assert_eq!(console.prompt_optional("Note"), None);
    assert_eq!(console.prompt_question_type(&i18n), CliQuestionType::Enum);
    assert_eq!(console.prompt_enum_choices(&i18n), strings(&["a", "b"]));
    assert!(!console.waiting);
    assert_eq!(console.prompt_line("More", Some("d")), "");
    assert!(console.waiting);
    let said = console.said.len();
    console.tell("dropped".to_string());
    assert_eq!(console.said.len(), said);
}

#[test]
fn names_are_made_of_letters_digits_and_dashes() {
    assert_eq!(sanitize_identifier("a b/c"), "a_b_c");
    assert_eq!(sanitize_identifier(""), "step");
    assert_eq!(sanitize_file_name("my form!"), "my-form-");
    assert_eq!(sanitize_file_name(""), "bundle");
    assert_eq!(question_step_id("q.1"), "question_q_1");
}

#[test]
fn kinds_are_named_by_labels() {
    for kind in [
        CliQuestionType::String,
        CliQuestionType::Boolean,
        CliQuestionType::Integer,
        CliQuestionType::Number,
        CliQuestionType::Enum,
        CliQuestionType::List,
    ] {
        assert_eq!(CliQuestionType::from_str(kind.label(), &plain()), Ok(kind));
    }
    assert!(CliQuestionType::from_str("date", &plain()).is_err());
    assert_eq!(CliQuestionType::default(), CliQuestionType::String);
    assert!(ProgressPolicyInput::default().skip_answered);
}

#[test]
fn flows_go_through_the_questions_in_order() {
    let input = described(vec![
        asked("a", CliQuestionType::String),
        asked("b c", CliQuestionType::Integer),
    ]);
    let bundle = build_bundle(&input, Json::Null, Json::Bool(true), &plain()).unwrap();
    assert_eq!(bundle.flow.entry, "question_a");
    let names: Vec<&str> = bundle.flow.steps.iter().map(|step| step.0.as_str()).collect();
    assert_eq!(names, vec!["complete", "question_a", "question_b_c"]);
    for (_, step) in &bundle.flow.steps {
        match step {
            StepSpec::Question { question_id, next } => {
                if question_id == "a" {
                    assert_eq!(next, &Some("question_b_c".to_string()));
                } else {
                    assert_eq!(next, &Some("complete".to_string()));
                }
            }
            StepSpec::End => {}
        }
    }
    assert_eq!(bundle.examples, Json::Bool(true));
}

#[test]
fn descriptions_of_forms_are_checked() {
    let i18n = plain();
    let complaint = |input: &GenerationInput| validate_input(input, &i18n).unwrap_err();
    let mut input = described(vec![asked("a", CliQuestionType::String)]);
    assert_eq!(validate_input(&input, &i18n), Ok(()));
    input.dir_name = " ".to_string();
    assert_eq!(complaint(&input), "cli.builder.dir_name_required");
    let mut input = described(vec![asked("a", CliQuestionType::String)]);
    input.form.id = String::new();
    assert_eq!(complaint(&input), "cli.builder.form_id_required");
    assert_eq!(complaint(&described(Vec::new())), "cli.builder.at_least_one_question");
    assert_eq!(
        complaint(&described(vec![
            asked("a", CliQuestionType::String),
            asked("a", CliQuestionType::String),
        ])),
        "cli.builder.duplicate_question_id"
    );
    assert_eq!(
        complaint(&described(vec![asked("e", CliQuestionType::Enum)])),
        "cli.builder.enum_question_choices_required"
    );
    let mut list = asked("l", CliQuestionType::List);
    list.list = Some(ListInput { min_items: None, max_items: None, fields: Vec::new() });
    assert!(validate_input(&described(vec![list]), &i18n).is_err());
    let mut limited = asked("n", CliQuestionType::Number);
    let bound = |value: f64| Some(Bound { bits: value.to_bits(), text: value.to_string() });
    limited.constraint = Some(Constraint {
        pattern: None,
        min: bound(2.0),
        max: bound(1.0),
        min_len: None,
        max_len: None,
    });
    assert!(validate_input(&described(vec![limited]), &i18n).is_err());
    let rule = |message: &str, fields: &[&str]| CrossFieldValidation {
        id: None,
        message: message.to_string(),
        fields: strings(fields),
        condition: Expr::Literal { value: Json::Number(Number::PosInt(1)) },
        code: None,
    };
    let with_rule = |rule: CrossFieldValidation| {
        let mut input = described(vec![asked("a", CliQuestionType::String)]);
        input.validations.push(rule);
        input
    };
    assert_eq!(complaint(&with_rule(rule(" ", &["a"]))), "cli.builder.validation_message_required");
    assert_eq!(complaint(&with_rule(rule("m", &[]))), "cli.builder.validation_field_required");
    assert_eq!(complaint(&with_rule(rule("m", &["b"]))), "cli.builder.validation_unknown_field");
    assert_eq!(validate_input(&with_rule(rule("m", &["a"])), &i18n), Ok(()));
}

#[test]
fn a_bundle_has_a_readme() {
    let input = described(vec![asked("a", CliQuestionType::String)]);
    let spec = build_form(&input, &plain()).unwrap();
    let readme = build_readme(&spec, &input, "smoke-form");
    assert!(readme.starts_with("# Smoke\n\nVersion: 0.1.0\n\nNo description provided.\n\n"));
    assert!(readme.contains("- `forms/smoke-form.form.json`\n"));
}

#[test]
fn a_dialogue_asks_for_every_detail() {
    let lines = [
        "f", "Form", "1.0", "About", "Sum", "dir", //
        "color", "Color", "enum", "y", "Which one", "red, blue", "pink", "red", "y", "y", "", "4",
        "[a-z]+", "y", "literal", "red", "n", //
        "color", "size", "", "number", "n", "", "x", "1.5", "y", "", "y", "and", "IS_SET", "color",
        "", "ne", "color", "", "blue", "0", "10", "n", //
        "tags", "Tags", "list", "", "", "", "", "2", "1", "1", "2", "tag", "", "", "", "", "", "",
        "", //
        "", "y", "r1", "Bad", "color, nope", "color, color, size", "not", "", "gt", "size", "answer",
        "color", "n",
    ];
    let (outcome, console) = dialogue(&lines);
    let input = match outcome {
        NewForm::Described(input) => input,
        other => panic!("{:?} {:?}", other, console.said),
    };
    assert!(console.rest.is_empty());
    assert_eq!(input.form.version, "1.0");
    assert_eq!(input.form.description, Some("About".to_string()));
    assert_eq!(input.summary_md, Some("Sum".to_string()));
    assert_eq!(input.questions.len(), 3);
    let color = &input.questions[0];
    assert_eq!(color.choices, Some(strings(&["red", "blue"])));
    assert_eq!(color.default_value, Some("red".to_string()));
    assert!(color.secret);
    assert_eq!(color.constraint.as_ref().unwrap().max_len, Some(4));
    assert_eq!(
        color.computed,
        Some(Expr::Literal { value: Json::String("red".to_string()) })
    );
    let size = &input.questions[1];
    assert_eq!(size.title, "size");
    assert!(!size.required);
    assert_eq!(size.default_value, Some("1.5".to_string()));
    assert_eq!(
        size.visible_if,
        Some(Expr::And {
            expressions: vec![
                Expr::IsSet { path: "color".to_string() },
                Expr::Ne {
                    left: Box::new(Expr::Answer { path: "color".to_string() }),
                    right: Box::new(Expr::Literal { value: Json::String("blue".to_string()) }),
                },
            ],
        })
    );
    assert_eq!(
        size.constraint.as_ref().unwrap().max,
        Some(Bound { bits: 10.0f64.to_bits(), text: "10".to_string() })
    );
    let list = input.questions[2].list.as_ref().unwrap();
    assert_eq!((list.min_items, list.max_items, list.fields.len()), (Some(1), Some(2), 1));
    let rule = &input.validations[0];
    assert_eq!(rule.fields, strings(&["color", "size"]));
    assert!(matches!(rule.condition, Expr::Not { .. }));
    assert_eq!(validate_input(&input, &plain()), Ok(()));
}
