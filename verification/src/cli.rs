//! What the command line tool decides and prints.
use crate::answers::{self, ErrorView, ResultView, ValidationError, ValidationResult};
use crate::catalog::{self, t, tf, tf1, CatalogView, I18n};
use crate::driver::{self, lookup_question, WizardFrontend};
use crate::entries;
use crate::json::{self, collect_strings, Json, JsonView};
use crate::json_text::{self, parse_json};
use crate::paths::{self, file_name, join_path, path_within, show_paths, PathRules, RulesView};
use crate::text::{
    self, blank, cat, cat3, join, same, same_ignoring_ascii_case, split, starts_with, trim,
};
use crate::typed::{self, parse_answer};
use crate::wizard::{
    self, AnswerParseError, PromptContext, PromptView, RenderStatus, WizardPayload,
    WizardPayloadView, WizardPresenter,
};
use vstd::prelude::*;

verus! {

/// What a form is shown as.
#[derive(Debug, Clone, Copy, PartialEq, Eq, Structural)]
pub enum RenderMode {
    Text,
    Card,
    Json,
}

/// What a form is rendered as to be shown.
pub fn frontend_for(mode: RenderMode) -> (r: WizardFrontend)
    ensures
        r == match mode {
            RenderMode::Text => WizardFrontend::Text,
            RenderMode::Card => WizardFrontend::Card,
            RenderMode::Json => WizardFrontend::JsonUi,
        },
{
    match mode {
        RenderMode::Text => WizardFrontend::Text,
        RenderMode::Card => WizardFrontend::Card,
        RenderMode::Json => WizardFrontend::JsonUi,
    }
}

/// The line with a rendered form: none where it is shown as text.
pub open spec fn render_line(
    mode: RenderMode,
    payload: Seq<char>,
    ui: Option<&str>,
    catalog: CatalogView,
) -> Option<Seq<char>> {
    match mode {
        RenderMode::Text => None,
        RenderMode::Card => Some(
            catalog::message_with(
                catalog,
                "cli.output.adaptive_card"@,
                seq![("payload"@, payload)],
            ),
        ),
        RenderMode::Json => match ui {
            Some(ui) => Some(
                catalog::message_with(catalog, "cli.output.json_ui"@, seq![("payload"@, ui@)]),
            ),
            None => Some(
                catalog::message_with(catalog, "cli.output.json_ui"@, seq![("payload"@, payload)]),
            ),
        },
    }
}

/// The line with a rendered form.
pub fn print_render_output(mode: RenderMode, payload: &str, ui: Option<&str>, i18n: &I18n) -> (r:
    Option<String>)
    ensures
        text::opt_text(r) == render_line(mode, payload@, ui, i18n@),
{
    match mode {
        RenderMode::Text => None,
        RenderMode::Card => Some(tf1(i18n, "cli.output.adaptive_card", "payload", payload)),
        RenderMode::Json => match ui {
            Some(ui) => Some(tf1(i18n, "cli.output.json_ui", "payload", ui)),
            None => Some(tf1(i18n, "cli.output.json_ui", "payload", payload)),
        },
    }
}

/// Whether every member of an object is a string.
pub open spec fn all_strings(members: Seq<(Seq<char>, JsonView)>) -> bool {
    forall|i: int| 0 <= i < members.len() ==> (#[trigger] members[i]).1 is String
}

/// The texts of a flat map, or what is wrong with it.
pub open spec fn flat_map(raw: Seq<char>, catalog: CatalogView) -> Result<
    Seq<(Seq<char>, Seq<char>)>,
    Seq<char>,
> {
    match json_text::json_of_text(raw) {
        Err(details) => Err(details),
        Ok(JsonView::Object(members)) => if all_strings(members) {
            Ok(
                members.map_values(
                    |e: (Seq<char>, JsonView)| (e.0, e.1->String_0),
                ),
            )
        } else {
            Err(catalog::message(catalog, "cli.i18n_resolved.flat_map_required"@))
        },
        Ok(_) => Err(catalog::message(catalog, "cli.i18n_resolved.flat_map_required"@)),
    }
}

/// Reads a flat map from translation keys to texts.
pub fn load_resolved_i18n_map(raw: &str, i18n: &I18n) -> (r: Result<Vec<(String, String)>, String>)
    ensures
        match r {
            Ok(map) => flat_map(raw@, i18n@) == Ok::<Seq<(Seq<char>, Seq<char>)>, Seq<char>>(
                entries::text_entries(map@),
            ),
            Err(message) => flat_map(raw@, i18n@) == Err::<
                Seq<(Seq<char>, Seq<char>)>,
                Seq<char>,
            >(message@),
        },
{
    let value = match parse_json(raw) {
        Ok(value) => value,
        Err(details) => {
            return Err(details);
        },
    };
    let members = match value.as_object() {
        Some(members) => members,
        None => {
            return Err(t(i18n, "cli.i18n_resolved.flat_map_required"));
        },
    };
    let ghost views = json::entries_view(members@);
    let mut map: Vec<(String, String)> = Vec::new();
    let mut i: usize = 0;
    while i < members.len()
        invariant
            i <= members@.len(),
            views == json::entries_view(members@),
            json_text::json_of_text(raw@) == Ok::<JsonView, Seq<char>>(JsonView::Object(views)),
            map@.len() == i,
            forall|k: int|
                0 <= k < i ==> (#[trigger] map@[k]).0@ == views[k].0 && views[k].1
                    == JsonView::String(map@[k].1@),
        decreases members.len() - i,
    {
        assert(views[i as int] == (members@[i as int].0@, members@[i as int].1@));
        match members[i].1.as_str() {
            Some(text) => {
                map.push((members[i].0.clone(), text.to_owned()));
            },
            None => {
                assert(!(views[i as int].1 is String));
                return Err(t(i18n, "cli.i18n_resolved.flat_map_required"));
            },
        }
        i += 1;
    }
    assert(all_strings(views)) by {
        assert forall|k: int| 0 <= k < views.len() implies (#[trigger] views[k]).1 is String by {
            assert(map@[k].0@ == views[k].0);
        }
    }
    assert(entries::text_entries(map@) =~= views.map_values(
        |e: (Seq<char>, JsonView)| (e.0, e.1->String_0),
    )) by {
        assert forall|k: int| 0 <= k < views.len() implies #[trigger] entries::text_entries(
            map@,
        )[k] == (views[k].0, views[k].1->String_0) by {
            assert(map@[k].0@ == views[k].0);
        }
    }
    Ok(map)
}

/// What a reply says of refused answers: paths with messages, and ids.
#[derive(Debug, PartialEq)]
pub struct ValidationDetails {
    pub errors: Vec<(String, String)>,
    pub missing_required: Vec<String>,
    pub unknown_fields: Vec<String>,
}

#[verifier::ext_equal]
pub struct DetailsView {
    pub errors: Seq<(Seq<char>, Seq<char>)>,
    pub missing_required: Seq<Seq<char>>,
    pub unknown_fields: Seq<Seq<char>>,
}

impl View for ValidationDetails {
    type V = DetailsView;

    open spec fn view(&self) -> DetailsView {
        DetailsView {
            errors: entries::text_entries(self.errors@),
            missing_required: text::texts(self.missing_required@),
            unknown_fields: text::texts(self.unknown_fields@),
        }
    }
}

/// The path and the message of a fault in a reply.
pub open spec fn fault_in(error: JsonView, catalog: CatalogView) -> (Seq<char>, Seq<char>) {
    (
        wizard::or_default(
            json::member_string(error, "path"@),
            catalog::message(catalog, "cli.common.unknown"@),
        ),
        wizard::or_default(
            json::member_string(error, "message"@),
            catalog::message(catalog, "cli.validate.failed"@),
        ),
    )
}

/// The items of a list in the part of a reply that speaks of refused answers.
pub open spec fn validation_items(response: JsonView, key: Seq<char>) -> Seq<JsonView> {
    match json::member(response, "validation"@) {
        Some(validation) => json::member_items(validation, key),
        None => Seq::empty(),
    }
}

/// What a reply says of refused answers.
pub open spec fn details_in(response: JsonView, catalog: CatalogView) -> DetailsView {
    DetailsView {
        errors: validation_items(response, "errors"@).map_values(
            |e: JsonView| fault_in(e, catalog),
        ),
        missing_required: json::strings_in(validation_items(response, "missing_required"@)),
        unknown_fields: json::strings_in(validation_items(response, "unknown_fields"@)),
    }
}

fn copy_validation_items(response: &Json, key: &str) -> (r: Vec<Json>)
    ensures
        json::items_view(r@) == validation_items(response@, key@),
{
    let none: Vec<Json> = Vec::new();
    assert(json::items_view(none@) =~= Seq::empty());
    match response.get("validation") {
        Some(validation) => match validation.get(key) {
            Some(list) => match list.as_array() {
                Some(items) => json::copy_items(items),
                None => none,
            },
            None => none,
        },
        None => none,
    }
}

fn text_or(text: Option<&str>, default: String) -> (r: String)
    ensures
        r@ == match text {
            Some(text) => text@,
            None => default@,
        },
{
    match text {
        Some(text) => text.to_owned(),
        None => default,
    }
}

/// Reads what a reply says of refused answers.
pub fn gather_validation_details(response: &Json, i18n: &I18n) -> (r: ValidationDetails)
    ensures
        r@ == details_in(response@, i18n@),
{
    let items = copy_validation_items(response, "errors");
    let ghost views = json::items_view(items@);
    let mut errors: Vec<(String, String)> = Vec::new();
    let mut i: usize = 0;
    while i < items.len()
        invariant
            i <= items@.len(),
            views == json::items_view(items@),
            errors@.len() == i,
            forall|k: int|
                0 <= k < i ==> ((#[trigger] errors@[k]).0@, errors@[k].1@) == fault_in(
                    views[k],
                    i18n@,
                ),
        decreases items.len() - i,
    {
        assert(views[i as int] == items@[i as int]@);
        let path = text_or(items[i].get_str("path"), t(i18n, "cli.common.unknown"));
        let message = text_or(items[i].get_str("message"), t(i18n, "cli.validate.failed"));
        errors.push((path, message));
        i += 1;
    }
    let missing_required = collect_strings(&copy_validation_items(response, "missing_required"));
    let unknown_fields = collect_strings(&copy_validation_items(response, "unknown_fields"));
    assert(entries::text_entries(errors@) =~= details_in(response@, i18n@).errors);
    ValidationDetails { errors, missing_required, unknown_fields }
}

/// The line about answers that are missing, or that no question asks for.
pub open spec fn fields_line(
    key: Seq<char>,
    fields: Seq<Seq<char>>,
    catalog: CatalogView,
) -> Seq<Seq<char>> {
    if fields.len() > 0 {
        seq![catalog::message_with(catalog, key, seq![("fields"@, text::joined(fields, ", "@))])]
    } else {
        Seq::empty()
    }
}

/// The lines about refused answers.
pub open spec fn details_lines(details: DetailsView, catalog: CatalogView) -> Seq<Seq<char>> {
    let faults = if details.errors.len() > 0 {
        seq![catalog::message(catalog, "cli.validate.errors_header"@)]
            + details.errors.map_values(
            |e: (Seq<char>, Seq<char>)| "  "@ + e.0 + ": "@ + e.1,
        )
    } else {
        Seq::empty()
    };
    faults + fields_line("cli.validate.missing_required"@, details.missing_required, catalog)
        + fields_line("cli.validate.unknown_fields"@, details.unknown_fields, catalog)
}

fn push_fields_line(lines: &mut Vec<String>, key: &str, fields: &Vec<String>, i18n: &I18n)
    ensures
        text::texts(final(lines)@) == text::texts(old(lines)@) + fields_line(
            key@,
            text::texts(fields@),
            i18n@,
        ),
{
    assert(text::texts(fields@).len() == fields@.len());
    if fields.len() > 0 {
        let list = join(fields, ", ");
        lines.push(tf1(i18n, key, "fields", list.as_str()));
    }
    assert(text::texts(lines@) =~= text::texts(old(lines)@) + fields_line(
        key@,
        text::texts(fields@),
        i18n@,
    ));
}

/// The lines about refused answers.
pub fn print_validation_errors(details: &ValidationDetails, i18n: &I18n) -> (r: Vec<String>)
    ensures
        text::texts(r@) == details_lines(details@, i18n@),
{
    let mut lines: Vec<String> = Vec::new();
    let ghost errors = details@.errors;
    let ghost shown = errors.map_values(|e: (Seq<char>, Seq<char>)| "  "@ + e.0 + ": "@ + e.1);
    assert(errors.len() == details.errors@.len());
    if details.errors.len() > 0 {
        let header = t(i18n, "cli.validate.errors_header");
        let ghost head = seq![header@];
        lines.push(header);
        assert(text::texts(lines@) =~= head + shown.take(0));
        let mut i: usize = 0;
        while i < details.errors.len()
            invariant
                i <= details.errors@.len(),
                errors == entries::text_entries(details.errors@),
                errors.len() == details.errors@.len(),
                shown == errors.map_values(
                    |e: (Seq<char>, Seq<char>)| "  "@ + e.0 + ": "@ + e.1,
                ),
                text::texts(lines@) == head + shown.take(i as int),
            decreases details.errors.len() - i,
        {
            let ghost before = text::texts(lines@);
            let line = cat(
                cat3("  ", details.errors[i].0.as_str(), ": ").as_str(),
                details.errors[i].1.as_str(),
            );
            assert(line@ == shown[i as int]);
            lines.push(line);
            assert(text::texts(lines@) =~= before.push(line@));
            assert(shown.take(i + 1) =~= shown.take(i as int).push(shown[i as int]));
            assert(head + shown.take(i + 1) =~= before.push(line@));
            i += 1;
        }
        assert(shown.take(i as int) =~= shown);
    }
    push_fields_line(
        &mut lines,
        "cli.validate.missing_required",
        &details.missing_required,
        i18n,
    );
    push_fields_line(&mut lines, "cli.validate.unknown_fields", &details.unknown_fields, i18n);
    assert(text::texts(lines@) =~= details_lines(details@, i18n@));
    lines
}

/// The text of a fault: a translated one where its message is a key.
pub open spec fn fault_text(error: ErrorView, catalog: CatalogView) -> Seq<char> {
    if text::begins_with(error.message, "qa_spec."@) {
        catalog::message_with(catalog, "cli.validate.error."@ + error.message, error.params)
    } else {
        error.message
    }
}

/// The text of a fault.
pub fn format_validation_error(error: &ValidationError, i18n: &I18n) -> (r: String)
    ensures
        r@ == fault_text(error@, i18n@),
{
    if !starts_with(error.message.as_str(), "qa_spec.") {
        return error.message.clone();
    }
    let key = cat("cli.validate.error.", error.message.as_str());
    let mut args: Vec<(&str, String)> = Vec::new();
    let mut i: usize = 0;
    while i < error.params.len()
        invariant
            i <= error.params@.len(),
            args@.len() == i,
            forall|k: int|
                0 <= k < i ==> (#[trigger] args@[k]).0@ == error.params@[k].0@ && args@[k].1@
                    == error.params@[k].1@,
        decreases error.params.len() - i,
    {
        args.push((error.params[i].0.as_str(), error.params[i].1.clone()));
        i += 1;
    }
    assert(catalog::args_view(args@) =~= error@.params);
    tf(i18n, key.as_str(), &args)
}

/// The line about a fault.
pub open spec fn fault_line(error: ErrorView, catalog: CatalogView) -> Seq<char> {
    "  "@ + wizard::or_default(
        error.path,
        catalog::message(catalog, "cli.common.unknown"@),
    ) + " - "@ + fault_text(error, catalog)
}

/// The lines about the outcome of checking answers.
pub open spec fn result_lines(result: ResultView, catalog: CatalogView) -> Seq<Seq<char>> {
    let faults = if result.errors.len() > 0 {
        seq![catalog::message(catalog, "cli.validate.errors_header"@)] + result.errors.map_values(
            |e: ErrorView| fault_line(e, catalog),
        )
    } else {
        Seq::empty()
    };
    faults + fields_line("cli.validate.missing_required"@, result.missing_required, catalog)
        + fields_line("cli.validate.unknown_fields"@, result.unknown_fields, catalog)
}

/// The lines about the outcome of checking answers.
pub fn describe_validation(result: &ValidationResult, i18n: &I18n) -> (r: Vec<String>)
    ensures
        text::texts(r@) == result_lines(result@, i18n@),
{
    let mut lines: Vec<String> = Vec::new();
    let ghost errors = result@.errors;
    let ghost shown = errors.map_values(|e: ErrorView| fault_line(e, i18n@));
    assert(errors.len() == result.errors@.len());
    if result.errors.len() > 0 {
        let header = t(i18n, "cli.validate.errors_header");
        let ghost head = seq![header@];
        lines.push(header);
        assert(text::texts(lines@) =~= head + shown.take(0));
        let mut i: usize = 0;
        while i < result.errors.len()
            invariant
                i <= result.errors@.len(),
                errors == answers::errors_view(result.errors@),
                errors.len() == result.errors@.len(),
                shown == errors.map_values(|e: ErrorView| fault_line(e, i18n@)),
                text::texts(lines@) == head + shown.take(i as int),
            decreases result.errors.len() - i,
        {
            let ghost before = text::texts(lines@);
            let error = &result.errors[i];
            assert(errors[i as int] == error@);
            let path = match &error.path {
                Some(path) => path.clone(),
                None => t(i18n, "cli.common.unknown"),
            };
            let line = cat(
                cat3("  ", path.as_str(), " - ").as_str(),
                format_validation_error(error, i18n).as_str(),
            );
            assert(line@ == shown[i as int]);
            lines.push(line);
            assert(text::texts(lines@) =~= before.push(line@));
            assert(shown.take(i + 1) =~= shown.take(i as int).push(shown[i as int]));
            assert(head + shown.take(i + 1) =~= before.push(line@));
            i += 1;
        }
        assert(shown.take(i as int) =~= shown);
    }
    push_fields_line(
        &mut lines,
        "cli.validate.missing_required",
        &result.missing_required,
        i18n,
    );
    push_fields_line(&mut lines, "cli.validate.unknown_fields", &result.unknown_fields, i18n);
    assert(text::texts(lines@) =~= result_lines(result@, i18n@));
    lines
}

/// The report on checked answers: its lines, and the failure where they are not
/// accepted.
pub open spec fn report_lines(result: ResultView, catalog: CatalogView) -> Seq<Seq<char>> {
    let word = if result.valid {
        catalog::message(catalog, "cli.validate.valid"@)
    } else {
        catalog::message(catalog, "cli.validate.invalid"@)
    };
    seq![catalog::message_with(catalog, "cli.validate.result"@, seq![("result"@, word)])]
        + result_lines(result, catalog)
}

/// Reports on checked answers.
pub fn run_validate(result: &ValidationResult, i18n: &I18n) -> (r: (Vec<String>, Option<String>))
    ensures
        text::texts(r.0@) == report_lines(result@, i18n@),
        text::opt_text(r.1) == if result.valid {
            None
        } else {
            Some(catalog::message(i18n@, "cli.validate.failed"@))
        },
{
    let word = if result.valid {
        t(i18n, "cli.validate.valid")
    } else {
        t(i18n, "cli.validate.invalid")
    };
    let mut lines: Vec<String> = Vec::new();
    lines.push(tf1(i18n, "cli.validate.result", "result", word.as_str()));
    let ghost head = text::texts(lines@);
    let mut rest = describe_validation(result, i18n);
    let ghost tail = text::texts(rest@);
    lines.append(&mut rest);
    assert(text::texts(lines@) =~= head + tail);
    assert(text::texts(lines@) =~= report_lines(result@, i18n@));
    let failure = if result.valid {
        None
    } else {
        Some(t(i18n, "cli.validate.failed"))
    };
    (lines, failure)
}

/// A question that waits for its answer.
#[derive(Debug, PartialEq)]
pub struct PendingQuestion {
    pub question_id: String,
    pub question: Json,
    pub prompt: PromptContext,
}

/// The first question of a rendered form with an id, from the `i`-th on.
pub open spec fn shown_question(
    questions: Seq<wizard::WizardQuestionView>,
    id: Seq<char>,
    i: int,
) -> Option<wizard::WizardQuestionView>
    decreases questions.len() - i,
{
    if i < 0 || i >= questions.len() {
        None
    } else if questions[i].id == id {
        Some(questions[i])
    } else {
        shown_question(questions, id, i + 1)
    }
}

/// The question that waits for its answer, or what a rendered form lacks.
pub open spec fn pending_in(ui: JsonView, payload: WizardPayloadView, catalog: CatalogView)
    -> Result<(Seq<char>, JsonView, PromptView), Seq<char>> {
    match json::member_string(ui, "next_question_id"@) {
        None => Err(catalog::message(catalog, "cli.wizard.next_question_missing"@)),
        Some(id) => match driver::question_in_ui(ui, id) {
            None => Err(
                catalog::message_with(
                    catalog,
                    "cli.wizard.question_not_found"@,
                    seq![("id"@, id)],
                ),
            ),
            Some(question) => match shown_question(payload.questions, id, 0) {
                None => Err(
                    catalog::message_with(
                        catalog,
                        "cli.wizard.payload_missing_question"@,
                        seq![("id"@, id)],
                    ),
                ),
                Some(info) => Ok(
                    (id, question, wizard::prompt_for(info, payload.progress, catalog)),
                ),
            },
        },
    }
}

proof fn lemma_shown_question(
    questions: Seq<wizard::WizardQuestionView>,
    id: Seq<char>,
    from: int,
    at: int,
)
    requires
        0 <= from <= at <= questions.len(),
        forall|j: int| from <= j < at ==> (#[trigger] questions[j]).id != id,
        at < questions.len() ==> questions[at].id == id,
    ensures
        shown_question(questions, id, from) == if at < questions.len() {
            Some(questions[at])
        } else {
            None
        },
    decreases at - from,
{
    if from < at {
        lemma_shown_question(questions, id, from + 1, at);
    }
}

/// Finds a rendered question.
pub fn find_question(ui: &Json, question_id: &str, i18n: &I18n) -> (r: Result<Json, String>)
    ensures
        match r {
            Ok(question) => driver::question_in_ui(ui@, question_id@) == Some(question@),
            Err(message) => driver::question_in_ui(ui@, question_id@) is None && message@
                == catalog::message_with(
                i18n@,
                "cli.wizard.question_not_found"@,
                seq![("id"@, question_id@)],
            ),
        },
{
    match lookup_question(ui, question_id) {
        Some(question) => Ok(question),
        None => Err(tf1(i18n, "cli.wizard.question_not_found", "id", question_id)),
    }
}

/// Finds the question that waits for its answer.
pub fn pending_question(ui: &Json, payload: &WizardPayload, i18n: &I18n) -> (r: Result<
    PendingQuestion,
    String,
>)
    requires
        payload.progress.answered < usize::MAX,
    ensures
        match r {
            Ok(pending) => pending_in(ui@, payload@, i18n@) == Ok::<
                (Seq<char>, JsonView, PromptView),
                Seq<char>,
            >((pending.question_id@, pending.question@, pending.prompt@)),
            Err(message) => pending_in(ui@, payload@, i18n@) == Err::<
                (Seq<char>, JsonView, PromptView),
                Seq<char>,
            >(message@),
        },
{
    let question_id = match ui.get_str("next_question_id") {
        Some(id) => id.to_owned(),
        None => {
            return Err(t(i18n, "cli.wizard.next_question_missing"));
        },
    };
    let question = match find_question(ui, question_id.as_str(), i18n) {
        Ok(question) => question,
        Err(message) => {
            return Err(message);
        },
    };
    let ghost views = payload@.questions;
    match payload.question(question_id.as_str()) {
        Some(info) => {
            proof {
                let at = choose|i: int|
                    0 <= i < payload.questions@.len() && *info == #[trigger] payload.questions@[i]
                        && forall|j: int|
                        0 <= j < i ==> (#[trigger] payload.questions@[j]).id@ != question_id@;
                assert(views[at] == info@);
                assert forall|j: int| 0 <= j < at implies (#[trigger] views[j]).id
                    != question_id@ by {
                    assert(views[j] == payload.questions@[j]@);
                }
                lemma_shown_question(views, question_id@, 0, at);
            }
            let prompt = PromptContext::new(info, &payload.progress, i18n);
            Ok(PendingQuestion { question_id, question, prompt })
        },
        None => {
            proof {
                assert forall|j: int| 0 <= j < views.len() implies (#[trigger] views[j]).id
                    != question_id@ by {
                    assert(views[j] == payload.questions@[j]@);
                }
                lemma_shown_question(views, question_id@, 0, views.len() as int);
            }
            Err(tf1(i18n, "cli.wizard.payload_missing_question", "id", question_id.as_str()))
        },
    }
}

/// What a turn of the wizard comes to: it fails, the form is complete, or a
/// question waits for its answer.
#[derive(Debug, PartialEq)]
pub enum WizardTurn {
    Failed(String),
    Complete,
    Ask(PendingQuestion),
}

#[verifier::ext_equal]
pub enum TurnView {
    Failed(Seq<char>),
    Complete,
    Ask(Seq<char>, JsonView, PromptView),
}

impl View for WizardTurn {
    type V = TurnView;

    open spec fn view(&self) -> TurnView {
        match *self {
            WizardTurn::Failed(message) => TurnView::Failed(message@),
            WizardTurn::Complete => TurnView::Complete,
            WizardTurn::Ask(pending) => TurnView::Ask(
                pending.question_id@,
                pending.question@,
                pending.prompt@,
            ),
        }
    }
}

/// The lines of a turn after the rendered form: the header where it was not given
/// before, and the state of the form.
pub open spec fn turn_lines(
    presenter: WizardPresenter,
    payload: WizardPayloadView,
    catalog: CatalogView,
) -> Seq<Seq<char>> {
    let header = if presenter.header_printed {
        Seq::empty()
    } else {
        wizard::header_lines(presenter.verbosity, payload, catalog)
    };
    header + wizard::status_lines(presenter.verbosity, payload, catalog)
}

/// What a turn of the wizard comes to, and its lines after the rendered form.
pub open spec fn turn_of(ui: JsonView, presenter: WizardPresenter, catalog: CatalogView) -> (
    Seq<Seq<char>>,
    TurnView,
) {
    match wizard::payload_in(ui, catalog) {
        Err(message) => (
            Seq::empty(),
            TurnView::Failed(
                catalog::message_with(
                    catalog,
                    "cli.wizard.ui_error"@,
                    seq![("error"@, message)],
                ),
            ),
        ),
        Ok(payload) => (
            turn_lines(presenter, payload, catalog),
            if payload.status is Complete {
                TurnView::Complete
            } else {
                match pending_in(ui, payload, catalog) {
                    Ok((id, question, prompt)) => TurnView::Ask(id, question, prompt),
                    Err(message) => TurnView::Failed(message),
                }
            },
        ),
    }
}

/// A list with a line in front, where there is one.
pub open spec fn after_line(line: Option<Seq<char>>, lines: Seq<Seq<char>>) -> Seq<Seq<char>> {
    match line {
        Some(line) => seq![line] + lines,
        None => lines,
    }
}

/// What a turn of the wizard on a rendered form comes to: its lines, what comes
/// next, and the presenter after it.
pub open spec fn whole_turn(
    mode: RenderMode,
    payload: Seq<char>,
    ui_raw: &str,
    presenter: WizardPresenter,
    catalog: CatalogView,
) -> (Seq<Seq<char>>, TurnView, WizardPresenter) {
    match json_text::json_of_text(ui_raw@) {
        Err(details) => (Seq::empty(), TurnView::Failed(details), presenter),
        Ok(ui) => (
            after_line(
                render_line(mode, payload, Some(ui_raw), catalog),
                turn_of(ui, presenter, catalog).0,
            ),
            turn_of(ui, presenter, catalog).1,
            WizardPresenter {
                header_printed: presenter.header_printed || wizard::payload_in(ui, catalog) is Ok,
                ..presenter
            },
        ),
    }
}

/// Whether the question that a rendered form waits for can be numbered.
pub open spec fn can_be_numbered(ui_raw: Seq<char>, catalog: CatalogView) -> bool {
    json_text::json_of_text(ui_raw) matches Ok(ui) ==> wizard::payload_in(ui, catalog) matches Ok(
        payload,
    ) ==> payload.status is Complete || payload.progress.answered < usize::MAX
}

/// Takes a turn of the wizard: the lines to print, and what comes next.
pub fn take_turn(
    mode: RenderMode,
    payload: &str,
    ui_raw: &str,
    presenter: &mut WizardPresenter,
    i18n: &I18n,
) -> (r: (Vec<String>, WizardTurn))
    requires
        can_be_numbered(ui_raw@, i18n@),
    ensures
        (text::texts(r.0@), r.1@, *final(presenter)) == whole_turn(
            mode,
            payload@,
            ui_raw,
            *old(presenter),
            i18n@,
        ),
{
    let mut lines: Vec<String> = Vec::new();
    let ui = match parse_json(ui_raw) {
        Ok(ui) => ui,
        Err(details) => {
            assert(text::texts(lines@) =~= Seq::empty());
            return (lines, WizardTurn::Failed(details));
        },
    };
    let ghost line = render_line(mode, payload@, Some(ui_raw), i18n@);
    if let Some(shown) = print_render_output(mode, payload, Some(ui_raw), i18n) {
        lines.push(shown);
    }
    let ghost head = text::texts(lines@);
    assert(head =~= after_line(line, Seq::empty()));
    let read = match WizardPayload::from_json(&ui, i18n) {
        Ok(read) => read,
        Err(message) => {
            let failure = tf1(i18n, "cli.wizard.ui_error", "error", message.as_str());
            return (lines, WizardTurn::Failed(failure));
        },
    };
    let mut header = presenter.show_header(&read, i18n);
    let ghost header_view = text::texts(header@);
    lines.append(&mut header);
    assert(text::texts(lines@) =~= head + header_view);
    let mut status = presenter.show_status(&read, i18n);
    let ghost status_view = text::texts(status@);
    lines.append(&mut status);
    assert(text::texts(lines@) =~= head + header_view + status_view);
    assert(text::texts(lines@) =~= after_line(line, turn_of(ui@, *old(presenter), i18n@).0));
    if read.status == RenderStatus::Complete {
        return (lines, WizardTurn::Complete);
    }
    match pending_question(&ui, &read, i18n) {
        Ok(pending) => (lines, WizardTurn::Ask(pending)),
        Err(message) => (lines, WizardTurn::Failed(message)),
    }
}

/// Takes a turn of the wizard, unless the question that it would ask cannot be
/// numbered.
pub fn take_numbered_turn(
    mode: RenderMode,
    payload: &str,
    ui_raw: &str,
    presenter: &mut WizardPresenter,
    i18n: &I18n,
) -> (r: Option<(Vec<String>, WizardTurn)>)
    ensures
        match r {
            Some(turn) => can_be_numbered(ui_raw@, i18n@) && (
                text::texts(turn.0@),
                turn.1@,
                *final(presenter),
            ) == whole_turn(mode, payload@, ui_raw, *old(presenter), i18n@),
            None => !can_be_numbered(ui_raw@, i18n@) && *final(presenter) == *old(presenter),
        },
{
    if let Ok(ui) = parse_json(ui_raw) {
        if let Ok(read) = WizardPayload::from_json(&ui, i18n) {
            if read.status != RenderStatus::Complete && read.progress.answered == usize::MAX {
                return None;
            }
        }
    }
    Some(take_turn(mode, payload, ui_raw, presenter, i18n))
}

/// What a line that was typed in comes to: the end of the run, an answer, or a
/// refusal.
#[derive(Debug, PartialEq)]
pub enum AnswerStep {
    Aborted(String),
    Accepted(Json),
    Refused(AnswerParseError),
}

/// Takes a line that was typed in as the answer to a question.
pub fn read_answer(question: &Json, input: &str, i18n: &I18n) -> (r: AnswerStep)
    ensures
        ({
            let line = text::trimmed(input@);
            if text::equal_ignoring_ascii_case(line, "exit"@) {
                r matches AnswerStep::Aborted(message) && message@ == catalog::message(
                    i18n@,
                    "cli.wizard.aborted"@,
                )
            } else {
                match typed::answer_typed(question@, line, i18n@) {
                    Ok(answer) => r matches AnswerStep::Accepted(value) && value@ == answer,
                    Err(fault) => r matches AnswerStep::Refused(error) && error@ == fault,
                }
            }
        }),
{
    let line = trim(input);
    if same_ignoring_ascii_case(line.as_str(), "exit") {
        return AnswerStep::Aborted(t(i18n, "cli.wizard.aborted"));
    }
    match parse_answer(question, line.as_str(), i18n) {
        Ok(value) => AnswerStep::Accepted(value),
        Err(error) => AnswerStep::Refused(error),
    }
}

/// The lines about a submission: what was found, where it was refused.
pub open spec fn review_lines(response: JsonView, catalog: CatalogView) -> Seq<Seq<char>> {
    if driver::has_status(response, "error"@) {
        details_lines(details_in(response, catalog), catalog)
    } else {
        Seq::empty()
    }
}

/// The lines about a submission.
pub fn review_submission(response: &Json, i18n: &I18n) -> (r: Vec<String>)
    ensures
        text::texts(r@) == review_lines(response@, i18n@),
{
    let refused = match response.get_str("status") {
        Some(status) => same(status, "error"),
        None => false,
    };
    if refused {
        print_validation_errors(&gather_validation_details(response, i18n), i18n)
    } else {
        let none: Vec<String> = Vec::new();
        assert(text::texts(none@) =~= Seq::empty());
        none
    }
}

/// The place that is asked for, else the one that the environment names, else
/// here.
pub open spec fn output_place(out: Option<Seq<char>>, env: Option<Seq<char>>) -> Seq<char> {
    match out {
        Some(path) => path,
        None => match env {
            Some(path) => path,
            None => "."@,
        },
    }
}

/// The place that is asked for, else the one that the environment names, else
/// here.
pub fn output_candidate(out: &Option<String>, env: &Option<String>) -> (r: String)
    ensures
        r@ == output_place(text::opt_text(*out), text::opt_text(*env)),
{
    match out {
        Some(path) => path.clone(),
        None => match env {
            Some(path) => path.clone(),
            None => ".".to_owned(),
        },
    }
}

/// Where bundles go. A place without a name is refused, and so is one that is not
/// allowed.
pub open spec fn output_root(
    out: Option<Seq<char>>,
    env: Option<Seq<char>>,
    allowed: Result<(), Seq<char>>,
    catalog: CatalogView,
) -> Result<Seq<char>, Seq<char>> {
    let candidate = output_place(out, env);
    if candidate.len() == 0 {
        Err(catalog::message(catalog, "cli.output_dir.empty"@))
    } else {
        match allowed {
            Ok(_) => Ok(candidate),
            Err(message) => Err(message),
        }
    }
}

/// A refusal, viewed.
pub open spec fn refusal_view(allowed: Result<(), String>) -> Result<(), Seq<char>> {
    match allowed {
        Ok(_) => Ok(()),
        Err(message) => Err(message@),
    }
}

/// Says where bundles go: `allowed` is what `ensure_allowed_root` says of the
/// candidate.
pub fn resolve_output_root(
    out: &Option<String>,
    env: &Option<String>,
    allowed: Result<(), String>,
    i18n: &I18n,
) -> (r: Result<String, String>)
    ensures
        match r {
            Ok(path) => output_root(
                text::opt_text(*out),
                text::opt_text(*env),
                refusal_view(allowed),
                i18n@,
            ) == Ok::<Seq<char>, Seq<char>>(path@),
            Err(message) => output_root(
                text::opt_text(*out),
                text::opt_text(*env),
                refusal_view(allowed),
                i18n@,
            ) == Err::<Seq<char>, Seq<char>>(message@),
        },
{
    let candidate = output_candidate(out, env);
    if text::chars_of(candidate.as_str()).len() == 0 {
        return Err(t(i18n, "cli.output_dir.empty"));
    }
    match allowed {
        Ok(_) => Ok(candidate),
        Err(message) => Err(message),
    }
}

/// The roots that a setting names, with colons between them.
pub fn allowed_roots(setting: &str) -> (r: Vec<String>)
    ensures
        text::texts(r@) == crate::console::words_in(text::pieces(setting@, ':')),
{
    let pieces = split(setting, ':');
    let ghost views = text::texts(pieces@);
    let mut out: Vec<String> = Vec::new();
    let mut i: usize = 0;
    assert(views.take(0) =~= Seq::empty());
    assert(text::texts(out@) =~= Seq::empty());
    while i < pieces.len()
        invariant
            i <= pieces@.len(),
            views == text::texts(pieces@),
            text::texts(out@) == crate::console::words_in(views.take(i as int)),
        decreases pieces.len() - i,
    {
        assert(views.take(i + 1).drop_last() =~= views.take(i as int));
        assert(views.take(i + 1).last() == pieces@[i as int]@);
        if !blank(pieces[i].as_str()) {
            let ghost before = text::texts(out@);
            let word = trim(pieces[i].as_str());
            out.push(word);
            assert(text::texts(out@) =~= before.push(word@));
        }
        i += 1;
    }
    assert(views.take(i as int) =~= views);
    out
}

/// Whether a path is within one of several roots.
pub open spec fn within_some(rules: RulesView, path: Seq<char>, roots: Seq<Seq<char>>) -> bool {
    exists|i: int| 0 <= i < roots.len() && paths::within(rules, path, #[trigger] roots[i])
}

/// A place outside the roots that is not writable either is refused.
pub open spec fn allowed_root(
    rules: RulesView,
    target: Seq<char>,
    roots: Seq<Seq<char>>,
    writable: bool,
) -> Result<(), Seq<char>> {
    if writable || within_some(rules, target, roots) {
        Ok(())
    } else {
        Err(
            "path '"@ + target + "' is outside allowed roots "@ + paths::debug_paths(rules, roots),
        )
    }
}

/// Refuses a place outside the roots that is not writable either.
pub fn ensure_allowed_root(
    rules: &PathRules,
    target: &str,
    roots: &Vec<String>,
    writable: bool,
) -> (r: Result<(), String>)
    ensures
        refusal_view(r) == allowed_root(rules@, target@, text::texts(roots@), writable),
{
    let ghost views = text::texts(roots@);
    let mut i: usize = 0;
    while i < roots.len()
        invariant
            i <= roots@.len(),
            views == text::texts(roots@),
            forall|k: int| 0 <= k < i ==> !paths::within(rules@, target@, #[trigger] views[k]),
        decreases roots.len() - i,
    {
        assert(views[i as int] == roots@[i as int]@);
        if path_within(rules, target, roots[i].as_str()) {
            assert(within_some(rules@, target@, views));
            return Ok(());
        }
        i += 1;
    }
    assert(views.len() == roots@.len());
    if writable {
        return Ok(());
    }
    let head = cat3("path '", target, "' is outside allowed roots ");
    Err(cat(head.as_str(), show_paths(rules, roots).as_str()))
}

/// What is found at a path.
#[derive(Debug, Clone, Copy, PartialEq, Eq, Structural)]
pub enum Place {
    Absent,
    Unreadable,
    ReadOnly,
    Writable,
}

/// Whether the first place that is not absent, from the `i`-th on, is writable.
pub open spec fn first_is_writable(places: Seq<Place>, i: int) -> bool
    decreases places.len() - i,
{
    if i < 0 || i >= places.len() {
        false
    } else if places[i] is Absent {
        first_is_writable(places, i + 1)
    } else {
        places[i] is Writable
    }
}

/// Whether a path is writable: `places` are what is found at it, at its parent,
/// and so on.
pub fn path_is_writable(places: &Vec<Place>) -> (r: bool)
    ensures
        r == first_is_writable(places@, 0),
{
    let mut i: usize = 0;
    while i < places.len()
        invariant
            i <= places@.len(),
            first_is_writable(places@, 0) == first_is_writable(places@, i as int),
        decreases places.len() - i,
    {
        if places[i] != Place::Absent {
            return places[i] == Place::Writable;
        }
        i += 1;
    }
    false
}

/// A path in full: where it is there, else below its parent where that is there,
/// else below the working directory.
pub open spec fn full_path(
    rules: RulesView,
    path: Seq<char>,
    there: Option<Seq<char>>,
    parent: Option<Seq<char>>,
    here: Seq<char>,
) -> Seq<char> {
    match there {
        Some(found) => found,
        None => match parent {
            Some(parent) => match paths::last_name(rules, path) {
                Some(name) => paths::below(rules, parent, name),
                None => parent,
            },
            None => paths::below(rules, here, path),
        },
    }
}

/// A path in full: `there` and `parent` are it and its parent in full where they
/// are there, and `here` is the working directory.
pub fn canonicalize_target(
    rules: &PathRules,
    path: &str,
    there: Option<String>,
    parent: Option<String>,
    here: &str,
) -> (r: String)
    ensures
        r@ == full_path(rules@, path@, text::opt_text(there), text::opt_text(parent), here@),
{
    match there {
        Some(found) => found,
        None => match parent {
            Some(parent) => match file_name(rules, path) {
                Some(name) => join_path(rules, parent.as_str(), name.as_str()),
                None => parent,
            },
            None => join_path(rules, here, path),
        },
    }
}

/// Whether a bundle that is there is to be removed first. Without force it is
/// refused.
pub fn bundle_slot(exists_there: bool, force: bool, path: &str, i18n: &I18n) -> (r: Result<
    bool,
    String,
>)
    ensures
        match r {
            Ok(remove) => (force || !exists_there) && remove == exists_there,
            Err(message) => exists_there && !force && message@ == catalog::message_with(
                i18n@,
                "cli.bundle.exists"@,
                seq![("path"@, path@)],
            ),
        },
{
    if exists_there && !force {
        return Err(tf1(i18n, "cli.bundle.exists", "path", path));
    }
    Ok(exists_there)
}

/// The lines about a bundle that was made: its place, and its parts as indented
/// JSON where they are asked for.
pub open spec fn bundle_lines(
    path: Seq<char>,
    details: Option<(Seq<char>, Seq<char>, Seq<char>, Seq<char>)>,
    catalog: CatalogView,
) -> Seq<Seq<char>> {
    let made = catalog::message_with(catalog, "cli.bundle.generated"@, seq![("path"@, path)]);
    match details {
        Some((spec, flow, schema, examples)) => seq![
            made,
            catalog::message(catalog, "cli.bundle.details"@),
            catalog::message(catalog, "cli.bundle.form_spec"@),
            spec,
            catalog::message(catalog, "cli.bundle.flow_spec"@),
            flow,
            catalog::message(catalog, "cli.bundle.answer_schema"@),
            schema,
            catalog::message(catalog, "cli.bundle.example_answers"@),
            examples,
        ],
        None => seq![made],
    }
}

/// The parts of a bundle as indented JSON.
#[derive(Debug, PartialEq)]
pub struct BundleTexts {
    pub spec: String,
    pub flow: String,
    pub schema: String,
    pub examples: String,
}

/// The parts of a bundle, viewed.
pub open spec fn texts_view(details: Option<BundleTexts>) -> Option<
    (Seq<char>, Seq<char>, Seq<char>, Seq<char>),
> {
    match details {
        Some(d) => Some((d.spec@, d.flow@, d.schema@, d.examples@)),
        None => None,
    }
}

/// The lines about a bundle that was made.
pub fn dump_bundle(path: &str, details: Option<BundleTexts>, i18n: &I18n) -> (r: Vec<String>)
    ensures
        text::texts(r@) == bundle_lines(path@, texts_view(details), i18n@),
{
    let mut lines: Vec<String> = Vec::new();
    lines.push(tf1(i18n, "cli.bundle.generated", "path", path));
    let ghost wanted = bundle_lines(path@, texts_view(details), i18n@);
    if let Some(parts) = details {
        lines.push(t(i18n, "cli.bundle.details"));
        lines.push(t(i18n, "cli.bundle.form_spec"));
        lines.push(parts.spec);
        lines.push(t(i18n, "cli.bundle.flow_spec"));
        lines.push(parts.flow);
        lines.push(t(i18n, "cli.bundle.answer_schema"));
        lines.push(parts.schema);
        lines.push(t(i18n, "cli.bundle.example_answers"));
        lines.push(parts.examples);
    }
    assert(text::texts(lines@) =~= wanted);
    lines
}

/// Bundles go to a place exactly where it has a name and is writable or within the
/// roots. It is the place that is asked for, where one is.
pub proof fn law_output_is_allowed(
    rules: RulesView,
    out: Option<Seq<char>>,
    env: Option<Seq<char>>,
    target: Seq<char>,
    roots: Seq<Seq<char>>,
    writable: bool,
    catalog: CatalogView,
)
    ensures
        ({
            let r = output_root(out, env, allowed_root(rules, target, roots, writable), catalog);
            &&& r is Ok <==> output_place(out, env).len() > 0 && (writable || within_some(
                rules,
                target,
                roots,
            ))
            &&& r matches Ok(path) ==> path == output_place(out, env) && (out matches Some(asked)
                ==> path == asked)
        }),
{
}

/// Another root takes nothing out of what the roots hold, and a path with slashes
/// is within itself.
pub proof fn law_roots_grow(
    rules: RulesView,
    path: Seq<char>,
    roots: Seq<Seq<char>>,
    more: Seq<char>,
)
    ensures
        within_some(rules, path, roots) ==> within_some(rules, path, roots.push(more)),
        paths::slashes(rules) ==> paths::within(rules, path, path),
{
    if within_some(rules, path, roots) {
        let i = choose|i: int|
            0 <= i < roots.len() && paths::within(rules, path, #[trigger] roots[i]);
        assert(roots.push(more)[i] == roots[i]);
    }
    let parts = paths::slash_parts(path);
    assert(parts.take(parts.len() as int) =~= parts);
}

/// Nothing of a payload is shown beside the wizard's own text; a card is shown as it
/// is, and the questions as they were told where they were.
pub proof fn law_render_line(
    mode: RenderMode,
    payload: Seq<char>,
    ui: Option<&str>,
    catalog: CatalogView,
)
    ensures
        ({
            let line = render_line(mode, payload, ui, catalog);
            &&& line is None <==> mode is Text
            &&& mode is Card ==> line == Some(
                catalog::message_with(
                    catalog,
                    "cli.output.adaptive_card"@,
                    seq![("payload"@, payload)],
                ),
            )
            &&& mode is Json && ui is None ==> line == Some(
                catalog::message_with(catalog, "cli.output.json_ui"@, seq![("payload"@, payload)]),
            )
            &&& mode is Json && ui is Some ==> line == Some(
                catalog::message_with(catalog, "cli.output.json_ui"@, seq![("payload"@, ui->0@)]),
            )
        }),
{
}

/// A file of resolved texts holds an object of texts and nothing else; each member is
/// a text under its key.
pub proof fn law_flat_map(raw: Seq<char>, catalog: CatalogView)
    ensures
        ({
            let map = flat_map(raw, catalog);
            match json_text::json_of_text(raw) {
                Err(details) => map == Err::<Seq<(Seq<char>, Seq<char>)>, Seq<char>>(details),
                Ok(value) => {
                    &&& map is Ok <==> value is Object && forall|i: int|
                        0 <= i < value->Object_0.len() ==> (#[trigger] value->Object_0[i]).1
                            is String
                    &&& map matches Ok(texts) ==> texts.len() == value->Object_0.len() && forall|
                        i: int,
                    |
                        0 <= i < texts.len() ==> value->Object_0[i] == (
                            (#[trigger] texts[i]).0,
                            JsonView::String(texts[i].1),
                        )
                    &&& map matches Err(told) ==> told == catalog::message(
                        catalog,
                        "cli.i18n_resolved.flat_map_required"@,
                    )
                },
            }
        }),
{
    match json_text::json_of_text(raw) {
        Ok(JsonView::Object(members)) => {
            if all_strings(members) {
                let texts = flat_map(raw, catalog)->Ok_0;
                assert forall|i: int| 0 <= i < texts.len() implies members[i] == (
                    (#[trigger] texts[i]).0,
                    JsonView::String(texts[i].1),
                ) by {
                    assert(members[i].1 is String);
                }
            }
        },
        _ => {},
    }
}

/// The details of a refusal are each of its errors, with what is said in place of a
/// path or a message that it lacks, and the texts among the missing and the unknown
/// fields.
pub proof fn law_details_in(response: JsonView, validation: JsonView, catalog: CatalogView)
    requires
        json::member(response, "validation"@) == Some(validation),
    ensures
        ({
            let details = details_in(response, catalog);
            let errors = json::member_items(validation, "errors"@);
            &&& details.errors.len() == errors.len()
            &&& forall|i: int|
                0 <= i < errors.len() ==> {
                    &&& (#[trigger] details.errors[i]).0 == match json::member(errors[i], "path"@) {
                        Some(JsonView::String(path)) => path,
                        _ => catalog::message(catalog, "cli.common.unknown"@),
                    }
                    &&& details.errors[i].1 == match json::member(errors[i], "message"@) {
                        Some(JsonView::String(message)) => message,
                        _ => catalog::message(catalog, "cli.validate.failed"@),
                    }
                }
            &&& details.missing_required == json::strings_in(
                json::member_items(validation, "missing_required"@),
            )
            &&& details.unknown_fields == json::strings_in(
                json::member_items(validation, "unknown_fields"@),
            )
        }),
{
}

/// A response without a check has no details.
pub proof fn law_no_details(response: JsonView, catalog: CatalogView)
    requires
        json::member(response, "validation"@) is None,
    ensures
        ({
            let details = details_in(response, catalog);
            details.errors.len() == 0 && details.missing_required.len() == 0
                && details.unknown_fields.len() == 0
        }),
        details_lines(details_in(response, catalog), catalog).len() == 0,
{
    assert(json::strings_in(Seq::empty()).len() == 0);
}

/// The details are shown each error on a line of its own under a header, and the
/// missing and the unknown fields on one line each, where there are any.
pub proof fn law_details_lines(details: DetailsView, catalog: CatalogView)
    ensures
        ({
            let lines = details_lines(details, catalog);
            let faults: int = if details.errors.len() > 0 {
                1 + details.errors.len() as int
            } else {
                0
            };
            let missing: int = if details.missing_required.len() > 0 {
                1
            } else {
                0
            };
            let unknown: int = if details.unknown_fields.len() > 0 {
                1
            } else {
                0
            };
            &&& lines.len() == faults + missing + unknown
            &&& details.errors.len() > 0 ==> lines[0] == catalog::message(
                catalog,
                "cli.validate.errors_header"@,
            )
            &&& forall|i: int|
                0 <= i < details.errors.len() ==> lines[1 + i] == "  "@ + (
                #[trigger] details.errors[i]).0 + ": "@ + details.errors[i].1
            &&& missing == 1 ==> lines[faults] == catalog::message_with(
                catalog,
                "cli.validate.missing_required"@,
                seq![("fields"@, text::joined(details.missing_required, ", "@))],
            )
            &&& unknown == 1 ==> lines[faults + missing] == catalog::message_with(
                catalog,
                "cli.validate.unknown_fields"@,
                seq![("fields"@, text::joined(details.unknown_fields, ", "@))],
            )
        }),
{
    let lines = details_lines(details, catalog);
    assert forall|i: int| 0 <= i < details.errors.len() implies lines[1 + i] == "  "@ + (
    #[trigger] details.errors[i]).0 + ": "@ + details.errors[i].1 by {}
}

/// A fault is shown at its path, in the catalog's words where its message is a key of
/// the form checks, and in its own words where it is not.
pub proof fn law_fault_line(error: ErrorView, catalog: CatalogView)
    ensures
        ({
            let place = match error.path {
                Some(path) => path,
                None => catalog::message(catalog, "cli.common.unknown"@),
            };
            let words = if text::begins_with(error.message, "qa_spec."@) {
                catalog::message_with(
                    catalog,
                    "cli.validate.error."@ + error.message,
                    error.params,
                )
            } else {
                error.message
            };
            fault_line(error, catalog) == "  "@ + place + " - "@ + words
        }),
{
}

/// A report says whether the answers are valid, and then what was found: each fault
/// on a line of its own under a header, and the missing and the unknown fields on one
/// line each.
pub proof fn law_report_lines(result: ResultView, catalog: CatalogView)
    ensures
        ({
            let lines = report_lines(result, catalog);
            let faults: int = if result.errors.len() > 0 {
                1 + result.errors.len() as int
            } else {
                0
            };
            let missing: int = if result.missing_required.len() > 0 {
                1
            } else {
                0
            };
            let unknown: int = if result.unknown_fields.len() > 0 {
                1
            } else {
                0
            };
            &&& lines.len() == 1 + faults + missing + unknown
            &&& result.valid ==> lines[0] == catalog::message_with(
                catalog,
                "cli.validate.result"@,
                seq![("result"@, catalog::message(catalog, "cli.validate.valid"@))],
            )
            &&& !result.valid ==> lines[0] == catalog::message_with(
                catalog,
                "cli.validate.result"@,
                seq![("result"@, catalog::message(catalog, "cli.validate.invalid"@))],
            )
            &&& result.errors.len() > 0 ==> lines[1] == catalog::message(
                catalog,
                "cli.validate.errors_header"@,
            )
            &&& forall|i: int|
                0 <= i < result.errors.len() ==> lines[2 + i] == fault_line(
                    #[trigger] result.errors[i],
                    catalog,
                )
            &&& missing == 1 ==> lines[1 + faults] == catalog::message_with(
                catalog,
                "cli.validate.missing_required"@,
                seq![("fields"@, text::joined(result.missing_required, ", "@))],
            )
            &&& unknown == 1 ==> lines[1 + faults + missing] == catalog::message_with(
                catalog,
                "cli.validate.unknown_fields"@,
                seq![("fields"@, text::joined(result.unknown_fields, ", "@))],
            )
        }),
{
    let lines = report_lines(result, catalog);
    assert forall|i: int| 0 <= i < result.errors.len() implies lines[2 + i] == fault_line(
        #[trigger] result.errors[i],
        catalog,
    ) by {}
}

/// The question that is asked next is the one that the component names, with what the
/// component tells of it and what the wizard shows of it.
pub proof fn law_pending(ui: JsonView, payload: WizardPayloadView, catalog: CatalogView, at: int)
    ensures
        ({
            let pending = pending_in(ui, payload, catalog);
            let next = json::member(ui, "next_question_id"@);
            let named = next is Some && next->0 is String;
            let id = next->0->String_0;
            let found = driver::question_in_ui(ui, id);
            &&& !named ==> pending == Err::<(Seq<char>, JsonView, PromptView), Seq<char>>(
                catalog::message(catalog, "cli.wizard.next_question_missing"@),
            )
            &&& named && found is None ==> pending == Err::<
                (Seq<char>, JsonView, PromptView),
                Seq<char>,
            >(
                catalog::message_with(
                    catalog,
                    "cli.wizard.question_not_found"@,
                    seq![("id"@, id)],
                ),
            )
            &&& named && found is Some && 0 <= at < payload.questions.len()
                && payload.questions[at].id == id && (forall|j: int|
                0 <= j < at ==> (#[trigger] payload.questions[j]).id != id) ==> pending == Ok::<
                (Seq<char>, JsonView, PromptView),
                Seq<char>,
            >(
                (
                    id,
                    found->0,
                    wizard::prompt_for(payload.questions[at], payload.progress, catalog),
                ),
            )
            &&& named && found is Some && (forall|j: int|
                0 <= j < payload.questions.len() ==> (#[trigger] payload.questions[j]).id != id)
                ==> pending == Err::<(Seq<char>, JsonView, PromptView), Seq<char>>(
                catalog::message_with(
                    catalog,
                    "cli.wizard.payload_missing_question"@,
                    seq![("id"@, id)],
                ),
            )
        }),
{
    let next = json::member(ui, "next_question_id"@);
    if next is Some && next->0 is String {
        let id = next->0->String_0;
        let questions = payload.questions;
        if 0 <= at < questions.len() && questions[at].id == id && forall|j: int|
            0 <= j < at ==> (#[trigger] questions[j]).id != id {
            lemma_shown_question(questions, id, 0, at);
        }
        if forall|j: int| 0 <= j < questions.len() ==> (#[trigger] questions[j]).id != id {
            lemma_shown_question(questions, id, 0, questions.len() as int);
        }
    }
}

/// A turn ends where the component says that the form is complete; it asks the next
/// question where there is one, and fails with what is wrong otherwise. The header is
/// shown once.
pub proof fn law_turn(ui: JsonView, presenter: WizardPresenter, catalog: CatalogView)
    ensures
        ({
            let (lines, turn) = turn_of(ui, presenter, catalog);
            match wizard::payload_in(ui, catalog) {
                Err(message) => lines.len() == 0 && turn == TurnView::Failed(
                    catalog::message_with(
                        catalog,
                        "cli.wizard.ui_error"@,
                        seq![("error"@, message)],
                    ),
                ),
                Ok(payload) => {
                    let status = wizard::status_lines(presenter.verbosity, payload, catalog);
                    &&& turn is Complete <==> payload.status is Complete
                    &&& !(payload.status is Complete) ==> match pending_in(ui, payload, catalog) {
                        Ok((id, question, prompt)) => turn == TurnView::Ask(id, question, prompt),
                        Err(message) => turn == TurnView::Failed(message),
                    }
                    &&& presenter.header_printed ==> lines == status
                    &&& !presenter.header_printed ==> lines == wizard::header_lines(
                        presenter.verbosity,
                        payload,
                        catalog,
                    ) + status
                },
            }
        }),
{
    if wizard::payload_in(ui, catalog) is Ok {
        let payload = wizard::payload_in(ui, catalog)->Ok_0;
        let status = wizard::status_lines(presenter.verbosity, payload, catalog);
        assert(Seq::<Seq<char>>::empty() + status =~= status);
    }
}

/// A whole turn shows the rendered payload before the turn's lines. What the
/// component told is read once for it, and the header counts as shown where it could
/// be read.
pub proof fn law_whole_turn(
    mode: RenderMode,
    payload: Seq<char>,
    ui_raw: &str,
    presenter: WizardPresenter,
    catalog: CatalogView,
)
    ensures
        ({
            let (lines, turn, after) = whole_turn(mode, payload, ui_raw, presenter, catalog);
            match json_text::json_of_text(ui_raw@) {
                Err(details) => lines.len() == 0 && turn == TurnView::Failed(details) && after
                    == presenter,
                Ok(ui) => {
                    &&& turn == turn_of(ui, presenter, catalog).1
                    &&& after.verbosity == presenter.verbosity
                    &&& after.show_answers_json == presenter.show_answers_json
                    &&& after.header_printed <==> presenter.header_printed || wizard::payload_in(
                        ui,
                        catalog,
                    ) is Ok
                    &&& match render_line(mode, payload, Some(ui_raw), catalog) {
                        Some(line) => lines.len() > 0 && lines[0] == line && lines.skip(1)
                            == turn_of(ui, presenter, catalog).0,
                        None => lines == turn_of(ui, presenter, catalog).0,
                    }
                },
            }
        }),
{
    if json_text::json_of_text(ui_raw@) is Ok {
        let ui = json_text::json_of_text(ui_raw@)->Ok_0;
        let rest = turn_of(ui, presenter, catalog).0;
        if render_line(mode, payload, Some(ui_raw), catalog) is Some {
            let line = render_line(mode, payload, Some(ui_raw), catalog)->0;
            assert((seq![line] + rest).skip(1) =~= rest);
        }
    }
}

/// A reply to answers is reviewed where it is an error, and only there.
pub proof fn law_review(response: JsonView, catalog: CatalogView)
    ensures
        json::member(response, "status"@) == Some(JsonView::String("error"@)) ==> review_lines(
            response,
            catalog,
        ) == details_lines(details_in(response, catalog), catalog),
        json::member(response, "status"@) != Some(JsonView::String("error"@)) ==> review_lines(
            response,
            catalog,
        ).len() == 0,
{
}

/// What is written goes where the command line says, else where the environment says,
/// and else where the command is run.
pub proof fn law_output_place(out: Option<Seq<char>>, env: Option<Seq<char>>)
    ensures
        out is Some ==> output_place(out, env) == out->0,
        out is None && env is Some ==> output_place(out, env) == env->0,
        out is None && env is None ==> output_place(out, env) == "."@,
{
}

/// A place that is not empty but is refused is told with the refusal, and an empty
/// one is told before that.
pub proof fn law_output_refused(
    out: Option<Seq<char>>,
    env: Option<Seq<char>>,
    allowed: Result<(), Seq<char>>,
    catalog: CatalogView,
)
    ensures
        output_place(out, env).len() == 0 ==> output_root(out, env, allowed, catalog) == Err::<
            Seq<char>,
            Seq<char>,
        >(catalog::message(catalog, "cli.output_dir.empty"@)),
        output_place(out, env).len() > 0 ==> (allowed matches Err(message) ==> output_root(
            out,
            env,
            allowed,
            catalog,
        ) == Err::<Seq<char>, Seq<char>>(message)),
{
}

/// The first place that is there decides whether it can be written to.
pub proof fn law_first_place_decides(places: Seq<Place>, from: int, at: int)
    requires
        0 <= from <= at <= places.len(),
        forall|i: int| from <= i < at ==> #[trigger] places[i] is Absent,
        at < places.len() ==> !(places[at] is Absent),
    ensures
        first_is_writable(places, from) <==> at < places.len() && places[at] is Writable,
    decreases at - from,
{
    if from < at {
        assert(places[from] is Absent);
        law_first_place_decides(places, from + 1, at);
    }
}

/// The full path of a place is what was found of it, else its name below what was
/// found of where it stands, and else the path below where the command is run.
pub proof fn law_full_path(
    rules: RulesView,
    path: Seq<char>,
    there: Option<Seq<char>>,
    parent: Option<Seq<char>>,
    here: Seq<char>,
)
    ensures
        there is Some ==> full_path(rules, path, there, parent, here) == there->0,
        there is None && parent is Some && paths::last_name(rules, path) is Some ==> full_path(
            rules,
            path,
            there,
            parent,
            here,
        ) == paths::below(rules, parent->0, paths::last_name(rules, path)->0),
        there is None && parent is None ==> full_path(rules, path, there, parent, here)
            == paths::below(rules, here, path),
        there is None && parent is Some && paths::last_name(rules, path) is None ==> full_path(
            rules,
            path,
            there,
            parent,
            here,
        ) == parent->0,
{
}

/// What was generated is told with its place, and with each of its four texts under a
/// heading where the details are asked for.
pub proof fn law_bundle_lines(
    path: Seq<char>,
    spec: Seq<char>,
    flow: Seq<char>,
    schema: Seq<char>,
    examples: Seq<char>,
    catalog: CatalogView,
)
    ensures
        ({
            let short = bundle_lines(path, None, catalog);
            let long = bundle_lines(path, Some((spec, flow, schema, examples)), catalog);
            let made = catalog::message_with(
                catalog,
                "cli.bundle.generated"@,
                seq![("path"@, path)],
            );
            &&& short == seq![made]
            &&& long.len() == 10
            &&& long[0] == made
            &&& long[3] == spec && long[2] == catalog::message(catalog, "cli.bundle.form_spec"@)
            &&& long[5] == flow && long[4] == catalog::message(catalog, "cli.bundle.flow_spec"@)
            &&& long[7] == schema && long[6] == catalog::message(
                catalog,
                "cli.bundle.answer_schema"@,
            )
            &&& long[9] == examples && long[8] == catalog::message(
                catalog,
                "cli.bundle.example_answers"@,
            )
        }),
{
}

} // verus!
