//! The requests that the component serves.
//!
//! What evaluating a form's expressions, rendering it or running its store
//! operations comes to is given to these functions as an argument.
use crate::answers::{ResultView, ValidationResult};
use crate::assets::{self, LoadedFormValue};
use crate::context::{
    self, i18n_debug_enabled, parse_answers, parse_runtime_context, resolve_context_answers,
};
use crate::entries;
use crate::faults::{ComponentError, FaultView};
use crate::form::{FormSpec, FormView};
use crate::json::{self, copy_entries, entry, put_member, Json, JsonView, Number};
use crate::json_text::{self, parse_json, render_json};
use crate::localize::{
    self, apply_i18n_to_payload, attach_i18n_debug_metadata, RenderPayload, RenderPayloadView,
};
use crate::responses::{self, respond, respond_string, result_value};
use crate::text::{self, cat, cat3, same, trim};
use crate::validate::{self, validate_evaluated, Evaluated};
use vstd::prelude::*;

verus! {

/// A form, if it is the one that is asked for.
pub open spec fn form_for(form_id: Seq<char>, spec: Result<FormView, FaultView>) -> Result<
    FormView,
    FaultView,
> {
    match spec {
        Ok(spec) => if spec.id == form_id {
            Ok(spec)
        } else {
            Err(FaultView::FormUnavailable(form_id))
        },
        Err(fault) => Err(fault),
    }
}

/// Makes sure that a form is the one that is asked for.
pub fn ensure_form<'a>(form_id: &str, spec: &'a Result<FormSpec, ComponentError>) -> (r: Result<
    &'a FormSpec,
    ComponentError,
>)
    ensures
        match r {
            Ok(form) => form_for(form_id@, assets::spec_view(*spec)) == Ok::<FormView, FaultView>(
                form@,
            ) && *spec == Ok::<FormSpec, ComponentError>(*form),
            Err(fault) => form_for(form_id@, assets::spec_view(*spec)) == Err::<
                FormView,
                FaultView,
            >(fault@),
        },
{
    match spec {
        Ok(form) => if same(form.id.as_str(), form_id) {
            Ok(form)
        } else {
            Err(ComponentError::FormUnavailable(form_id.to_owned()))
        },
        Err(fault) => Err(fault.clone()),
    }
}

/// A result under the condition that a form is available.
pub open spec fn given_form(form: Result<FormView, FaultView>, value: Result<JsonView, FaultView>)
    -> Result<JsonView, FaultView> {
    match form {
        Ok(_) => value,
        Err(fault) => Err(fault),
    }
}

/// A value that an encoder gave, or its report.
pub open spec fn encoded_value(encoded: Result<Json, String>) -> Result<JsonView, FaultView> {
    match encoded {
        Ok(value) => Ok(value@),
        Err(details) => Err(FaultView::JsonEncode(details@)),
    }
}

/// Describes a form: `encoded` is the form as JSON.
pub fn describe(
    form_id: &str,
    spec: &Result<FormSpec, ComponentError>,
    encoded: Result<Json, String>,
) -> (r: String)
    ensures
        responses::says(
            r@,
            responses::reply(
                given_form(
                    form_for(form_id@, assets::spec_view(*spec)),
                    encoded_value(encoded),
                ),
            ),
        ),
{
    match ensure_form(form_id, spec) {
        Ok(_) => match encoded {
            Ok(value) => respond(Ok(value)),
            Err(details) => respond(Err(ComponentError::JsonEncode(details))),
        },
        Err(fault) => respond(Err(fault)),
    }
}

/// The answers on which the questions that a schema or an example covers are
/// shown: those of the context.
pub fn schema_answers(ctx_json: &str) -> (r: Json)
    ensures
        r@ == context::context_answers(context::runtime_context(ctx_json@)),
{
    resolve_context_answers(&parse_runtime_context(ctx_json))
}

/// The schema of a form's answers: `schema` is the one for the questions that
/// are shown for the answers of the context.
pub fn get_answer_schema(
    form_id: &str,
    spec: &Result<FormSpec, ComponentError>,
    schema: Json,
) -> (r: String)
    ensures
        responses::says(
            r@,
            responses::reply(
                given_form(form_for(form_id@, assets::spec_view(*spec)), Ok(schema@)),
            ),
        ),
{
    match ensure_form(form_id, spec) {
        Ok(_) => respond(Ok(schema)),
        Err(fault) => respond(Err(fault)),
    }
}

/// Example answers for a form: `examples` are those for the questions that are
/// shown for the answers of the context.
pub fn get_example_answers(
    form_id: &str,
    spec: &Result<FormSpec, ComponentError>,
    examples: Json,
) -> (r: String)
    ensures
        responses::says(
            r@,
            responses::reply(
                given_form(form_for(form_id@, assets::spec_view(*spec)), Ok(examples@)),
            ),
        ),
{
    match ensure_form(form_id, spec) {
        Ok(_) => respond(Ok(examples)),
        Err(fault) => respond(Err(fault)),
    }
}

/// What checking the answers of a text comes to.
pub open spec fn validation_of(
    form: Result<FormView, FaultView>,
    answers_json: Seq<char>,
    evaluated: Evaluated,
) -> Result<JsonView, FaultView> {
    match form {
        Err(fault) => Err(fault),
        Ok(form) => match json_text::json_of_text(answers_json) {
            Err(details) => Err(FaultView::ConfigParse(details)),
            Ok(_) => Ok(responses::result_json(validate::outcome_of(form, evaluated))),
        },
    }
}

/// Checks answers: `evaluated` is what the form's expressions came to on what
/// the text of the answers reads as.
pub fn validate_answers(
    form_id: &str,
    spec: &Result<FormSpec, ComponentError>,
    answers_json: &str,
    evaluated: &Evaluated,
) -> (r: String)
    ensures
        responses::says(
            r@,
            responses::reply(
                validation_of(
                    form_for(form_id@, assets::spec_view(*spec)),
                    answers_json@,
                    *evaluated,
                ),
            ),
        ),
{
    let form = match ensure_form(form_id, spec) {
        Ok(form) => form,
        Err(fault) => {
            return respond(Err(fault));
        },
    };
    match parse_json(answers_json) {
        Ok(_) => respond(Ok(result_value(&validate_evaluated(form, evaluated)))),
        Err(details) => respond(Err(ComponentError::ConfigParse(details))),
    }
}

/// How many questions are shown.
pub open spec fn shown_count(visibility: Seq<(Seq<char>, bool)>) -> nat
    decreases visibility.len(),
{
    if visibility.len() == 0 {
        0
    } else {
        shown_count(visibility.drop_last()) + if visibility.last().1 {
            1nat
        } else {
            0nat
        }
    }
}

/// Counts the shown questions.
fn count_shown(visibility: &Vec<(String, bool)>) -> (r: usize)
    ensures
        r == shown_count(validate::visibility_view(visibility@)),
{
    let ghost views = validate::visibility_view(visibility@);
    let mut count: usize = 0;
    let mut i: usize = 0;
    assert(views.take(0) =~= Seq::empty());
    while i < visibility.len()
        invariant
            i <= visibility@.len(),
            views == validate::visibility_view(visibility@),
            count <= i,
            count == shown_count(views.take(i as int)),
        decreases visibility.len() - i,
    {
        assert(views.take(i + 1).drop_last() =~= views.take(i as int));
        assert(views.take(i + 1).last() == (visibility@[i as int].0@, visibility@[i as int].1));
        if visibility[i].1 {
            count += 1;
        }
        i += 1;
    }
    assert(views.take(i as int) =~= views);
    count
}

/// Progress counters as JSON.
pub open spec fn progress_json(answered: usize, total: usize) -> JsonView {
    JsonView::Object(
        seq![
            ("answered"@, JsonView::Number(Number::PosInt(answered as u64))),
            ("total"@, JsonView::Number(Number::PosInt(total as u64))),
        ],
    )
}

fn progress_value(answered: usize, total: usize) -> (r: Json)
    ensures
        r@ == progress_json(answered, total),
{
    let members = vec![
        entry("answered", Json::count(answered)),
        entry("total", Json::count(total)),
    ];
    assert(json::entries_view(members@) =~= progress_json(answered, total)->Object_0);
    Json::object(members)
}

/// The state of a form in which a question is next, or none is.
pub open spec fn flow_status(next_question: Option<Seq<char>>) -> Seq<char> {
    if next_question is Some {
        "need_input"@
    } else {
        "complete"@
    }
}

/// Where a form stands.
pub open spec fn next_json(next_question: Option<Seq<char>>, answered: usize, total: usize)
    -> JsonView {
    JsonView::Object(
        seq![
            ("next_question_id"@, json::opt_string(next_question)),
            ("progress"@, progress_json(answered, total)),
            ("status"@, JsonView::String(flow_status(next_question))),
        ],
    )
}

/// Where a form stands: `visibility` says which questions are shown for the
/// answers, `next_question` which is next and `answered` how many are answered.
pub fn next_with_ctx(
    form_id: &str,
    spec: &Result<FormSpec, ComponentError>,
    visibility: &Vec<(String, bool)>,
    next_question: &Option<String>,
    answered: usize,
) -> (r: String)
    ensures
        responses::says(
            r@,
            responses::reply(
                given_form(
                    form_for(form_id@, assets::spec_view(*spec)),
                    Ok(
                        next_json(
                            text::opt_text(*next_question),
                            answered,
                            shown_count(validate::visibility_view(visibility@)) as usize,
                        ),
                    ),
                ),
            ),
        ),
{
    match ensure_form(form_id, spec) {
        Ok(_) => {},
        Err(fault) => {
            return respond(Err(fault));
        },
    }
    let total = count_shown(visibility);
    let status = if next_question.is_some() {
        "need_input"
    } else {
        "complete"
    };
    let members = vec![
        entry("next_question_id", Json::opt_text(next_question)),
        entry("progress", progress_value(answered, total)),
        entry("status", Json::string(status)),
    ];
    assert(json::entries_view(members@) =~= next_json(
        text::opt_text(*next_question),
        answered,
        total,
    )->Object_0);
    respond(Ok(Json::object(members)))
}

/// Where a form stands without a context.
pub fn next(
    form_id: &str,
    spec: &Result<FormSpec, ComponentError>,
    visibility: &Vec<(String, bool)>,
    next_question: &Option<String>,
    answered: usize,
) -> (r: String)
    ensures
        responses::says(
            r@,
            responses::reply(
                given_form(
                    form_for(form_id@, assets::spec_view(*spec)),
                    Ok(
                        next_json(
                            text::opt_text(*next_question),
                            answered,
                            shown_count(validate::visibility_view(visibility@)) as usize,
                        ),
                    ),
                ),
            ),
        ),
{
    next_with_ctx(form_id, spec, visibility, next_question, answered)
}

/// What store operations came to, or why they failed.
pub open spec fn stored_value(stored: Result<Json, String>) -> Result<JsonView, FaultView> {
    match stored {
        Ok(value) => Ok(value@),
        Err(details) => Err(FaultView::Store(details@)),
    }
}

/// Runs the store operations of a form: `stored` is what they came to.
pub fn apply_store(
    form_id: &str,
    spec: &Result<FormSpec, ComponentError>,
    stored: Result<Json, String>,
) -> (r: String)
    ensures
        responses::says(
            r@,
            responses::reply(
                given_form(form_for(form_id@, assets::spec_view(*spec)), stored_value(stored)),
            ),
        ),
{
    match ensure_form(form_id, spec) {
        Ok(_) => match stored {
            Ok(value) => respond(Ok(value)),
            Err(details) => respond(Err(ComponentError::Store(details))),
        },
        Err(fault) => respond(Err(fault)),
    }
}

/// A rendered form, viewed.
pub open spec fn payload_view(payload: Result<RenderPayload, ComponentError>) -> Result<
    RenderPayloadView,
    FaultView,
> {
    match payload {
        Ok(payload) => Ok(payload@),
        Err(fault) => Err(fault@),
    }
}

/// The rendered form with its texts translated, or why there is none.
pub open spec fn rendering(
    form: Result<FormView, FaultView>,
    loaded: Result<(JsonView, Seq<char>), FaultView>,
    payload: RenderPayloadView,
    ctx: JsonView,
) -> Result<RenderPayloadView, FaultView> {
    match form {
        Err(fault) => Err(fault),
        Ok(_) => match loaded {
            Err(fault) => Err(fault),
            Ok((spec_value, _)) => Ok(localize::localized(payload, spec_value, ctx)),
        },
    }
}

/// Renders a form: `payload` is the form as rendered for the context and the
/// answers, and `loaded` the form as it was read.
pub fn render_payload(
    form_id: &str,
    spec: &Result<FormSpec, ComponentError>,
    loaded: &Result<LoadedFormValue, ComponentError>,
    payload: RenderPayload,
    ctx_json: &str,
) -> (r: Result<RenderPayload, ComponentError>)
    ensures
        payload_view(r) == rendering(
            form_for(form_id@, assets::spec_view(*spec)),
            assets::loaded_view(*loaded),
            payload@,
            context::runtime_context(ctx_json@),
        ),
{
    match ensure_form(form_id, spec) {
        Ok(_) => {},
        Err(fault) => {
            return Err(fault);
        },
    }
    let form = match loaded {
        Ok(form) => form,
        Err(fault) => {
            return Err(fault.clone());
        },
    };
    let ctx = parse_runtime_context(ctx_json);
    let mut payload = payload;
    apply_i18n_to_payload(&mut payload, &form.spec_value, &ctx);
    Ok(payload)
}

/// The reply with a form rendered as text.
pub fn render_text(rendered: Result<String, ComponentError>) -> (r: String)
    ensures
        match rendered {
            Ok(text) => r@ == text@,
            Err(fault) => responses::says(r@, responses::reply(Err(fault@))),
        },
{
    respond_string(rendered)
}

/// The reply with a form rendered as JSON.
pub fn render_json_ui(rendered: Result<Json, ComponentError>) -> (r: String)
    ensures
        responses::says(r@, responses::reply(responses::result_view(rendered))),
{
    respond(rendered)
}

/// The card of a rendered form, with a note on the translation keys where the
/// context asks for one and the form can be read.
pub open spec fn noted_card(
    card: JsonView,
    payload: RenderPayloadView,
    ctx: JsonView,
    loaded: Result<(JsonView, Seq<char>), FaultView>,
) -> JsonView {
    match loaded {
        Ok((spec_value, _)) => if context::wants_i18n_debug(ctx) {
            localize::with_key_notes(card, payload, spec_value)
        } else {
            card
        },
        Err(_) => card,
    }
}

/// The reply with a form rendered as a card: `rendered` holds the rendered form
/// and its card.
pub fn render_card(
    rendered: Result<(RenderPayload, Json), ComponentError>,
    ctx_json: &str,
    loaded: &Result<LoadedFormValue, ComponentError>,
) -> (r: String)
    ensures
        responses::says(
            r@,
            responses::reply(
                match rendered {
                    Ok(both) => Ok(
                        noted_card(
                            both.1@,
                            both.0@,
                            context::runtime_context(ctx_json@),
                            assets::loaded_view(*loaded),
                        ),
                    ),
                    Err(fault) => Err(fault@),
                },
            ),
        ),
{
    let (payload, card) = match rendered {
        Ok(both) => both,
        Err(fault) => {
            return respond(Err(fault));
        },
    };
    let mut card = card;
    let ctx = parse_runtime_context(ctx_json);
    if i18n_debug_enabled(&ctx) {
        if let Ok(form) = loaded {
            attach_i18n_debug_metadata(&mut card, &payload, &form.spec_value);
        }
    }
    respond(Ok(card))
}

/// Progress of a rendered form as JSON.
pub fn submission_progress(payload: &RenderPayload) -> (r: Json)
    ensures
        r@ == progress_json(payload.progress.answered, payload.progress.total),
{
    progress_value(payload.progress.answered, payload.progress.total)
}

/// The reply to a submission that is refused.
pub open spec fn refusal_json(payload: RenderPayloadView, answers: JsonView, found: ResultView)
    -> JsonView {
    JsonView::Object(
        seq![
            ("answers"@, answers),
            ("next_question_id"@, json::opt_string(payload.next_question_id)),
            ("progress"@, progress_json(payload.progress.answered, payload.progress.total)),
            ("status"@, JsonView::String("error"@)),
            ("validation"@, responses::result_json(found)),
        ],
    )
}

/// The reply to a submission that is accepted.
pub open spec fn acceptance_json(payload: RenderPayloadView, answers: JsonView, store: JsonView)
    -> JsonView {
    JsonView::Object(
        seq![
            ("answers"@, answers),
            ("next_question_id"@, json::opt_string(payload.next_question_id)),
            ("progress"@, progress_json(payload.progress.answered, payload.progress.total)),
            ("status"@, JsonView::String(flow_status(payload.next_question_id))),
            ("store"@, store),
        ],
    )
}

/// The reply to a submission that is refused.
pub fn build_error_response(payload: &RenderPayload, answers: Json, validation: &ValidationResult)
    -> (r: Json)
    ensures
        r@ == refusal_json(payload@, answers@, validation@),
{
    let members = vec![
        entry("answers", answers),
        entry("next_question_id", Json::opt_text(&payload.next_question_id)),
        entry("progress", submission_progress(payload)),
        entry("status", Json::string("error")),
        entry("validation", result_value(validation)),
    ];
    assert(json::entries_view(members@) =~= refusal_json(
        payload@,
        answers@,
        validation@,
    )->Object_0);
    Json::object(members)
}

/// The reply to a submission that is accepted.
pub fn build_success_response(payload: &RenderPayload, answers: Json, store: Json) -> (r: Json)
    ensures
        r@ == acceptance_json(payload@, answers@, store@),
{
    let status = if payload.next_question_id.is_some() {
        "need_input"
    } else {
        "complete"
    };
    let members = vec![
        entry("answers", answers),
        entry("next_question_id", Json::opt_text(&payload.next_question_id)),
        entry("progress", submission_progress(payload)),
        entry("status", Json::string(status)),
        entry("store", store),
    ];
    assert(json::entries_view(members@) =~= acceptance_json(
        payload@,
        answers@,
        store@,
    )->Object_0);
    Json::object(members)
}

/// A submission before it takes effect: the answers, what was found of them, the
/// rendered form and the store operations to run.
#[derive(Debug, PartialEq)]
pub struct SubmissionPlan {
    pub validated_patch: Json,
    pub validation: ValidationResult,
    pub payload: RenderPayload,
    pub effects: Vec<Json>,
}

/// Plans a submission: the store operations of the form are to run only where
/// the answers are accepted.
pub fn build_submission_plan(
    spec: &FormSpec,
    answers: Json,
    evaluated: &Evaluated,
    payload: RenderPayload,
) -> (r: SubmissionPlan)
    ensures
        r.validated_patch == answers,
        r.payload == payload,
        r.validation@ == validate::outcome_of(spec@, *evaluated),
        json::items_view(r.effects@) == if r.validation.valid {
            spec@.store
        } else {
            Seq::empty()
        },
{
    let validation = validate_evaluated(spec, evaluated);
    let effects = if validation.valid {
        json::copy_items(&spec.store)
    } else {
        let none: Vec<Json> = Vec::new();
        assert(json::items_view(none@) =~= Seq::empty());
        none
    };
    SubmissionPlan { validated_patch: answers, validation, payload, effects }
}

/// The store operations that a submission is to run: those of the form, where it
/// is available and accepts the answers.
pub fn effects_to_run(
    form_id: &str,
    spec: &Result<FormSpec, ComponentError>,
    evaluated: &Evaluated,
) -> (r: Option<Vec<Json>>)
    ensures
        match form_for(form_id@, assets::spec_view(*spec)) {
            Ok(form) => if validate::outcome_of(form, *evaluated).valid {
                r is Some && json::items_view(r->0@) == form.store
            } else {
                r is None
            },
            Err(_) => r is None,
        },
{
    match ensure_form(form_id, spec) {
        Ok(form) => if validate_evaluated(form, evaluated).valid {
            Some(json::copy_items(&form.store))
        } else {
            None
        },
        Err(_) => None,
    }
}

/// What a planned submission comes to.
pub open spec fn submission_of(
    answers: JsonView,
    found: ResultView,
    payload: RenderPayloadView,
    stored: Result<Json, String>,
) -> Result<JsonView, FaultView> {
    if !found.valid {
        Ok(refusal_json(payload, answers, found))
    } else {
        match stored_value(stored) {
            Ok(store) => Ok(acceptance_json(payload, answers, store)),
            Err(fault) => Err(fault),
        }
    }
}

/// Completes a planned submission: `stored` is what its store operations came
/// to, where the answers were accepted.
pub fn complete_submission(plan: SubmissionPlan, stored: Result<Json, String>) -> (r: Result<
    Json,
    ComponentError,
>)
    ensures
        responses::result_view(r) == submission_of(
            plan.validated_patch@,
            plan.validation@,
            plan.payload@,
            stored,
        ),
{
    if !plan.validation.valid {
        return Ok(build_error_response(&plan.payload, plan.validated_patch, &plan.validation));
    }
    match stored {
        Ok(store) => Ok(build_success_response(&plan.payload, plan.validated_patch, store)),
        Err(details) => Err(ComponentError::Store(details)),
    }
}

/// The answers with one answer put in: what reads as no object has no answers.
pub open spec fn patched(answers: JsonView, question_id: Seq<char>, value: JsonView) -> JsonView {
    JsonView::Object(
        entries::put(
            match answers {
                JsonView::Object(members) => members,
                _ => Seq::empty(),
            },
            question_id,
            value,
        ),
    )
}

/// The answers of a text with the answer of another text put in.
pub open spec fn patch_of(answers_json: Seq<char>, question_id: Seq<char>, value_json: Seq<char>)
    -> Result<JsonView, FaultView> {
    match json_text::json_of_text(value_json) {
        Ok(value) => Ok(patched(context::lenient(answers_json), question_id, value)),
        Err(details) => Err(FaultView::ConfigParse(details)),
    }
}

/// Puts an answer into answers.
pub fn patch_answers(answers_json: &str, question_id: &str, value_json: &str) -> (r: Result<
    Json,
    ComponentError,
>)
    ensures
        responses::result_view(r) == patch_of(answers_json@, question_id@, value_json@),
{
    let value = match parse_json(value_json) {
        Ok(value) => value,
        Err(details) => {
            return Err(ComponentError::ConfigParse(details));
        },
    };
    let answers = parse_answers(answers_json);
    let mut members: Vec<(String, Json)> = Vec::new();
    assert(json::entries_view(members@) =~= Seq::empty());
    if let Some(given) = answers.as_object() {
        members = copy_entries(given);
    }
    put_member(&mut members, question_id.to_owned(), value);
    Ok(Json::object(members))
}

/// What submitting answers comes to.
pub open spec fn submission(
    form: Result<FormView, FaultView>,
    answers: Result<JsonView, FaultView>,
    evaluated: Evaluated,
    payload: RenderPayloadView,
    stored: Result<Json, String>,
) -> Result<JsonView, FaultView> {
    match form {
        Err(fault) => Err(fault),
        Ok(form) => match answers {
            Err(fault) => Err(fault),
            Ok(answers) => submission_of(
                answers,
                validate::outcome_of(form, evaluated),
                payload,
                stored,
            ),
        },
    }
}

/// Submits one answer: `evaluated` and `payload` are what the form's
/// expressions and its rendering came to on the answers with it, and `stored`
/// what the store operations came to.
pub fn submit_patch(
    form_id: &str,
    spec: &Result<FormSpec, ComponentError>,
    answers_json: &str,
    question_id: &str,
    value_json: &str,
    evaluated: &Evaluated,
    payload: RenderPayload,
    stored: Result<Json, String>,
) -> (r: String)
    ensures
        responses::says(
            r@,
            responses::reply(
                submission(
                    form_for(form_id@, assets::spec_view(*spec)),
                    patch_of(answers_json@, question_id@, value_json@),
                    *evaluated,
                    payload@,
                    stored,
                ),
            ),
        ),
{
    let form = match ensure_form(form_id, spec) {
        Ok(form) => form,
        Err(fault) => {
            return respond(Err(fault));
        },
    };
    let answers = match patch_answers(answers_json, question_id, value_json) {
        Ok(answers) => answers,
        Err(fault) => {
            return respond(Err(fault));
        },
    };
    let plan = build_submission_plan(form, answers, evaluated, payload);
    respond(complete_submission(plan, stored))
}

/// Submits all answers.
pub fn submit_all(
    form_id: &str,
    spec: &Result<FormSpec, ComponentError>,
    answers_json: &str,
    evaluated: &Evaluated,
    payload: RenderPayload,
    stored: Result<Json, String>,
) -> (r: String)
    ensures
        responses::says(
            r@,
            responses::reply(
                submission(
                    form_for(form_id@, assets::spec_view(*spec)),
                    Ok(context::lenient(answers_json@)),
                    *evaluated,
                    payload@,
                    stored,
                ),
            ),
        ),
{
    let form = match ensure_form(form_id, spec) {
        Ok(form) => form,
        Err(fault) => {
            return respond(Err(fault));
        },
    };
    let plan = build_submission_plan(form, parse_answers(answers_json), evaluated, payload);
    respond(complete_submission(plan, stored))
}

/// A patch sets its own answer and keeps the others.
pub proof fn law_patch_sets_one_answer(
    answers: JsonView,
    question_id: Seq<char>,
    value: JsonView,
    other: Seq<char>,
)
    ensures
        json::member(patched(answers, question_id, value), question_id) == Some(value),
        other != question_id ==> json::member(patched(answers, question_id, value), other)
            == json::member(answers, other),
{
    let members = match answers {
        JsonView::Object(members) => members,
        _ => Seq::empty(),
    };
    entries::law_put_then_lookup(members, question_id, value);
    if other != question_id {
        entries::law_put_keeps_others(members, question_id, value, other);
        if !(answers is Object) {
            entries::lemma_position(entries::view_keys(members), other);
        }
    }
}

/// A submission whose answers are refused has the status of an error and reports
/// what was found, whatever store operations would have come to.
pub proof fn law_refused_submission(
    form: FormView,
    answers: JsonView,
    evaluated: Evaluated,
    payload: RenderPayloadView,
    stored: Result<Json, String>,
)
    requires
        !validate::outcome_of(form, evaluated).valid,
    ensures
        submission(Ok(form), Ok(answers), evaluated, payload, stored) == Ok::<
            JsonView,
            FaultView,
        >(refusal_json(payload, answers, validate::outcome_of(form, evaluated))),
{
}

/// A form under another id than the one that is asked for serves no request: the
/// reply says that it is not available.
pub proof fn law_wrong_form_unavailable(
    form_id: Seq<char>,
    form: FormView,
    answers: Result<JsonView, FaultView>,
    evaluated: Evaluated,
    payload: RenderPayloadView,
    stored: Result<Json, String>,
)
    requires
        form.id != form_id,
    ensures
        submission(form_for(form_id, Ok(form)), answers, evaluated, payload, stored) == Err::<
            JsonView,
            FaultView,
        >(FaultView::FormUnavailable(form_id)),
        given_form(form_for(form_id, Ok(form)), answers) == Err::<JsonView, FaultView>(
            FaultView::FormUnavailable(form_id),
        ),
{
}

/// What the component says of itself.
pub open spec fn component_card() -> JsonView {
    JsonView::Object(
        seq![
            (
                "component"@,
                JsonView::Object(
                    seq![
                        ("name"@, JsonView::String("component-qa"@)),
                        ("org"@, JsonView::String("ai.greentic"@)),
                        (
                            "schemas"@,
                            JsonView::Object(
                                seq![
                                    (
                                        "component"@,
                                        JsonView::String("schemas/component.schema.json"@),
                                    ),
                                    ("input"@, JsonView::String("schemas/io/input.schema.json"@)),
                                    ("output"@, JsonView::String("schemas/io/output.schema.json"@)),
                                ],
                            ),
                        ),
                        ("version"@, JsonView::String("0.1.0"@)),
                        ("world"@, JsonView::String("greentic:component/component@0.6.0"@)),
                    ],
                ),
            ),
        ],
    )
}

/// What the component says of itself.
pub fn describe_payload() -> (r: String)
    ensures
        responses::says(r@, component_card()),
{
    let schemas = vec![
        entry("component", Json::string("schemas/component.schema.json")),
        entry("input", Json::string("schemas/io/input.schema.json")),
        entry("output", Json::string("schemas/io/output.schema.json")),
    ];
    let ghost schemas_view = json::entries_view(schemas@);
    assert(schemas_view =~= seq![
        ("component"@, JsonView::String("schemas/component.schema.json"@)),
        ("input"@, JsonView::String("schemas/io/input.schema.json"@)),
        ("output"@, JsonView::String("schemas/io/output.schema.json"@)),
    ]);
    let component = vec![
        entry("name", Json::string("component-qa")),
        entry("org", Json::string("ai.greentic")),
        entry("schemas", Json::object(schemas)),
        entry("version", Json::string("0.1.0")),
        entry("world", Json::string("greentic:component/component@0.6.0")),
    ];
    let ghost component_view = json::entries_view(component@);
    assert(component_view =~= seq![
        ("name"@, JsonView::String("component-qa"@)),
        ("org"@, JsonView::String("ai.greentic"@)),
        ("schemas"@, JsonView::Object(schemas_view)),
        ("version"@, JsonView::String("0.1.0"@)),
        ("world"@, JsonView::String("greentic:component/component@0.6.0"@)),
    ]);
    let card = vec![entry("component", Json::object(component))];
    assert(json::entries_view(card@) =~= component_card()->Object_0);
    render_json(&Json::object(card))
}

/// Answers a message that no other operation serves.
pub fn handle_message(operation: &str, input: &str) -> (r: String)
    ensures
        r@ == "component-qa::"@ + operation@ + " => "@ + text::trimmed(input@),
{
    cat(cat3("component-qa::", operation, " => ").as_str(), trim(input).as_str())
}

/// A form is there for a request if and only if it could be loaded and has the id
/// that the request asks for.
pub proof fn law_form_by_id(form_id: Seq<char>, loaded: Result<FormView, FaultView>)
    ensures
        form_for(form_id, loaded) is Ok <==> loaded is Ok && loaded->Ok_0.id == form_id,
        form_for(form_id, loaded) matches Ok(form) ==> loaded == Ok::<FormView, FaultView>(form),
        loaded matches Err(fault) ==> form_for(form_id, loaded) == Err::<FormView, FaultView>(
            fault,
        ),
{
}

/// What a request came to is told where its form is there; else the form's fault is.
pub proof fn law_form_before_value(
    form: Result<FormView, FaultView>,
    value: Result<JsonView, FaultView>,
)
    ensures
        form is Ok ==> given_form(form, value) == value,
        form is Err ==> given_form(form, value) == Err::<JsonView, FaultView>(form->Err_0),
{
}

/// Answers are checked where the form is there and their text is JSON. What is told
/// is the outcome; else it is the first of the two faults.
pub proof fn law_validation(
    form: Result<FormView, FaultView>,
    answers_json: Seq<char>,
    evaluated: Evaluated,
)
    ensures
        ({
            let told = validation_of(form, answers_json, evaluated);
            let read = json_text::json_of_text(answers_json);
            &&& form is Ok && read is Ok ==> told is Ok && json::member(told->Ok_0, "valid"@)
                == Some(JsonView::Bool(validate::outcome_of(form->Ok_0, evaluated).valid))
            &&& form is Ok && read is Ok ==> told == Ok::<JsonView, FaultView>(
                responses::result_json(validate::outcome_of(form->Ok_0, evaluated)),
            )
            &&& form is Err ==> told == Err::<JsonView, FaultView>(form->Err_0)
            &&& form is Ok && read is Err ==> told == Err::<JsonView, FaultView>(
                FaultView::ConfigParse(read->Err_0),
            )
        }),
{
    if form is Ok {
        responses::law_result_is_told(validate::outcome_of(form->Ok_0, evaluated));
    }
}

/// Each question that is shown counts one, and no other counts.
pub proof fn law_shown_count(
    first: Seq<(Seq<char>, bool)>,
    behind: Seq<(Seq<char>, bool)>,
    id: Seq<char>,
)
    ensures
        shown_count(seq![(id, true)]) == 1,
        shown_count(seq![(id, false)]) == 0,
        shown_count(first + behind) == shown_count(first) + shown_count(behind),
        shown_count(first) <= first.len(),
    decreases first.len() + behind.len(),
{
    reveal_with_fuel(shown_count, 2);
    assert(seq![(id, true)].drop_last() =~= Seq::empty());
    assert(seq![(id, false)].drop_last() =~= Seq::empty());
    if behind.len() == 0 {
        assert(first + behind =~= first);
        if first.len() > 0 {
            law_shown_count(first.drop_last(), behind, id);
        }
    } else {
        assert((first + behind).drop_last() =~= first + behind.drop_last());
        law_shown_count(first, behind.drop_last(), id);
    }
}

proof fn lemma_request_keys_differ()
    ensures
        "answers"@ != "next_question_id"@ && "answers"@ != "progress"@ && "answers"@ != "status"@,
        "answers"@ != "validation"@ && "answers"@ != "store"@,
        "next_question_id"@ != "progress"@ && "next_question_id"@ != "status"@,
        "next_question_id"@ != "validation"@ && "next_question_id"@ != "store"@,
        "progress"@ != "status"@ && "progress"@ != "validation"@ && "progress"@ != "store"@,
        "status"@ != "validation"@ && "status"@ != "store"@ && "answered"@ != "total"@,
        "validation"@ != "store"@,
{
    reveal_strlit("answers");
    reveal_strlit("next_question_id");
    reveal_strlit("progress");
    reveal_strlit("status");
    reveal_strlit("validation");
    reveal_strlit("store");
    reveal_strlit("answered");
    reveal_strlit("total");
    assert("answers"@.len() == 7 && "next_question_id"@.len() == 16 && "progress"@.len() == 8);
    assert("status"@.len() == 6 && "validation"@.len() == 10 && "store"@.len() == 5);
    assert("answered"@.len() == 8 && "total"@.len() == 5);
}

/// Progress is told as two numbers.
pub proof fn law_progress_is_told(answered: usize, total: usize)
    ensures
        json::member(progress_json(answered, total), "answered"@) == Some(
            JsonView::Number(Number::PosInt(answered as u64)),
        ),
        json::member(progress_json(answered, total), "total"@) == Some(
            JsonView::Number(Number::PosInt(total as u64)),
        ),
{
    lemma_request_keys_differ();
    let members = progress_json(answered, total)->Object_0;
    entries::law_lookup_finds_the_first(members, 0);
    entries::law_lookup_finds_the_first(members, 1);
}

/// What comes next is told with the question's id, or as nothing where the form is
/// complete, and with the progress.
pub proof fn law_next_is_told(next_question: Option<Seq<char>>, answered: usize, total: usize)
    ensures
        ({
            let told = next_json(next_question, answered, total);
            &&& json::member(told, "progress"@) == Some(progress_json(answered, total))
            &&& next_question matches Some(id) ==> json::member(told, "next_question_id"@) == Some(
                JsonView::String(id),
            ) && json::member(told, "status"@) == Some(JsonView::String("need_input"@))
            &&& next_question is None ==> json::member(told, "next_question_id"@) == Some(
                JsonView::Null,
            ) && json::member(told, "status"@) == Some(JsonView::String("complete"@))
        }),
{
    lemma_request_keys_differ();
    let members = next_json(next_question, answered, total)->Object_0;
    entries::law_lookup_finds_the_first(members, 0);
    entries::law_lookup_finds_the_first(members, 1);
    entries::law_lookup_finds_the_first(members, 2);
}

/// A submission is answered where the form is there and the answers could be read.
/// Answers that are not valid are told with the outcome of the check and are not
/// stored. Valid ones are told with what was stored, and with the question that
/// comes next, or that there is none. Either way the answers are given back.
pub proof fn law_submission(
    form: Result<FormView, FaultView>,
    answers: Result<JsonView, FaultView>,
    evaluated: Evaluated,
    payload: RenderPayloadView,
    stored: Result<Json, String>,
)
    ensures
        ({
            let told = submission(form, answers, evaluated, payload, stored);
            let found = validate::outcome_of(form->Ok_0, evaluated);
            let next = match payload.next_question_id {
                Some(id) => JsonView::String(id),
                None => JsonView::Null,
            };
            &&& form is Err ==> told == Err::<JsonView, FaultView>(form->Err_0)
            &&& form is Ok && answers is Err ==> told == Err::<JsonView, FaultView>(answers->Err_0)
            &&& form is Ok && answers is Ok && found.valid && stored is Err ==> told == Err::<
                JsonView,
                FaultView,
            >(FaultView::Store(stored->Err_0@))
            &&& form is Ok && answers is Ok && (!found.valid || stored is Ok) ==> {
                &&& told is Ok
                &&& json::member(told->Ok_0, "answers"@) == Some(answers->Ok_0)
                &&& json::member(told->Ok_0, "next_question_id"@) == Some(next)
                &&& json::member(told->Ok_0, "progress"@) == Some(
                    progress_json(payload.progress.answered, payload.progress.total),
                )
                &&& !found.valid ==> json::member(told->Ok_0, "status"@) == Some(
                    JsonView::String("error"@),
                ) && json::member(told->Ok_0, "validation"@) == Some(responses::result_json(found))
                    && json::member(told->Ok_0, "store"@) is None
                &&& found.valid ==> json::member(told->Ok_0, "store"@) == Some(stored->Ok_0@)
                    && json::member(told->Ok_0, "validation"@) is None && json::member(
                    told->Ok_0,
                    "status"@,
                ) == Some(
                    JsonView::String(
                        if payload.next_question_id is Some {
                            "need_input"@
                        } else {
                            "complete"@
                        },
                    ),
                )
            }
        }),
{
    lemma_request_keys_differ();
    let told = submission(form, answers, evaluated, payload, stored);
    if told is Ok {
        let members = told->Ok_0->Object_0;
        entries::law_lookup_finds_the_first(members, 0);
        entries::law_lookup_finds_the_first(members, 1);
        entries::law_lookup_finds_the_first(members, 2);
        entries::law_lookup_finds_the_first(members, 3);
        entries::law_lookup_finds_the_first(members, 4);
        if members[4].0 == "store"@ {
            entries::law_lookup_finds_nothing_else(members, "validation"@);
        } else {
            entries::law_lookup_finds_nothing_else(members, "store"@);
        }
    }
}

/// An answer is put in where its text is JSON, and then under its question alone;
/// else what is wrong with the text is told.
pub proof fn law_patch(
    answers_json: Seq<char>,
    question_id: Seq<char>,
    value_json: Seq<char>,
    other: Seq<char>,
)
    ensures
        ({
            let told = patch_of(answers_json, question_id, value_json);
            let read = json_text::json_of_text(value_json);
            &&& read matches Ok(value) ==> {
                &&& told is Ok
                &&& json::member(told->Ok_0, question_id) == Some(value)
                &&& other != question_id ==> json::member(told->Ok_0, other) == json::member(
                    context::lenient(answers_json),
                    other,
                )
            }
            &&& read matches Err(details) ==> told == Err::<JsonView, FaultView>(
                FaultView::ConfigParse(details),
            )
        }),
{
    if json_text::json_of_text(value_json) is Ok {
        law_patch_sets_one_answer(
            context::lenient(answers_json),
            question_id,
            json_text::json_of_text(value_json)->Ok_0,
            other,
        );
    }
}

/// A form is rendered in the texts of the context where it is there and its file
/// could be loaded.
pub proof fn law_rendering(
    form: Result<FormView, FaultView>,
    loaded: Result<(JsonView, Seq<char>), FaultView>,
    payload: RenderPayloadView,
    ctx: JsonView,
)
    ensures
        ({
            let told = rendering(form, loaded, payload, ctx);
            &&& form is Err ==> told == Err::<RenderPayloadView, FaultView>(form->Err_0)
            &&& form is Ok && loaded is Err ==> told == Err::<RenderPayloadView, FaultView>(
                loaded->Err_0,
            )
            &&& form is Ok ==> (loaded matches Ok((value, _)) ==> told == Ok::<
                RenderPayloadView,
                FaultView,
            >(localize::localized(payload, value, ctx)))
        }),
{
}

/// A card has the keys of its texts noted only where the context asks for it and the
/// form's file could be loaded.
pub proof fn law_noted_card(
    card: JsonView,
    payload: RenderPayloadView,
    ctx: JsonView,
    loaded: Result<(JsonView, Seq<char>), FaultView>,
)
    ensures
        loaded is Err || !context::wants_i18n_debug(ctx) ==> noted_card(card, payload, ctx, loaded)
            == card,
        loaded matches Ok((value, _)) ==> context::wants_i18n_debug(ctx) ==> noted_card(
            card,
            payload,
            ctx,
            loaded,
        ) == localize::with_key_notes(card, payload, value),
{
}

/// What could be encoded is told, and else why it could not.
pub proof fn law_encoded_value(encoded: Result<Json, String>, stored: Result<Json, String>)
    ensures
        encoded matches Ok(value) ==> encoded_value(encoded) == Ok::<JsonView, FaultView>(value@),
        encoded matches Err(details) ==> encoded_value(encoded) == Err::<JsonView, FaultView>(
            FaultView::JsonEncode(details@),
        ),
        stored matches Ok(value) ==> stored_value(stored) == Ok::<JsonView, FaultView>(value@),
        stored matches Err(details) ==> stored_value(stored) == Err::<JsonView, FaultView>(
            FaultView::Store(details@),
        ),
{
}

} // verus!
