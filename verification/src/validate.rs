//! Checking answers against a form.
use crate::answers::{self, ErrorView, ResultView, ValidationError, ValidationResult};
use crate::entries::{self, find, put_text};
use crate::form::{
    self, Constraint, ConstraintView, FormSpec, FormView, QuestionSpec, QuestionType,
    QuestionView, RuleView,
};
use crate::json::{self, double_below, Json, JsonView};
use crate::text::{self, cat, cat3, cat5, contains_text, copy_opt, number_text};
use vstd::prelude::*;

verus! {

/// What the `regex` crate says of a pattern and a text: nothing where the
/// pattern is not a regular expression, else whether it matches in the text.
pub uninterp spec fn regex_match(pattern: Seq<char>, text: Seq<char>) -> Option<bool>;

/// `regex::Regex::new` on the pattern and, where it compiles,
/// `regex::Regex::is_match` on the text.
#[verifier::external_body]
fn match_pattern(pattern: &str, text: &str) -> (r: Option<bool>)
    ensures
        r == regex_match(pattern@, text@),
{
    match regex::Regex::new(pattern) {
        Ok(regex) => Some(regex.is_match(text)),
        Err(_) => None,
    }
}

/// The number of bytes of a text in UTF-8.
pub open spec fn byte_len(s: Seq<char>) -> usize {
    vstd::utf8::encode_utf8(s).len() as usize
}

/// Whether a value has the type that a kind of question takes.
pub open spec fn type_matches(kind: QuestionType, value: JsonView) -> bool {
    match kind {
        QuestionType::String | QuestionType::Enum => value is String,
        QuestionType::Boolean => value is Bool,
        QuestionType::Integer => value is Number && json::number_is_i64(value->Number_0),
        QuestionType::Number => value is Number,
        QuestionType::List => value is Array,
    }
}

/// A fault of a question's answer, at the question itself.
pub open spec fn fault(id: Seq<char>, message: Seq<char>, code: Seq<char>) -> ErrorView {
    ErrorView {
        question_id: Some(id),
        path: Some("/"@ + id),
        message,
        code: Some(code),
        params: Seq::empty(),
    }
}

/// The fault of a list with too few or too many entries.
pub open spec fn count_fault(
    id: Seq<char>,
    threshold: usize,
    actual: usize,
    message: Seq<char>,
    code: Seq<char>,
) -> ErrorView {
    ErrorView {
        params: entries::put(
            entries::put(Seq::empty(), "expected"@, text::decimal(threshold as nat)),
            "actual"@,
            text::decimal(actual as nat),
        ),
        ..fault(id, message, code)
    }
}

/// The fault of a list entry that is not an object.
pub open spec fn entry_fault(id: Seq<char>, idx: nat) -> ErrorView {
    ErrorView {
        path: Some("/"@ + id + "/"@ + text::decimal(idx)),
        ..fault(id, "qa_spec.entry_type"@, "entry_type"@)
    }
}

/// Where a field of a list entry stands: the question id and the path.
pub open spec fn field_question_id(id: Seq<char>, idx: nat, field: Seq<char>) -> Seq<char> {
    id + "["@ + text::decimal(idx) + "]."@ + field
}

pub open spec fn field_path(id: Seq<char>, idx: nat, field: Seq<char>) -> Seq<char> {
    "/"@ + id + "/"@ + text::decimal(idx) + "/"@ + field
}

/// A fault of a field's value, placed in the list entry that holds it.
pub open spec fn in_list(id: Seq<char>, idx: nat, field: Seq<char>, error: ErrorView) -> ErrorView {
    ErrorView {
        question_id: Some(field_question_id(id, idx, field)),
        path: Some(field_path(id, idx, field)),
        ..error
    }
}

/// The fault of a list entry that lacks a required field.
pub open spec fn missing_field_fault(id: Seq<char>, idx: nat, field: Seq<char>) -> ErrorView {
    ErrorView {
        question_id: Some(field_question_id(id, idx, field)),
        path: Some(field_path(id, idx, field)),
        message: "qa_spec.missing_field"@,
        code: Some("missing_field"@),
        params: seq![("field"@, field)],
    }
}

/// What the pattern of a constraint says of a value. Nothing where there is no
/// pattern, no text, or where the pattern is no regular expression.
pub open spec fn pattern_outcome(c: ConstraintView, value: JsonView) -> Option<bool> {
    if c.pattern is Some && value is String {
        regex_match(c.pattern->0, value->String_0)
    } else {
        None
    }
}

/// Whether a number is below a limit.
pub open spec fn below_min(c: ConstraintView, value: JsonView) -> bool {
    c.min is Some && value is Number && json::double_of(value->Number_0) is Some
        && json::double_less(json::double_of(value->Number_0)->0, c.min->0.bits)
}

/// Whether a number is above a limit.
pub open spec fn above_max(c: ConstraintView, value: JsonView) -> bool {
    c.max is Some && value is Number && json::double_of(value->Number_0) is Some
        && json::double_less(c.max->0.bits, json::double_of(value->Number_0)->0)
}

/// The first limit that a value breaks, given what the pattern says of it.
pub open spec fn limit_fault(
    id: Seq<char>,
    c: ConstraintView,
    value: JsonView,
    matched: Option<bool>,
) -> Option<ErrorView> {
    if matched == Some(false) {
        Some(fault(id, "qa_spec.pattern_mismatch"@, "pattern_mismatch"@))
    } else if c.min_len is Some && value is String && byte_len(value->String_0) < c.min_len->0 {
        Some(fault(id, "qa_spec.min_length"@, "min_length"@))
    } else if c.max_len is Some && value is String && byte_len(value->String_0) > c.max_len->0 {
        Some(fault(id, "qa_spec.max_length"@, "max_length"@))
    } else if below_min(c, value) {
        Some(fault(id, "qa_spec.min"@, "min"@))
    } else if above_max(c, value) {
        Some(fault(id, "qa_spec.max"@, "max"@))
    } else {
        None
    }
}

/// The first limit that a value breaks.
pub open spec fn constraint_fault(id: Seq<char>, c: ConstraintView, value: JsonView) -> Option<
    ErrorView,
> {
    limit_fault(id, c, value, pattern_outcome(c, value))
}

/// Whether an answer to an enum question is none of its choices.
pub open spec fn not_a_choice(q: QuestionView, value: JsonView) -> bool {
    q.kind == QuestionType::Enum && q.choices is Some && value is String && !q.choices->0.contains(
        value->String_0,
    )
}

/// The first fault of a value as the answer to a question.
pub open spec fn value_fault(q: QuestionView, value: JsonView) -> Option<ErrorView>
    decreases q, 3int, 0int,
{
    if !type_matches(q.kind, value) {
        Some(fault(q.id, "qa_spec.type_mismatch"@, "type_mismatch"@))
    } else if q.kind == QuestionType::List && list_fault(q, value) is Some {
        list_fault(q, value)
    } else if q.constraint is Some && constraint_fault(q.id, q.constraint->0, value) is Some {
        constraint_fault(q.id, q.constraint->0, value)
    } else if not_a_choice(q, value) {
        Some(fault(q.id, "qa_spec.enum_mismatch"@, "enum_mismatch"@))
    } else {
        None
    }
}

/// The first fault of a value as the answer to a list question.
pub open spec fn list_fault(q: QuestionView, value: JsonView) -> Option<ErrorView>
    decreases q, 2int, 0int,
{
    if q.list is None {
        Some(fault(q.id, "qa_spec.missing_list_definition"@, "missing_list_definition"@))
    } else if !(value is Array) {
        Some(fault(q.id, "qa_spec.list_type"@, "list_type"@))
    } else {
        let list = q.list->0;
        let items = value->Array_0;
        let count = items.len() as usize;
        if list.min_items is Some && count < list.min_items->0 {
            Some(
                count_fault(q.id, list.min_items->0, count, "qa_spec.min_items"@, "min_items"@),
            )
        } else if list.max_items is Some && count > list.max_items->0 {
            Some(
                count_fault(q.id, list.max_items->0, count, "qa_spec.max_items"@, "max_items"@),
            )
        } else {
            entries_fault(q, items, 0)
        }
    }
}

/// The first fault among the list entries from `i` on.
pub open spec fn entries_fault(q: QuestionView, items: Seq<JsonView>, i: int) -> Option<ErrorView>
    decreases q, 1int, items.len() - i,
{
    if i < 0 || i >= items.len() {
        None
    } else if !(items[i] is Object) {
        Some(entry_fault(q.id, i as nat))
    } else if fields_fault(q, items[i], i as nat, 0) is Some {
        fields_fault(q, items[i], i as nat, 0)
    } else {
        entries_fault(q, items, i + 1)
    }
}

/// The first fault among the fields from `j` on of the list entry at `idx`.
pub open spec fn fields_fault(q: QuestionView, item: JsonView, idx: nat, j: int) -> Option<
    ErrorView,
>
    decreases q, 0int, (if q.list is Some { q.list->0.fields.len() - j } else { 0 }),
{
    if q.list is None || j < 0 || j >= q.list->0.fields.len() {
        None
    } else {
        let field = q.list->0.fields[j];
        match json::member(item, field.id) {
            None => if field.required {
                Some(missing_field_fault(q.id, idx, field.id))
            } else {
                fields_fault(q, item, idx, j + 1)
            },
            Some(value) => match value_fault(field, value) {
                Some(error) => Some(in_list(q.id, idx, field.id, error)),
                None => fields_fault(q, item, idx, j + 1),
            },
        }
    }
}

/// A fault of a question's answer, at the question itself.
pub fn base_error(question: &QuestionSpec, message: &str, code: &str) -> (r: ValidationError)
    ensures
        r@ == fault(question.id@, message@, code@),
{
    let params: Vec<(String, String)> = Vec::new();
    assert(entries::text_entries(params@) =~= Seq::empty());
    ValidationError {
        question_id: Some(question.id.clone()),
        path: Some(cat("/", question.id.as_str())),
        message: message.to_owned(),
        code: Some(code.to_owned()),
        params,
    }
}

/// Places a fault of a field's value in the list entry that holds it.
pub fn apply_list_context(
    question: &QuestionSpec,
    idx: usize,
    field: &QuestionSpec,
    error: ValidationError,
) -> (r: ValidationError)
    ensures
        r@ == in_list(question.id@, idx as nat, field.id@, error@),
{
    let number = number_text(idx);
    let head = cat3("/", question.id.as_str(), "/");
    ValidationError {
        question_id: Some(
            cat5(question.id.as_str(), "[", number.as_str(), "].", field.id.as_str()),
        ),
        path: Some(cat(cat3(head.as_str(), number.as_str(), "/").as_str(), field.id.as_str())),
        message: error.message,
        code: error.code,
        params: error.params,
    }
}

/// The fault of a list with too few or too many entries.
pub fn list_count_error(
    question: &QuestionSpec,
    threshold: usize,
    actual: usize,
    message_key: &str,
    code: &str,
) -> (r: ValidationError)
    ensures
        r@ == count_fault(question.id@, threshold, actual, message_key@, code@),
{
    let mut error = base_error(question, message_key, code);
    let mut params: Vec<(String, String)> = Vec::new();
    assert(entries::text_entries(params@) =~= Seq::empty());
    put_text(&mut params, "expected".to_owned(), number_text(threshold));
    put_text(&mut params, "actual".to_owned(), number_text(actual));
    error.params = params;
    error
}

/// The fault of a list entry that is not an object.
pub fn list_entry_type_error(question: &QuestionSpec, idx: usize) -> (r: ValidationError)
    ensures
        r@ == entry_fault(question.id@, idx as nat),
{
    let mut error = base_error(question, "qa_spec.entry_type", "entry_type");
    error.path = Some(
        cat(cat3("/", question.id.as_str(), "/").as_str(), number_text(idx).as_str()),
    );
    error
}

/// The fault of a list answer that is not an array.
pub fn list_not_array_error(question: &QuestionSpec) -> (r: ValidationError)
    ensures
        r@ == fault(question.id@, "qa_spec.list_type"@, "list_type"@),
{
    base_error(question, "qa_spec.list_type", "list_type")
}

/// The fault of a list entry that lacks a required field.
pub fn list_field_missing_error(question: &QuestionSpec, idx: usize, field_id: &str) -> (r:
    ValidationError)
    ensures
        r@ == missing_field_fault(question.id@, idx as nat, field_id@),
{
    let number = number_text(idx);
    let head = cat3("/", question.id.as_str(), "/");
    let params: Vec<(String, String)> = vec![("field".to_owned(), field_id.to_owned())];
    assert(entries::text_entries(params@) =~= seq![("field"@, field_id@)]);
    ValidationError {
        question_id: Some(cat5(question.id.as_str(), "[", number.as_str(), "].", field_id)),
        path: Some(cat(cat3(head.as_str(), number.as_str(), "/").as_str(), field_id)),
        message: "qa_spec.missing_field".to_owned(),
        code: Some("missing_field".to_owned()),
        params,
    }
}

/// Whether a value has the type that the question takes.
pub fn matches_type(question: &QuestionSpec, value: &Json) -> (r: bool)
    ensures
        r == type_matches(question.kind, value@),
{
    match question.kind {
        QuestionType::String | QuestionType::Enum => matches!(value, Json::String(_)),
        QuestionType::Boolean => matches!(value, Json::Bool(_)),
        QuestionType::Integer => match value {
            Json::Number(n) => n.is_i64(),
            _ => false,
        },
        QuestionType::Number => matches!(value, Json::Number(_)),
        QuestionType::List => matches!(value, Json::Array(_)),
    }
}

/// The first limit that a value breaks, given what the pattern says of it.
pub fn limit_error(
    question: &QuestionSpec,
    value: &Json,
    constraint: &Constraint,
    matched: Option<bool>,
) -> (r: Option<ValidationError>)
    ensures
        answers::opt_error(r) == limit_fault(question.id@, constraint@, value@, matched),
{
    if matched == Some(false) {
        return Some(base_error(question, "qa_spec.pattern_mismatch", "pattern_mismatch"));
    }
    if let Json::String(s) = value {
        if let Some(min_len) = constraint.min_len {
            if s.as_str().len() < min_len {
                return Some(base_error(question, "qa_spec.min_length", "min_length"));
            }
        }
        if let Some(max_len) = constraint.max_len {
            if s.as_str().len() > max_len {
                return Some(base_error(question, "qa_spec.max_length", "max_length"));
            }
        }
    }
    if let Json::Number(n) = value {
        if let Some(double) = n.as_double() {
            if let Some(min) = &constraint.min {
                if double_below(double, min.bits) {
                    return Some(base_error(question, "qa_spec.min", "min"));
                }
            }
            if let Some(max) = &constraint.max {
                if double_below(max.bits, double) {
                    return Some(base_error(question, "qa_spec.max", "max"));
                }
            }
        }
    }
    None
}

/// The first limit of the constraint that a value breaks.
pub fn enforce_constraint(question: &QuestionSpec, value: &Json, constraint: &Constraint) -> (r:
    Option<ValidationError>)
    ensures
        answers::opt_error(r) == constraint_fault(question.id@, constraint@, value@),
{
    let mut matched: Option<bool> = None;
    if let Some(pattern) = &constraint.pattern {
        if let Json::String(s) = value {
            matched = match_pattern(pattern.as_str(), s.as_str());
        }
    }
    limit_error(question, value, constraint, matched)
}

/// The first fault of a value as the answer to a question.
pub fn validate_value(question: &QuestionSpec, value: &Json) -> (r: Option<ValidationError>)
    ensures
        answers::opt_error(r) == value_fault(question@, value@),
    decreases question, 1int,
{
    if !matches_type(question, value) {
        return Some(base_error(question, "qa_spec.type_mismatch", "type_mismatch"));
    }
    if matches!(question.kind, QuestionType::List) {
        if let Some(error) = validate_list(question, value) {
            return Some(error);
        }
    }
    if let Some(constraint) = &question.constraint {
        if let Some(error) = enforce_constraint(question, value, constraint) {
            return Some(error);
        }
    }
    if matches!(question.kind, QuestionType::Enum) {
        if let Some(choices) = &question.choices {
            if let Json::String(s) = value {
                if !contains_text(choices, s.as_str()) {
                    return Some(base_error(question, "qa_spec.enum_mismatch", "enum_mismatch"));
                }
            }
        }
    }
    None
}

/// The first fault of a value as the answer to a list question.
pub fn validate_list(question: &QuestionSpec, value: &Json) -> (r: Option<ValidationError>)
    ensures
        answers::opt_error(r) == list_fault(question@, value@),
    decreases question, 0int,
{
    proof {
        form::lemma_question_list(*question);
    }
    let list = match &question.list {
        Some(list) => list,
        None => {
            return Some(
                base_error(question, "qa_spec.missing_list_definition", "missing_list_definition"),
            );
        },
    };
    let items = match value.as_array() {
        Some(items) => items,
        None => {
            return Some(list_not_array_error(question));
        },
    };
    let count = items.len();
    if let Some(min_items) = list.min_items {
        if count < min_items {
            return Some(
                list_count_error(question, min_items, count, "qa_spec.min_items", "min_items"),
            );
        }
    }
    if let Some(max_items) = list.max_items {
        if count > max_items {
            return Some(
                list_count_error(question, max_items, count, "qa_spec.max_items", "max_items"),
            );
        }
    }
    let ghost views = json::items_view(items@);
    let mut idx: usize = 0;
    while idx < items.len()
        invariant
            question.list == Some(*list),
            question@.list == Some(list@),
            views == json::items_view(items@),
            idx <= items@.len(),
            entries_fault(question@, views, 0) == entries_fault(question@, views, idx as int),
            list_fault(question@, value@) == entries_fault(question@, views, 0),
        decreases items.len() - idx,
    {
        let item = &items[idx];
        assert(views[idx as int] == item@);
        if !matches!(item, Json::Object(_)) {
            return Some(list_entry_type_error(question, idx));
        }
        let ghost found = fields_fault(question@, item@, idx as nat, 0);
        let mut j: usize = 0;
        while j < list.fields.len()
            invariant
                question.list == Some(*list),
                question@.list == Some(list@),
                j <= list.fields@.len(),
                item@ is Object,
                idx < items@.len(),
                views == json::items_view(items@),
                views[idx as int] == item@,
                found == fields_fault(question@, item@, idx as nat, 0),
                found == fields_fault(question@, item@, idx as nat, j as int),
                list_fault(question@, value@) == entries_fault(question@, views, idx as int),
            decreases list.fields.len() - j,
        {
            let field = &list.fields[j];
            assert(question@.list->0.fields[j as int] == field@);
            match item.get(field.id.as_str()) {
                None => {
                    if field.required {
                        return Some(list_field_missing_error(question, idx, field.id.as_str()));
                    }
                },
                Some(field_value) => {
                    if let Some(error) = validate_value(field, field_value) {
                        return Some(apply_list_context(question, idx, field, error));
                    }
                },
            }
            j += 1;
        }
        idx += 1;
    }
    None
}

/// Whether a question is shown. One that is not listed is.
pub open spec fn is_shown(visibility: Seq<(Seq<char>, bool)>, id: Seq<char>) -> bool {
    match entries::lookup(visibility, id) {
        Some(shown) => shown,
        None => true,
    }
}

/// Which questions are shown, viewed.
pub open spec fn visibility_view(visibility: Seq<(String, bool)>) -> Seq<(Seq<char>, bool)> {
    visibility.map_values(|e: (String, bool)| (e.0@, e.1))
}

/// The faults of the answers to the shown questions, in question order.
pub open spec fn question_faults(
    questions: Seq<QuestionView>,
    answers: JsonView,
    visibility: Seq<(Seq<char>, bool)>,
) -> Seq<ErrorView>
    decreases questions.len(),
{
    if questions.len() == 0 {
        Seq::empty()
    } else {
        let before = question_faults(questions.drop_last(), answers, visibility);
        let q = questions.last();
        match json::member(answers, q.id) {
            Some(value) => if is_shown(visibility, q.id) && value_fault(q, value) is Some {
                before.push(value_fault(q, value)->0)
            } else {
                before
            },
            None => before,
        }
    }
}

/// Whether a question is shown, required and not answered.
pub open spec fn is_missing(
    q: QuestionView,
    answers: JsonView,
    visibility: Seq<(Seq<char>, bool)>,
) -> bool {
    is_shown(visibility, q.id) && q.required && json::member(answers, q.id) is None
}

/// The ids of the shown, required questions without an answer, in question order.
pub open spec fn missing_ids(
    questions: Seq<QuestionView>,
    answers: JsonView,
    visibility: Seq<(Seq<char>, bool)>,
) -> Seq<Seq<char>>
    decreases questions.len(),
{
    if questions.len() == 0 {
        Seq::empty()
    } else {
        let before = missing_ids(questions.drop_last(), answers, visibility);
        if is_missing(questions.last(), answers, visibility) {
            before.push(questions.last().id)
        } else {
            before
        }
    }
}

/// The ids of a list of questions.
pub open spec fn ids_of(questions: Seq<QuestionView>) -> Seq<Seq<char>> {
    questions.map_values(|q: QuestionView| q.id)
}

/// The keys that are no question's id, in key order.
pub open spec fn unknown_keys(keys: Seq<Seq<char>>, ids: Seq<Seq<char>>) -> Seq<Seq<char>>
    decreases keys.len(),
{
    if keys.len() == 0 {
        Seq::empty()
    } else {
        let before = unknown_keys(keys.drop_last(), ids);
        if ids.contains(keys.last()) {
            before
        } else {
            before.push(keys.last())
        }
    }
}

/// The keys of an answer object.
pub open spec fn answer_keys(answers: JsonView) -> Seq<Seq<char>> {
    match answers {
        JsonView::Object(entries) => entries::view_keys(entries),
        _ => Seq::empty(),
    }
}

/// The fault that a broken cross-field rule makes.
pub open spec fn rule_fault(rule: RuleView) -> ErrorView {
    ErrorView {
        question_id: if rule.fields.len() > 0 {
            Some(rule.fields[0])
        } else {
            rule.id
        },
        path: if rule.fields.len() > 0 {
            Some("/"@ + rule.fields[0])
        } else {
            None
        },
        message: rule.message,
        code: rule.code,
        params: Seq::empty(),
    }
}

/// The faults of the broken rules, in rule order. A rule is broken where its
/// condition came out true.
pub open spec fn rule_faults(rules: Seq<RuleView>, conditions: Seq<Option<bool>>) -> Seq<ErrorView>
    decreases rules.len(),
{
    if rules.len() == 0 {
        Seq::empty()
    } else {
        let before = rule_faults(rules.drop_last(), conditions);
        let at = rules.len() - 1;
        if at < conditions.len() && conditions[at] == Some(true) {
            before.push(rule_fault(rules.last()))
        } else {
            before
        }
    }
}

/// The outcome of checking answers against a form.
pub open spec fn outcome(
    form: FormView,
    answers: JsonView,
    visibility: Seq<(Seq<char>, bool)>,
    conditions: Seq<Option<bool>>,
) -> ResultView {
    let errors = question_faults(form.questions, answers, visibility) + rule_faults(
        form.validations,
        conditions,
    );
    let missing = missing_ids(form.questions, answers, visibility);
    let unknown = unknown_keys(answer_keys(answers), ids_of(form.questions));
    ResultView {
        valid: errors.len() == 0 && missing.len() == 0 && unknown.len() == 0,
        errors,
        missing_required: missing,
        unknown_fields: unknown,
    }
}

/// Checks answers against a form.
///
/// The answers are those with the computed ones filled in, `visibility` says
/// which questions are shown for them, and `conditions` what the condition of
/// each cross-field rule came out as.
pub fn validate(
    spec: &FormSpec,
    answers: &Json,
    visibility: &Vec<(String, bool)>,
    conditions: &Vec<Option<bool>>,
) -> (r: ValidationResult)
    ensures
        r@ == outcome(spec@, answers@, visibility_view(visibility@), conditions@),
{
    let ghost shown = visibility_view(visibility@);
    let ghost questions = spec@.questions;
    let mut errors: Vec<ValidationError> = Vec::new();
    let mut missing_required: Vec<String> = Vec::new();
    let mut ids: Vec<String> = Vec::new();
    let mut i: usize = 0;
    assert(entries::view_keys(shown) =~= entries::keys_of(visibility@));
    assert(answers::errors_view(errors@) == question_faults(questions.take(0), answers@, shown));
    assert(text::texts(missing_required@) == missing_ids(questions.take(0), answers@, shown));
    assert(text::texts(ids@) == ids_of(questions.take(0)));
    while i < spec.questions.len()
        invariant
            i <= spec.questions@.len(),
            shown == visibility_view(visibility@),
            entries::view_keys(shown) == entries::keys_of(visibility@),
            questions == form::questions_view(spec.questions@),
            answers::errors_view(errors@) == question_faults(
                questions.take(i as int),
                answers@,
                shown,
            ),
            text::texts(missing_required@) == missing_ids(
                questions.take(i as int),
                answers@,
                shown,
            ),
            text::texts(ids@) == ids_of(questions.take(i as int)),
        decreases spec.questions.len() - i,
    {
        let question = &spec.questions[i];
        let ghost upto = questions.take(i + 1);
        assert(upto.drop_last() == questions.take(i as int));
        assert(upto.last() == question@);
        let visible = match find(visibility, question.id.as_str()) {
            Some(at) => visibility[at].1,
            None => true,
        };
        let ghost errors_before = answers::errors_view(errors@);
        let ghost missing_before = text::texts(missing_required@);
        match answers.get(question.id.as_str()) {
            None => {
                if visible && question.required {
                    missing_required.push(question.id.clone());
                    assert(text::texts(missing_required@) =~= missing_before.push(question@.id));
                }
            },
            Some(value) => {
                if visible {
                    if let Some(error) = validate_value(question, value) {
                        let ghost fresh = error@;
                        errors.push(error);
                        assert(answers::errors_view(errors@) =~= errors_before.push(fresh));
                    }
                }
            },
        }
        let ghost ids_before = text::texts(ids@);
        ids.push(question.id.clone());
        assert(text::texts(ids@) =~= ids_before.push(question@.id));
        assert(ids_of(upto) =~= ids_of(upto.drop_last()).push(question@.id));
        i += 1;
    }
    assert(questions.take(i as int) == questions);
    let unknown_fields = unknown_fields(answers, &ids);
    let mut k: usize = 0;
    let ghost rules = spec@.validations;
    let ghost first = answers::errors_view(errors@);
    assert(rule_faults(rules.take(0), conditions@) == Seq::<ErrorView>::empty());
    assert(first + Seq::<ErrorView>::empty() == first);
    while k < spec.validations.len()
        invariant
            k <= spec.validations@.len(),
            rules == form::rules_view(spec.validations@),
            answers::errors_view(errors@) == first + rule_faults(rules.take(k as int), conditions@),
        decreases spec.validations.len() - k,
    {
        let rule = &spec.validations[k];
        let ghost upto = rules.take(k + 1);
        assert(upto.drop_last() == rules.take(k as int));
        assert(upto.last() == rule@);
        if k < conditions.len() && matches!(conditions[k], Some(true)) {
            let ghost before = answers::errors_view(errors@);
            let error = rule_error(rule);
            let ghost fresh = error@;
            errors.push(error);
            assert(answers::errors_view(errors@) =~= before.push(fresh));
            assert(answers::errors_view(errors@) =~= first + rule_faults(upto, conditions@));
        }
        k += 1;
    }
    assert(rules.take(k as int) == rules);
    let r = ValidationResult {
        valid: errors.len() == 0 && missing_required.len() == 0 && unknown_fields.len() == 0,
        errors,
        missing_required,
        unknown_fields,
    };
    assert(text::texts(r.unknown_fields@).len() == r.unknown_fields@.len());
    assert(text::texts(r.missing_required@).len() == r.missing_required@.len());
    r
}

/// The keys of the answers that are no question's id.
fn unknown_fields(answers: &Json, ids: &Vec<String>) -> (r: Vec<String>)
    ensures
        text::texts(r@) == unknown_keys(answer_keys(answers@), text::texts(ids@)),
{
    let mut out: Vec<String> = Vec::new();
    assert(text::texts(out@) =~= Seq::empty());
    if let Some(entries) = answers.as_object() {
        let ghost keys = answer_keys(answers@);
        let mut i: usize = 0;
        assert(keys.len() == entries@.len());
        assert(unknown_keys(keys.take(0), text::texts(ids@)) =~= Seq::empty());
        while i < entries.len()
            invariant
                i <= entries@.len(),
                keys.len() == entries@.len(),
                keys == entries::view_keys(json::entries_view(entries@)),
                text::texts(out@) == unknown_keys(keys.take(i as int), text::texts(ids@)),
            decreases entries.len() - i,
        {
            assert(keys.take(i + 1).drop_last() == keys.take(i as int));
            assert(keys[i as int] == entries@[i as int].0@);
            if !contains_text(ids, entries[i].0.as_str()) {
                let ghost before = text::texts(out@);
                out.push(entries[i].0.clone());
                assert(text::texts(out@) =~= before.push(keys[i as int]));
            }
            i += 1;
        }
        assert(keys.take(i as int) == keys);
    }
    out
}

/// The fault that a broken cross-field rule makes.
fn rule_error(rule: &form::CrossFieldValidation) -> (r: ValidationError)
    ensures
        r@ == rule_fault(rule@),
{
    let params: Vec<(String, String)> = Vec::new();
    assert(entries::text_entries(params@) =~= Seq::empty());
    let has_field = rule.fields.len() > 0;
    assert(has_field ==> text::texts(rule.fields@)[0] == rule.fields@[0]@);
    ValidationError {
        question_id: if has_field {
            Some(rule.fields[0].clone())
        } else {
            copy_opt(&rule.id)
        },
        path: if has_field {
            Some(cat("/", rule.fields[0].as_str()))
        } else {
            None
        },
        message: rule.message.clone(),
        code: copy_opt(&rule.code),
        params,
    }
}

/// What evaluating a form's expressions on answers came to: the answers with
/// the computed ones filled in, which questions are shown, and the condition of
/// each cross-field rule.
#[derive(Debug, PartialEq)]
pub struct Evaluated {
    pub answers: Json,
    pub visibility: Vec<(String, bool)>,
    pub conditions: Vec<Option<bool>>,
}

/// The outcome of checking answers against a form.
pub open spec fn outcome_of(form: FormView, evaluated: Evaluated) -> ResultView {
    outcome(
        form,
        evaluated.answers@,
        visibility_view(evaluated.visibility@),
        evaluated.conditions@,
    )
}

/// Checks evaluated answers against a form.
pub fn validate_evaluated(spec: &FormSpec, evaluated: &Evaluated) -> (r: ValidationResult)
    ensures
        r@ == outcome_of(spec@, *evaluated),
{
    validate(spec, &evaluated.answers, &evaluated.visibility, &evaluated.conditions)
}

/// Answers are accepted if and only if they have no fault, break no rule, leave
/// no shown, required question open and answer no question that the form lacks.
pub proof fn law_valid_iff_nothing_found(
    form: FormView,
    answers: JsonView,
    visibility: Seq<(Seq<char>, bool)>,
    conditions: Seq<Option<bool>>,
)
    ensures
        outcome(form, answers, visibility, conditions).valid <==> (question_faults(
            form.questions,
            answers,
            visibility,
        ).len() == 0 && rule_faults(form.validations, conditions).len() == 0 && missing_ids(
            form.questions,
            answers,
            visibility,
        ).len() == 0 && unknown_keys(answer_keys(answers), ids_of(form.questions)).len() == 0),
{
}

/// The missing ids are those of the questions that are shown, required and not
/// answered.
pub proof fn law_missing_ids(
    questions: Seq<QuestionView>,
    answers: JsonView,
    visibility: Seq<(Seq<char>, bool)>,
    id: Seq<char>,
)
    ensures
        missing_ids(questions, answers, visibility).contains(id) <==> exists|i: int|
            0 <= i < questions.len() && (#[trigger] questions[i]).id == id && is_missing(
                questions[i],
                answers,
                visibility,
            ),
    decreases questions.len(),
{
    let ids = missing_ids(questions, answers, visibility);
    if questions.len() > 0 {
        let front = questions.drop_last();
        let last = questions.last();
        let before = missing_ids(front, answers, visibility);
        law_missing_ids(front, answers, visibility, id);
        if before.contains(id) {
            let i = choose|i: int|
                0 <= i < front.len() && (#[trigger] front[i]).id == id && is_missing(
                    front[i],
                    answers,
                    visibility,
                );
            assert(questions[i] == front[i]);
            let k = choose|k: int| 0 <= k < before.len() && before[k] == id;
            assert(ids[k] == id);
        }
        if is_missing(last, answers, visibility) {
            assert(ids.last() == last.id);
            assert(questions[questions.len() - 1] == last);
        }
        if ids.contains(id) && !before.contains(id) {
            let k = choose|k: int| 0 <= k < ids.len() && ids[k] == id;
            assert(k == before.len());
            assert(questions[questions.len() - 1].id == id);
        }
        assert forall|i: int|
            0 <= i < questions.len() && (#[trigger] questions[i]).id == id && is_missing(
                questions[i],
                answers,
                visibility,
            ) implies ids.contains(id) by {
            if i < front.len() {
                assert(front[i] == questions[i]);
                assert(before.contains(id));
            }
        }
    }
}

/// A question that is not shown is neither missing nor faulty: it changes
/// nothing in what is found of the questions before it.
pub proof fn law_hidden_question_ignored(
    questions: Seq<QuestionView>,
    hidden: QuestionView,
    answers: JsonView,
    visibility: Seq<(Seq<char>, bool)>,
)
    requires
        !is_shown(visibility, hidden.id),
    ensures
        question_faults(questions.push(hidden), answers, visibility) == question_faults(
            questions,
            answers,
            visibility,
        ),
        missing_ids(questions.push(hidden), answers, visibility) == missing_ids(
            questions,
            answers,
            visibility,
        ),
{
    assert(questions.push(hidden).drop_last() =~= questions);
}

/// The unknown keys are the answered ones that are no question's id.
pub proof fn law_unknown_keys(keys: Seq<Seq<char>>, ids: Seq<Seq<char>>, key: Seq<char>)
    ensures
        unknown_keys(keys, ids).contains(key) <==> keys.contains(key) && !ids.contains(key),
    decreases keys.len(),
{
    let unknown = unknown_keys(keys, ids);
    if keys.len() > 0 {
        let front = keys.drop_last();
        let before = unknown_keys(front, ids);
        law_unknown_keys(front, ids, key);
        if front.contains(key) {
            let k = choose|k: int| 0 <= k < front.len() && front[k] == key;
            assert(keys[k] == key);
        }
        if before.contains(key) {
            let k = choose|k: int| 0 <= k < before.len() && before[k] == key;
            assert(unknown[k] == key);
        }
        if keys.contains(key) && !front.contains(key) {
            let k = choose|k: int| 0 <= k < keys.len() && keys[k] == key;
            if k < front.len() {
                assert(front[k] == key);
            }
            assert(keys.last() == key);
            if !ids.contains(key) {
                assert(unknown.last() == key);
            }
        }
        if unknown.contains(key) && !before.contains(key) {
            let k = choose|k: int| 0 <= k < unknown.len() && unknown[k] == key;
            assert(k == before.len());
            assert(keys[keys.len() - 1] == key);
        }
    }
}

/// A value has the type of a question where it is of the JSON kind that the question
/// asks for. An integer is a number without a fraction part that fits in 64 signed
/// bits.
pub proof fn law_types_of_answers(kind: QuestionType, value: JsonView)
    ensures
        value is Null || value is Object ==> !type_matches(kind, value),
        value is String ==> (type_matches(kind, value) <==> kind == QuestionType::String || kind
            == QuestionType::Enum),
        value is Bool ==> (type_matches(kind, value) <==> kind == QuestionType::Boolean),
        value is Array ==> (type_matches(kind, value) <==> kind == QuestionType::List),
        value matches JsonView::Number(json::Number::Float(_)) ==> (type_matches(kind, value)
            <==> kind == QuestionType::Number),
        value matches JsonView::Number(json::Number::NegInt(_)) ==> (type_matches(kind, value)
            <==> kind == QuestionType::Number || kind == QuestionType::Integer),
        value matches JsonView::Number(json::Number::PosInt(n)) ==> (type_matches(kind, value)
            <==> kind == QuestionType::Number || (kind == QuestionType::Integer && n
            <= 0x7fff_ffff_ffff_ffff)),
{
}

/// An accepted number is within the limits of its question, whatever kind of number
/// it is and whatever kind of question takes it.
pub proof fn law_accepted_numbers_are_within_limits(q: QuestionView, value: JsonView)
    requires
        value_fault(q, value) is None,
        value is Number,
        q.constraint is Some,
        json::double_of(value->Number_0) is Some,
    ensures
        ({
            let double = json::double_of(value->Number_0)->0;
            let limits = q.constraint->0;
            &&& limits.max matches Some(max) ==> !json::double_less(max.bits, double)
            &&& limits.min matches Some(min) ==> !json::double_less(double, min.bits)
        }),
{
}

/// A value answers a question that takes no list if and only if it has the type that
/// the question asks for, keeps to each limit that the question sets for it, and is
/// one of the choices of an enum question that lists its choices.
pub proof fn law_accepted_values(q: QuestionView, value: JsonView)
    requires
        q.kind != QuestionType::List,
    ensures
        value_fault(q, value) is None <==> {
            &&& match value {
                JsonView::String(text) => {
                    &&& q.kind == QuestionType::String || q.kind == QuestionType::Enum
                    &&& q.constraint matches Some(limits) ==> {
                        &&& limits.pattern matches Some(pattern) ==> regex_match(pattern, text)
                            != Some(false)
                        &&& limits.min_len matches Some(least) ==> least <= byte_len(text)
                        &&& limits.max_len matches Some(most) ==> byte_len(text) <= most
                    }
                    &&& q.kind == QuestionType::Enum && q.choices is Some ==> exists|i: int|
                        0 <= i < q.choices->0.len() && #[trigger] q.choices->0[i] == text
                },
                JsonView::Bool(_) => q.kind == QuestionType::Boolean,
                JsonView::Number(number) => {
                    &&& q.kind == QuestionType::Number || (q.kind == QuestionType::Integer
                        && json::number_is_i64(number))
                    &&& q.constraint matches Some(limits) ==> (json::double_of(number) matches Some(
                        double,
                    ) ==> {
                        &&& limits.max matches Some(max) ==> !json::double_less(max.bits, double)
                        &&& limits.min matches Some(min) ==> !json::double_less(double, min.bits)
                    })
                },
                _ => false,
            }
        },
{
    if value is String && q.choices is Some {
        assert(q.choices->0.contains(value->String_0) <==> exists|i: int|
            0 <= i < q.choices->0.len() && #[trigger] q.choices->0[i] == value->String_0);
    }
}

/// A text's length is counted in bytes.
pub proof fn law_length_in_bytes(text: Seq<char>)
    requires
        vstd::utf8::encode_utf8(text).len() <= usize::MAX,
    ensures
        byte_len(text) == vstd::utf8::encode_utf8(text).len(),
{
}

/// A fault names its question, by the id and as the path below the root, and it says
/// what it is told.
pub proof fn law_fault_names_its_question(id: Seq<char>, message: Seq<char>, code: Seq<char>)
    ensures
        fault(id, message, code).question_id == Some(id),
        fault(id, message, code).path == Some("/"@ + id),
        fault(id, message, code).message == message,
        fault(id, message, code).code == Some(code),
        fault(id, message, code).params.len() == 0,
{
}

/// A value of the wrong type is told so, whatever else is wrong with it.
pub proof fn law_wrong_type_is_told_first(q: QuestionView, value: JsonView)
    requires
        !type_matches(q.kind, value),
    ensures
        value_fault(q, value) == Some(fault(q.id, "qa_spec.type_mismatch"@, "type_mismatch"@)),
{
}

/// A text that the pattern does not match is told so, before its length and its
/// place among the choices are looked at.
pub proof fn law_pattern_is_told(q: QuestionView, text: Seq<char>, limits: ConstraintView)
    requires
        q.kind == QuestionType::String || q.kind == QuestionType::Enum,
        q.constraint == Some(limits),
        limits.pattern is Some,
        regex_match(limits.pattern->0, text) == Some(false),
    ensures
        value_fault(q, JsonView::String(text)) == Some(
            fault(q.id, "qa_spec.pattern_mismatch"@, "pattern_mismatch"@),
        ),
{
}

/// A text of a length that its question refuses is told so, where no pattern is
/// broken. The least length is looked at before the greatest.
pub proof fn law_length_is_told(q: QuestionView, text: Seq<char>, limits: ConstraintView)
    requires
        q.kind == QuestionType::String || q.kind == QuestionType::Enum,
        q.constraint == Some(limits),
        limits.pattern is Some ==> regex_match(limits.pattern->0, text) != Some(false),
    ensures
        limits.min_len is Some && byte_len(text) < limits.min_len->0 ==> value_fault(
            q,
            JsonView::String(text),
        ) == Some(fault(q.id, "qa_spec.min_length"@, "min_length"@)),
        !(limits.min_len is Some && byte_len(text) < limits.min_len->0) && limits.max_len is Some
            && byte_len(text) > limits.max_len->0 ==> value_fault(q, JsonView::String(text))
            == Some(fault(q.id, "qa_spec.max_length"@, "max_length"@)),
{
}

/// A number outside the limits of its question is told so. The least value is looked
/// at before the greatest.
pub proof fn law_limit_is_told(
    q: QuestionView,
    number: json::Number,
    double: u64,
    limits: ConstraintView,
)
    requires
        type_matches(q.kind, JsonView::Number(number)),
        q.constraint == Some(limits),
        json::double_of(number) == Some(double),
    ensures
        limits.min is Some && json::double_less(double, limits.min->0.bits) ==> value_fault(
            q,
            JsonView::Number(number),
        ) == Some(fault(q.id, "qa_spec.min"@, "min"@)),
        !(limits.min is Some && json::double_less(double, limits.min->0.bits)) && limits.max is Some
            && json::double_less(limits.max->0.bits, double) ==> value_fault(
            q,
            JsonView::Number(number),
        ) == Some(fault(q.id, "qa_spec.max"@, "max"@)),
{
}

/// A text that is none of the choices of its enum question is told so, where it
/// keeps to every limit.
pub proof fn law_choice_is_told(q: QuestionView, text: Seq<char>)
    requires
        q.kind == QuestionType::Enum,
        q.choices is Some,
        forall|i: int| 0 <= i < q.choices->0.len() ==> #[trigger] q.choices->0[i] != text,
        value_fault(QuestionView { choices: None, ..q }, JsonView::String(text)) is None,
    ensures
        value_fault(q, JsonView::String(text)) == Some(
            fault(q.id, "qa_spec.enum_mismatch"@, "enum_mismatch"@),
        ),
{
}

/// Whether a list entry has every required field, and each of its fields is an
/// answer to the question of that field.
pub open spec fn entry_accepted(fields: Seq<QuestionView>, item: JsonView) -> bool {
    &&& item is Object
    &&& forall|j: int|
        0 <= j < fields.len() ==> match json::member(item, (#[trigger] fields[j]).id) {
            Some(value) => value_fault(fields[j], value) is None,
            None => !fields[j].required,
        }
}

proof fn lemma_fields_accepted(q: QuestionView, item: JsonView, idx: nat, j: int)
    requires
        q.list is Some,
        0 <= j <= q.list->0.fields.len(),
    ensures
        fields_fault(q, item, idx, j) is None <==> forall|k: int|
            j <= k < q.list->0.fields.len() ==> match json::member(
                item,
                (#[trigger] q.list->0.fields[k]).id,
            ) {
                Some(value) => value_fault(q.list->0.fields[k], value) is None,
                None => !q.list->0.fields[k].required,
            },
    decreases q.list->0.fields.len() - j,
{
    let fields = q.list->0.fields;
    if j < fields.len() {
        lemma_fields_accepted(q, item, idx, j + 1);
        let field = fields[j];
        let accepted = match json::member(item, field.id) {
            Some(value) => value_fault(field, value) is None,
            None => !field.required,
        };
        if accepted {
            assert(fields_fault(q, item, idx, j) == fields_fault(q, item, idx, j + 1));
        } else {
            assert(fields_fault(q, item, idx, j) is Some);
        }
    }
}

proof fn lemma_entries_accepted(q: QuestionView, items: Seq<JsonView>, i: int)
    requires
        q.list is Some,
        0 <= i <= items.len(),
    ensures
        entries_fault(q, items, i) is None <==> forall|k: int|
            i <= k < items.len() ==> entry_accepted(q.list->0.fields, #[trigger] items[k]),
    decreases items.len() - i,
{
    if i < items.len() {
        lemma_entries_accepted(q, items, i + 1);
        lemma_fields_accepted(q, items[i], i as nat, 0);
        if entry_accepted(q.list->0.fields, items[i]) {
            assert(entries_fault(q, items, i) == entries_fault(q, items, i + 1));
        } else {
            assert(entries_fault(q, items, i) is Some);
        }
    }
}

/// A value answers a list question if and only if the question says what its lists
/// hold, the value is a list with no fewer and no more entries than the question
/// allows, and each entry is an object with every required field and with answers to
/// the questions of its fields.
pub proof fn law_accepted_lists(q: QuestionView, value: JsonView)
    requires
        q.kind == QuestionType::List,
        value is Array ==> value->Array_0.len() <= usize::MAX,
    ensures
        value_fault(q, value) is None <==> {
            &&& value is Array
            &&& q.list is Some
            &&& q.list->0.min_items matches Some(least) ==> least <= value->Array_0.len()
            &&& q.list->0.max_items matches Some(most) ==> value->Array_0.len() <= most
            &&& forall|i: int|
                0 <= i < value->Array_0.len() ==> entry_accepted(
                    q.list->0.fields,
                    #[trigger] value->Array_0[i],
                )
        },
{
    if value is Array && q.list is Some {
        lemma_entries_accepted(q, value->Array_0, 0);
    }
}

/// A list with fewer entries than its question asks for, or more than it allows, is
/// told so, with the number that was asked for and the number that there were.
pub proof fn law_count_is_told(q: QuestionView, items: Seq<JsonView>)
    requires
        q.kind == QuestionType::List,
        q.list is Some,
        items.len() <= usize::MAX,
    ensures
        ({
            let found = value_fault(q, JsonView::Array(items));
            let least = q.list->0.min_items;
            let most = q.list->0.max_items;
            let few = least is Some && items.len() < least->0;
            &&& few ==> found is Some && found->0.message == "qa_spec.min_items"@ && found->0.code
                == Some("min_items"@) && entries::lookup(found->0.params, "expected"@) == Some(
                text::decimal(least->0 as nat),
            )
            &&& !few && most is Some && most->0 < items.len() ==> found is Some && found->0.message
                == "qa_spec.max_items"@ && found->0.code == Some("max_items"@) && entries::lookup(
                found->0.params,
                "expected"@,
            ) == Some(text::decimal(most->0 as nat))
            &&& few || (most is Some && most->0 < items.len()) ==> found->0.question_id == Some(
                q.id,
            ) && found->0.path == Some("/"@ + q.id) && entries::lookup(found->0.params, "actual"@)
                == Some(text::decimal(items.len()))
        }),
{
    let count = items.len() as usize;
    assert forall|threshold: usize, message: Seq<char>, code: Seq<char>| {
        let told = #[trigger] count_fault(q.id, threshold, count, message, code);
        &&& entries::lookup(told.params, "expected"@) == Some(text::decimal(threshold as nat))
        &&& entries::lookup(told.params, "actual"@) == Some(text::decimal(count as nat))
    } by {
        let none: Seq<(Seq<char>, Seq<char>)> = Seq::empty();
        let first = entries::put(none, "expected"@, text::decimal(threshold as nat));
        reveal_strlit("expected");
        reveal_strlit("actual");
        assert("expected"@.len() == 8 && "actual"@.len() == 6);
        entries::law_put_then_lookup(none, "expected"@, text::decimal(threshold as nat));
        entries::law_put_then_lookup(first, "actual"@, text::decimal(count as nat));
        entries::law_put_keeps_others(first, "actual"@, text::decimal(count as nat), "expected"@);
    }
}

/// A list question that does not say what its lists hold takes none.
pub proof fn law_list_without_fields_is_told(q: QuestionView, items: Seq<JsonView>)
    requires
        q.kind == QuestionType::List,
        q.list is None,
    ensures
        value_fault(q, JsonView::Array(items)) == Some(
            fault(q.id, "qa_spec.missing_list_definition"@, "missing_list_definition"@),
        ),
{
}

proof fn lemma_first_entry(q: QuestionView, items: Seq<JsonView>, i: int, at: int)
    requires
        q.list is Some,
        0 <= i <= at < items.len(),
        forall|k: int|
            i <= k < at ==> entry_accepted(q.list->0.fields, #[trigger] items[k]),
    ensures
        entries_fault(q, items, i) == entries_fault(q, items, at),
    decreases at - i,
{
    if i < at {
        lemma_fields_accepted(q, items[i], i as nat, 0);
        assert(entry_accepted(q.list->0.fields, items[i]));
        lemma_first_entry(q, items, i + 1, at);
    }
}

proof fn lemma_first_field(q: QuestionView, item: JsonView, idx: nat, j: int, at: int)
    requires
        q.list is Some,
        0 <= j <= at < q.list->0.fields.len(),
        forall|k: int|
            j <= k < at ==> match json::member(item, (#[trigger] q.list->0.fields[k]).id) {
                Some(value) => value_fault(q.list->0.fields[k], value) is None,
                None => !q.list->0.fields[k].required,
            },
    ensures
        fields_fault(q, item, idx, j) == fields_fault(q, item, idx, at),
    decreases at - j,
{
    if j < at {
        assert(match json::member(item, q.list->0.fields[j].id) {
            Some(value) => value_fault(q.list->0.fields[j], value) is None,
            None => !q.list->0.fields[j].required,
        });
        lemma_first_field(q, item, idx, j + 1, at);
    }
}

/// The first entry of a list that is no object is told by its place, where the
/// entries before it are accepted.
pub proof fn law_entry_is_told(q: QuestionView, items: Seq<JsonView>, at: int)
    requires
        q.kind == QuestionType::List,
        q.list is Some,
        items.len() <= usize::MAX,
        q.list->0.min_items is Some ==> q.list->0.min_items->0 <= items.len(),
        q.list->0.max_items is Some ==> items.len() <= q.list->0.max_items->0,
        0 <= at < items.len(),
        forall|k: int| 0 <= k < at ==> entry_accepted(q.list->0.fields, #[trigger] items[k]),
        !(items[at] is Object),
    ensures
        ({
            let found = value_fault(q, JsonView::Array(items));
            &&& found is Some
            &&& found->0.question_id == Some(q.id)
            &&& found->0.path == Some("/"@ + q.id + "/"@ + text::decimal(at as nat))
            &&& found->0.message == "qa_spec.entry_type"@
            &&& found->0.code == Some("entry_type"@)
            &&& found->0.params.len() == 0
        }),
{
    lemma_first_entry(q, items, 0, at);
}

/// The first field of a list entry that is missing or has a wrong value is told by
/// its place in the list, where the entries and the fields before it are accepted. A
/// wrong value is told as it is told outside a list.
pub proof fn law_field_is_told(q: QuestionView, items: Seq<JsonView>, at: int, j: int)
    requires
        q.kind == QuestionType::List,
        q.list is Some,
        items.len() <= usize::MAX,
        q.list->0.min_items is Some ==> q.list->0.min_items->0 <= items.len(),
        q.list->0.max_items is Some ==> items.len() <= q.list->0.max_items->0,
        0 <= at < items.len(),
        forall|k: int| 0 <= k < at ==> entry_accepted(q.list->0.fields, #[trigger] items[k]),
        items[at] is Object,
        0 <= j < q.list->0.fields.len(),
        entry_accepted(q.list->0.fields.take(j), items[at]),
    ensures
        ({
            let field = q.list->0.fields[j];
            let found = value_fault(q, JsonView::Array(items));
            let place = text::decimal(at as nat);
            match json::member(items[at], field.id) {
                None => field.required ==> found is Some && found->0.message
                    == "qa_spec.missing_field"@ && found->0.code == Some("missing_field"@)
                    && found->0.params == seq![("field"@, field.id)] && found->0.question_id
                    == Some(q.id + "["@ + place + "]."@ + field.id) && found->0.path == Some(
                    "/"@ + q.id + "/"@ + place + "/"@ + field.id,
                ),
                Some(value) => value_fault(field, value) matches Some(error) ==> found is Some
                    && found->0.message == error.message && found->0.code == error.code
                    && found->0.params == error.params && found->0.question_id == Some(
                    q.id + "["@ + place + "]."@ + field.id,
                ) && found->0.path == Some("/"@ + q.id + "/"@ + place + "/"@ + field.id),
            }
        }),
{
    let fields = q.list->0.fields;
    lemma_first_entry(q, items, 0, at);
    assert forall|k: int| 0 <= k < j implies match json::member(
        items[at],
        (#[trigger] fields[k]).id,
    ) {
        Some(value) => value_fault(fields[k], value) is None,
        None => !fields[k].required,
    } by {
        assert(fields.take(j)[k] == fields[k]);
    }
    lemma_first_field(q, items[at], at as nat, 0, j);
}

/// A question is left open where it is required, not hidden, and not answered.
pub proof fn law_open_questions(
    q: QuestionView,
    answers: JsonView,
    visibility: Seq<(Seq<char>, bool)>,
)
    ensures
        is_missing(q, answers, visibility) <==> q.required && entries::lookup(visibility, q.id)
            != Some(false) && json::member(answers, q.id) is None,
{
}

/// The faults of the answers are those of the answers to the questions that are not
/// hidden.
pub proof fn law_question_faults(
    questions: Seq<QuestionView>,
    answers: JsonView,
    visibility: Seq<(Seq<char>, bool)>,
    error: ErrorView,
)
    ensures
        question_faults(questions, answers, visibility).contains(error) <==> exists|i: int|
            0 <= i < questions.len() && entries::lookup(
                visibility,
                (#[trigger] questions[i]).id,
            ) != Some(false) && (json::member(answers, questions[i].id) matches Some(value)
                && value_fault(questions[i], value) == Some(error)),
    decreases questions.len(),
{
    let all = question_faults(questions, answers, visibility);
    if questions.len() > 0 {
        let front = questions.drop_last();
        let last = questions.last();
        let before = question_faults(front, answers, visibility);
        law_question_faults(front, answers, visibility, error);
        assert(questions[questions.len() - 1] == last);
        if before.contains(error) {
            let i = choose|i: int|
                0 <= i < front.len() && entries::lookup(
                    visibility,
                    (#[trigger] front[i]).id,
                ) != Some(false) && (json::member(answers, front[i].id) matches Some(value)
                    && value_fault(front[i], value) == Some(error));
            assert(questions[i] == front[i]);
            let k = choose|k: int| 0 <= k < before.len() && before[k] == error;
            assert(all[k] == error);
        }
        if all.contains(error) && !before.contains(error) {
            let k = choose|k: int| 0 <= k < all.len() && all[k] == error;
            assert(k == before.len());
        }
        assert forall|i: int|
            0 <= i < questions.len() && entries::lookup(
                visibility,
                (#[trigger] questions[i]).id,
            ) != Some(false) && (json::member(answers, questions[i].id) matches Some(value)
                && value_fault(questions[i], value) == Some(error)) implies all.contains(
            error,
        ) by {
            if i < front.len() {
                assert(front[i] == questions[i]);
            } else {
                assert(all.last() == error);
            }
        }
    }
}

/// The faults come in the order of the questions: those of more questions come
/// behind those of the questions before them.
pub proof fn law_question_faults_in_order(
    first: Seq<QuestionView>,
    behind: Seq<QuestionView>,
    answers: JsonView,
    visibility: Seq<(Seq<char>, bool)>,
)
    ensures
        question_faults(first + behind, answers, visibility) == question_faults(
            first,
            answers,
            visibility,
        ) + question_faults(behind, answers, visibility),
        missing_ids(first + behind, answers, visibility) == missing_ids(
            first,
            answers,
            visibility,
        ) + missing_ids(behind, answers, visibility),
        question_faults(first, answers, visibility).len() <= first.len(),
    decreases first.len() + behind.len(),
{
    if behind.len() == 0 {
        assert(first + behind =~= first);
        assert(question_faults(first, answers, visibility) + question_faults(
            behind,
            answers,
            visibility,
        ) =~= question_faults(first, answers, visibility));
        assert(missing_ids(first, answers, visibility) + missing_ids(behind, answers, visibility)
            =~= missing_ids(first, answers, visibility));
        if first.len() > 0 {
            law_question_faults_in_order(first.drop_last(), behind, answers, visibility);
        }
    } else {
        assert((first + behind).drop_last() =~= first + behind.drop_last());
        assert((first + behind).last() == behind.last());
        law_question_faults_in_order(first, behind.drop_last(), answers, visibility);
        assert(question_faults(first + behind, answers, visibility) =~= question_faults(
            first,
            answers,
            visibility,
        ) + question_faults(behind, answers, visibility));
        assert(missing_ids(first + behind, answers, visibility) =~= missing_ids(
            first,
            answers,
            visibility,
        ) + missing_ids(behind, answers, visibility));
    }
}

/// A broken rule is told with its own message and code, at the first of its fields.
/// Where it has no field, its id takes the place of a question's.
pub proof fn law_broken_rule_is_told(rule: RuleView)
    ensures
        rule_fault(rule).message == rule.message,
        rule_fault(rule).code == rule.code,
        rule_fault(rule).params.len() == 0,
        rule.fields.len() == 0 ==> rule_fault(rule).question_id == rule.id && rule_fault(rule).path
            is None,
        rule.fields.len() > 0 ==> rule_fault(rule).question_id == Some(rule.fields[0])
            && rule_fault(rule).path == Some("/"@ + rule.fields[0]),
{
}

/// The faults of the rules are those of the rules whose condition came out true.
pub proof fn law_rule_faults(
    rules: Seq<RuleView>,
    conditions: Seq<Option<bool>>,
    error: ErrorView,
)
    ensures
        rule_faults(rules, conditions).contains(error) <==> exists|i: int|
            0 <= i < rules.len() && i < conditions.len() && conditions[i] == Some(true)
                && rule_fault(#[trigger] rules[i]) == error,
        rule_faults(rules, conditions).len() <= rules.len(),
    decreases rules.len(),
{
    let all = rule_faults(rules, conditions);
    if rules.len() > 0 {
        let front = rules.drop_last();
        let before = rule_faults(front, conditions);
        law_rule_faults(front, conditions, error);
        assert(rules[rules.len() - 1] == rules.last());
        if before.contains(error) {
            let i = choose|i: int|
                0 <= i < front.len() && i < conditions.len() && conditions[i] == Some(true)
                    && rule_fault(#[trigger] front[i]) == error;
            assert(rules[i] == front[i]);
            let k = choose|k: int| 0 <= k < before.len() && before[k] == error;
            assert(all[k] == error);
        }
        if all.contains(error) && !before.contains(error) {
            let k = choose|k: int| 0 <= k < all.len() && all[k] == error;
            assert(k == before.len());
        }
        assert forall|i: int|
            0 <= i < rules.len() && i < conditions.len() && conditions[i] == Some(true)
                && rule_fault(#[trigger] rules[i]) == error implies all.contains(error) by {
            if i < front.len() {
                assert(front[i] == rules[i]);
            } else {
                assert(all.last() == error);
            }
        }
    }
}

/// One more rule adds its fault behind the others where its condition came out true,
/// and nothing else.
pub proof fn law_rule_faults_in_order(
    rules: Seq<RuleView>,
    rule: RuleView,
    conditions: Seq<Option<bool>>,
)
    requires
        conditions.len() == rules.len() + 1,
    ensures
        conditions.last() == Some(true) ==> rule_faults(rules.push(rule), conditions)
            == rule_faults(rules, conditions).push(rule_fault(rule)),
        conditions.last() != Some(true) ==> rule_faults(rules.push(rule), conditions)
            == rule_faults(rules, conditions),
{
    assert(rules.push(rule).drop_last() =~= rules);
}

/// Answers are valid if and only if every question that is not hidden is answered
/// with an accepted value, or is left open without being required; every answer is
/// the answer to a question of the form; and no rule's condition came out true.
pub proof fn law_valid_answers(
    form: FormView,
    answers: JsonView,
    visibility: Seq<(Seq<char>, bool)>,
    conditions: Seq<Option<bool>>,
)
    ensures
        outcome(form, answers, visibility, conditions).valid <==> {
            &&& forall|i: int|
                0 <= i < form.questions.len() && entries::lookup(
                    visibility,
                    (#[trigger] form.questions[i]).id,
                ) != Some(false) ==> match json::member(answers, form.questions[i].id) {
                    Some(value) => value_fault(form.questions[i], value) is None,
                    None => !form.questions[i].required,
                }
            &&& forall|key: Seq<char>| #[trigger]
                answer_keys(answers).contains(key) ==> exists|i: int|
                    0 <= i < form.questions.len() && (#[trigger] form.questions[i]).id == key
            &&& forall|i: int|
                0 <= i < form.validations.len() && i < conditions.len() ==> #[trigger] conditions[i]
                    != Some(true)
        },
{
    let questions = form.questions;
    let faults = question_faults(questions, answers, visibility);
    let broken = rule_faults(form.validations, conditions);
    let missing = missing_ids(questions, answers, visibility);
    let ids = ids_of(questions);
    let unknown = unknown_keys(answer_keys(answers), ids);
    let valid = outcome(form, answers, visibility, conditions).valid;
    assert forall|i: int| 0 <= i < questions.len() implies #[trigger] ids.contains(
        (#[trigger] questions[i]).id,
    ) by {
        assert(ids[i] == questions[i].id);
    }
    if faults.len() > 0 {
        law_question_faults(questions, answers, visibility, faults[0]);
        assert(faults.contains(faults[0]));
    }
    if broken.len() > 0 {
        law_rule_faults(form.validations, conditions, broken[0]);
        assert(broken.contains(broken[0]));
    }
    if missing.len() > 0 {
        law_missing_ids(questions, answers, visibility, missing[0]);
        assert(missing.contains(missing[0]));
    }
    if unknown.len() > 0 {
        law_unknown_keys(answer_keys(answers), ids, unknown[0]);
        assert(unknown.contains(unknown[0]));
        assert forall|i: int| 0 <= i < questions.len() implies (#[trigger] questions[i]).id
            != unknown[0] by {
            assert(ids.contains(questions[i].id));
        }
        assert(answer_keys(answers).contains(unknown[0]));
    }
    if valid {
        assert forall|i: int|
            0 <= i < questions.len() && entries::lookup(
                visibility,
                (#[trigger] questions[i]).id,
            ) != Some(false) implies match json::member(answers, questions[i].id) {
            Some(value) => value_fault(questions[i], value) is None,
            None => !questions[i].required,
        } by {
            match json::member(answers, questions[i].id) {
                Some(value) => if value_fault(questions[i], value) is Some {
                    law_question_faults(
                        questions,
                        answers,
                        visibility,
                        value_fault(questions[i], value)->0,
                    );
                    assert(faults.contains(value_fault(questions[i], value)->0));
                },
                None => if questions[i].required {
                    law_missing_ids(questions, answers, visibility, questions[i].id);
                    assert(missing.contains(questions[i].id));
                },
            }
        }
        assert forall|key: Seq<char>| #[trigger]
            answer_keys(answers).contains(key) implies exists|i: int|
            0 <= i < questions.len() && (#[trigger] questions[i]).id == key by {
            law_unknown_keys(answer_keys(answers), ids, key);
            assert(!unknown.contains(key));
            assert(ids.contains(key));
            let i = choose|i: int| 0 <= i < ids.len() && ids[i] == key;
            assert(questions[i].id == key);
        }
        assert forall|i: int|
            0 <= i < form.validations.len() && i < conditions.len() implies #[trigger] conditions[i]
            != Some(true) by {
            if conditions[i] == Some(true) {
                law_rule_faults(form.validations, conditions, rule_fault(form.validations[i]));
                assert(broken.contains(rule_fault(form.validations[i])));
            }
        }
    }
}

/// The outcome holds what was found: the faults of the answers and then those of the
/// rules, the open questions, and the answers that no question asked for.
pub proof fn law_outcome_holds_what_was_found(
    form: FormView,
    answers: JsonView,
    visibility: Seq<(Seq<char>, bool)>,
    conditions: Seq<Option<bool>>,
)
    ensures
        ({
            let found = outcome(form, answers, visibility, conditions);
            &&& found.errors == question_faults(form.questions, answers, visibility) + rule_faults(
                form.validations,
                conditions,
            )
            &&& found.missing_required == missing_ids(form.questions, answers, visibility)
            &&& forall|key: Seq<char>| #[trigger]
                found.unknown_fields.contains(key) <==> json::member(answers, key) is Some && !(
                exists|i: int| 0 <= i < form.questions.len() && (#[trigger] form.questions[i]).id
                    == key)
        }),
{
    let found = outcome(form, answers, visibility, conditions);
    let ids = ids_of(form.questions);
    assert forall|key: Seq<char>| #[trigger]
        found.unknown_fields.contains(key) <==> json::member(answers, key) is Some && !(exists|
        i: int,
    | 0 <= i < form.questions.len() && (#[trigger] form.questions[i]).id == key) by {
        law_unknown_keys(answer_keys(answers), ids, key);
        if answers is Object {
            entries::lemma_position(entries::view_keys(answers->Object_0), key);
        }
        assert(answer_keys(answers).contains(key) <==> json::member(answers, key) is Some);
        if ids.contains(key) {
            let i = choose|i: int| 0 <= i < ids.len() && ids[i] == key;
            assert(form.questions[i].id == key);
        }
        assert forall|i: int|
            0 <= i < form.questions.len() && (#[trigger] form.questions[i]).id == key implies
            ids.contains(key) by {
            assert(ids[i] == key);
        }
    }
}

} // verus!
