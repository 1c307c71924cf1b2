//! The dialogue in which a form is described.
use crate::builder::{
    self, CliQuestionType, FormInput, GenerationInput, GenerationInputView, ListInput,
    ListInputView, QuestionInput, QuestionInputView,
};
use crate::catalog::{self, t, tf, tf1, tf2, CatalogView, I18n};
use crate::console::{self, split_commas, Console, ConsoleView};
use crate::form::{
    self, Bound, BoundView, Constraint, ConstraintView, CrossFieldValidation, Expr, ExprView,
    RuleView,
};
use crate::hints::{
    self, build_binary_expression, collect_ids, default_prompt_for, describe_list_size,
    describe_type_hint, existing_question_ids, mark_required, question_exists, render_list_example,
    summarize_list_fields,
};
use crate::text::{self, cat, join, number_text, same, to_lower, trim};
use crate::typed::{
    self, ensure_default_matches_type, parse_expression_literal, validate_question_input,
};
use vstd::prelude::*;

verus! {

/// How deep an expression that is typed in may nest.
pub const MAX_DEPTH: usize = 4;

/// The line that lists the questions so far.
pub open spec fn questions_line(ids: Seq<Seq<char>>, catalog: CatalogView) -> Seq<char> {
    catalog::message_with(
        catalog,
        "cli.prompt.existing_questions"@,
        seq![("ids"@, hints::ids_text(ids, catalog))],
    )
}

fn make_questions_line(ids: &Vec<String>, i18n: &I18n) -> (r: String)
    ensures
        r@ == questions_line(text::texts(ids@), i18n@),
{
    let list = existing_question_ids(ids, i18n);
    tf1(i18n, "cli.prompt.existing_questions", "ids", list.as_str())
}

/// A condition that a question is answered.
pub open spec fn asked_is_set(d: ConsoleView, ids: Seq<Seq<char>>, catalog: CatalogView) -> (
    ExprView,
    ConsoleView,
) {
    let (path, after) = console::asked_text(
        console::told(d, questions_line(ids, catalog)),
        catalog::message(catalog, "cli.prompt.question_id_presence"@),
        None,
        catalog,
    );
    (ExprView::IsSet { path }, after)
}

/// The right side of a comparison: a question, or else a value.
pub open spec fn asked_operand(d: ConsoleView, catalog: CatalogView) -> (ExprView, ConsoleView) {
    let (operand, d1) = console::asked_line(
        d,
        catalog::message(catalog, "cli.prompt.right_operand_type"@),
        Some(catalog::message(catalog, "cli.prompt.right_operand_default"@)),
    );
    let word = text::lowercase(text::trimmed(operand));
    if word == "question"@ || word == "answer"@ {
        let (path, d2) = console::asked_text(
            d1,
            catalog::message(catalog, "cli.prompt.right_operand_question_id"@),
            None,
            catalog,
        );
        (ExprView::Answer { path }, d2)
    } else {
        let (raw, d2) = console::asked_text(
            d1,
            catalog::message(catalog, "cli.prompt.value_compare_against"@),
            None,
            catalog,
        );
        (ExprView::Literal { value: typed::literal_typed(raw) }, d2)
    }
}

/// A comparison.
pub open spec fn asked_comparison(d: ConsoleView, ids: Seq<Seq<char>>, catalog: CatalogView) -> (
    ExprView,
    ConsoleView,
) {
    let (operator, d1) = console::asked_line(
        console::told(d, questions_line(ids, catalog)),
        catalog::message(catalog, "cli.prompt.operator"@),
        Some("eq"@),
    );
    let (path, d2) = console::asked_text(
        d1,
        catalog::message(catalog, "cli.prompt.question_id_compare"@),
        None,
        catalog,
    );
    let (right, d3) = asked_operand(d2, catalog);
    (
        hints::comparison(
            text::lowercase(text::trimmed(operator)),
            ExprView::Answer { path },
            right,
        ),
        d3,
    )
}

/// The prompt for the kind of an expression: below the greatest depth, ones that
/// hold others are on offer.
pub open spec fn expr_prompt(depth: int, catalog: CatalogView) -> Seq<char> {
    let prefix = catalog::message(catalog, "cli.prompt.expr_type_prefix"@);
    if depth < MAX_DEPTH {
        prefix + "/and/or/not"@ + ")"@
    } else {
        prefix + ")"@
    }
}

/// A condition.
pub open spec fn asked_expr(
    d: ConsoleView,
    ids: Seq<Seq<char>>,
    depth: int,
    catalog: CatalogView,
) -> (ExprView, ConsoleView)
    decreases MAX_DEPTH - depth,
{
    let (choice, d1) = console::asked_line(
        d,
        expr_prompt(depth, catalog),
        Some(catalog::message(catalog, "cli.prompt.expr_type_default"@)),
    );
    let word = text::lowercase(text::trimmed(choice));
    if word == "is_set"@ {
        asked_is_set(d1, ids, catalog)
    } else if word == "and"@ && depth < MAX_DEPTH {
        let (left, d2) = asked_expr(d1, ids, depth + 1, catalog);
        let (right, d3) = asked_expr(d2, ids, depth + 1, catalog);
        (ExprView::And { expressions: seq![left, right] }, d3)
    } else if word == "or"@ && depth < MAX_DEPTH {
        let (left, d2) = asked_expr(d1, ids, depth + 1, catalog);
        let (right, d3) = asked_expr(d2, ids, depth + 1, catalog);
        (ExprView::Or { expressions: seq![left, right] }, d3)
    } else if word == "not"@ && depth < MAX_DEPTH {
        let (inner, d2) = asked_expr(d1, ids, depth + 1, catalog);
        (ExprView::Not { expression: Box::new(inner) }, d2)
    } else {
        asked_comparison(
            console::told(d1, catalog::message(catalog, "cli.prompt.building_comparison"@)),
            ids,
            catalog,
        )
    }
}

pub proof fn lemma_operand(d: ConsoleView, catalog: CatalogView)
    ensures
        console::shorter(d, asked_operand(d, catalog).1),
        console::went_on(d, asked_operand(d, catalog).1),
{
    broadcast use console::group_lines;

    let (operand, d1) = console::asked_line(
        d,
        catalog::message(catalog, "cli.prompt.right_operand_type"@),
        Some(catalog::message(catalog, "cli.prompt.right_operand_default"@)),
    );
    console::lemma_text(
        d1,
        catalog::message(catalog, "cli.prompt.right_operand_question_id"@),
        None,
        catalog,
    );
    console::lemma_text(
        d1,
        catalog::message(catalog, "cli.prompt.value_compare_against"@),
        None,
        catalog,
    );
}

pub proof fn lemma_is_set(d: ConsoleView, ids: Seq<Seq<char>>, catalog: CatalogView)
    ensures
        console::shorter(d, asked_is_set(d, ids, catalog).1),
        console::went_on(d, asked_is_set(d, ids, catalog).1),
{
    broadcast use console::group_lines;

    console::lemma_text(
        console::told(d, questions_line(ids, catalog)),
        catalog::message(catalog, "cli.prompt.question_id_presence"@),
        None,
        catalog,
    );
}

pub proof fn lemma_comparison(d: ConsoleView, ids: Seq<Seq<char>>, catalog: CatalogView)
    ensures
        console::shorter(d, asked_comparison(d, ids, catalog).1),
        console::went_on(d, asked_comparison(d, ids, catalog).1),
{
    broadcast use console::group_lines;

    let (operator, d1) = console::asked_line(
        console::told(d, questions_line(ids, catalog)),
        catalog::message(catalog, "cli.prompt.operator"@),
        Some("eq"@),
    );
    console::lemma_text(
        d1,
        catalog::message(catalog, "cli.prompt.question_id_compare"@),
        None,
        catalog,
    );
    let (path, d2) = console::asked_text(
        d1,
        catalog::message(catalog, "cli.prompt.question_id_compare"@),
        None,
        catalog,
    );
    lemma_operand(d2, catalog);
}

pub proof fn lemma_expr(d: ConsoleView, ids: Seq<Seq<char>>, depth: int, catalog: CatalogView)
    ensures
        console::shorter(d, asked_expr(d, ids, depth, catalog).1),
        console::went_on(d, asked_expr(d, ids, depth, catalog).1),
    decreases MAX_DEPTH - depth,
{
    broadcast use console::group_lines;

    let (choice, d1) = console::asked_line(
        d,
        expr_prompt(depth, catalog),
        Some(catalog::message(catalog, "cli.prompt.expr_type_default"@)),
    );
    lemma_is_set(d1, ids, catalog);
    lemma_comparison(
        console::told(d1, catalog::message(catalog, "cli.prompt.building_comparison"@)),
        ids,
        catalog,
    );
    if depth < MAX_DEPTH {
        lemma_expr(d1, ids, depth + 1, catalog);
        lemma_expr(asked_expr(d1, ids, depth + 1, catalog).1, ids, depth + 1, catalog);
    }
}

/// A condition under which a question is shown.
pub open spec fn asked_visibility(d: ConsoleView, ids: Seq<Seq<char>>, catalog: CatalogView) -> (
    Option<ExprView>,
    ConsoleView,
) {
    if ids.len() == 0 {
        (None, d)
    } else {
        let (wanted, d1) = console::asked_bool(
            d,
            catalog::message(catalog, "cli.prompt.add_visibility_condition"@),
            false,
            catalog,
        );
        if wanted {
            let (expr, d2) = asked_expr(
                console::told(d1, questions_line(ids, catalog)),
                ids,
                0,
                catalog,
            );
            (Some(expr), d2)
        } else {
            (None, d1)
        }
    }
}

pub proof fn lemma_visibility(d: ConsoleView, ids: Seq<Seq<char>>, catalog: CatalogView)
    ensures
        console::went_on(d, asked_visibility(d, ids, catalog).1),
{
    broadcast use console::group_lines;

    let prompt = catalog::message(catalog, "cli.prompt.add_visibility_condition"@);
    console::lemma_bool(d, prompt, false, catalog);
    let (wanted, d1) = console::asked_bool(d, prompt, false, catalog);
    lemma_expr(console::told(d1, questions_line(ids, catalog)), ids, 0, catalog);
}

/// A list without those items that equal the one before them.
pub open spec fn without_repeats(list: Seq<Seq<char>>) -> Seq<Seq<char>>
    decreases list.len(),
{
    if list.len() == 0 {
        Seq::empty()
    } else {
        let before = without_repeats(list.drop_last());
        if before.len() > 0 && before.last() == list.last() {
            before
        } else {
            before.push(list.last())
        }
    }
}

/// Those ids that no question has.
pub open spec fn unknown_ids(fields: Seq<Seq<char>>, ids: Seq<Seq<char>>) -> Seq<Seq<char>>
    decreases fields.len(),
{
    if fields.len() == 0 {
        Seq::empty()
    } else {
        let before = unknown_ids(fields.drop_last(), ids);
        if ids.contains(fields.last()) {
            before
        } else {
            before.push(fields.last())
        }
    }
}

/// The fields of a rule.
pub open spec fn asked_fields(d: ConsoleView, ids: Seq<Seq<char>>, catalog: CatalogView) -> (
    Seq<Seq<char>>,
    ConsoleView,
)
    decreases d.rest.len(),
{
    let available = catalog::message_with(
        catalog,
        "cli.prompt.available_questions"@,
        seq![("ids"@, hints::ids_text(ids, catalog))],
    );
    let (raw, d1) = console::asked_line(
        console::told(d, available),
        catalog::message(catalog, "cli.prompt.fields_to_validate"@),
        None,
    );
    let fields = without_repeats(console::comma_list(raw));
    let unknown = unknown_ids(fields, ids);
    if d1.waiting {
        (Seq::empty(), d1)
    } else if fields.len() == 0 {
        asked_fields(
            console::told(d1, catalog::message(catalog, "cli.prompt.at_least_one_field"@)),
            ids,
            catalog,
        )
    } else if unknown.len() > 0 {
        asked_fields(
            console::told(
                d1,
                catalog::message_with(
                    catalog,
                    "cli.prompt.unknown_fields"@,
                    seq![("fields"@, text::joined(unknown, ", "@))],
                ),
            ),
            ids,
            catalog,
        )
    } else {
        (fields, d1)
    }
}

pub proof fn lemma_fields(d: ConsoleView, ids: Seq<Seq<char>>, catalog: CatalogView)
    ensures
        console::shorter(d, asked_fields(d, ids, catalog).1),
        console::went_on(d, asked_fields(d, ids, catalog).1),
    decreases d.rest.len(),
{
    broadcast use console::group_lines;

    let available = catalog::message_with(
        catalog,
        "cli.prompt.available_questions"@,
        seq![("ids"@, hints::ids_text(ids, catalog))],
    );
    let (raw, d1) = console::asked_line(
        console::told(d, available),
        catalog::message(catalog, "cli.prompt.fields_to_validate"@),
        None,
    );
    let fields = without_repeats(console::comma_list(raw));
    let unknown = unknown_ids(fields, ids);
    if !d1.waiting {
        lemma_fields(
            console::told(d1, catalog::message(catalog, "cli.prompt.at_least_one_field"@)),
            ids,
            catalog,
        );
        lemma_fields(
            console::told(
                d1,
                catalog::message_with(
                    catalog,
                    "cli.prompt.unknown_fields"@,
                    seq![("fields"@, text::joined(unknown, ", "@))],
                ),
            ),
            ids,
            catalog,
        );
    }
}

/// A rule, after it was said that there is one.
pub open spec fn asked_rule(d: ConsoleView, ids: Seq<Seq<char>>, catalog: CatalogView) -> (
    RuleView,
    ConsoleView,
) {
    let (id, d1) = console::asked_optional(
        d,
        catalog::message(catalog, "cli.prompt.validation_id"@),
    );
    let (message, d2) = console::asked_text(
        d1,
        catalog::message(catalog, "cli.prompt.validation_message"@),
        None,
        catalog,
    );
    let (fields, d3) = asked_fields(d2, ids, catalog);
    let (condition, d4) = asked_expr(d3, ids, 0, catalog);
    (RuleView { id, message, fields, condition, code: None }, d4)
}

pub proof fn lemma_rule(d: ConsoleView, ids: Seq<Seq<char>>, catalog: CatalogView)
    ensures
        console::shorter(d, asked_rule(d, ids, catalog).1),
        console::went_on(d, asked_rule(d, ids, catalog).1),
{
    broadcast use console::group_lines;

    let (id, d1) = console::asked_optional(
        d,
        catalog::message(catalog, "cli.prompt.validation_id"@),
    );
    let prompt = catalog::message(catalog, "cli.prompt.validation_message"@);
    console::lemma_text(d1, prompt, None, catalog);
    let (message, d2) = console::asked_text(d1, prompt, None, catalog);
    lemma_fields(d2, ids, catalog);
    lemma_expr(asked_fields(d2, ids, catalog).1, ids, 0, catalog);
}

/// The rules of a form.
pub open spec fn asked_rules(
    d: ConsoleView,
    ids: Seq<Seq<char>>,
    done: Seq<RuleView>,
    catalog: CatalogView,
) -> (Seq<RuleView>, ConsoleView)
    decreases d.rest.len(),
{
    let prompt = catalog::message(catalog, "cli.prompt.add_cross_field_validation"@);
    let (more, d1) = console::asked_bool(d, prompt, false, catalog);
    let (rule, d2) = asked_rule(d1, ids, catalog);
    if !more {
        (done, d1)
    } else if d2.waiting {
        (done, d2)
    } else {
        proof {
            console::lemma_bool(d, prompt, false, catalog);
            lemma_rule(d1, ids, catalog);
        }
        asked_rules(d2, ids, done.push(rule), catalog)
    }
}

/// Where the value of a question comes from.
pub open spec fn asked_source(d: ConsoleView, catalog: CatalogView) -> (
    (Option<ExprView>, bool),
    ConsoleView,
)
    decreases d.rest.len(),
{
    let (source, d1) = console::asked_line(
        d,
        catalog::message(catalog, "cli.prompt.computed_source"@),
        Some(catalog::message(catalog, "cli.prompt.computed_source_default"@)),
    );
    let word = text::lowercase(text::trimmed(source));
    let override_prompt = catalog::message(catalog, "cli.prompt.allow_override_computed"@);
    if d1.waiting {
        ((None, false), d1)
    } else if word == "answer"@ {
        let (path, d2) = console::asked_text(
            d1,
            catalog::message(catalog, "cli.prompt.source_question_id"@),
            None,
            catalog,
        );
        let (overrides, d3) = console::asked_bool(d2, override_prompt, false, catalog);
        ((Some(ExprView::Answer { path }), overrides), d3)
    } else if word == "literal"@ {
        let (raw, d2) = console::asked_text(
            d1,
            catalog::message(catalog, "cli.prompt.literal_value"@),
            None,
            catalog,
        );
        let (overrides, d3) = console::asked_bool(d2, override_prompt, false, catalog);
        ((Some(ExprView::Literal { value: typed::literal_typed(raw) }), overrides), d3)
    } else {
        asked_source(
            console::told(
                d1,
                catalog::message_with(
                    catalog,
                    "cli.prompt.unknown_source"@,
                    seq![("source"@, word)],
                ),
            ),
            catalog,
        )
    }
}

pub proof fn lemma_source(d: ConsoleView, catalog: CatalogView)
    ensures
        console::shorter(d, asked_source(d, catalog).1),
        console::went_on(d, asked_source(d, catalog).1),
    decreases d.rest.len(),
{
    broadcast use console::group_lines;

    let (source, d1) = console::asked_line(
        d,
        catalog::message(catalog, "cli.prompt.computed_source"@),
        Some(catalog::message(catalog, "cli.prompt.computed_source_default"@)),
    );
    let word = text::lowercase(text::trimmed(source));
    let override_prompt = catalog::message(catalog, "cli.prompt.allow_override_computed"@);
    let path_prompt = catalog::message(catalog, "cli.prompt.source_question_id"@);
    let value_prompt = catalog::message(catalog, "cli.prompt.literal_value"@);
    console::lemma_text(d1, path_prompt, None, catalog);
    console::lemma_text(d1, value_prompt, None, catalog);
    console::lemma_bool(
        console::asked_text(d1, path_prompt, None, catalog).1,
        override_prompt,
        false,
        catalog,
    );
    console::lemma_bool(
        console::asked_text(d1, value_prompt, None, catalog).1,
        override_prompt,
        false,
        catalog,
    );
    if !d1.waiting && word != "answer"@ && word != "literal"@ {
        lemma_source(
            console::told(
                d1,
                catalog::message_with(
                    catalog,
                    "cli.prompt.unknown_source"@,
                    seq![("source"@, word)],
                ),
            ),
            catalog,
        );
    }
}

/// How the value of a question is computed, if it is, and whether an answer may
/// take its place.
pub open spec fn asked_computed(
    d: ConsoleView,
    kind: CliQuestionType,
    ids: Seq<Seq<char>>,
    catalog: CatalogView,
) -> ((Option<ExprView>, bool), ConsoleView) {
    if kind is List {
        ((None, false), d)
    } else {
        let (wanted, d1) = console::asked_bool(
            d,
            catalog::message(catalog, "cli.prompt.compute_question_value"@),
            false,
            catalog,
        );
        if wanted {
            asked_source(console::told(d1, questions_line(ids, catalog)), catalog)
        } else {
            ((None, false), d1)
        }
    }
}

pub proof fn lemma_computed(
    d: ConsoleView,
    kind: CliQuestionType,
    ids: Seq<Seq<char>>,
    catalog: CatalogView,
)
    ensures
        console::went_on(d, asked_computed(d, kind, ids, catalog).1),
{
    broadcast use console::group_lines;

    let prompt = catalog::message(catalog, "cli.prompt.compute_question_value"@);
    console::lemma_bool(d, prompt, false, catalog);
    let (wanted, d1) = console::asked_bool(d, prompt, false, catalog);
    lemma_source(console::told(d1, questions_line(ids, catalog)), catalog);
}

/// A limit that was typed in.
pub open spec fn bound_read(read: Option<(u64, Seq<char>)>) -> Option<BoundView> {
    match read {
        Some((bits, text)) => Some(BoundView { bits, text }),
        None => None,
    }
}

/// The numeric limits of a question.
pub open spec fn asked_range(d: ConsoleView, catalog: CatalogView) -> (
    (Option<BoundView>, Option<BoundView>),
    ConsoleView,
) {
    let (min, d1) = console::asked_double(
        d,
        catalog::message(catalog, "cli.prompt.min_numeric_value"@),
        catalog,
    );
    let (max, d2) = console::asked_double(
        d1,
        catalog::message(catalog, "cli.prompt.max_numeric_value"@),
        catalog,
    );
    ((bound_read(min), bound_read(max)), d2)
}

/// The limits on the text of an answer.
pub open spec fn asked_lengths(d: ConsoleView, catalog: CatalogView) -> (
    (Option<usize>, Option<usize>, Option<Seq<char>>),
    ConsoleView,
) {
    let (min_len, d1) = console::asked_usize(
        d,
        catalog::message(catalog, "cli.prompt.min_length"@),
        catalog,
    );
    let (max_len, d2) = console::asked_usize(
        d1,
        catalog::message(catalog, "cli.prompt.max_length"@),
        catalog,
    );
    let (pattern, d3) = console::asked_optional(
        d2,
        catalog::message(catalog, "cli.prompt.regex_pattern"@),
    );
    ((min_len, max_len, pattern), d3)
}

/// The limits on the answers to a question of some kind.
pub open spec fn asked_constraint(d: ConsoleView, kind: CliQuestionType, catalog: CatalogView) -> (
    Option<ConstraintView>,
    ConsoleView,
) {
    if kind is Integer || kind is Number {
        let ((min, max), after) = asked_range(d, catalog);
        if min is None && max is None {
            (None, after)
        } else {
            (
                Some(
                    ConstraintView {
                        pattern: None,
                        min,
                        max,
                        min_len: None,
                        max_len: None,
                    },
                ),
                after,
            )
        }
    } else if kind is String || kind is Enum {
        let ((min_len, max_len, pattern), after) = asked_lengths(d, catalog);
        if min_len is None && max_len is None && pattern is None {
            (None, after)
        } else {
            (
                Some(ConstraintView { pattern, min: None, max: None, min_len, max_len }),
                after,
            )
        }
    } else {
        (None, d)
    }
}

pub proof fn lemma_constraint(d: ConsoleView, kind: CliQuestionType, catalog: CatalogView)
    ensures
        console::went_on(d, asked_constraint(d, kind, catalog).1),
{
    broadcast use console::group_lines;

    let min_prompt = catalog::message(catalog, "cli.prompt.min_numeric_value"@);
    console::lemma_double(d, min_prompt, catalog);
    console::lemma_double(
        console::asked_double(d, min_prompt, catalog).1,
        catalog::message(catalog, "cli.prompt.max_numeric_value"@),
        catalog,
    );
    let len_prompt = catalog::message(catalog, "cli.prompt.min_length"@);
    console::lemma_usize(d, len_prompt, catalog);
    console::lemma_usize(
        console::asked_usize(d, len_prompt, catalog).1,
        catalog::message(catalog, "cli.prompt.max_length"@),
        catalog,
    );
}

/// The complaint about a default: in a list field, or with a hint in a question.
pub open spec fn default_refusal(
    in_list: bool,
    kind: CliQuestionType,
    choices: Option<Seq<Seq<char>>>,
    complaint: Seq<char>,
    catalog: CatalogView,
) -> Seq<char> {
    let hint = hints::hint_for(kind, choices, None, catalog);
    if in_list {
        catalog::message_with(
            catalog,
            "cli.prompt.invalid_default_retry"@,
            seq![("error"@, complaint)],
        )
    } else {
        catalog::message_with(
            catalog,
            "cli.new.invalid_default"@,
            seq![("error"@, complaint), ("expected"@, hint.expected), ("example"@, hint.example)],
        )
    }
}

/// What is wrong with a default that may be left out.
pub open spec fn given_default_complaint(
    kind: CliQuestionType,
    default: Option<Seq<char>>,
    choices: Option<Seq<Seq<char>>>,
    catalog: CatalogView,
) -> Option<Seq<char>> {
    match default {
        Some(default) => typed::default_complaint(kind, default, choices, catalog),
        None => None,
    }
}

/// A default that may be left out.
pub open spec fn asked_default(
    d: ConsoleView,
    in_list: bool,
    kind: CliQuestionType,
    choices: Option<Seq<Seq<char>>>,
    catalog: CatalogView,
) -> (Option<Seq<char>>, ConsoleView)
    decreases d.rest.len(),
{
    let (candidate, d1) = console::asked_optional(
        d,
        hints::default_prompt(kind, choices, catalog),
    );
    match given_default_complaint(kind, candidate, choices, catalog) {
        Some(complaint) => if d1.waiting {
            (candidate, d1)
        } else {
            asked_default(
                console::told(d1, default_refusal(in_list, kind, choices, complaint, catalog)),
                in_list,
                kind,
                choices,
                catalog,
            )
        },
        None => (candidate, d1),
    }
}

pub proof fn lemma_default(
    d: ConsoleView,
    in_list: bool,
    kind: CliQuestionType,
    choices: Option<Seq<Seq<char>>>,
    catalog: CatalogView,
)
    ensures
        console::shorter(d, asked_default(d, in_list, kind, choices, catalog).1),
        console::went_on(d, asked_default(d, in_list, kind, choices, catalog).1),
    decreases d.rest.len(),
{
    broadcast use console::group_lines;

    let (candidate, d1) = console::asked_optional(
        d,
        hints::default_prompt(kind, choices, catalog),
    );
    match given_default_complaint(kind, candidate, choices, catalog) {
        Some(complaint) => {
            if !d1.waiting {
                lemma_default(
                    console::told(d1, default_refusal(in_list, kind, choices, complaint, catalog)),
                    in_list,
                    kind,
                    choices,
                    catalog,
                );
            }
        },
        None => {},
    }
}

/// The kind of a list field: any but a list.
pub open spec fn asked_field_kind(d: ConsoleView, catalog: CatalogView) -> (
    CliQuestionType,
    ConsoleView,
)
    decreases d.rest.len(),
{
    let (kind, d1) = console::asked_kind(d, catalog);
    if kind is List && !d1.waiting {
        proof {
            console::lemma_kind(d, catalog);
        }
        asked_field_kind(
            console::told(d1, catalog::message(catalog, "cli.prompt.nested_list_not_allowed"@)),
            catalog,
        )
    } else {
        (kind, d1)
    }
}

pub proof fn lemma_field_kind(d: ConsoleView, catalog: CatalogView)
    ensures
        console::shorter(d, asked_field_kind(d, catalog).1),
        console::went_on(d, asked_field_kind(d, catalog).1),
    decreases d.rest.len(),
{
    broadcast use console::group_lines;

    console::lemma_kind(d, catalog);
    let (kind, d1) = console::asked_kind(d, catalog);
    if kind is List && !d1.waiting {
        lemma_field_kind(
            console::told(d1, catalog::message(catalog, "cli.prompt.nested_list_not_allowed"@)),
            catalog,
        );
    }
}

/// The choices of a question of some kind.
pub open spec fn asked_kind_choices(d: ConsoleView, kind: CliQuestionType, catalog: CatalogView)
    -> (Option<Seq<Seq<char>>>, ConsoleView) {
    if kind is Enum {
        let (choices, after) = console::asked_choices(d, catalog);
        (Some(choices), after)
    } else {
        (None, d)
    }
}

pub proof fn lemma_kind_choices(d: ConsoleView, kind: CliQuestionType, catalog: CatalogView)
    ensures
        console::went_on(d, asked_kind_choices(d, kind, catalog).1),
{
    broadcast use console::group_lines;

    console::lemma_choices(d, catalog);
}

/// A list field, after its id.
pub open spec fn asked_field(d: ConsoleView, id: Seq<char>, catalog: CatalogView) -> (
    QuestionInputView,
    ConsoleView,
) {
    let (title, d1) = console::asked_text(
        d,
        hints::required_prompt("Field title"@, catalog),
        Some(id),
        catalog,
    );
    let (kind, d2) = asked_field_kind(d1, catalog);
    let (required, d3) = console::asked_bool(
        d2,
        catalog::message(catalog, "cli.prompt.field_required"@),
        true,
        catalog,
    );
    let (description, d4) = console::asked_optional(
        d3,
        catalog::message(catalog, "cli.prompt.field_description"@),
    );
    let (choices, d5) = asked_kind_choices(d4, kind, catalog);
    let (default_value, d6) = asked_default(d5, true, kind, choices, catalog);
    let (secret, d7) = console::asked_bool(
        d6,
        catalog::message(catalog, "cli.prompt.field_secret"@),
        false,
        catalog,
    );
    (
        QuestionInputView {
            id,
            kind,
            title,
            description,
            required,
            default_value,
            choices,
            secret,
            list: None,
            visible_if: None,
            constraint: None,
            computed: None,
            computed_overridable: false,
        },
        d7,
    )
}

pub proof fn lemma_field(d: ConsoleView, id: Seq<char>, catalog: CatalogView)
    ensures
        console::shorter(d, asked_field(d, id, catalog).1),
        console::went_on(d, asked_field(d, id, catalog).1),
{
    broadcast use console::group_lines;

    let title_prompt = hints::required_prompt("Field title"@, catalog);
    console::lemma_text(d, title_prompt, Some(id), catalog);
    let (title, d1) = console::asked_text(d, title_prompt, Some(id), catalog);
    lemma_field_kind(d1, catalog);
    let (kind, d2) = asked_field_kind(d1, catalog);
    let required_prompt = catalog::message(catalog, "cli.prompt.field_required"@);
    console::lemma_bool(d2, required_prompt, true, catalog);
    let (required, d3) = console::asked_bool(d2, required_prompt, true, catalog);
    let (description, d4) = console::asked_optional(
        d3,
        catalog::message(catalog, "cli.prompt.field_description"@),
    );
    lemma_kind_choices(d4, kind, catalog);
    let (choices, d5) = asked_kind_choices(d4, kind, catalog);
    lemma_default(d5, true, kind, choices, catalog);
    let (default_value, d6) = asked_default(d5, true, kind, choices, catalog);
    console::lemma_bool(
        d6,
        catalog::message(catalog, "cli.prompt.field_secret"@),
        false,
        catalog,
    );
}

/// After a list field was added.
pub open spec fn told_field_added(
    d: ConsoleView,
    field: QuestionInputView,
    count: nat,
    catalog: CatalogView,
) -> ConsoleView {
    let hint = hints::hint_for(field.kind, field.choices, None, catalog);
    let added = catalog::message_with(
        catalog,
        "cli.prompt.added_list_field"@,
        seq![
            ("id"@, field.id),
            ("kind"@, builder::kind_label(field.kind)),
            ("count"@, text::decimal(count)),
        ],
    );
    let expected = catalog::message_with(
        catalog,
        "cli.prompt.field_hint"@,
        seq![("expected"@, hint.expected), ("example"@, hint.example)],
    );
    console::told(console::told(d, added), expected)
}

/// The fields of a list.
pub open spec fn asked_list_fields(
    d: ConsoleView,
    done: Seq<QuestionInputView>,
    catalog: CatalogView,
) -> (Seq<QuestionInputView>, ConsoleView)
    decreases d.rest.len(),
{
    let (given, d1) = console::asked_optional(
        d,
        catalog::message(catalog, "cli.prompt.field_id"@),
    );
    match given {
        None => (done, d1),
        Some(id) => if builder::input_ids(done).contains(id) {
            if d1.waiting {
                (done, d1)
            } else {
                asked_list_fields(
                    console::told(
                        d1,
                        catalog::message_with(
                            catalog,
                            "cli.prompt.field_id_duplicate"@,
                            seq![("id"@, id)],
                        ),
                    ),
                    done,
                    catalog,
                )
            }
        } else {
            let (field, d2) = asked_field(d1, id, catalog);
            if d2.waiting {
                (done, d2)
            } else {
                proof {
                    lemma_field(d1, id, catalog);
                }
                match typed::new_question_complaint(field, catalog) {
                    Some(complaint) => asked_list_fields(
                        console::told(
                            d2,
                            catalog::message_with(
                                catalog,
                                "cli.prompt.invalid_field_retry"@,
                                seq![("error"@, complaint)],
                            ),
                        ),
                        done,
                        catalog,
                    ),
                    None => asked_list_fields(
                        told_field_added(d2, field, done.len() + 1, catalog),
                        done.push(field),
                        catalog,
                    ),
                }
            }
        },
    }
}

pub proof fn lemma_list_fields(d: ConsoleView, done: Seq<QuestionInputView>, catalog: CatalogView)
    ensures
        console::shorter(d, asked_list_fields(d, done, catalog).1),
        console::went_on(d, asked_list_fields(d, done, catalog).1),
    decreases d.rest.len(),
{
    broadcast use console::group_lines;

    let (given, d1) = console::asked_optional(
        d,
        catalog::message(catalog, "cli.prompt.field_id"@),
    );
    match given {
        None => {},
        Some(id) => {
            if builder::input_ids(done).contains(id) {
                if !d1.waiting {
                    lemma_list_fields(
                        console::told(
                            d1,
                            catalog::message_with(
                                catalog,
                                "cli.prompt.field_id_duplicate"@,
                                seq![("id"@, id)],
                            ),
                        ),
                        done,
                        catalog,
                    );
                }
            } else {
                lemma_field(d1, id, catalog);
                let (field, d2) = asked_field(d1, id, catalog);
                if !d2.waiting {
                    match typed::new_question_complaint(field, catalog) {
                        Some(complaint) => lemma_list_fields(
                            console::told(
                                d2,
                                catalog::message_with(
                                    catalog,
                                    "cli.prompt.invalid_field_retry"@,
                                    seq![("error"@, complaint)],
                                ),
                            ),
                            done,
                            catalog,
                        ),
                        None => lemma_list_fields(
                            told_field_added(d2, field, done.len() + 1, catalog),
                            done.push(field),
                            catalog,
                        ),
                    }
                }
            }
        },
    }
}

/// After the fields of a list were given.
pub open spec fn told_fields_defined(
    d: ConsoleView,
    fields: Seq<QuestionInputView>,
    catalog: CatalogView,
) -> ConsoleView {
    let defined = catalog::message_with(
        catalog,
        "cli.prompt.defined_list_fields"@,
        seq![
            ("count"@, text::decimal(fields.len())),
            ("fields"@, text::joined(hints::field_summaries(fields), ", "@)),
        ],
    );
    let members = text::joined(hints::example_members(fields, catalog), ", "@);
    let example = catalog::message_with(
        catalog,
        "cli.prompt.example_list_entry"@,
        seq![("entry"@, "[{ "@ + members + " }]"@)],
    );
    console::told(console::told(d, defined), example)
}

/// The limits on the length of a list.
pub open spec fn asked_limits(d: ConsoleView, catalog: CatalogView) -> (
    (Option<usize>, Option<usize>),
    ConsoleView,
) {
    let (min, d1) = console::asked_usize(
        d,
        catalog::message(catalog, "cli.prompt.min_items"@),
        catalog,
    );
    let (max, d2) = console::asked_usize(
        d1,
        catalog::message(catalog, "cli.prompt.max_items"@),
        catalog,
    );
    ((min, max), d2)
}

pub proof fn lemma_limits(d: ConsoleView, catalog: CatalogView)
    ensures
        console::shorter(d, asked_limits(d, catalog).1),
        console::went_on(d, asked_limits(d, catalog).1),
{
    broadcast use console::group_lines;

    let min_prompt = catalog::message(catalog, "cli.prompt.min_items"@);
    console::lemma_usize(d, min_prompt, catalog);
    console::lemma_usize(
        console::asked_usize(d, min_prompt, catalog).1,
        catalog::message(catalog, "cli.prompt.max_items"@),
        catalog,
    );
}

/// The list part of a list question.
pub open spec fn asked_list(d: ConsoleView, catalog: CatalogView) -> (ListInputView, ConsoleView)
    decreases d.rest.len(),
{
    let ((min_items, max_items), d1) = asked_limits(d, catalog);
    let size = catalog::message_with(
        catalog,
        "cli.prompt.list_size"@,
        seq![("size"@, hints::list_size_text(min_items, max_items, catalog))],
    );
    let (fields, d2) = asked_list_fields(console::told(d1, size), Seq::empty(), catalog);
    let list = ListInputView { min_items, max_items, fields };
    proof {
        lemma_limits(d, catalog);
        lemma_list_fields(console::told(d1, size), Seq::empty(), catalog);
    }
    if builder::reversed(min_items, max_items) {
        if d1.waiting {
            (ListInputView { min_items, max_items, fields: Seq::empty() }, d1)
        } else {
            asked_list(
                console::told(
                    d1,
                    catalog::message(catalog, "cli.prompt.min_items_gt_max_items"@),
                ),
                catalog,
            )
        }
    } else if d2.waiting {
        (list, d2)
    } else if fields.len() == 0 {
        asked_list(
            console::told(d2, catalog::message(catalog, "cli.prompt.list_requires_field"@)),
            catalog,
        )
    } else {
        (list, told_fields_defined(d2, fields, catalog))
    }
}

pub proof fn lemma_list(d: ConsoleView, catalog: CatalogView)
    ensures
        console::shorter(d, asked_list(d, catalog).1),
        console::went_on(d, asked_list(d, catalog).1),
    decreases d.rest.len(),
{
    broadcast use console::group_lines;

    let ((min_items, max_items), d1) = asked_limits(d, catalog);
    let size = catalog::message_with(
        catalog,
        "cli.prompt.list_size"@,
        seq![("size"@, hints::list_size_text(min_items, max_items, catalog))],
    );
    let (fields, d2) = asked_list_fields(console::told(d1, size), Seq::empty(), catalog);
    lemma_limits(d, catalog);
    lemma_list_fields(console::told(d1, size), Seq::empty(), catalog);
    if builder::reversed(min_items, max_items) {
        if !d1.waiting {
            lemma_list(
                console::told(
                    d1,
                    catalog::message(catalog, "cli.prompt.min_items_gt_max_items"@),
                ),
                catalog,
            );
        }
    } else if !d2.waiting && fields.len() == 0 {
        lemma_list(
            console::told(d2, catalog::message(catalog, "cli.prompt.list_requires_field"@)),
            catalog,
        );
    }
}

/// The list part of a question of some kind.
pub open spec fn asked_kind_list(d: ConsoleView, kind: CliQuestionType, catalog: CatalogView) -> (
    Option<ListInputView>,
    ConsoleView,
) {
    if kind is List {
        let (list, after) = asked_list(d, catalog);
        (Some(list), after)
    } else {
        (None, d)
    }
}

/// A question of yes or no that is asked only among the advanced ones.
pub open spec fn asked_secret(d: ConsoleView, advanced: bool, catalog: CatalogView) -> (
    bool,
    ConsoleView,
) {
    if advanced {
        console::asked_bool(
            d,
            catalog::message(catalog, "cli.prompt.secret_value"@),
            false,
            catalog,
        )
    } else {
        (false, d)
    }
}

/// A condition under which a question is shown, asked for only among the
/// advanced ones.
pub open spec fn asked_advanced_visibility(
    d: ConsoleView,
    advanced: bool,
    ids: Seq<Seq<char>>,
    catalog: CatalogView,
) -> (Option<ExprView>, ConsoleView) {
    if advanced {
        asked_visibility(d, ids, catalog)
    } else {
        (None, d)
    }
}

/// How the value of a question is computed, asked for only among the advanced
/// ones.
pub open spec fn asked_advanced_computed(
    d: ConsoleView,
    advanced: bool,
    kind: CliQuestionType,
    ids: Seq<Seq<char>>,
    catalog: CatalogView,
) -> ((Option<ExprView>, bool), ConsoleView) {
    if advanced {
        asked_computed(d, kind, ids, catalog)
    } else {
        ((None, false), d)
    }
}

/// What every question is asked for, after its id.
pub struct BasicsView {
    pub title: Seq<char>,
    pub kind: CliQuestionType,
    pub required: bool,
    pub description: Option<Seq<char>>,
    pub choices: Option<Seq<Seq<char>>>,
    pub default_value: Option<Seq<char>>,
    pub advanced: bool,
}

/// What every question is asked for, after its id.
pub open spec fn asked_basics(d: ConsoleView, id: Seq<char>, catalog: CatalogView) -> (
    BasicsView,
    ConsoleView,
) {
    let (title, d1) = console::asked_text(
        d,
        hints::required_prompt(catalog::message(catalog, "cli.prompt.question_title"@), catalog),
        Some(id),
        catalog,
    );
    let (kind, d2) = console::asked_kind(d1, catalog);
    let (required, d3) = console::asked_bool(
        d2,
        catalog::message(catalog, "cli.prompt.required"@),
        true,
        catalog,
    );
    let (description, d4) = console::asked_optional(
        d3,
        catalog::message(catalog, "cli.prompt.question_description"@),
    );
    let (choices, d5) = asked_kind_choices(d4, kind, catalog);
    let (default_value, d6) = asked_default(d5, false, kind, choices, catalog);
    let (advanced, d7) = console::asked_bool(
        d6,
        catalog::message(catalog, "cli.prompt.advanced_features"@),
        false,
        catalog,
    );
    (BasicsView { title, kind, required, description, choices, default_value, advanced }, d7)
}

pub proof fn lemma_basics(d: ConsoleView, id: Seq<char>, catalog: CatalogView)
    ensures
        console::shorter(d, asked_basics(d, id, catalog).1),
        console::went_on(d, asked_basics(d, id, catalog).1),
{
    broadcast use console::group_lines;

    let title_prompt = hints::required_prompt(
        catalog::message(catalog, "cli.prompt.question_title"@),
        catalog,
    );
    console::lemma_text(d, title_prompt, Some(id), catalog);
    let (title, d1) = console::asked_text(d, title_prompt, Some(id), catalog);
    console::lemma_kind(d1, catalog);
    let (kind, d2) = console::asked_kind(d1, catalog);
    let required_prompt = catalog::message(catalog, "cli.prompt.required"@);
    console::lemma_bool(d2, required_prompt, true, catalog);
    let (required, d3) = console::asked_bool(d2, required_prompt, true, catalog);
    let (description, d4) = console::asked_optional(
        d3,
        catalog::message(catalog, "cli.prompt.question_description"@),
    );
    lemma_kind_choices(d4, kind, catalog);
    let (choices, d5) = asked_kind_choices(d4, kind, catalog);
    lemma_default(d5, false, kind, choices, catalog);
    let (default_value, d6) = asked_default(d5, false, kind, choices, catalog);
    console::lemma_bool(
        d6,
        catalog::message(catalog, "cli.prompt.advanced_features"@),
        false,
        catalog,
    );
}

/// A question, after its id.
pub open spec fn asked_question(
    d: ConsoleView,
    id: Seq<char>,
    ids: Seq<Seq<char>>,
    catalog: CatalogView,
) -> (QuestionInputView, ConsoleView) {
    let (basics, d1) = asked_basics(d, id, catalog);
    let (secret, d2) = asked_secret(d1, basics.advanced, catalog);
    let (list, d3) = asked_kind_list(d2, basics.kind, catalog);
    let (visible_if, d4) = asked_advanced_visibility(d3, basics.advanced, ids, catalog);
    let (constraint, d5) = asked_constraint(d4, basics.kind, catalog);
    let ((computed, computed_overridable), d6) = asked_advanced_computed(
        d5,
        basics.advanced,
        basics.kind,
        ids,
        catalog,
    );
    (
        QuestionInputView {
            id,
            kind: basics.kind,
            title: basics.title,
            description: basics.description,
            required: basics.required,
            default_value: basics.default_value,
            choices: basics.choices,
            secret,
            list,
            visible_if,
            constraint,
            computed,
            computed_overridable,
        },
        d6,
    )
}

pub proof fn lemma_question(
    d: ConsoleView,
    id: Seq<char>,
    ids: Seq<Seq<char>>,
    catalog: CatalogView,
)
    ensures
        console::shorter(d, asked_question(d, id, ids, catalog).1),
        console::went_on(d, asked_question(d, id, ids, catalog).1),
{
    broadcast use console::group_lines;

    lemma_basics(d, id, catalog);
    let (basics, d1) = asked_basics(d, id, catalog);
    console::lemma_bool(
        d1,
        catalog::message(catalog, "cli.prompt.secret_value"@),
        false,
        catalog,
    );
    let (secret, d2) = asked_secret(d1, basics.advanced, catalog);
    lemma_list(d2, catalog);
    let (list, d3) = asked_kind_list(d2, basics.kind, catalog);
    lemma_visibility(d3, ids, catalog);
    let (visible_if, d4) = asked_advanced_visibility(d3, basics.advanced, ids, catalog);
    lemma_constraint(d4, basics.kind, catalog);
    let (constraint, d5) = asked_constraint(d4, basics.kind, catalog);
    lemma_computed(d5, basics.kind, ids, catalog);
}

/// The fields of a question that is a list.
pub open spec fn question_fields(question: QuestionInputView) -> Option<Seq<QuestionInputView>> {
    match question.list {
        Some(list) => Some(list.fields),
        None => None,
    }
}

/// The complaint about a question.
pub open spec fn question_refusal(
    question: QuestionInputView,
    complaint: Seq<char>,
    catalog: CatalogView,
) -> Seq<char> {
    let hint = hints::hint_for(
        question.kind,
        question.choices,
        question_fields(question),
        catalog,
    );
    catalog::message_with(
        catalog,
        "cli.new.invalid_question"@,
        seq![("error"@, complaint), ("expected"@, hint.expected), ("example"@, hint.example)],
    )
}

/// The questions of a form.
pub open spec fn asked_questions(
    d: ConsoleView,
    done: Seq<QuestionInputView>,
    catalog: CatalogView,
) -> (Seq<QuestionInputView>, ConsoleView)
    decreases d.rest.len(),
{
    let ids = builder::input_ids(done);
    let (given, d1) = console::asked_optional(
        d,
        catalog::message(catalog, "cli.prompt.question_id"@),
    );
    match given {
        None => (done, d1),
        Some(id) => if ids.contains(id) {
            if d1.waiting {
                (done, d1)
            } else {
                asked_questions(
                    console::told(
                        d1,
                        catalog::message_with(
                            catalog,
                            "cli.new.question_id_duplicate"@,
                            seq![("id"@, id)],
                        ),
                    ),
                    done,
                    catalog,
                )
            }
        } else {
            let (question, d2) = asked_question(d1, id, ids, catalog);
            if d2.waiting {
                (done, d2)
            } else {
                proof {
                    lemma_question(d1, id, ids, catalog);
                }
                match typed::new_question_complaint(question, catalog) {
                    Some(complaint) => asked_questions(
                        console::told(d2, question_refusal(question, complaint, catalog)),
                        done,
                        catalog,
                    ),
                    None => asked_questions(d2, done.push(question), catalog),
                }
            }
        },
    }
}

/// What is said of a form before its questions.
pub struct HeadView {
    pub form_id: Seq<char>,
    pub title: Seq<char>,
    pub version: Seq<char>,
    pub description: Option<Seq<char>>,
    pub summary: Option<Seq<char>>,
    pub dir_name: Seq<char>,
}

/// The prompt under a key, marked as one that must be answered.
pub open spec fn required_key(key: Seq<char>, catalog: CatalogView) -> Seq<char> {
    hints::required_prompt(catalog::message(catalog, key), catalog)
}

/// What is said of a form before its questions.
pub open spec fn asked_head(d: ConsoleView, catalog: CatalogView) -> (HeadView, ConsoleView) {
    let (form_id, d1) = console::asked_text(
        console::told(d, catalog::message(catalog, "cli.new.banner"@)),
        required_key("cli.prompt.form_id"@, catalog),
        None,
        catalog,
    );
    let (title, d2) = console::asked_text(
        d1,
        required_key("cli.prompt.form_title"@, catalog),
        None,
        catalog,
    );
    let (version, d3) = console::asked_text(
        d2,
        required_key("cli.prompt.form_version"@, catalog),
        Some("0.1.0"@),
        catalog,
    );
    let (description, d4) = console::asked_optional(
        d3,
        catalog::message(catalog, "cli.prompt.form_description"@),
    );
    let (summary, d5) = console::asked_optional(
        d4,
        catalog::message(catalog, "cli.prompt.form_summary"@),
    );
    let (dir_name, d6) = console::asked_text(
        d5,
        required_key("cli.prompt.output_directory_name"@, catalog),
        Some(form_id),
        catalog,
    );
    (HeadView { form_id, title, version, description, summary, dir_name }, d6)
}

/// What a dialogue about a form comes to: nothing while it waits, a failure, or
/// the description of the form. It fails after the head where there is no place
/// to put the form, and where there are no questions.
pub open spec fn form_dialogue(
    d: ConsoleView,
    no_root: Option<Seq<char>>,
    catalog: CatalogView,
) -> (Option<Result<GenerationInputView, Seq<char>>>, ConsoleView) {
    let (head, d1) = asked_head(d, catalog);
    if d1.waiting {
        (None, d1)
    } else if no_root is Some {
        (Some(Err(no_root->0)), d1)
    } else {
        let (questions, d2) = asked_questions(d1, Seq::empty(), catalog);
        let (rules, d3) = asked_rules(d2, builder::input_ids(questions), Seq::empty(), catalog);
        if d2.waiting {
            (None, d2)
        } else if questions.len() == 0 {
            (Some(Err(catalog::message(catalog, "cli.new.at_least_one_question"@))), d2)
        } else if d3.waiting {
            (None, d3)
        } else {
            (
                Some(
                    Ok(
                        GenerationInputView {
                            dir_name: head.dir_name,
                            summary_md: head.summary,
                            form: builder::FormInputView {
                                id: head.form_id,
                                title: head.title,
                                version: head.version,
                                description: head.description,
                                progress_policy: None,
                            },
                            questions,
                            validations: rules,
                        },
                    ),
                ),
                d3,
            )
        }
    }
}

/// Asks for a condition that a question is answered.
pub fn prompt_is_set_expression(console: &mut Console, ids: &Vec<String>, i18n: &I18n) -> (r: Expr)
    ensures
        (r@, final(console)@) == asked_is_set(old(console)@, text::texts(ids@), i18n@),
{
    console.tell(make_questions_line(ids, i18n));
    let prompt = t(i18n, "cli.prompt.question_id_presence");
    let path = console.prompt_non_empty(prompt.as_str(), None, i18n);
    Expr::IsSet { path }
}

fn prompt_operand(console: &mut Console, i18n: &I18n) -> (r: Expr)
    ensures
        (r@, final(console)@) == asked_operand(old(console)@, i18n@),
{
    let type_prompt = t(i18n, "cli.prompt.right_operand_type");
    let type_default = t(i18n, "cli.prompt.right_operand_default");
    let operand = console.prompt_line(type_prompt.as_str(), Some(type_default.as_str()));
    let lowered = to_lower(trim(operand.as_str()).as_str());
    let word = lowered.as_str();
    if same(word, "question") || same(word, "answer") {
        let prompt = t(i18n, "cli.prompt.right_operand_question_id");
        let path = console.prompt_non_empty(prompt.as_str(), None, i18n);
        Expr::Answer { path }
    } else {
        let prompt = t(i18n, "cli.prompt.value_compare_against");
        let raw = console.prompt_non_empty(prompt.as_str(), None, i18n);
        Expr::Literal { value: parse_expression_literal(raw.as_str()) }
    }
}

/// Asks for a comparison.
pub fn prompt_comparison_expression(console: &mut Console, ids: &Vec<String>, i18n: &I18n) -> (r:
    Expr)
    ensures
        (r@, final(console)@) == asked_comparison(old(console)@, text::texts(ids@), i18n@),
{
    console.tell(make_questions_line(ids, i18n));
    let operator_prompt = t(i18n, "cli.prompt.operator");
    let operator = console.prompt_line(operator_prompt.as_str(), Some("eq"));
    let normalized = to_lower(trim(operator.as_str()).as_str());
    let prompt = t(i18n, "cli.prompt.question_id_compare");
    let path = console.prompt_non_empty(prompt.as_str(), None, i18n);
    let right = prompt_operand(console, i18n);
    build_binary_expression(normalized.as_str(), Expr::Answer { path }, right)
}

/// Asks for a condition.
pub fn prompt_boolean_expression(
    console: &mut Console,
    ids: &Vec<String>,
    depth: usize,
    i18n: &I18n,
) -> (r: Expr)
    ensures
        (r@, final(console)@) == asked_expr(
            old(console)@,
            text::texts(ids@),
            depth as int,
            i18n@,
        ),
    decreases
        (if depth < MAX_DEPTH {
            MAX_DEPTH - depth
        } else {
            0
        }),
{
    let mut prompt = t(i18n, "cli.prompt.expr_type_prefix");
    if depth < MAX_DEPTH {
        prompt = cat(prompt.as_str(), "/and/or/not");
    }
    prompt = cat(prompt.as_str(), ")");
    let default = t(i18n, "cli.prompt.expr_type_default");
    let choice = console.prompt_line(prompt.as_str(), Some(default.as_str()));
    let lowered = to_lower(trim(choice.as_str()).as_str());
    let word = lowered.as_str();
    if same(word, "is_set") {
        return prompt_is_set_expression(console, ids, i18n);
    }
    if same(word, "and") && depth < MAX_DEPTH {
        let left = prompt_boolean_expression(console, ids, depth + 1, i18n);
        let right = prompt_boolean_expression(console, ids, depth + 1, i18n);
        let ghost parts = seq![left@, right@];
        let expressions = vec![left, right];
        assert(form::exprs_view(expressions@) =~= parts);
        proof {
            form::lemma_and(expressions);
        }
        return Expr::And { expressions };
    }
    if same(word, "or") && depth < MAX_DEPTH {
        let left = prompt_boolean_expression(console, ids, depth + 1, i18n);
        let right = prompt_boolean_expression(console, ids, depth + 1, i18n);
        let ghost parts = seq![left@, right@];
        let expressions = vec![left, right];
        assert(form::exprs_view(expressions@) =~= parts);
        proof {
            form::lemma_or(expressions);
        }
        return Expr::Or { expressions };
    }
    if same(word, "not") && depth < MAX_DEPTH {
        let inner = prompt_boolean_expression(console, ids, depth + 1, i18n);
        return Expr::Not { expression: Box::new(inner) };
    }
    console.tell(t(i18n, "cli.prompt.building_comparison"));
    prompt_comparison_expression(console, ids, i18n)
}

/// Asks for a condition under which a question is shown.
pub fn prompt_visibility_condition(console: &mut Console, ids: &Vec<String>, i18n: &I18n) -> (r:
    Option<Expr>)
    ensures
        (form::opt_expr(r), final(console)@) == asked_visibility(
            old(console)@,
            text::texts(ids@),
            i18n@,
        ),
{
    assert(text::texts(ids@).len() == ids@.len());
    if ids.len() == 0 {
        return None;
    }
    let prompt = t(i18n, "cli.prompt.add_visibility_condition");
    if !console.prompt_bool(prompt.as_str(), false, i18n) {
        return None;
    }
    console.tell(make_questions_line(ids, i18n));
    Some(prompt_boolean_expression(console, ids, 0, i18n))
}

fn drop_repeats(list: &Vec<String>) -> (r: Vec<String>)
    ensures
        text::texts(r@) == without_repeats(text::texts(list@)),
{
    let ghost views = text::texts(list@);
    let mut out: Vec<String> = Vec::new();
    let mut i: usize = 0;
    assert(views.take(0) =~= Seq::empty());
    assert(text::texts(out@) =~= Seq::empty());
    while i < list.len()
        invariant
            i <= list@.len(),
            views == text::texts(list@),
            text::texts(out@) == without_repeats(views.take(i as int)),
        decreases list.len() - i,
    {
        assert(views.take(i + 1).drop_last() =~= views.take(i as int));
        assert(views.take(i + 1).last() == list@[i as int]@);
        assert(text::texts(out@).len() == out@.len());
        let repeated = if out.len() > 0 {
            assert(text::texts(out@).last() == out@[out@.len() - 1]@);
            same(out[out.len() - 1].as_str(), list[i].as_str())
        } else {
            false
        };
        if !repeated {
            let ghost before = text::texts(out@);
            out.push(list[i].clone());
            assert(text::texts(out@) =~= before.push(list@[i as int]@));
        }
        i += 1;
    }
    assert(views.take(i as int) =~= views);
    out
}

fn find_unknown(fields: &Vec<String>, ids: &Vec<String>) -> (r: Vec<String>)
    ensures
        text::texts(r@) == unknown_ids(text::texts(fields@), text::texts(ids@)),
{
    let ghost views = text::texts(fields@);
    let mut out: Vec<String> = Vec::new();
    let mut i: usize = 0;
    assert(views.take(0) =~= Seq::empty());
    assert(text::texts(out@) =~= Seq::empty());
    while i < fields.len()
        invariant
            i <= fields@.len(),
            views == text::texts(fields@),
            text::texts(out@) == unknown_ids(views.take(i as int), text::texts(ids@)),
        decreases fields.len() - i,
    {
        assert(views.take(i + 1).drop_last() =~= views.take(i as int));
        assert(views.take(i + 1).last() == fields@[i as int]@);
        if !question_exists(ids, fields[i].as_str()) {
            let ghost before = text::texts(out@);
            out.push(fields[i].clone());
            assert(text::texts(out@) =~= before.push(fields@[i as int]@));
        }
        i += 1;
    }
    assert(views.take(i as int) =~= views);
    out
}

/// Asks for the fields of a rule.
pub fn prompt_validation_fields(console: &mut Console, ids: &Vec<String>, i18n: &I18n) -> (r: Vec<
    String,
>)
    ensures
        (text::texts(r@), final(console)@) == asked_fields(
            old(console)@,
            text::texts(ids@),
            i18n@,
        ),
{
    let ghost start = console@;
    loop
        invariant
            asked_fields(start, text::texts(ids@), i18n@) == asked_fields(
                console@,
                text::texts(ids@),
                i18n@,
            ),
            start == old(console)@,
        decreases console@.rest.len(),
    {
        let list = existing_question_ids(ids, i18n);
        console.tell(tf1(i18n, "cli.prompt.available_questions", "ids", list.as_str()));
        let prompt = t(i18n, "cli.prompt.fields_to_validate");
        let raw = console.prompt_line(prompt.as_str(), None);
        let words = split_commas(raw.as_str());
        let fields = drop_repeats(&words);
        let unknown = find_unknown(&fields, ids);
        assert(text::texts(fields@).len() == fields@.len());
        assert(text::texts(unknown@).len() == unknown@.len());
        if console.waiting {
            let none: Vec<String> = Vec::new();
            assert(text::texts(none@) =~= Seq::empty());
            return none;
        }
        if fields.len() == 0 {
            console.tell(t(i18n, "cli.prompt.at_least_one_field"));
        } else if unknown.len() > 0 {
            let names = join(&unknown, ", ");
            console.tell(tf1(i18n, "cli.prompt.unknown_fields", "fields", names.as_str()));
        } else {
            return fields;
        }
    }
}

fn prompt_rule(console: &mut Console, ids: &Vec<String>, i18n: &I18n) -> (r: CrossFieldValidation)
    ensures
        (r@, final(console)@) == asked_rule(old(console)@, text::texts(ids@), i18n@),
{
    let id_prompt = t(i18n, "cli.prompt.validation_id");
    let id = console.prompt_optional(id_prompt.as_str());
    let message_prompt = t(i18n, "cli.prompt.validation_message");
    let message = console.prompt_non_empty(message_prompt.as_str(), None, i18n);
    let fields = prompt_validation_fields(console, ids, i18n);
    let condition = prompt_boolean_expression(console, ids, 0, i18n);
    CrossFieldValidation { id, message, fields, condition, code: None }
}

/// Asks for the rules of a form.
pub fn prompt_cross_field_validations(console: &mut Console, ids: &Vec<String>, i18n: &I18n) -> (r:
    Vec<CrossFieldValidation>)
    ensures
        (form::rules_view(r@), final(console)@) == asked_rules(
            old(console)@,
            text::texts(ids@),
            Seq::empty(),
            i18n@,
        ),
{
    let ghost start = console@;
    let prompt = t(i18n, "cli.prompt.add_cross_field_validation");
    let mut rules: Vec<CrossFieldValidation> = Vec::new();
    assert(form::rules_view(rules@) =~= Seq::empty());
    loop
        invariant
            prompt@ == catalog::message(i18n@, "cli.prompt.add_cross_field_validation"@),
            asked_rules(start, text::texts(ids@), Seq::empty(), i18n@) == asked_rules(
                console@,
                text::texts(ids@),
                form::rules_view(rules@),
                i18n@,
            ),
            start == old(console)@,
        decreases console@.rest.len(),
    {
        let ghost here = console@;
        proof {
            console::lemma_bool(here, prompt@, false, i18n@);
        }
        if !console.prompt_bool(prompt.as_str(), false, i18n) {
            return rules;
        }
        proof {
            lemma_rule(console@, text::texts(ids@), i18n@);
        }
        let rule = prompt_rule(console, ids, i18n);
        if console.waiting {
            return rules;
        }
        let ghost before = form::rules_view(rules@);
        rules.push(rule);
        assert(form::rules_view(rules@) =~= before.push(rule@));
    }
}

/// A computed value, viewed.
pub open spec fn computed_view(computed: (Option<Expr>, bool)) -> (Option<ExprView>, bool) {
    (form::opt_expr(computed.0), computed.1)
}

fn prompt_source(console: &mut Console, i18n: &I18n) -> (r: (Option<Expr>, bool))
    ensures
        (computed_view(r), final(console)@) == asked_source(old(console)@, i18n@),
{
    let ghost start = console@;
    loop
        invariant
            asked_source(start, i18n@) == asked_source(console@, i18n@),
            start == old(console)@,
        decreases console@.rest.len(),
    {
        let source_prompt = t(i18n, "cli.prompt.computed_source");
        let source_default = t(i18n, "cli.prompt.computed_source_default");
        let source = console.prompt_line(source_prompt.as_str(), Some(source_default.as_str()));
        let lowered = to_lower(trim(source.as_str()).as_str());
        let word = lowered.as_str();
        if console.waiting {
            return (None, false);
        }
        let override_prompt = t(i18n, "cli.prompt.allow_override_computed");
        if same(word, "answer") {
            let prompt = t(i18n, "cli.prompt.source_question_id");
            let path = console.prompt_non_empty(prompt.as_str(), None, i18n);
            let overrides = console.prompt_bool(override_prompt.as_str(), false, i18n);
            return (Some(Expr::Answer { path }), overrides);
        }
        if same(word, "literal") {
            let prompt = t(i18n, "cli.prompt.literal_value");
            let raw = console.prompt_non_empty(prompt.as_str(), None, i18n);
            let overrides = console.prompt_bool(override_prompt.as_str(), false, i18n);
            let value = parse_expression_literal(raw.as_str());
            return (Some(Expr::Literal { value }), overrides);
        }
        console.tell(tf1(i18n, "cli.prompt.unknown_source", "source", word));
    }
}

/// Asks how the value of a question is computed.
pub fn prompt_computed_field(
    console: &mut Console,
    kind: CliQuestionType,
    ids: &Vec<String>,
    i18n: &I18n,
) -> (r: (Option<Expr>, bool))
    ensures
        (computed_view(r), final(console)@) == asked_computed(
            old(console)@,
            kind,
            text::texts(ids@),
            i18n@,
        ),
{
    if matches!(kind, CliQuestionType::List) {
        return (None, false);
    }
    let prompt = t(i18n, "cli.prompt.compute_question_value");
    if !console.prompt_bool(prompt.as_str(), false, i18n) {
        return (None, false);
    }
    console.tell(make_questions_line(ids, i18n));
    prompt_source(console, i18n)
}

fn prompt_bound(console: &mut Console, prompt: &str, i18n: &I18n) -> (r: Option<Bound>)
    ensures
        ({
            let (read, after) = console::asked_double(old(console)@, prompt@, i18n@);
            form::opt_bound(r) == bound_read(read) && final(console)@ == after
        }),
{
    match console.prompt_optional_double(prompt, i18n) {
        Some(read) => Some(Bound { bits: read.bits, text: read.text }),
        None => None,
    }
}

/// Asks for the limits on the answers to a question.
pub fn prompt_constraint(console: &mut Console, kind: CliQuestionType, i18n: &I18n) -> (r: Option<
    Constraint,
>)
    ensures
        (form::opt_constraint(r), final(console)@) == asked_constraint(
            old(console)@,
            kind,
            i18n@,
        ),
{
    if matches!(kind, CliQuestionType::Integer | CliQuestionType::Number) {
        let min_prompt = t(i18n, "cli.prompt.min_numeric_value");
        let min = prompt_bound(console, min_prompt.as_str(), i18n);
        let max_prompt = t(i18n, "cli.prompt.max_numeric_value");
        let max = prompt_bound(console, max_prompt.as_str(), i18n);
        if min.is_none() && max.is_none() {
            return None;
        }
        return Some(Constraint { pattern: None, min, max, min_len: None, max_len: None });
    }
    if matches!(kind, CliQuestionType::String | CliQuestionType::Enum) {
        let min_prompt = t(i18n, "cli.prompt.min_length");
        let min_len = console.prompt_optional_usize(min_prompt.as_str(), i18n);
        let max_prompt = t(i18n, "cli.prompt.max_length");
        let max_len = console.prompt_optional_usize(max_prompt.as_str(), i18n);
        let pattern_prompt = t(i18n, "cli.prompt.regex_pattern");
        let pattern = console.prompt_optional(pattern_prompt.as_str());
        if min_len.is_none() && max_len.is_none() && pattern.is_none() {
            return None;
        }
        return Some(Constraint { pattern, min: None, max: None, min_len, max_len });
    }
    None
}

fn make_default_refusal(
    in_list: bool,
    kind: CliQuestionType,
    choices: Option<&Vec<String>>,
    complaint: &str,
    i18n: &I18n,
) -> (r: String)
    ensures
        r@ == default_refusal(
            in_list,
            kind,
            typed::choices_view(choices),
            complaint@,
            i18n@,
        ),
{
    if in_list {
        return tf1(i18n, "cli.prompt.invalid_default_retry", "error", complaint);
    }
    let hint = describe_type_hint(kind, choices, None, i18n);
    let args = vec![
        ("error", complaint.to_owned()),
        ("expected", hint.expected.clone()),
        ("example", hint.example.clone()),
    ];
    assert(catalog::args_view(args@) =~= seq![
        ("error"@, complaint@),
        ("expected"@, hint@.expected),
        ("example"@, hint@.example),
    ]);
    tf(i18n, "cli.new.invalid_default", &args)
}

/// Asks for a default that may be left out.
fn prompt_default(
    console: &mut Console,
    in_list: bool,
    kind: CliQuestionType,
    choices: Option<&Vec<String>>,
    i18n: &I18n,
) -> (r: Option<String>)
    ensures
        (text::opt_text(r), final(console)@) == asked_default(
            old(console)@,
            in_list,
            kind,
            typed::choices_view(choices),
            i18n@,
        ),
{
    let prompt = default_prompt_for(kind, choices, i18n);
    let ghost start = console@;
    let ghost views = typed::choices_view(choices);
    loop
        invariant
            views == typed::choices_view(choices),
            prompt@ == hints::default_prompt(kind, views, i18n@),
            asked_default(start, in_list, kind, views, i18n@) == asked_default(
                console@,
                in_list,
                kind,
                views,
                i18n@,
            ),
            start == old(console)@,
        decreases console@.rest.len(),
    {
        let candidate = console.prompt_optional(prompt.as_str());
        match &candidate {
            Some(value) => {
                match ensure_default_matches_type(kind, value.as_str(), choices, i18n) {
                    Ok(_) => {
                        return candidate;
                    },
                    Err(complaint) => {
                        if console.waiting {
                            return candidate;
                        }
                        console.tell(
                            make_default_refusal(in_list, kind, choices, complaint.as_str(), i18n),
                        );
                    },
                }
            },
            None => {
                return candidate;
            },
        }
    }
}

fn prompt_field_kind(console: &mut Console, i18n: &I18n) -> (r: CliQuestionType)
    ensures
        (r, final(console)@) == asked_field_kind(old(console)@, i18n@),
{
    let ghost start = console@;
    loop
        invariant
            asked_field_kind(start, i18n@) == asked_field_kind(console@, i18n@),
            start == old(console)@,
        decreases console@.rest.len(),
    {
        proof {
            console::lemma_kind(console@, i18n@);
        }
        let kind = console.prompt_question_type(i18n);
        if matches!(kind, CliQuestionType::List) && !console.waiting {
            console.tell(t(i18n, "cli.prompt.nested_list_not_allowed"));
        } else {
            return kind;
        }
    }
}

fn prompt_kind_choices(console: &mut Console, kind: CliQuestionType, i18n: &I18n) -> (r: Option<
    Vec<String>,
>)
    ensures
        (form::opt_texts(r), final(console)@) == asked_kind_choices(old(console)@, kind, i18n@),
{
    if matches!(kind, CliQuestionType::Enum) {
        Some(console.prompt_enum_choices(i18n))
    } else {
        None
    }
}

fn prompt_field(console: &mut Console, id: &str, i18n: &I18n) -> (r: QuestionInput)
    ensures
        (r@, final(console)@) == asked_field(old(console)@, id@, i18n@),
{
    let title_prompt = mark_required("Field title", i18n);
    let title = console.prompt_non_empty(title_prompt.as_str(), Some(id), i18n);
    let kind = prompt_field_kind(console, i18n);
    let required_prompt = t(i18n, "cli.prompt.field_required");
    let required = console.prompt_bool(required_prompt.as_str(), true, i18n);
    let description_prompt = t(i18n, "cli.prompt.field_description");
    let description = console.prompt_optional(description_prompt.as_str());
    let choices = prompt_kind_choices(console, kind, i18n);
    let default_value = prompt_default(console, true, kind, choices.as_ref(), i18n);
    let secret_prompt = t(i18n, "cli.prompt.field_secret");
    let secret = console.prompt_bool(secret_prompt.as_str(), false, i18n);
    QuestionInput {
        id: id.to_owned(),
        kind,
        title,
        description,
        required,
        default_value,
        choices,
        secret,
        list: None,
        visible_if: None,
        constraint: None,
        computed: None,
        computed_overridable: false,
    }
}

fn tell_field_added(console: &mut Console, field: &QuestionInput, count: usize, i18n: &I18n)
    ensures
        final(console)@ == told_field_added(old(console)@, field@, count as nat, i18n@),
{
    let args = vec![
        ("id", field.id.clone()),
        ("kind", field.kind.label().to_owned()),
        ("count", number_text(count)),
    ];
    assert(catalog::args_view(args@) =~= seq![
        ("id"@, field@.id),
        ("kind"@, builder::kind_label(field@.kind)),
        ("count"@, text::decimal(count as nat)),
    ]);
    console.tell(tf(i18n, "cli.prompt.added_list_field", &args));
    let hint = describe_type_hint(field.kind, field.choices.as_ref(), None, i18n);
    console.tell(
        tf2(
            i18n,
            "cli.prompt.field_hint",
            "expected",
            hint.expected.as_str(),
            "example",
            hint.example.as_str(),
        ),
    );
}

/// Asks for the fields of a list.
pub fn prompt_list_fields(console: &mut Console, i18n: &I18n) -> (r: Vec<QuestionInput>)
    ensures
        (builder::inputs_view(r@), final(console)@) == asked_list_fields(
            old(console)@,
            Seq::empty(),
            i18n@,
        ),
{
    let ghost start = console@;
    let prompt = t(i18n, "cli.prompt.field_id");
    let mut fields: Vec<QuestionInput> = Vec::new();
    let most: usize = console.rest.len();
    assert(console@.rest.len() == most);
    assert(builder::inputs_view(fields@) =~= Seq::empty());
    loop
        invariant
            fields@.len() + console@.rest.len() <= most,
            prompt@ == catalog::message(i18n@, "cli.prompt.field_id"@),
            asked_list_fields(start, Seq::empty(), i18n@) == asked_list_fields(
                console@,
                builder::inputs_view(fields@),
                i18n@,
            ),
            start == old(console)@,
        decreases console@.rest.len(),
    {
        let id = match console.prompt_optional(prompt.as_str()) {
            Some(id) => id,
            None => {
                return fields;
            },
        };
        let ids = collect_ids(&fields);
        if question_exists(&ids, id.as_str()) {
            if console.waiting {
                return fields;
            }
            console.tell(tf1(i18n, "cli.prompt.field_id_duplicate", "id", id.as_str()));
        } else {
            proof {
                lemma_field(console@, id@, i18n@);
            }
            let field = prompt_field(console, id.as_str(), i18n);
            if console.waiting {
                return fields;
            }
            match validate_question_input(&field, i18n) {
                Err(complaint) => {
                    console.tell(
                        tf1(i18n, "cli.prompt.invalid_field_retry", "error", complaint.as_str()),
                    );
                },
                Ok(_) => {
                    let ghost before = builder::inputs_view(fields@);
                    let ghost added = field@;
                    tell_field_added(console, &field, fields.len() + 1, i18n);
                    fields.push(field);
                    assert(builder::inputs_view(fields@) =~= before.push(added));
                },
            }
        }
    }
}

fn tell_fields_defined(console: &mut Console, fields: &Vec<QuestionInput>, i18n: &I18n)
    ensures
        final(console)@ == told_fields_defined(
            old(console)@,
            builder::inputs_view(fields@),
            i18n@,
        ),
{
    let summary = summarize_list_fields(fields);
    console.tell(
        tf2(
            i18n,
            "cli.prompt.defined_list_fields",
            "count",
            number_text(fields.len()).as_str(),
            "fields",
            summary.as_str(),
        ),
    );
    let example = render_list_example(fields, i18n);
    console.tell(tf1(i18n, "cli.prompt.example_list_entry", "entry", example.as_str()));
}

/// Asks for the list part of a list question.
pub fn prompt_list_input(console: &mut Console, i18n: &I18n) -> (r: ListInput)
    ensures
        (r@, final(console)@) == asked_list(old(console)@, i18n@),
{
    let ghost start = console@;
    loop
        invariant
            asked_list(start, i18n@) == asked_list(console@, i18n@),
            start == old(console)@,
        decreases console@.rest.len(),
    {
        proof {
            lemma_limits(console@, i18n@);
        }
        let min_prompt = t(i18n, "cli.prompt.min_items");
        let min_items = console.prompt_optional_usize(min_prompt.as_str(), i18n);
        let max_prompt = t(i18n, "cli.prompt.max_items");
        let max_items = console.prompt_optional_usize(max_prompt.as_str(), i18n);
        let reversed = match (min_items, max_items) {
            (Some(min), Some(max)) => min > max,
            _ => false,
        };
        if reversed {
            if console.waiting {
                let none: Vec<QuestionInput> = Vec::new();
                assert(builder::inputs_view(none@) =~= Seq::empty());
                return ListInput { min_items, max_items, fields: none };
            }
            console.tell(t(i18n, "cli.prompt.min_items_gt_max_items"));
        } else {
            let size = describe_list_size(min_items, max_items, i18n);
            console.tell(tf1(i18n, "cli.prompt.list_size", "size", size.as_str()));
            proof {
                lemma_list_fields(console@, Seq::empty(), i18n@);
            }
            let fields = prompt_list_fields(console, i18n);
            assert(builder::inputs_view(fields@).len() == fields@.len());
            if console.waiting {
                return ListInput { min_items, max_items, fields };
            }
            if fields.len() == 0 {
                console.tell(t(i18n, "cli.prompt.list_requires_field"));
            } else {
                tell_fields_defined(console, &fields, i18n);
                return ListInput { min_items, max_items, fields };
            }
        }
    }
}

/// What every question is asked for, after its id.
struct Basics {
    title: String,
    kind: CliQuestionType,
    required: bool,
    description: Option<String>,
    choices: Option<Vec<String>>,
    default_value: Option<String>,
    advanced: bool,
}

impl View for Basics {
    type V = BasicsView;

    closed spec fn view(&self) -> BasicsView {
        BasicsView {
            title: self.title@,
            kind: self.kind,
            required: self.required,
            description: text::opt_text(self.description),
            choices: form::opt_texts(self.choices),
            default_value: text::opt_text(self.default_value),
            advanced: self.advanced,
        }
    }
}

fn prompt_basics(console: &mut Console, id: &str, i18n: &I18n) -> (r: Basics)
    ensures
        (r@, final(console)@) == asked_basics(old(console)@, id@, i18n@),
{
    let title_prompt = mark_required(t(i18n, "cli.prompt.question_title").as_str(), i18n);
    let title = console.prompt_non_empty(title_prompt.as_str(), Some(id), i18n);
    let kind = console.prompt_question_type(i18n);
    let required_prompt = t(i18n, "cli.prompt.required");
    let required = console.prompt_bool(required_prompt.as_str(), true, i18n);
    let description_prompt = t(i18n, "cli.prompt.question_description");
    let description = console.prompt_optional(description_prompt.as_str());
    let choices = prompt_kind_choices(console, kind, i18n);
    let default_value = prompt_default(console, false, kind, choices.as_ref(), i18n);
    let advanced_prompt = t(i18n, "cli.prompt.advanced_features");
    let advanced = console.prompt_bool(advanced_prompt.as_str(), false, i18n);
    Basics { title, kind, required, description, choices, default_value, advanced }
}

fn prompt_question(console: &mut Console, id: &str, ids: &Vec<String>, i18n: &I18n) -> (r:
    QuestionInput)
    ensures
        (r@, final(console)@) == asked_question(old(console)@, id@, text::texts(ids@), i18n@),
{
    let basics = prompt_basics(console, id, i18n);
    let secret = if basics.advanced {
        let secret_prompt = t(i18n, "cli.prompt.secret_value");
        console.prompt_bool(secret_prompt.as_str(), false, i18n)
    } else {
        false
    };
    let list = if matches!(basics.kind, CliQuestionType::List) {
        Some(prompt_list_input(console, i18n))
    } else {
        None
    };
    let visible_if = if basics.advanced {
        prompt_visibility_condition(console, ids, i18n)
    } else {
        None
    };
    let constraint = prompt_constraint(console, basics.kind, i18n);
    let (computed, computed_overridable) = if basics.advanced {
        prompt_computed_field(console, basics.kind, ids, i18n)
    } else {
        (None, false)
    };
    let question = QuestionInput {
        id: id.to_owned(),
        kind: basics.kind,
        title: basics.title,
        description: basics.description,
        required: basics.required,
        default_value: basics.default_value,
        choices: basics.choices,
        secret,
        list,
        visible_if,
        constraint,
        computed,
        computed_overridable,
    };
    proof {
        builder::lemma_input_list(question);
    }
    question
}

fn make_question_refusal(question: &QuestionInput, complaint: &str, i18n: &I18n) -> (r: String)
    ensures
        r@ == question_refusal(question@, complaint@, i18n@),
{
    proof {
        builder::lemma_input_list(*question);
    }
    let fields = match &question.list {
        Some(list) => Some(&list.fields),
        None => None,
    };
    let hint = describe_type_hint(question.kind, question.choices.as_ref(), fields, i18n);
    let args = vec![
        ("error", complaint.to_owned()),
        ("expected", hint.expected.clone()),
        ("example", hint.example.clone()),
    ];
    assert(catalog::args_view(args@) =~= seq![
        ("error"@, complaint@),
        ("expected"@, hint@.expected),
        ("example"@, hint@.example),
    ]);
    tf(i18n, "cli.new.invalid_question", &args)
}

/// Asks for the questions of a form.
pub fn prompt_questions(console: &mut Console, i18n: &I18n) -> (r: Vec<QuestionInput>)
    ensures
        (builder::inputs_view(r@), final(console)@) == asked_questions(
            old(console)@,
            Seq::empty(),
            i18n@,
        ),
{
    let ghost start = console@;
    let prompt = t(i18n, "cli.prompt.question_id");
    let mut questions: Vec<QuestionInput> = Vec::new();
    assert(builder::inputs_view(questions@) =~= Seq::empty());
    loop
        invariant
            prompt@ == catalog::message(i18n@, "cli.prompt.question_id"@),
            asked_questions(start, Seq::empty(), i18n@) == asked_questions(
                console@,
                builder::inputs_view(questions@),
                i18n@,
            ),
            start == old(console)@,
        decreases console@.rest.len(),
    {
        let id = match console.prompt_optional(prompt.as_str()) {
            Some(id) => id,
            None => {
                return questions;
            },
        };
        let ids = collect_ids(&questions);
        if question_exists(&ids, id.as_str()) {
            if console.waiting {
                return questions;
            }
            console.tell(tf1(i18n, "cli.new.question_id_duplicate", "id", id.as_str()));
        } else {
            proof {
                lemma_question(console@, id@, text::texts(ids@), i18n@);
            }
            let question = prompt_question(console, id.as_str(), &ids, i18n);
            if console.waiting {
                return questions;
            }
            match validate_question_input(&question, i18n) {
                Err(complaint) => {
                    console.tell(make_question_refusal(&question, complaint.as_str(), i18n));
                },
                Ok(_) => {
                    let ghost before = builder::inputs_view(questions@);
                    let ghost added = question@;
                    questions.push(question);
                    assert(builder::inputs_view(questions@) =~= before.push(added));
                },
            }
        }
    }
}

/// What a dialogue about a form comes to.
#[derive(Debug, PartialEq)]
pub enum NewForm {
    Waiting,
    Failed(String),
    Described(GenerationInput),
}

/// What a dialogue about a form comes to, viewed.
pub open spec fn new_form_view(outcome: NewForm) -> Option<Result<GenerationInputView, Seq<char>>> {
    match outcome {
        NewForm::Waiting => None,
        NewForm::Failed(message) => Some(Err(message@)),
        NewForm::Described(input) => Some(Ok(input@)),
    }
}

/// Asks for a text that may not be left out, under a prompt that says so.
fn prompt_required_key(console: &mut Console, key: &str, default: Option<&str>, i18n: &I18n) -> (r:
    String)
    ensures
        (r@, final(console)@) == console::asked_text(
            old(console)@,
            required_key(key@, i18n@),
            console::opt_str(default),
            i18n@,
        ),
{
    let prompt = mark_required(t(i18n, key).as_str(), i18n);
    console.prompt_non_empty(prompt.as_str(), default, i18n)
}

/// The dialogue about a form. `no_root` says why there is no place to put the
/// form, where there is none.
pub fn run_new(console: &mut Console, no_root: Option<&str>, i18n: &I18n) -> (r: NewForm)
    ensures
        (new_form_view(r), final(console)@) == form_dialogue(
            old(console)@,
            console::opt_str(no_root),
            i18n@,
        ),
{
    console.tell(t(i18n, "cli.new.banner"));
    let form_id = prompt_required_key(console, "cli.prompt.form_id", None, i18n);
    let title = prompt_required_key(console, "cli.prompt.form_title", None, i18n);
    let version = prompt_required_key(console, "cli.prompt.form_version", Some("0.1.0"), i18n);
    let description_prompt = t(i18n, "cli.prompt.form_description");
    let description = console.prompt_optional(description_prompt.as_str());
    let summary_prompt = t(i18n, "cli.prompt.form_summary");
    let summary = console.prompt_optional(summary_prompt.as_str());
    let dir_name = prompt_required_key(
        console,
        "cli.prompt.output_directory_name",
        Some(form_id.as_str()),
        i18n,
    );
    if console.waiting {
        return NewForm::Waiting;
    }
    if let Some(message) = no_root {
        return NewForm::Failed(message.to_owned());
    }
    let questions = prompt_questions(console, i18n);
    assert(builder::inputs_view(questions@).len() == questions@.len());
    if console.waiting {
        return NewForm::Waiting;
    }
    if questions.len() == 0 {
        return NewForm::Failed(t(i18n, "cli.new.at_least_one_question"));
    }
    let ids = collect_ids(&questions);
    let validations = prompt_cross_field_validations(console, &ids, i18n);
    if console.waiting {
        return NewForm::Waiting;
    }
    NewForm::Described(
        GenerationInput {
            dir_name,
            summary_md: summary,
            form: FormInput { id: form_id, title, version, description, progress_policy: None },
            questions,
            validations,
        },
    )
}

/// An expression is of the kind that the first line names: whether a question is
/// answered, both or one of two expressions, the opposite of one, or else a
/// comparison. Expressions hold others only so deep.
pub proof fn law_expressions(
    d: ConsoleView,
    ids: Seq<Seq<char>>,
    depth: int,
    catalog: CatalogView,
)
    requires
        !d.waiting,
        d.rest.len() > 0,
        !text::is_blank(d.rest[0]),
    ensures
        ({
            let word = text::lowercase(text::trimmed(text::trimmed(d.rest[0])));
            let (made, after) = asked_expr(d, ids, depth, catalog);
            let d1 = console::asked_line(
                d,
                expr_prompt(depth, catalog),
                Some(catalog::message(catalog, "cli.prompt.expr_type_default"@)),
            ).1;
            let (left, d2) = asked_expr(d1, ids, depth + 1, catalog);
            let (right, d3) = asked_expr(d2, ids, depth + 1, catalog);
            let deeper = depth < 4;
            &&& word == "is_set"@ <==> made is IsSet
            &&& word == "and"@ && deeper <==> made is And
            &&& word == "or"@ && deeper <==> made is Or
            &&& word == "not"@ && deeper <==> made is Not
            &&& made matches ExprView::And { expressions } ==> expressions == seq![left, right]
                && after == d3
            &&& made matches ExprView::Or { expressions } ==> expressions == seq![left, right]
                && after == d3
            &&& made matches ExprView::Not { expression } ==> *expression == left && after == d2
            &&& !(made is IsSet) && !(made is And) && !(made is Or) && !(made is Not) ==> (
                made,
                after,
            ) == asked_comparison(
                console::told(d1, catalog::message(catalog, "cli.prompt.building_comparison"@)),
                ids,
                catalog,
            )
        }),
{
    reveal_strlit("is_set");
    reveal_strlit("and");
    reveal_strlit("or");
    reveal_strlit("not");
    assert("is_set"@[0] == 'i' && "and"@[0] == 'a' && "or"@[0] == 'o' && "not"@[0] == 'n');
    let d1 = console::asked_line(
        d,
        expr_prompt(depth, catalog),
        Some(catalog::message(catalog, "cli.prompt.expr_type_default"@)),
    ).1;
    lemma_comparison_shape(
        console::told(d1, catalog::message(catalog, "cli.prompt.building_comparison"@)),
        ids,
        catalog,
    );
}

proof fn lemma_comparison_shape(d: ConsoleView, ids: Seq<Seq<char>>, catalog: CatalogView)
    ensures
        ({
            let made = asked_comparison(d, ids, catalog).0;
            made is Eq || made is Ne || made is Lt || made is Lte || made is Gt || made is Gte
        }),
{
}

/// A comparison that is typed is of the answer to the question that is named with the
/// value that is named, by the operator that is named.
pub proof fn law_comparison_is_read(d: ConsoleView, ids: Seq<Seq<char>>, catalog: CatalogView)
    requires
        !d.waiting,
        d.rest.len() >= 4,
        !text::is_blank(d.rest[0]),
        !text::is_blank(d.rest[1]),
        !text::is_blank(d.rest[2]),
        !text::is_blank(d.rest[3]),
    ensures
        ({
            let (made, after) = asked_comparison(d, ids, catalog);
            let operator = text::lowercase(text::trimmed(d.rest[0]));
            let operand = text::lowercase(text::trimmed(d.rest[2]));
            let right = if operand == "question"@ || operand == "answer"@ {
                ExprView::Answer { path: text::trimmed(d.rest[3]) }
            } else {
                ExprView::Literal { value: typed::literal_typed(text::trimmed(d.rest[3])) }
            };
            &&& made == hints::comparison(
                operator,
                ExprView::Answer { path: text::trimmed(d.rest[1]) },
                right,
            )
            &&& !after.waiting
            &&& after.rest == d.rest.skip(4)
        }),
{
    let d0 = console::told(d, questions_line(ids, catalog));
    console::law_told(d, questions_line(ids, catalog));
    let prompt = catalog::message(catalog, "cli.prompt.operator"@);
    console::law_line_is_read(d0, prompt, Some("eq"@));
    let d1 = console::asked_line(d0, prompt, Some("eq"@)).1;
    assert(d1.rest[0] == d.rest[1]);
    let prompt1 = catalog::message(catalog, "cli.prompt.question_id_compare"@);
    console::law_text_is_read(d1, prompt1, None, catalog);
    let d2 = console::asked_text(d1, prompt1, None, catalog).1;
    assert(d2.rest[0] == d.rest[2]);
    let prompt2 = catalog::message(catalog, "cli.prompt.right_operand_type"@);
    let usual = Some(catalog::message(catalog, "cli.prompt.right_operand_default"@));
    console::law_line_is_read(d2, prompt2, usual);
    let d3 = console::asked_line(d2, prompt2, usual).1;
    assert(d3.rest[0] == d.rest[3]);
    let as_question = catalog::message(catalog, "cli.prompt.right_operand_question_id"@);
    let as_value = catalog::message(catalog, "cli.prompt.value_compare_against"@);
    console::law_text_is_read(d3, as_question, None, catalog);
    console::law_text_is_read(d3, as_value, None, catalog);
    text::law_trimmed_once(d.rest[0]);
    text::law_trimmed_once(d.rest[2]);
    assert(d3.rest.skip(1) =~= d.rest.skip(4));
}

/// Whether a question is answered is asked of the question that is named.
pub proof fn law_is_set_is_read(d: ConsoleView, ids: Seq<Seq<char>>, catalog: CatalogView)
    requires
        !d.waiting,
        d.rest.len() > 0,
        !text::is_blank(d.rest[0]),
    ensures
        asked_is_set(d, ids, catalog).0 == (ExprView::IsSet { path: text::trimmed(d.rest[0]) }),
        asked_is_set(d, ids, catalog).1.rest == d.rest.skip(1),
        !asked_is_set(d, ids, catalog).1.waiting,
{
    console::law_told(d, questions_line(ids, catalog));
    console::law_text_is_read(
        console::told(d, questions_line(ids, catalog)),
        catalog::message(catalog, "cli.prompt.question_id_presence"@),
        None,
        catalog,
    );
}

/// A condition for being shown is asked for only where there are questions before,
/// and it is there where it is wanted.
pub proof fn law_visibility_is_read(d: ConsoleView, ids: Seq<Seq<char>>, catalog: CatalogView)
    ensures
        ({
            let (made, after) = asked_visibility(d, ids, catalog);
            let (wanted, d1) = console::asked_bool(
                d,
                catalog::message(catalog, "cli.prompt.add_visibility_condition"@),
                false,
                catalog,
            );
            &&& ids.len() == 0 ==> made is None && after == d
            &&& ids.len() > 0 ==> (made is Some <==> wanted)
            &&& ids.len() > 0 && !wanted ==> after == d1
            &&& made matches Some(expr) ==> (expr, after) == asked_expr(
                console::told(d1, questions_line(ids, catalog)),
                ids,
                0,
                catalog,
            )
        }),
{
}

/// What is left of a list without repeats has the members of the list, and no member
/// twice in a row.
pub proof fn law_without_repeats(list: Seq<Seq<char>>)
    ensures
        without_repeats(list).len() <= list.len(),
        list.len() > 0 ==> without_repeats(list).len() > 0 && without_repeats(list).last()
            == list.last(),
        forall|x: Seq<char>| #[trigger] without_repeats(list).contains(x) <==> list.contains(x),
        forall|i: int|
            0 < i < without_repeats(list).len() ==> #[trigger] without_repeats(list)[i]
                != without_repeats(list)[i - 1],
    decreases list.len(),
{
    if list.len() > 0 {
        let front = list.drop_last();
        let before = without_repeats(front);
        let all = without_repeats(list);
        law_without_repeats(front);
        assert forall|x: Seq<char>| #[trigger] all.contains(x) <==> list.contains(x) by {
            if front.contains(x) {
                let k = choose|k: int| 0 <= k < front.len() && front[k] == x;
                assert(list[k] == x);
                assert(before.contains(x));
                let j = choose|j: int| 0 <= j < before.len() && before[j] == x;
                assert(all[j] == x);
            }
            if list.contains(x) && !front.contains(x) {
                let k = choose|k: int| 0 <= k < list.len() && list[k] == x;
                if k < front.len() {
                    assert(front[k] == x);
                }
                assert(all.last() == x);
            }
            if all.contains(x) && !before.contains(x) {
                let k = choose|k: int| 0 <= k < all.len() && all[k] == x;
                if k < before.len() {
                    assert(before[k] == x);
                }
                assert(list[list.len() - 1] == x);
            }
        }
        assert forall|i: int| 0 < i < all.len() implies #[trigger] all[i] != all[i - 1] by {
            if i < before.len() {
                assert(all[i] == before[i] && all[i - 1] == before[i - 1]);
            }
        }
    }
}

/// The ids that are not known are those that are no question's.
pub proof fn law_unknown_ids(fields: Seq<Seq<char>>, ids: Seq<Seq<char>>, field: Seq<char>)
    ensures
        unknown_ids(seq![], ids).len() == 0,
        ids.contains(field) ==> unknown_ids(fields.push(field), ids) == unknown_ids(fields, ids),
        !ids.contains(field) ==> unknown_ids(fields.push(field), ids) == unknown_ids(
            fields,
            ids,
        ).push(field),
{
    assert(fields.push(field).drop_last() =~= fields);
}

proof fn lemma_all_known(fields: Seq<Seq<char>>, ids: Seq<Seq<char>>)
    ensures
        unknown_ids(fields, ids).len() == 0 ==> forall|i: int|
            0 <= i < fields.len() ==> ids.contains(#[trigger] fields[i]),
    decreases fields.len(),
{
    if fields.len() > 0 {
        lemma_all_known(fields.drop_last(), ids);
        if unknown_ids(fields, ids).len() == 0 {
            assert forall|i: int| 0 <= i < fields.len() implies ids.contains(
                #[trigger] fields[i],
            ) by {
                if i < fields.len() - 1 {
                    assert(fields.drop_last()[i] == fields[i]);
                }
            }
        }
    }
}

/// The fields of a rule are at least one, and each is a question's.
pub proof fn law_fields_are_questions(d: ConsoleView, ids: Seq<Seq<char>>, catalog: CatalogView)
    ensures
        ({
            let (fields, after) = asked_fields(d, ids, catalog);
            !after.waiting ==> fields.len() > 0 && forall|i: int|
                0 <= i < fields.len() ==> ids.contains(#[trigger] fields[i])
        }),
    decreases d.rest.len(),
{
    let available = catalog::message_with(
        catalog,
        "cli.prompt.available_questions"@,
        seq![("ids"@, hints::ids_text(ids, catalog))],
    );
    let d0 = console::told(d, available);
    let prompt = catalog::message(catalog, "cli.prompt.fields_to_validate"@);
    let (raw, d1) = console::asked_line(d0, prompt, None);
    let fields = without_repeats(console::comma_list(raw));
    let unknown = unknown_ids(fields, ids);
    console::lemma_line(d0, prompt, None);
    lemma_all_known(fields, ids);
    if !d1.waiting {
        if fields.len() == 0 {
            law_fields_are_questions(
                console::told(d1, catalog::message(catalog, "cli.prompt.at_least_one_field"@)),
                ids,
                catalog,
            );
        } else if unknown.len() > 0 {
            law_fields_are_questions(
                console::told(
                    d1,
                    catalog::message_with(
                        catalog,
                        "cli.prompt.unknown_fields"@,
                        seq![("fields"@, text::joined(unknown, ", "@))],
                    ),
                ),
                ids,
                catalog,
            );
        }
    }
}

/// A line that names questions has them as the fields, without repeats.
pub proof fn law_fields_are_read(d: ConsoleView, ids: Seq<Seq<char>>, catalog: CatalogView)
    requires
        !d.waiting,
        d.rest.len() > 0,
        !text::is_blank(d.rest[0]),
        without_repeats(console::comma_list(text::trimmed(d.rest[0]))).len() > 0,
        unknown_ids(
            without_repeats(console::comma_list(text::trimmed(d.rest[0]))),
            ids,
        ).len() == 0,
    ensures
        asked_fields(d, ids, catalog).0 == without_repeats(
            console::comma_list(text::trimmed(d.rest[0])),
        ),
        asked_fields(d, ids, catalog).1.rest == d.rest.skip(1),
        !asked_fields(d, ids, catalog).1.waiting,
{
}

/// A rule has the id and the message that were typed, the fields that were named, and
/// the condition that was described.
pub proof fn law_rule_is_read(d: ConsoleView, ids: Seq<Seq<char>>, catalog: CatalogView)
    requires
        !d.waiting,
        d.rest.len() >= 2,
        !text::is_blank(d.rest[1]),
    ensures
        ({
            let (rule, after) = asked_rule(d, ids, catalog);
            &&& text::is_blank(d.rest[0]) ==> rule.id is None
            &&& !text::is_blank(d.rest[0]) ==> rule.id == Some(text::trimmed(d.rest[0]))
            &&& rule.message == text::trimmed(d.rest[1])
            &&& rule.code is None
            &&& exists|d2: ConsoleView|
                !d2.waiting && d2.rest == d.rest.skip(2) && rule.fields == (
                #[trigger] asked_fields(d2, ids, catalog)).0 && (rule.condition, after)
                    == asked_expr(asked_fields(d2, ids, catalog).1, ids, 0, catalog)
        }),
{
    let id_prompt = catalog::message(catalog, "cli.prompt.validation_id"@);
    console::law_optional_is_read(d, id_prompt);
    let d1 = console::asked_optional(d, id_prompt).1;
    assert(d1.rest[0] == d.rest[1]);
    let message_prompt = catalog::message(catalog, "cli.prompt.validation_message"@);
    console::law_text_is_read(d1, message_prompt, None, catalog);
    let d2 = console::asked_text(d1, message_prompt, None, catalog).1;
    assert(d2.rest =~= d.rest.skip(2));
    assert(asked_rule(d, ids, catalog).0.fields == asked_fields(d2, ids, catalog).0);
}

/// Rules are added as long as another is wanted, each behind those before it.
pub proof fn law_rules_are_read(
    d: ConsoleView,
    ids: Seq<Seq<char>>,
    done: Seq<RuleView>,
    catalog: CatalogView,
)
    ensures
        ({
            let (rules, after) = asked_rules(d, ids, done, catalog);
            let (more, d1) = console::asked_bool(
                d,
                catalog::message(catalog, "cli.prompt.add_cross_field_validation"@),
                false,
                catalog,
            );
            let (rule, d2) = asked_rule(d1, ids, catalog);
            &&& !more ==> rules == done && after == d1
            &&& more && !d2.waiting ==> (rules, after) == asked_rules(
                d2,
                ids,
                done.push(rule),
                catalog,
            )
            &&& more && d2.waiting ==> rules == done && after.waiting
        }),
{
}

/// A computed value is another question's answer or a literal, as the first line
/// names it, and the line behind it says which one.
pub proof fn law_source_is_read(d: ConsoleView, catalog: CatalogView)
    requires
        !d.waiting,
        d.rest.len() >= 3,
        !text::is_blank(d.rest[0]),
        !text::is_blank(d.rest[1]),
    ensures
        ({
            let ((computed, overrides), after) = asked_source(d, catalog);
            let word = text::lowercase(text::trimmed(d.rest[0]));
            let yes = text::lowercase(text::trimmed(d.rest[2])) == "y"@;
            let no = text::lowercase(text::trimmed(d.rest[2])) == "n"@;
            &&& word == "answer"@ ==> computed == Some(
                ExprView::Answer { path: text::trimmed(d.rest[1]) },
            )
            &&& word == "literal"@ ==> computed == Some(
                ExprView::Literal { value: typed::literal_typed(text::trimmed(d.rest[1])) },
            )
            &&& (word == "answer"@ || word == "literal"@) && yes && !text::is_blank(d.rest[2])
                ==> overrides
            &&& (word == "answer"@ || word == "literal"@) && (no || text::is_blank(d.rest[2]))
                ==> !overrides
        }),
{
    let prompt = catalog::message(catalog, "cli.prompt.computed_source"@);
    let usual = Some(catalog::message(catalog, "cli.prompt.computed_source_default"@));
    console::law_line_is_read(d, prompt, usual);
    text::law_trimmed_once(d.rest[0]);
    let d1 = console::asked_line(d, prompt, usual).1;
    assert(d1.rest[0] == d.rest[1]);
    let as_answer = catalog::message(catalog, "cli.prompt.source_question_id"@);
    let as_literal = catalog::message(catalog, "cli.prompt.literal_value"@);
    console::law_text_is_read(d1, as_answer, None, catalog);
    console::law_text_is_read(d1, as_literal, None, catalog);
    let d2 = console::asked_text(d1, as_answer, None, catalog).1;
    let e2 = console::asked_text(d1, as_literal, None, catalog).1;
    assert(d2.rest[0] == d.rest[2] && e2.rest[0] == d.rest[2]);
    let override_prompt = catalog::message(catalog, "cli.prompt.allow_override_computed"@);
    console::law_bool_is_read(d2, override_prompt, false, catalog);
    console::law_bool_is_read(e2, override_prompt, false, catalog);
    reveal_strlit("answer");
    reveal_strlit("literal");
    assert("answer"@[0] == 'a' && "literal"@[0] == 'l');
}

/// No value is computed for a list, and for another question only where it is wanted.
pub proof fn law_computed_is_read(
    d: ConsoleView,
    kind: CliQuestionType,
    ids: Seq<Seq<char>>,
    catalog: CatalogView,
)
    ensures
        ({
            let (computed, after) = asked_computed(d, kind, ids, catalog);
            let (wanted, d1) = console::asked_bool(
                d,
                catalog::message(catalog, "cli.prompt.compute_question_value"@),
                false,
                catalog,
            );
            &&& kind is List ==> computed == (None::<ExprView>, false) && after == d
            &&& !(kind is List) && !wanted ==> computed == (None::<ExprView>, false) && after == d1
            &&& !(kind is List) && wanted ==> (computed, after) == asked_source(
                console::told(d1, questions_line(ids, catalog)),
                catalog,
            )
        }),
{
}

/// The limits of a number are the numbers that are typed, the least one first. There
/// is no constraint where neither is typed.
pub proof fn law_number_limits_are_read(
    d: ConsoleView,
    kind: CliQuestionType,
    catalog: CatalogView,
    min: (u64, Seq<char>),
    max: (u64, Seq<char>),
)
    requires
        kind is Integer || kind is Number,
        !d.waiting,
        d.rest.len() >= 2,
        text::is_blank(d.rest[0]) || typed::double_typed(text::trimmed(d.rest[0])) == Some(min),
        text::is_blank(d.rest[1]) || typed::double_typed(text::trimmed(d.rest[1])) == Some(max),
    ensures
        ({
            let (made, after) = asked_constraint(d, kind, catalog);
            &&& !after.waiting
            &&& after.rest == d.rest.skip(2)
            &&& made is None <==> text::is_blank(d.rest[0]) && text::is_blank(d.rest[1])
            &&& made matches Some(limits) ==> {
                &&& limits.pattern is None && limits.min_len is None && limits.max_len is None
                &&& limits.min is None <==> text::is_blank(d.rest[0])
                &&& limits.max is None <==> text::is_blank(d.rest[1])
                &&& limits.min matches Some(bound) ==> bound.bits == min.0 && bound.text == min.1
                &&& limits.max matches Some(bound) ==> bound.bits == max.0 && bound.text == max.1
            }
        }),
{
    let min_prompt = catalog::message(catalog, "cli.prompt.min_numeric_value"@);
    console::law_double_is_read(d, min_prompt, catalog);
    let d1 = console::asked_double(d, min_prompt, catalog).1;
    assert(d1.rest[0] == d.rest[1]);
    console::law_double_is_read(
        d1,
        catalog::message(catalog, "cli.prompt.max_numeric_value"@),
        catalog,
    );
    assert(d1.rest.skip(1) =~= d.rest.skip(2));
}

/// The limits of a text are the lengths that are typed, the least one first, and the
/// pattern behind them. There is no constraint where none is typed.
pub proof fn law_text_limits_are_read(
    d: ConsoleView,
    kind: CliQuestionType,
    catalog: CatalogView,
    least: usize,
    most: usize,
)
    requires
        kind is String || kind is Enum,
        !d.waiting,
        d.rest.len() >= 3,
        text::is_blank(d.rest[0]) || text::usize_value(text::trimmed(d.rest[0])) == Some(
            least as int,
        ),
        text::is_blank(d.rest[1]) || text::usize_value(text::trimmed(d.rest[1])) == Some(
            most as int,
        ),
    ensures
        ({
            let (made, after) = asked_constraint(d, kind, catalog);
            &&& !after.waiting
            &&& after.rest == d.rest.skip(3)
            &&& made is None <==> text::is_blank(d.rest[0]) && text::is_blank(d.rest[1])
                && text::is_blank(d.rest[2])
            &&& made matches Some(limits) ==> {
                &&& limits.min is None && limits.max is None
                &&& limits.min_len == if text::is_blank(d.rest[0]) {
                    None
                } else {
                    Some(least)
                }
                &&& limits.max_len == if text::is_blank(d.rest[1]) {
                    None
                } else {
                    Some(most)
                }
                &&& limits.pattern == if text::is_blank(d.rest[2]) {
                    None
                } else {
                    Some(text::trimmed(d.rest[2]))
                }
            }
        }),
{
    let min_prompt = catalog::message(catalog, "cli.prompt.min_length"@);
    console::law_usize_is_read(d, min_prompt, catalog);
    let d1 = console::asked_usize(d, min_prompt, catalog).1;
    assert(d1.rest[0] == d.rest[1]);
    let max_prompt = catalog::message(catalog, "cli.prompt.max_length"@);
    console::law_usize_is_read(d1, max_prompt, catalog);
    let d2 = console::asked_usize(d1, max_prompt, catalog).1;
    assert(d2.rest[0] == d.rest[2]);
    console::law_optional_is_read(d2, catalog::message(catalog, "cli.prompt.regex_pattern"@));
    assert(d2.rest.skip(1) =~= d.rest.skip(3));
}

/// Truth values and lists have no constraint.
pub proof fn law_no_limits(d: ConsoleView, kind: CliQuestionType, catalog: CatalogView)
    requires
        kind is Boolean || kind is List,
    ensures
        asked_constraint(d, kind, catalog).0 is None,
        asked_constraint(d, kind, catalog).1 == d,
{
}

/// A default that is taken is none to complain of.
pub proof fn law_default_is_taken(
    d: ConsoleView,
    in_list: bool,
    kind: CliQuestionType,
    choices: Option<Seq<Seq<char>>>,
    catalog: CatalogView,
)
    ensures
        ({
            let (default, after) = asked_default(d, in_list, kind, choices, catalog);
            !after.waiting && default is Some ==> typed::default_complaint(
                kind,
                default->0,
                choices,
                catalog,
            ) is None
        }),
    decreases d.rest.len(),
{
    let (candidate, d1) = console::asked_optional(
        d,
        hints::default_prompt(kind, choices, catalog),
    );
    console::lemma_line(d, hints::default_prompt(kind, choices, catalog), None);
    if candidate is Some && !d1.waiting {
        let complaint = typed::default_complaint(kind, candidate->0, choices, catalog);
        if complaint is Some {
            law_default_is_taken(
                console::told(
                    d1,
                    default_refusal(in_list, kind, choices, complaint->0, catalog),
                ),
                in_list,
                kind,
                choices,
                catalog,
            );
        }
    }
}

/// A default that is typed and is none to complain of is taken as it is.
pub proof fn law_default_is_read(
    d: ConsoleView,
    in_list: bool,
    kind: CliQuestionType,
    choices: Option<Seq<Seq<char>>>,
    catalog: CatalogView,
)
    requires
        !d.waiting,
        d.rest.len() > 0,
        text::is_blank(d.rest[0]) || typed::default_complaint(
            kind,
            text::trimmed(d.rest[0]),
            choices,
            catalog,
        ) is None,
    ensures
        ({
            let (default, after) = asked_default(d, in_list, kind, choices, catalog);
            &&& default == if text::is_blank(d.rest[0]) {
                None
            } else {
                Some(text::trimmed(d.rest[0]))
            }
            &&& !after.waiting
            &&& after.rest == d.rest.skip(1)
        }),
{
    console::law_optional_is_read(d, hints::default_prompt(kind, choices, catalog));
}

/// Choices are asked for where the question is one with choices, and nowhere else.
pub proof fn law_choices_asked(d: ConsoleView, kind: CliQuestionType, catalog: CatalogView)
    ensures
        asked_kind_choices(d, kind, catalog).0 is Some <==> kind is Enum,
        kind is Enum ==> asked_kind_choices(d, kind, catalog).0 == Some(
            console::asked_choices(d, catalog).0,
        ),
        !(kind is Enum) ==> asked_kind_choices(d, kind, catalog).1 == d,
{
}

/// The limits of a list are the numbers that are typed, the least one first.
pub proof fn law_list_limits_are_read(
    d: ConsoleView,
    catalog: CatalogView,
    least: usize,
    most: usize,
)
    requires
        !d.waiting,
        d.rest.len() >= 2,
        text::is_blank(d.rest[0]) || text::usize_value(text::trimmed(d.rest[0])) == Some(
            least as int,
        ),
        text::is_blank(d.rest[1]) || text::usize_value(text::trimmed(d.rest[1])) == Some(
            most as int,
        ),
    ensures
        ({
            let ((min, max), after) = asked_limits(d, catalog);
            &&& min == if text::is_blank(d.rest[0]) {
                None
            } else {
                Some(least)
            }
            &&& max == if text::is_blank(d.rest[1]) {
                None
            } else {
                Some(most)
            }
            &&& !after.waiting
            &&& after.rest == d.rest.skip(2)
        }),
{
    let min_prompt = catalog::message(catalog, "cli.prompt.min_items"@);
    console::law_usize_is_read(d, min_prompt, catalog);
    let d1 = console::asked_usize(d, min_prompt, catalog).1;
    assert(d1.rest[0] == d.rest[1]);
    console::law_usize_is_read(d1, catalog::message(catalog, "cli.prompt.max_items"@), catalog);
    assert(d1.rest.skip(1) =~= d.rest.skip(2));
}

/// A list that is described has limits that are not reversed and at least one field.
pub proof fn law_list_stands(d: ConsoleView, catalog: CatalogView)
    ensures
        ({
            let (list, after) = asked_list(d, catalog);
            !after.waiting ==> list.fields.len() > 0 && !(list.min_items is Some
                && list.max_items is Some && list.min_items->0 > list.max_items->0)
        }),
    decreases d.rest.len(),
{
    let ((min_items, max_items), d1) = asked_limits(d, catalog);
    let size = catalog::message_with(
        catalog,
        "cli.prompt.list_size"@,
        seq![("size"@, hints::list_size_text(min_items, max_items, catalog))],
    );
    let (fields, d2) = asked_list_fields(console::told(d1, size), Seq::empty(), catalog);
    lemma_limits(d, catalog);
    lemma_list_fields(console::told(d1, size), Seq::empty(), catalog);
    if builder::reversed(min_items, max_items) {
        if !d1.waiting {
            law_list_stands(
                console::told(
                    d1,
                    catalog::message(catalog, "cli.prompt.min_items_gt_max_items"@),
                ),
                catalog,
            );
        }
    } else if !d2.waiting {
        if fields.len() == 0 {
            law_list_stands(
                console::told(d2, catalog::message(catalog, "cli.prompt.list_requires_field"@)),
                catalog,
            );
        } else {
            assert(asked_list(d, catalog).0.fields == fields);
        }
    }
}

/// Fields that are described come behind those that were, which stay as they are.
pub proof fn law_fields_stay(
    d: ConsoleView,
    done: Seq<QuestionInputView>,
    catalog: CatalogView,
)
    ensures
        ({
            let fields = asked_list_fields(d, done, catalog).0;
            done.len() <= fields.len() && fields.take(done.len() as int) == done
        }),
    decreases d.rest.len(),
{
    let prompt = catalog::message(catalog, "cli.prompt.field_id"@);
    let (given, d1) = console::asked_optional(d, prompt);
    console::lemma_line(d, prompt, None);
    assert(done.take(done.len() as int) =~= done);
    if given is Some {
        let id = given->0;
        if builder::input_ids(done).contains(id) {
            if !d1.waiting {
                law_fields_stay(
                    console::told(
                        d1,
                        catalog::message_with(
                            catalog,
                            "cli.prompt.field_id_duplicate"@,
                            seq![("id"@, id)],
                        ),
                    ),
                    done,
                    catalog,
                );
            }
        } else {
            let (field, d2) = asked_field(d1, id, catalog);
            lemma_field(d1, id, catalog);
            if !d2.waiting {
                match typed::new_question_complaint(field, catalog) {
                    Some(complaint) => law_fields_stay(
                        console::told(
                            d2,
                            catalog::message_with(
                                catalog,
                                "cli.prompt.invalid_field_retry"@,
                                seq![("error"@, complaint)],
                            ),
                        ),
                        done,
                        catalog,
                    ),
                    None => {
                        let next = told_field_added(d2, field, done.len() + 1, catalog);
                        law_fields_stay(next, done.push(field), catalog);
                        let fields = asked_list_fields(next, done.push(field), catalog).0;
                        assert(fields.take(done.len() as int) =~= fields.take(
                            done.push(field).len() as int,
                        ).take(done.len() as int));
                        assert(done.push(field).take(done.len() as int) =~= done);
                    },
                }
            }
        }
    }
}

/// Questions that are described come behind those that were, which stay as they are.
pub proof fn law_questions_stay(
    d: ConsoleView,
    done: Seq<QuestionInputView>,
    catalog: CatalogView,
)
    ensures
        ({
            let questions = asked_questions(d, done, catalog).0;
            done.len() <= questions.len() && questions.take(done.len() as int) == done
        }),
    decreases d.rest.len(),
{
    let ids = builder::input_ids(done);
    let prompt = catalog::message(catalog, "cli.prompt.question_id"@);
    let (given, d1) = console::asked_optional(d, prompt);
    console::lemma_line(d, prompt, None);
    assert(done.take(done.len() as int) =~= done);
    if given is Some {
        let id = given->0;
        if ids.contains(id) {
            if !d1.waiting {
                law_questions_stay(
                    console::told(
                        d1,
                        catalog::message_with(
                            catalog,
                            "cli.new.question_id_duplicate"@,
                            seq![("id"@, id)],
                        ),
                    ),
                    done,
                    catalog,
                );
            }
        } else {
            let (question, d2) = asked_question(d1, id, ids, catalog);
            lemma_question(d1, id, ids, catalog);
            if !d2.waiting {
                match typed::new_question_complaint(question, catalog) {
                    Some(complaint) => law_questions_stay(
                        console::told(d2, question_refusal(question, complaint, catalog)),
                        done,
                        catalog,
                    ),
                    None => {
                        law_questions_stay(d2, done.push(question), catalog);
                        let questions = asked_questions(d2, done.push(question), catalog).0;
                        assert(questions.take(done.len() as int) =~= questions.take(
                            done.push(question).len() as int,
                        ).take(done.len() as int));
                        assert(done.push(question).take(done.len() as int) =~= done);
                    },
                }
            }
        }
    }
}

/// A question that is described with a new id and that nothing is to complain of is
/// added. A blank id ends the questions.
pub proof fn law_question_is_added(
    d: ConsoleView,
    done: Seq<QuestionInputView>,
    catalog: CatalogView,
)
    requires
        !d.waiting,
        d.rest.len() > 0,
    ensures
        ({
            let ids = builder::input_ids(done);
            let id = text::trimmed(d.rest[0]);
            let d1 = console::asked_optional(
                d,
                catalog::message(catalog, "cli.prompt.question_id"@),
            ).1;
            let (question, d2) = asked_question(d1, id, ids, catalog);
            let all = asked_questions(d, done, catalog);
            &&& text::is_blank(d.rest[0]) ==> all.0 == done && all.1 == d1
            &&& !text::is_blank(d.rest[0]) && !ids.contains(id) && !d2.waiting
                && typed::new_question_complaint(question, catalog) is None ==> all
                == asked_questions(d2, done.push(question), catalog)
        }),
{
    console::law_optional_is_read(d, catalog::message(catalog, "cli.prompt.question_id"@));
}

/// A question that is described has the id that it was given. It has choices where it
/// is an enum question, and a list where it is a list question. What is advanced is
/// left out where it is not wanted.
pub proof fn law_described_question(
    d: ConsoleView,
    id: Seq<char>,
    ids: Seq<Seq<char>>,
    catalog: CatalogView,
)
    ensures
        ({
            let (question, after) = asked_question(d, id, ids, catalog);
            let (basics, d1) = asked_basics(d, id, catalog);
            &&& question.id == id
            &&& question.kind == basics.kind
            &&& question.title == basics.title
            &&& question.description == basics.description
            &&& question.required == basics.required
            &&& question.default_value == basics.default_value
            &&& question.choices == basics.choices
            &&& question.choices is Some <==> question.kind is Enum
            &&& question.list is Some <==> question.kind is List
            &&& question.kind is Boolean || question.kind is List ==> question.constraint is None
            &&& question.kind is List ==> question.computed is None
            &&& !basics.advanced ==> !question.secret && question.visible_if is None
                && question.computed is None && !question.computed_overridable
            &&& basics.advanced ==> question.secret == console::asked_bool(
                d1,
                catalog::message(catalog, "cli.prompt.secret_value"@),
                false,
                catalog,
            ).0
        }),
{
}

proof fn lemma_skips(lines: Seq<Seq<char>>, n: int)
    requires
        0 <= n < lines.len(),
    ensures
        lines.skip(n)[0] == lines[n],
        lines.skip(n).skip(1) == lines.skip(n + 1),
        lines.skip(n).len() == lines.len() - n,
{
    assert(lines.skip(n).skip(1) =~= lines.skip(n + 1));
}

/// The first lines of a dialogue about a form are its id, its title, its version, its
/// description, its summary and its directory, in this order. The version and the
/// directory have defaults, and the description and the summary may be left out.
pub proof fn law_head_is_read(d: ConsoleView, catalog: CatalogView)
    requires
        !d.waiting,
        d.rest.len() >= 6,
        !text::is_blank(d.rest[0]),
        !text::is_blank(d.rest[1]),
        !text::is_blank(d.rest[2]),
        !text::is_blank(d.rest[5]),
    ensures
        ({
            let (head, after) = asked_head(d, catalog);
            &&& head.form_id == text::trimmed(d.rest[0])
            &&& head.title == text::trimmed(d.rest[1])
            &&& head.version == text::trimmed(d.rest[2])
            &&& head.description == if text::is_blank(d.rest[3]) {
                None
            } else {
                Some(text::trimmed(d.rest[3]))
            }
            &&& head.summary == if text::is_blank(d.rest[4]) {
                None
            } else {
                Some(text::trimmed(d.rest[4]))
            }
            &&& head.dir_name == text::trimmed(d.rest[5])
            &&& !after.waiting
            &&& after.rest == d.rest.skip(6)
        }),
{
    let lines = d.rest;
    let banner = catalog::message(catalog, "cli.new.banner"@);
    console::law_told(d, banner);
    let d0 = console::told(d, banner);
    assert(lines.skip(0) =~= lines);
    lemma_skips(lines, 0);
    lemma_skips(lines, 1);
    lemma_skips(lines, 2);
    lemma_skips(lines, 3);
    lemma_skips(lines, 4);
    lemma_skips(lines, 5);
    let id_prompt = required_key("cli.prompt.form_id"@, catalog);
    console::law_text_is_read(d0, id_prompt, None, catalog);
    let (form_id, d1) = console::asked_text(d0, id_prompt, None, catalog);
    let title_prompt = required_key("cli.prompt.form_title"@, catalog);
    console::law_text_is_read(d1, title_prompt, None, catalog);
    let d2 = console::asked_text(d1, title_prompt, None, catalog).1;
    let version_prompt = required_key("cli.prompt.form_version"@, catalog);
    console::law_text_is_read(d2, version_prompt, Some("0.1.0"@), catalog);
    let d3 = console::asked_text(d2, version_prompt, Some("0.1.0"@), catalog).1;
    let description_prompt = catalog::message(catalog, "cli.prompt.form_description"@);
    console::law_optional_is_read(d3, description_prompt);
    let d4 = console::asked_optional(d3, description_prompt).1;
    let summary_prompt = catalog::message(catalog, "cli.prompt.form_summary"@);
    console::law_optional_is_read(d4, summary_prompt);
    let d5 = console::asked_optional(d4, summary_prompt).1;
    let dir_prompt = required_key("cli.prompt.output_directory_name"@, catalog);
    console::law_text_is_read(d5, dir_prompt, Some(form_id), catalog);
}

/// The first lines about a question are its title, its kind, whether it is required
/// and its description, and for an enum question its choices; behind them come its
/// default and whether there is more.
pub proof fn law_basics_are_read(
    d: ConsoleView,
    id: Seq<char>,
    catalog: CatalogView,
    kind: CliQuestionType,
)
    requires
        !d.waiting,
        d.rest.len() >= 6,
        !text::is_blank(d.rest[0]),
        !text::is_blank(d.rest[1]),
        builder::kind_typed(text::trimmed(d.rest[1]), catalog) == Ok::<
            CliQuestionType,
            Seq<char>,
        >(kind),
        !(kind is Enum),
        text::is_blank(d.rest[2]) || text::lowercase(text::trimmed(d.rest[2])) == "y"@
            || text::lowercase(text::trimmed(d.rest[2])) == "n"@,
        text::is_blank(d.rest[4]) || typed::default_complaint(
            kind,
            text::trimmed(d.rest[4]),
            None,
            catalog,
        ) is None,
        text::is_blank(d.rest[5]) || text::lowercase(text::trimmed(d.rest[5])) == "y"@
            || text::lowercase(text::trimmed(d.rest[5])) == "n"@,
    ensures
        ({
            let (basics, after) = asked_basics(d, id, catalog);
            &&& basics.title == text::trimmed(d.rest[0])
            &&& basics.kind == kind
            &&& basics.required <==> text::is_blank(d.rest[2]) || text::lowercase(
                text::trimmed(d.rest[2]),
            ) == "y"@
            &&& basics.description == if text::is_blank(d.rest[3]) {
                None
            } else {
                Some(text::trimmed(d.rest[3]))
            }
            &&& basics.choices is None
            &&& basics.default_value == if text::is_blank(d.rest[4]) {
                None
            } else {
                Some(text::trimmed(d.rest[4]))
            }
            &&& basics.advanced <==> !text::is_blank(d.rest[5]) && text::lowercase(
                text::trimmed(d.rest[5]),
            ) == "y"@
            &&& !after.waiting
            &&& after.rest == d.rest.skip(6)
        }),
{
    let lines = d.rest;
    assert(lines.skip(0) =~= lines);
    lemma_skips(lines, 0);
    lemma_skips(lines, 1);
    lemma_skips(lines, 2);
    lemma_skips(lines, 3);
    lemma_skips(lines, 4);
    lemma_skips(lines, 5);
    reveal_strlit("y");
    reveal_strlit("n");
    assert("y"@[0] == 'y' && "n"@[0] == 'n');
    let title_prompt = hints::required_prompt(
        catalog::message(catalog, "cli.prompt.question_title"@),
        catalog,
    );
    console::law_text_is_read(d, title_prompt, Some(id), catalog);
    let d1 = console::asked_text(d, title_prompt, Some(id), catalog).1;
    console::law_kind_is_read(d1, catalog);
    let d2 = console::asked_kind(d1, catalog).1;
    let required_prompt = catalog::message(catalog, "cli.prompt.required"@);
    console::law_bool_is_read(d2, required_prompt, true, catalog);
    let d3 = console::asked_bool(d2, required_prompt, true, catalog).1;
    let description_prompt = catalog::message(catalog, "cli.prompt.question_description"@);
    console::law_optional_is_read(d3, description_prompt);
    let d4 = console::asked_optional(d3, description_prompt).1;
    law_default_is_read(d4, false, kind, None, catalog);
    let d6 = asked_default(d4, false, kind, None, catalog).1;
    console::law_bool_is_read(
        d6,
        catalog::message(catalog, "cli.prompt.advanced_features"@),
        false,
        catalog,
    );
}

/// A dialogue comes to a description of what was typed at its head, of the questions
/// and of the rules. It fails where there is nowhere to write to, or where no question
/// was described.
pub proof fn law_dialogue_describes(
    d: ConsoleView,
    no_root: Option<Seq<char>>,
    catalog: CatalogView,
)
    ensures
        ({
            let (outcome, after) = form_dialogue(d, no_root, catalog);
            let (head, d1) = asked_head(d, catalog);
            let (questions, d2) = asked_questions(d1, Seq::empty(), catalog);
            let (rules, d3) = asked_rules(d2, builder::input_ids(questions), Seq::empty(), catalog);
            &&& d1.waiting ==> outcome is None
            &&& !d1.waiting && no_root is Some ==> outcome == Some(
                Err::<GenerationInputView, Seq<char>>(no_root->0),
            )
            &&& !d1.waiting && no_root is None && !d2.waiting && questions.len() == 0 ==> outcome
                == Some(
                Err::<GenerationInputView, Seq<char>>(
                    catalog::message(catalog, "cli.new.at_least_one_question"@),
                ),
            )
            &&& !d1.waiting && no_root is None && !d2.waiting && questions.len() > 0 && !d3.waiting
                ==> outcome is Some && outcome->0 is Ok && after == d3
            &&& outcome matches Some(Ok(input)) ==> {
                &&& input.dir_name == head.dir_name
                &&& input.summary_md == head.summary
                &&& input.form.id == head.form_id
                &&& input.form.title == head.title
                &&& input.form.version == head.version
                &&& input.form.description == head.description
                &&& input.form.progress_policy is None
                &&& input.questions == questions
                &&& input.validations == rules
            }
        }),
{
}

/// A field of a list is no list itself.
pub proof fn law_fields_are_no_lists(d: ConsoleView, catalog: CatalogView)
    ensures
        !asked_field_kind(d, catalog).1.waiting ==> !(asked_field_kind(d, catalog).0 is List),
    decreases d.rest.len(),
{
    let (kind, d1) = console::asked_kind(d, catalog);
    console::lemma_kind(d, catalog);
    if kind is List && !d1.waiting {
        law_fields_are_no_lists(
            console::told(d1, catalog::message(catalog, "cli.prompt.nested_list_not_allowed"@)),
            catalog,
        );
    }
}

/// The lines about a field are its title, its kind, whether it is required, its
/// description, its default and whether it is secret, in this order.
pub proof fn law_field_is_read(
    d: ConsoleView,
    id: Seq<char>,
    catalog: CatalogView,
    kind: CliQuestionType,
)
    requires
        !d.waiting,
        d.rest.len() >= 6,
        !text::is_blank(d.rest[0]),
        !text::is_blank(d.rest[1]),
        builder::kind_typed(text::trimmed(d.rest[1]), catalog) == Ok::<
            CliQuestionType,
            Seq<char>,
        >(kind),
        !(kind is Enum) && !(kind is List),
        text::is_blank(d.rest[2]) || text::lowercase(text::trimmed(d.rest[2])) == "y"@
            || text::lowercase(text::trimmed(d.rest[2])) == "n"@,
        text::is_blank(d.rest[4]) || typed::default_complaint(
            kind,
            text::trimmed(d.rest[4]),
            None,
            catalog,
        ) is None,
        text::is_blank(d.rest[5]) || text::lowercase(text::trimmed(d.rest[5])) == "y"@
            || text::lowercase(text::trimmed(d.rest[5])) == "n"@,
    ensures
        ({
            let (field, after) = asked_field(d, id, catalog);
            &&& field.id == id
            &&& field.title == text::trimmed(d.rest[0])
            &&& field.kind == kind
            &&& field.required <==> text::is_blank(d.rest[2]) || text::lowercase(
                text::trimmed(d.rest[2]),
            ) == "y"@
            &&& field.description == if text::is_blank(d.rest[3]) {
                None
            } else {
                Some(text::trimmed(d.rest[3]))
            }
            &&& field.default_value == if text::is_blank(d.rest[4]) {
                None
            } else {
                Some(text::trimmed(d.rest[4]))
            }
            &&& field.secret <==> !text::is_blank(d.rest[5]) && text::lowercase(
                text::trimmed(d.rest[5]),
            ) == "y"@
            &&& field.choices is None && field.list is None && field.visible_if is None
            &&& field.constraint is None && field.computed is None && !field.computed_overridable
            &&& !after.waiting
            &&& after.rest == d.rest.skip(6)
        }),
{
    let lines = d.rest;
    assert(lines.skip(0) =~= lines);
    lemma_skips(lines, 0);
    lemma_skips(lines, 1);
    lemma_skips(lines, 2);
    lemma_skips(lines, 3);
    lemma_skips(lines, 4);
    lemma_skips(lines, 5);
    reveal_strlit("y");
    reveal_strlit("n");
    assert("y"@[0] == 'y' && "n"@[0] == 'n');
    let title_prompt = hints::required_prompt("Field title"@, catalog);
    console::law_text_is_read(d, title_prompt, Some(id), catalog);
    let d1 = console::asked_text(d, title_prompt, Some(id), catalog).1;
    console::law_kind_is_read(d1, catalog);
    let d2 = asked_field_kind(d1, catalog).1;
    let required_prompt = catalog::message(catalog, "cli.prompt.field_required"@);
    console::law_bool_is_read(d2, required_prompt, true, catalog);
    let d3 = console::asked_bool(d2, required_prompt, true, catalog).1;
    let description_prompt = catalog::message(catalog, "cli.prompt.field_description"@);
    console::law_optional_is_read(d3, description_prompt);
    let d4 = console::asked_optional(d3, description_prompt).1;
    law_default_is_read(d4, true, kind, None, catalog);
    let d6 = asked_default(d4, true, kind, None, catalog).1;
    console::law_bool_is_read(
        d6,
        catalog::message(catalog, "cli.prompt.field_secret"@),
        false,
        catalog,
    );
}

/// A field that was added is told with its id, its kind and how many there are, and
/// with what its answers look like.
pub proof fn law_added_field_is_told(
    d: ConsoleView,
    field: QuestionInputView,
    count: nat,
    catalog: CatalogView,
)
    requires
        !d.waiting,
    ensures
        ({
            let after = told_field_added(d, field, count, catalog);
            let hint = hints::hint_for(field.kind, field.choices, None, catalog);
            &&& after.rest == d.rest && !after.waiting
            &&& after.said.len() == d.said.len() + 2
            &&& after.said[d.said.len() as int] == console::SaidView::Tell(
                catalog::message_with(
                    catalog,
                    "cli.prompt.added_list_field"@,
                    seq![
                        ("id"@, field.id),
                        ("kind"@, builder::kind_label(field.kind)),
                        ("count"@, text::decimal(count)),
                    ],
                ),
            )
            &&& after.said.last() == console::SaidView::Tell(
                catalog::message_with(
                    catalog,
                    "cli.prompt.field_hint"@,
                    seq![("expected"@, hint.expected), ("example"@, hint.example)],
                ),
            )
        }),
{
}

/// A default or a question that is refused is told why, and what was expected.
pub proof fn law_refusals_are_told(
    question: QuestionInputView,
    complaint: Seq<char>,
    catalog: CatalogView,
)
    ensures
        ({
            let plain = hints::hint_for(question.kind, question.choices, None, catalog);
            let fields = match question.list {
                Some(list) => Some(list.fields),
                None => None,
            };
            let whole = hints::hint_for(question.kind, question.choices, fields, catalog);
            &&& default_refusal(true, question.kind, question.choices, complaint, catalog)
                == catalog::message_with(
                catalog,
                "cli.prompt.invalid_default_retry"@,
                seq![("error"@, complaint)],
            )
            &&& default_refusal(false, question.kind, question.choices, complaint, catalog)
                == catalog::message_with(
                catalog,
                "cli.new.invalid_default"@,
                seq![
                    ("error"@, complaint),
                    ("expected"@, plain.expected),
                    ("example"@, plain.example),
                ],
            )
            &&& question_refusal(question, complaint, catalog) == catalog::message_with(
                catalog,
                "cli.new.invalid_question"@,
                seq![
                    ("error"@, complaint),
                    ("expected"@, whole.expected),
                    ("example"@, whole.example),
                ],
            )
        }),
{
}

/// The questions that there are so far are told by their ids before they are asked
/// about.
pub proof fn law_questions_are_told(d: ConsoleView, ids: Seq<Seq<char>>, catalog: CatalogView)
    requires
        !d.waiting,
        ids.len() > 0,
    ensures
        console::told(d, questions_line(ids, catalog)).said == d.said.push(
            console::SaidView::Tell(
                catalog::message_with(
                    catalog,
                    "cli.prompt.existing_questions"@,
                    seq![("ids"@, text::joined(ids, ", "@))],
                ),
            ),
        ),
{
}

/// The kinds of expressions that can be typed are told, and those that hold others
/// only where there may be more below.
pub proof fn law_expression_prompts(depth: int, catalog: CatalogView)
    ensures
        depth < 4 ==> expr_prompt(depth, catalog) == catalog::message(
            catalog,
            "cli.prompt.expr_type_prefix"@,
        ) + "/and/or/not"@ + ")"@,
        depth >= 4 ==> expr_prompt(depth, catalog) == catalog::message(
            catalog,
            "cli.prompt.expr_type_prefix"@,
        ) + ")"@,
{
}

/// The limits of a list are asked for in this order: the least number of entries, and
/// then the greatest.
pub proof fn law_list_limits_are_asked(
    d: ConsoleView,
    catalog: CatalogView,
    least: usize,
    most: usize,
)
    requires
        !d.waiting,
        d.rest.len() >= 2,
        text::is_blank(d.rest[0]) || text::usize_value(text::trimmed(d.rest[0])) == Some(
            least as int,
        ),
        text::is_blank(d.rest[1]) || text::usize_value(text::trimmed(d.rest[1])) == Some(
            most as int,
        ),
    ensures
        asked_limits(d, catalog).1.said == d.said.push(
            console::SaidView::Ask(catalog::message(catalog, "cli.prompt.min_items"@) + ": "@),
        ).push(
            console::SaidView::Ask(catalog::message(catalog, "cli.prompt.max_items"@) + ": "@),
        ),
{
    let min_prompt = catalog::message(catalog, "cli.prompt.min_items"@);
    console::law_usize_is_read(d, min_prompt, catalog);
    console::law_numbers_are_asked(d, min_prompt, catalog);
    let d1 = console::asked_usize(d, min_prompt, catalog).1;
    assert(d1.rest[0] == d.rest[1]);
    console::law_numbers_are_asked(
        d1,
        catalog::message(catalog, "cli.prompt.max_items"@),
        catalog,
    );
}

/// The limits of a number are asked for in this order: the least, and then the
/// greatest.
pub proof fn law_number_limits_are_asked(
    d: ConsoleView,
    kind: CliQuestionType,
    catalog: CatalogView,
)
    requires
        kind is Integer || kind is Number,
        !d.waiting,
        d.rest.len() >= 2,
        text::is_blank(d.rest[0]) || typed::double_typed(text::trimmed(d.rest[0])) is Some,
        text::is_blank(d.rest[1]) || typed::double_typed(text::trimmed(d.rest[1])) is Some,
    ensures
        asked_constraint(d, kind, catalog).1.said == d.said.push(
            console::SaidView::Ask(
                catalog::message(catalog, "cli.prompt.min_numeric_value"@) + ": "@,
            ),
        ).push(
            console::SaidView::Ask(
                catalog::message(catalog, "cli.prompt.max_numeric_value"@) + ": "@,
            ),
        ),
{
    let min_prompt = catalog::message(catalog, "cli.prompt.min_numeric_value"@);
    console::law_double_is_read(d, min_prompt, catalog);
    console::law_numbers_are_asked(d, min_prompt, catalog);
    let d1 = console::asked_double(d, min_prompt, catalog).1;
    assert(d1.rest[0] == d.rest[1]);
    console::law_numbers_are_asked(
        d1,
        catalog::message(catalog, "cli.prompt.max_numeric_value"@),
        catalog,
    );
}

/// The limits of a text are asked for in this order: the least length, the greatest,
/// and then the pattern.
pub proof fn law_text_limits_are_asked(
    d: ConsoleView,
    kind: CliQuestionType,
    catalog: CatalogView,
)
    requires
        kind is String || kind is Enum,
        !d.waiting,
        d.rest.len() >= 3,
        text::is_blank(d.rest[0]) || text::usize_value(text::trimmed(d.rest[0])) is Some,
        text::is_blank(d.rest[1]) || text::usize_value(text::trimmed(d.rest[1])) is Some,
    ensures
        asked_constraint(d, kind, catalog).1.said == d.said.push(
            console::SaidView::Ask(catalog::message(catalog, "cli.prompt.min_length"@) + ": "@),
        ).push(
            console::SaidView::Ask(catalog::message(catalog, "cli.prompt.max_length"@) + ": "@),
        ).push(
            console::SaidView::Ask(catalog::message(catalog, "cli.prompt.regex_pattern"@) + ": "@),
        ),
{
    let min_prompt = catalog::message(catalog, "cli.prompt.min_length"@);
    console::law_usize_is_read(d, min_prompt, catalog);
    console::law_numbers_are_asked(d, min_prompt, catalog);
    let d1 = console::asked_usize(d, min_prompt, catalog).1;
    assert(d1.rest[0] == d.rest[1]);
    let max_prompt = catalog::message(catalog, "cli.prompt.max_length"@);
    console::law_usize_is_read(d1, max_prompt, catalog);
    console::law_numbers_are_asked(d1, max_prompt, catalog);
    let d2 = console::asked_usize(d1, max_prompt, catalog).1;
    assert(d2.rest[0] == d.rest[2]);
    console::law_numbers_are_asked(
        d2,
        catalog::message(catalog, "cli.prompt.regex_pattern"@),
        catalog,
    );
}

/// The fields that were described are told with how many there are, each with its
/// kind, and with an example of an entry.
pub proof fn law_defined_fields_are_told(
    d: ConsoleView,
    fields: Seq<QuestionInputView>,
    catalog: CatalogView,
)
    requires
        !d.waiting,
    ensures
        ({
            let after = told_fields_defined(d, fields, catalog);
            let members = text::joined(hints::example_members(fields, catalog), ", "@);
            &&& after.rest == d.rest && !after.waiting
            &&& after.said == d.said.push(
                console::SaidView::Tell(
                    catalog::message_with(
                        catalog,
                        "cli.prompt.defined_list_fields"@,
                        seq![
                            ("count"@, text::decimal(fields.len())),
                            ("fields"@, text::joined(hints::field_summaries(fields), ", "@)),
                        ],
                    ),
                ),
            ).push(
                console::SaidView::Tell(
                    catalog::message_with(
                        catalog,
                        "cli.prompt.example_list_entry"@,
                        seq![("entry"@, "[{ "@ + members + " }]"@)],
                    ),
                ),
            )
        }),
{
}

} // verus!
