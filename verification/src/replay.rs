//! Dialogues on more lines.
//!
//! Run on the lines so far and more, a dialogue starts by saying what it said on
//! the lines so far; where it did not wait, it comes to the same, and leaves the
//! other lines.
use crate::authoring;
use crate::builder::{self, CliQuestionType, QuestionInputView};
use crate::catalog::{self, CatalogView};
use crate::console::{self, ConsoleView};
use crate::form::RuleView;
use crate::hints;
use crate::text;
use crate::typed;
use vstd::prelude::*;

verus! {

/// A dialogue with more lines to come.
pub open spec fn grown(d: ConsoleView, more: Seq<Seq<char>>) -> ConsoleView {
    ConsoleView { rest: d.rest + more, ..d }
}

/// Whether a dialogue on more lines is as far as another, or at least said all
/// that the other said before it waited.
pub open spec fn ahead(d: ConsoleView, e: ConsoleView, more: Seq<Seq<char>>) -> bool {
    if d.waiting {
        console::starts_as(e.said, d.said)
    } else {
        e == grown(d, more)
    }
}

/// Whether a dialogue on more lines came to the same as another that did not
/// wait, and said all that the other said.
pub open spec fn steady<V>(
    run: (V, ConsoleView),
    longer: (V, ConsoleView),
    more: Seq<Seq<char>>,
) -> bool {
    &&& ahead(run.1, longer.1, more)
    &&& !run.1.waiting ==> longer.0 == run.0
}

proof fn replay_told(
    d: ConsoleView,
    e: ConsoleView,
    line: Seq<char>,
    other: Seq<char>,
    more: Seq<Seq<char>>,
)
    requires
        ahead(d, e, more),
        !d.waiting ==> line == other,
    ensures
        ahead(console::told(d, line), console::told(e, other), more),
{
    broadcast use console::group_lines;

}

proof fn replay_line(
    d: ConsoleView,
    e: ConsoleView,
    prompt: Seq<char>,
    default: Option<Seq<char>>,
    other: Option<Seq<char>>,
    more: Seq<Seq<char>>,
)
    requires
        ahead(d, e, more),
        !d.waiting ==> default == other,
    ensures
        steady(
            console::asked_line(d, prompt, default),
            console::asked_line(e, prompt, other),
            more,
        ),
{
    broadcast use console::group_lines;

    if !d.waiting && d.rest.len() > 0 {
        assert((d.rest + more).skip(1) =~= d.rest.skip(1) + more);
        assert((d.rest + more)[0] == d.rest[0]);
    }
}

proof fn replay_optional(d: ConsoleView, e: ConsoleView, prompt: Seq<char>, more: Seq<Seq<char>>)
    requires
        ahead(d, e, more),
    ensures
        steady(console::asked_optional(d, prompt), console::asked_optional(e, prompt), more),
{
    replay_line(d, e, prompt, None, None, more);
}

proof fn replay_text(
    d: ConsoleView,
    e: ConsoleView,
    prompt: Seq<char>,
    default: Option<Seq<char>>,
    other: Option<Seq<char>>,
    catalog: CatalogView,
    more: Seq<Seq<char>>,
)
    requires
        ahead(d, e, more),
        !d.waiting ==> default == other,
    ensures
        steady(
            console::asked_text(d, prompt, default, catalog),
            console::asked_text(e, prompt, other, catalog),
            more,
        ),
    decreases d.rest.len(),
{
    broadcast use console::group_lines;

    console::lemma_text(d, prompt, default, catalog);
    console::lemma_text(e, prompt, other, catalog);
    if !d.waiting {
        replay_line(d, e, prompt, default, other, more);
        let (value, d1) = console::asked_line(d, prompt, default);
        let (_, e1) = console::asked_line(e, prompt, other);
        let complaint = catalog::message(catalog, "cli.prompt.value_empty"@);
        console::lemma_text(console::told(e1, complaint), prompt, other, catalog);
        if !d1.waiting && text::is_blank(value) {
            replay_told(d1, e1, complaint, complaint, more);
            replay_text(
                console::told(d1, complaint),
                console::told(e1, complaint),
                prompt,
                default,
                other,
                catalog,
                more,
            );
        }
    }
}

proof fn replay_bool(
    d: ConsoleView,
    e: ConsoleView,
    prompt: Seq<char>,
    default: bool,
    catalog: CatalogView,
    more: Seq<Seq<char>>,
)
    requires
        ahead(d, e, more),
    ensures
        steady(
            console::asked_bool(d, prompt, default, catalog),
            console::asked_bool(e, prompt, default, catalog),
            more,
        ),
    decreases d.rest.len(),
{
    broadcast use console::group_lines;

    console::lemma_bool(d, prompt, default, catalog);
    console::lemma_bool(e, prompt, default, catalog);
    if !d.waiting {
        let shown = console::yes_no_prompt(prompt, catalog);
        let preset = Some(console::yes_no_default(default));
        replay_line(d, e, shown, preset, preset, more);
        let (line, d1) = console::asked_line(d, shown, preset);
        let (other, e1) = console::asked_line(e, shown, preset);
        let word = text::lowercase(text::trimmed(line));
        let other_word = text::lowercase(text::trimmed(other));
        let complaint = catalog::message_with(
            catalog,
            "cli.prompt.invalid_yes_no"@,
            seq![("answer"@, word)],
        );
        let other_complaint = catalog::message_with(
            catalog,
            "cli.prompt.invalid_yes_no"@,
            seq![("answer"@, other_word)],
        );
        console::lemma_bool(console::told(e1, other_complaint), prompt, default, catalog);
        if !d1.waiting {
            replay_told(d1, e1, complaint, other_complaint, more);
            replay_bool(
                console::told(d1, complaint),
                console::told(e1, other_complaint),
                prompt,
                default,
                catalog,
                more,
            );
        }
    }
}

proof fn replay_kind(d: ConsoleView, e: ConsoleView, catalog: CatalogView, more: Seq<Seq<char>>)
    requires
        ahead(d, e, more),
    ensures
        steady(console::asked_kind(d, catalog), console::asked_kind(e, catalog), more),
    decreases d.rest.len(),
{
    broadcast use console::group_lines;

    console::lemma_kind(d, catalog);
    console::lemma_kind(e, catalog);
    if !d.waiting {
        let prompt = catalog::message(catalog, "cli.prompt.question_type"@);
        let preset = Some("string"@);
        replay_line(d, e, prompt, preset, preset, more);
        let (value, d1) = console::asked_line(d, prompt, preset);
        let (other, e1) = console::asked_line(e, prompt, preset);
        if builder::kind_typed(other, catalog) is Err {
            let complaint = builder::kind_typed(other, catalog)->Err_0;
            console::lemma_kind(console::told(e1, complaint), catalog);
            if !d1.waiting {
                replay_told(d1, e1, complaint, complaint, more);
                replay_kind(
                    console::told(d1, complaint),
                    console::told(e1, complaint),
                    catalog,
                    more,
                );
            }
        }
    }
}

proof fn replay_choices(d: ConsoleView, e: ConsoleView, catalog: CatalogView, more: Seq<Seq<char>>)
    requires
        ahead(d, e, more),
    ensures
        steady(console::asked_choices(d, catalog), console::asked_choices(e, catalog), more),
    decreases d.rest.len(),
{
    broadcast use console::group_lines;

    console::lemma_choices(d, catalog);
    console::lemma_choices(e, catalog);
    if !d.waiting {
        let prompt = catalog::message(catalog, "cli.prompt.enum_choices"@);
        replay_line(d, e, prompt, None, None, more);
        let (_, d1) = console::asked_line(d, prompt, None);
        let (_, e1) = console::asked_line(e, prompt, None);
        let complaint = catalog::message(catalog, "cli.prompt.enum_choices_required"@);
        console::lemma_choices(console::told(e1, complaint), catalog);
        if !d1.waiting {
            replay_told(d1, e1, complaint, complaint, more);
            replay_choices(
                console::told(d1, complaint),
                console::told(e1, complaint),
                catalog,
                more,
            );
        }
    }
}

proof fn replay_usize(
    d: ConsoleView,
    e: ConsoleView,
    prompt: Seq<char>,
    catalog: CatalogView,
    more: Seq<Seq<char>>,
)
    requires
        ahead(d, e, more),
    ensures
        steady(
            console::asked_usize(d, prompt, catalog),
            console::asked_usize(e, prompt, catalog),
            more,
        ),
    decreases d.rest.len(),
{
    broadcast use console::group_lines;

    console::lemma_usize(d, prompt, catalog);
    console::lemma_usize(e, prompt, catalog);
    if !d.waiting {
        replay_line(d, e, prompt, None, None, more);
        let (_, d1) = console::asked_line(d, prompt, None);
        let (_, e1) = console::asked_line(e, prompt, None);
        let complaint = catalog::message(catalog, "cli.prompt.enter_whole_number_or_blank"@);
        console::lemma_usize(console::told(e1, complaint), prompt, catalog);
        if !d1.waiting {
            replay_told(d1, e1, complaint, complaint, more);
            replay_usize(
                console::told(d1, complaint),
                console::told(e1, complaint),
                prompt,
                catalog,
                more,
            );
        }
    }
}

proof fn replay_double(
    d: ConsoleView,
    e: ConsoleView,
    prompt: Seq<char>,
    catalog: CatalogView,
    more: Seq<Seq<char>>,
)
    requires
        ahead(d, e, more),
    ensures
        steady(
            console::asked_double(d, prompt, catalog),
            console::asked_double(e, prompt, catalog),
            more,
        ),
    decreases d.rest.len(),
{
    broadcast use console::group_lines;

    console::lemma_double(d, prompt, catalog);
    console::lemma_double(e, prompt, catalog);
    if !d.waiting {
        replay_line(d, e, prompt, None, None, more);
        let (_, d1) = console::asked_line(d, prompt, None);
        let (_, e1) = console::asked_line(e, prompt, None);
        let complaint = catalog::message(catalog, "cli.prompt.enter_number_or_blank"@);
        console::lemma_double(console::told(e1, complaint), prompt, catalog);
        if !d1.waiting {
            replay_told(d1, e1, complaint, complaint, more);
            replay_double(
                console::told(d1, complaint),
                console::told(e1, complaint),
                prompt,
                catalog,
                more,
            );
        }
    }
}

proof fn replay_is_set(
    d: ConsoleView,
    e: ConsoleView,
    ids: Seq<Seq<char>>,
    catalog: CatalogView,
    more: Seq<Seq<char>>,
)
    requires
        ahead(d, e, more),
    ensures
        steady(
            authoring::asked_is_set(d, ids, catalog),
            authoring::asked_is_set(e, ids, catalog),
            more,
        ),
{
    let line = authoring::questions_line(ids, catalog);
    replay_told(d, e, line, line, more);
    replay_text(
        console::told(d, line),
        console::told(e, line),
        catalog::message(catalog, "cli.prompt.question_id_presence"@),
        None,
        None,
        catalog,
        more,
    );
}

proof fn replay_operand(d: ConsoleView, e: ConsoleView, catalog: CatalogView, more: Seq<Seq<char>>)
    requires
        ahead(d, e, more),
    ensures
        steady(
            authoring::asked_operand(d, catalog),
            authoring::asked_operand(e, catalog),
            more,
        ),
{
    broadcast use console::group_lines;

    let prompt = catalog::message(catalog, "cli.prompt.right_operand_type"@);
    let preset = Some(catalog::message(catalog, "cli.prompt.right_operand_default"@));
    let id_prompt = catalog::message(catalog, "cli.prompt.right_operand_question_id"@);
    let value_prompt = catalog::message(catalog, "cli.prompt.value_compare_against"@);
    replay_line(d, e, prompt, preset, preset, more);
    let (_, d1) = console::asked_line(d, prompt, preset);
    let (_, e1) = console::asked_line(e, prompt, preset);
    replay_text(d1, e1, id_prompt, None, None, catalog, more);
    replay_text(d1, e1, value_prompt, None, None, catalog, more);
    console::lemma_text(d1, id_prompt, None, catalog);
    console::lemma_text(d1, value_prompt, None, catalog);
}

proof fn replay_comparison(
    d: ConsoleView,
    e: ConsoleView,
    ids: Seq<Seq<char>>,
    catalog: CatalogView,
    more: Seq<Seq<char>>,
)
    requires
        ahead(d, e, more),
    ensures
        steady(
            authoring::asked_comparison(d, ids, catalog),
            authoring::asked_comparison(e, ids, catalog),
            more,
        ),
{
    broadcast use console::group_lines;

    let line = authoring::questions_line(ids, catalog);
    let prompt = catalog::message(catalog, "cli.prompt.operator"@);
    let id_prompt = catalog::message(catalog, "cli.prompt.question_id_compare"@);
    replay_told(d, e, line, line, more);
    let (d0, e0) = (console::told(d, line), console::told(e, line));
    replay_line(d0, e0, prompt, Some("eq"@), Some("eq"@), more);
    let (_, d1) = console::asked_line(d0, prompt, Some("eq"@));
    let (_, e1) = console::asked_line(e0, prompt, Some("eq"@));
    replay_text(d1, e1, id_prompt, None, None, catalog, more);
    console::lemma_text(d1, id_prompt, None, catalog);
    let (_, d2) = console::asked_text(d1, id_prompt, None, catalog);
    let (_, e2) = console::asked_text(e1, id_prompt, None, catalog);
    replay_operand(d2, e2, catalog, more);
    authoring::lemma_operand(d2, catalog);
}

proof fn replay_expr(
    d: ConsoleView,
    e: ConsoleView,
    ids: Seq<Seq<char>>,
    depth: int,
    catalog: CatalogView,
    more: Seq<Seq<char>>,
)
    requires
        ahead(d, e, more),
    ensures
        steady(
            authoring::asked_expr(d, ids, depth, catalog),
            authoring::asked_expr(e, ids, depth, catalog),
            more,
        ),
    decreases authoring::MAX_DEPTH - depth,
{
    broadcast use console::group_lines;

    let prompt = authoring::expr_prompt(depth, catalog);
    let preset = Some(catalog::message(catalog, "cli.prompt.expr_type_default"@));
    let line = catalog::message(catalog, "cli.prompt.building_comparison"@);
    replay_line(d, e, prompt, preset, preset, more);
    let (_, d1) = console::asked_line(d, prompt, preset);
    let (_, e1) = console::asked_line(e, prompt, preset);
    authoring::lemma_expr(d, ids, depth, catalog);
    replay_told(d1, e1, line, line, more);
    if d1.waiting {
        authoring::lemma_is_set(d1, ids, catalog);
        authoring::lemma_is_set(e1, ids, catalog);
        authoring::lemma_comparison(d1, ids, catalog);
        authoring::lemma_comparison(console::told(e1, line), ids, catalog);
        authoring::lemma_expr(d1, ids, depth + 1, catalog);
        authoring::lemma_expr(e1, ids, depth + 1, catalog);
        authoring::lemma_expr(
            authoring::asked_expr(e1, ids, depth + 1, catalog).1,
            ids,
            depth + 1,
            catalog,
        );
    } else {
        replay_is_set(d1, e1, ids, catalog, more);
        replay_comparison(
            console::told(d1, line),
            console::told(e1, line),
            ids,
            catalog,
            more,
        );
        if depth < authoring::MAX_DEPTH {
            replay_expr(d1, e1, ids, depth + 1, catalog, more);
            let (left, d2) = authoring::asked_expr(d1, ids, depth + 1, catalog);
            let (_, e2) = authoring::asked_expr(e1, ids, depth + 1, catalog);
            replay_expr(d2, e2, ids, depth + 1, catalog, more);
            authoring::lemma_expr(d2, ids, depth + 1, catalog);
        }
    }
}

proof fn replay_visibility(
    d: ConsoleView,
    e: ConsoleView,
    ids: Seq<Seq<char>>,
    catalog: CatalogView,
    more: Seq<Seq<char>>,
)
    requires
        ahead(d, e, more),
    ensures
        steady(
            authoring::asked_visibility(d, ids, catalog),
            authoring::asked_visibility(e, ids, catalog),
            more,
        ),
{
    broadcast use console::group_lines;

    let prompt = catalog::message(catalog, "cli.prompt.add_visibility_condition"@);
    let line = authoring::questions_line(ids, catalog);
    replay_bool(d, e, prompt, false, catalog, more);
    let (_, d1) = console::asked_bool(d, prompt, false, catalog);
    let (_, e1) = console::asked_bool(e, prompt, false, catalog);
    replay_told(d1, e1, line, line, more);
    replay_expr(console::told(d1, line), console::told(e1, line), ids, 0, catalog, more);
    authoring::lemma_expr(console::told(d1, line), ids, 0, catalog);
}

proof fn replay_fields(
    d: ConsoleView,
    e: ConsoleView,
    ids: Seq<Seq<char>>,
    catalog: CatalogView,
    more: Seq<Seq<char>>,
)
    requires
        ahead(d, e, more),
    ensures
        steady(
            authoring::asked_fields(d, ids, catalog),
            authoring::asked_fields(e, ids, catalog),
            more,
        ),
    decreases d.rest.len(),
{
    broadcast use console::group_lines;

    authoring::lemma_fields(d, ids, catalog);
    authoring::lemma_fields(e, ids, catalog);
    if !d.waiting {
        let available = catalog::message_with(
            catalog,
            "cli.prompt.available_questions"@,
            seq![("ids"@, hints::ids_text(ids, catalog))],
        );
        let prompt = catalog::message(catalog, "cli.prompt.fields_to_validate"@);
        replay_told(d, e, available, available, more);
        let (d0, e0) = (console::told(d, available), console::told(e, available));
        replay_line(d0, e0, prompt, None, None, more);
        let (_, d1) = console::asked_line(d0, prompt, None);
        let (raw, e1) = console::asked_line(e0, prompt, None);
        let unknown = authoring::unknown_ids(
            authoring::without_repeats(console::comma_list(raw)),
            ids,
        );
        let none = catalog::message(catalog, "cli.prompt.at_least_one_field"@);
        let complaint = catalog::message_with(
            catalog,
            "cli.prompt.unknown_fields"@,
            seq![("fields"@, text::joined(unknown, ", "@))],
        );
        authoring::lemma_fields(console::told(e1, none), ids, catalog);
        authoring::lemma_fields(console::told(e1, complaint), ids, catalog);
        if !d1.waiting {
            replay_told(d1, e1, none, none, more);
            replay_fields(console::told(d1, none), console::told(e1, none), ids, catalog, more);
            replay_told(d1, e1, complaint, complaint, more);
            replay_fields(
                console::told(d1, complaint),
                console::told(e1, complaint),
                ids,
                catalog,
                more,
            );
        }
    }
}

proof fn replay_rule(
    d: ConsoleView,
    e: ConsoleView,
    ids: Seq<Seq<char>>,
    catalog: CatalogView,
    more: Seq<Seq<char>>,
)
    requires
        ahead(d, e, more),
    ensures
        steady(
            authoring::asked_rule(d, ids, catalog),
            authoring::asked_rule(e, ids, catalog),
            more,
        ),
{
    broadcast use console::group_lines;

    let id_prompt = catalog::message(catalog, "cli.prompt.validation_id"@);
    let prompt = catalog::message(catalog, "cli.prompt.validation_message"@);
    replay_optional(d, e, id_prompt, more);
    let (_, d1) = console::asked_optional(d, id_prompt);
    let (_, e1) = console::asked_optional(e, id_prompt);
    replay_text(d1, e1, prompt, None, None, catalog, more);
    console::lemma_text(d1, prompt, None, catalog);
    let (_, d2) = console::asked_text(d1, prompt, None, catalog);
    let (_, e2) = console::asked_text(e1, prompt, None, catalog);
    replay_fields(d2, e2, ids, catalog, more);
    authoring::lemma_fields(d2, ids, catalog);
    let (_, d3) = authoring::asked_fields(d2, ids, catalog);
    let (_, e3) = authoring::asked_fields(e2, ids, catalog);
    replay_expr(d3, e3, ids, 0, catalog, more);
    authoring::lemma_expr(d3, ids, 0, catalog);
}

proof fn lemma_rules(
    d: ConsoleView,
    ids: Seq<Seq<char>>,
    done: Seq<RuleView>,
    catalog: CatalogView,
)
    ensures
        console::went_on(d, authoring::asked_rules(d, ids, done, catalog).1),
    decreases d.rest.len(),
{
    broadcast use console::group_lines;

    let prompt = catalog::message(catalog, "cli.prompt.add_cross_field_validation"@);
    console::lemma_bool(d, prompt, false, catalog);
    let (more, d1) = console::asked_bool(d, prompt, false, catalog);
    authoring::lemma_rule(d1, ids, catalog);
    let (rule, d2) = authoring::asked_rule(d1, ids, catalog);
    if more && !d2.waiting {
        lemma_rules(d2, ids, done.push(rule), catalog);
    }
}

proof fn replay_rules(
    d: ConsoleView,
    e: ConsoleView,
    ids: Seq<Seq<char>>,
    done: Seq<RuleView>,
    catalog: CatalogView,
    more: Seq<Seq<char>>,
)
    requires
        ahead(d, e, more),
    ensures
        steady(
            authoring::asked_rules(d, ids, done, catalog),
            authoring::asked_rules(e, ids, done, catalog),
            more,
        ),
    decreases d.rest.len(),
{
    broadcast use console::group_lines;

    lemma_rules(d, ids, done, catalog);
    lemma_rules(e, ids, done, catalog);
    if !d.waiting {
        let prompt = catalog::message(catalog, "cli.prompt.add_cross_field_validation"@);
        replay_bool(d, e, prompt, false, catalog, more);
        console::lemma_bool(d, prompt, false, catalog);
        let (wanted, d1) = console::asked_bool(d, prompt, false, catalog);
        let (_, e1) = console::asked_bool(e, prompt, false, catalog);
        replay_rule(d1, e1, ids, catalog, more);
        authoring::lemma_rule(d1, ids, catalog);
        authoring::lemma_rule(e1, ids, catalog);
        let (rule, d2) = authoring::asked_rule(d1, ids, catalog);
        let (other, e2) = authoring::asked_rule(e1, ids, catalog);
        lemma_rules(e2, ids, done.push(other), catalog);
        if wanted && !d2.waiting {
            replay_rules(d2, e2, ids, done.push(rule), catalog, more);
        }
    }
}

proof fn replay_source(d: ConsoleView, e: ConsoleView, catalog: CatalogView, more: Seq<Seq<char>>)
    requires
        ahead(d, e, more),
    ensures
        steady(authoring::asked_source(d, catalog), authoring::asked_source(e, catalog), more),
    decreases d.rest.len(),
{
    broadcast use console::group_lines;

    authoring::lemma_source(d, catalog);
    authoring::lemma_source(e, catalog);
    if !d.waiting {
        let prompt = catalog::message(catalog, "cli.prompt.computed_source"@);
        let preset = Some(catalog::message(catalog, "cli.prompt.computed_source_default"@));
        let override_prompt = catalog::message(catalog, "cli.prompt.allow_override_computed"@);
        let path_prompt = catalog::message(catalog, "cli.prompt.source_question_id"@);
        let value_prompt = catalog::message(catalog, "cli.prompt.literal_value"@);
        replay_line(d, e, prompt, preset, preset, more);
        let (_, d1) = console::asked_line(d, prompt, preset);
        let (source, e1) = console::asked_line(e, prompt, preset);
        let complaint = catalog::message_with(
            catalog,
            "cli.prompt.unknown_source"@,
            seq![("source"@, text::lowercase(text::trimmed(source)))],
        );
        let (_, e2) = console::asked_text(e1, path_prompt, None, catalog);
        let (_, e3) = console::asked_text(e1, value_prompt, None, catalog);
        authoring::lemma_source(console::told(e1, complaint), catalog);
        console::lemma_text(e1, path_prompt, None, catalog);
        console::lemma_text(e1, value_prompt, None, catalog);
        console::lemma_bool(e2, override_prompt, false, catalog);
        console::lemma_bool(e3, override_prompt, false, catalog);
        if !d1.waiting {
            let (_, d2) = console::asked_text(d1, path_prompt, None, catalog);
            let (_, d3) = console::asked_text(d1, value_prompt, None, catalog);
            replay_text(d1, e1, path_prompt, None, None, catalog, more);
            replay_bool(d2, e2, override_prompt, false, catalog, more);
            console::lemma_bool(d2, override_prompt, false, catalog);
            replay_text(d1, e1, value_prompt, None, None, catalog, more);
            replay_bool(d3, e3, override_prompt, false, catalog, more);
            console::lemma_bool(d3, override_prompt, false, catalog);
            replay_told(d1, e1, complaint, complaint, more);
            replay_source(
                console::told(d1, complaint),
                console::told(e1, complaint),
                catalog,
                more,
            );
        }
    }
}

proof fn replay_computed(
    d: ConsoleView,
    e: ConsoleView,
    kind: CliQuestionType,
    other: CliQuestionType,
    ids: Seq<Seq<char>>,
    catalog: CatalogView,
    more: Seq<Seq<char>>,
)
    requires
        ahead(d, e, more),
        !d.waiting ==> kind == other,
    ensures
        steady(
            authoring::asked_computed(d, kind, ids, catalog),
            authoring::asked_computed(e, other, ids, catalog),
            more,
        ),
{
    broadcast use console::group_lines;

    authoring::lemma_computed(d, kind, ids, catalog);
    authoring::lemma_computed(e, other, ids, catalog);
    if !d.waiting {
        let prompt = catalog::message(catalog, "cli.prompt.compute_question_value"@);
        let line = authoring::questions_line(ids, catalog);
        replay_bool(d, e, prompt, false, catalog, more);
        let (_, d1) = console::asked_bool(d, prompt, false, catalog);
        let (_, e1) = console::asked_bool(e, prompt, false, catalog);
        replay_told(d1, e1, line, line, more);
        replay_source(console::told(d1, line), console::told(e1, line), catalog, more);
        authoring::lemma_source(console::told(d1, line), catalog);
        authoring::lemma_source(console::told(e1, line), catalog);
    }
}

proof fn replay_constraint(
    d: ConsoleView,
    e: ConsoleView,
    kind: CliQuestionType,
    other: CliQuestionType,
    catalog: CatalogView,
    more: Seq<Seq<char>>,
)
    requires
        ahead(d, e, more),
        !d.waiting ==> kind == other,
    ensures
        steady(
            authoring::asked_constraint(d, kind, catalog),
            authoring::asked_constraint(e, other, catalog),
            more,
        ),
{
    broadcast use console::group_lines;

    authoring::lemma_constraint(d, kind, catalog);
    authoring::lemma_constraint(e, other, catalog);
    if !d.waiting {
        let min = catalog::message(catalog, "cli.prompt.min_numeric_value"@);
        let max = catalog::message(catalog, "cli.prompt.max_numeric_value"@);
        replay_double(d, e, min, catalog, more);
        let (_, d1) = console::asked_double(d, min, catalog);
        let (_, e1) = console::asked_double(e, min, catalog);
        replay_double(d1, e1, max, catalog, more);
        console::lemma_double(d1, max, catalog);
        let shortest = catalog::message(catalog, "cli.prompt.min_length"@);
        let longest = catalog::message(catalog, "cli.prompt.max_length"@);
        let pattern = catalog::message(catalog, "cli.prompt.regex_pattern"@);
        replay_usize(d, e, shortest, catalog, more);
        let (_, d2) = console::asked_usize(d, shortest, catalog);
        let (_, e2) = console::asked_usize(e, shortest, catalog);
        replay_usize(d2, e2, longest, catalog, more);
        console::lemma_usize(d2, longest, catalog);
        let (_, d3) = console::asked_usize(d2, longest, catalog);
        let (_, e3) = console::asked_usize(e2, longest, catalog);
        replay_optional(d3, e3, pattern, more);
    }
}

proof fn replay_default(
    d: ConsoleView,
    e: ConsoleView,
    in_list: bool,
    kind: CliQuestionType,
    other: CliQuestionType,
    choices: Option<Seq<Seq<char>>>,
    other_choices: Option<Seq<Seq<char>>>,
    catalog: CatalogView,
    more: Seq<Seq<char>>,
)
    requires
        ahead(d, e, more),
        !d.waiting ==> kind == other && choices == other_choices,
    ensures
        steady(
            authoring::asked_default(d, in_list, kind, choices, catalog),
            authoring::asked_default(e, in_list, other, other_choices, catalog),
            more,
        ),
    decreases d.rest.len(),
{
    broadcast use console::group_lines;

    authoring::lemma_default(d, in_list, kind, choices, catalog);
    authoring::lemma_default(e, in_list, other, other_choices, catalog);
    if !d.waiting {
        let prompt = hints::default_prompt(kind, choices, catalog);
        replay_optional(d, e, prompt, more);
        let (_, d1) = console::asked_optional(d, prompt);
        let (candidate, e1) = console::asked_optional(e, prompt);
        let found = authoring::given_default_complaint(kind, candidate, choices, catalog);
        if found is Some {
            let refusal = authoring::default_refusal(in_list, kind, choices, found->0, catalog);
            authoring::lemma_default(console::told(e1, refusal), in_list, kind, choices, catalog);
            if !d1.waiting {
                replay_told(d1, e1, refusal, refusal, more);
                replay_default(
                    console::told(d1, refusal),
                    console::told(e1, refusal),
                    in_list,
                    kind,
                    kind,
                    choices,
                    choices,
                    catalog,
                    more,
                );
            }
        }
    }
}

proof fn replay_field_kind(
    d: ConsoleView,
    e: ConsoleView,
    catalog: CatalogView,
    more: Seq<Seq<char>>,
)
    requires
        ahead(d, e, more),
    ensures
        steady(
            authoring::asked_field_kind(d, catalog),
            authoring::asked_field_kind(e, catalog),
            more,
        ),
    decreases d.rest.len(),
{
    broadcast use console::group_lines;

    authoring::lemma_field_kind(d, catalog);
    authoring::lemma_field_kind(e, catalog);
    if !d.waiting {
        let complaint = catalog::message(catalog, "cli.prompt.nested_list_not_allowed"@);
        replay_kind(d, e, catalog, more);
        console::lemma_kind(d, catalog);
        let (_, d1) = console::asked_kind(d, catalog);
        let (_, e1) = console::asked_kind(e, catalog);
        authoring::lemma_field_kind(console::told(e1, complaint), catalog);
        if !d1.waiting {
            replay_told(d1, e1, complaint, complaint, more);
            replay_field_kind(
                console::told(d1, complaint),
                console::told(e1, complaint),
                catalog,
                more,
            );
        }
    }
}

proof fn replay_kind_choices(
    d: ConsoleView,
    e: ConsoleView,
    kind: CliQuestionType,
    other: CliQuestionType,
    catalog: CatalogView,
    more: Seq<Seq<char>>,
)
    requires
        ahead(d, e, more),
        !d.waiting ==> kind == other,
    ensures
        steady(
            authoring::asked_kind_choices(d, kind, catalog),
            authoring::asked_kind_choices(e, other, catalog),
            more,
        ),
{
    broadcast use console::group_lines;

    authoring::lemma_kind_choices(d, kind, catalog);
    authoring::lemma_kind_choices(e, other, catalog);
    replay_choices(d, e, catalog, more);
}

/// What the two parts of a dialogue about a question share: all but its title
/// and its last question.
proof fn replay_middle(
    d: ConsoleView,
    e: ConsoleView,
    in_list: bool,
    kind: CliQuestionType,
    other: CliQuestionType,
    required_prompt: Seq<char>,
    description_prompt: Seq<char>,
    catalog: CatalogView,
    more: Seq<Seq<char>>,
)
    requires
        ahead(d, e, more),
        !d.waiting ==> kind == other,
    ensures
        ({
            let (required, d1) = console::asked_bool(d, required_prompt, true, catalog);
            let (required2, e1) = console::asked_bool(e, required_prompt, true, catalog);
            let (description, d2) = console::asked_optional(d1, description_prompt);
            let (description2, e2) = console::asked_optional(e1, description_prompt);
            let (choices, d3) = authoring::asked_kind_choices(d2, kind, catalog);
            let (choices2, e3) = authoring::asked_kind_choices(e2, other, catalog);
            let (default, d4) = authoring::asked_default(d3, in_list, kind, choices, catalog);
            let (default2, e4) = authoring::asked_default(e3, in_list, other, choices2, catalog);
            &&& console::went_on(d, d4)
            &&& console::went_on(e, e4)
            &&& ahead(d4, e4, more)
            &&& !d4.waiting ==> required == required2 && description == description2 && choices
                == choices2 && default == default2
        }),
{
    broadcast use console::group_lines;

    replay_bool(d, e, required_prompt, true, catalog, more);
    console::lemma_bool(d, required_prompt, true, catalog);
    console::lemma_bool(e, required_prompt, true, catalog);
    let (required, d1) = console::asked_bool(d, required_prompt, true, catalog);
    let (required2, e1) = console::asked_bool(e, required_prompt, true, catalog);
    replay_optional(d1, e1, description_prompt, more);
    let (description, d2) = console::asked_optional(d1, description_prompt);
    let (description2, e2) = console::asked_optional(e1, description_prompt);
    replay_kind_choices(d2, e2, kind, other, catalog, more);
    authoring::lemma_kind_choices(d2, kind, catalog);
    authoring::lemma_kind_choices(e2, other, catalog);
    let (choices, d3) = authoring::asked_kind_choices(d2, kind, catalog);
    let (choices2, e3) = authoring::asked_kind_choices(e2, other, catalog);
    replay_default(d3, e3, in_list, kind, other, choices, choices2, catalog, more);
    authoring::lemma_default(d3, in_list, kind, choices, catalog);
    authoring::lemma_default(e3, in_list, other, choices2, catalog);
}

proof fn replay_field(
    d: ConsoleView,
    e: ConsoleView,
    id: Seq<char>,
    catalog: CatalogView,
    more: Seq<Seq<char>>,
)
    requires
        ahead(d, e, more),
    ensures
        steady(
            authoring::asked_field(d, id, catalog),
            authoring::asked_field(e, id, catalog),
            more,
        ),
{
    broadcast use console::group_lines;

    let title_prompt = hints::required_prompt("Field title"@, catalog);
    let required_prompt = catalog::message(catalog, "cli.prompt.field_required"@);
    let description_prompt = catalog::message(catalog, "cli.prompt.field_description"@);
    let secret_prompt = catalog::message(catalog, "cli.prompt.field_secret"@);
    replay_text(d, e, title_prompt, Some(id), Some(id), catalog, more);
    let (_, d1) = console::asked_text(d, title_prompt, Some(id), catalog);
    let (_, e1) = console::asked_text(e, title_prompt, Some(id), catalog);
    replay_field_kind(d1, e1, catalog, more);
    authoring::lemma_field_kind(d1, catalog);
    let (kind, d2) = authoring::asked_field_kind(d1, catalog);
    let (other, e2) = authoring::asked_field_kind(e1, catalog);
    replay_middle(d2, e2, true, kind, other, required_prompt, description_prompt, catalog, more);
    let (_, d3) = console::asked_bool(d2, required_prompt, true, catalog);
    let (_, e3) = console::asked_bool(e2, required_prompt, true, catalog);
    let (_, d4) = console::asked_optional(d3, description_prompt);
    let (_, e4) = console::asked_optional(e3, description_prompt);
    let (choices, d5) = authoring::asked_kind_choices(d4, kind, catalog);
    let (choices2, e5) = authoring::asked_kind_choices(e4, other, catalog);
    let (_, d6) = authoring::asked_default(d5, true, kind, choices, catalog);
    let (_, e6) = authoring::asked_default(e5, true, other, choices2, catalog);
    replay_bool(d6, e6, secret_prompt, false, catalog, more);
    console::lemma_bool(d6, secret_prompt, false, catalog);
}

proof fn replay_list_fields(
    d: ConsoleView,
    e: ConsoleView,
    done: Seq<QuestionInputView>,
    catalog: CatalogView,
    more: Seq<Seq<char>>,
)
    requires
        ahead(d, e, more),
    ensures
        steady(
            authoring::asked_list_fields(d, done, catalog),
            authoring::asked_list_fields(e, done, catalog),
            more,
        ),
    decreases d.rest.len(),
{
    broadcast use console::group_lines;

    authoring::lemma_list_fields(d, done, catalog);
    authoring::lemma_list_fields(e, done, catalog);
    if !d.waiting {
        let prompt = catalog::message(catalog, "cli.prompt.field_id"@);
        replay_optional(d, e, prompt, more);
        let (_, d1) = console::asked_optional(d, prompt);
        let (given, e1) = console::asked_optional(e, prompt);
        if given is Some {
            let id = given->0;
            let duplicate = catalog::message_with(
                catalog,
                "cli.prompt.field_id_duplicate"@,
                seq![("id"@, id)],
            );
            authoring::lemma_list_fields(console::told(e1, duplicate), done, catalog);
            authoring::lemma_field(e1, id, catalog);
            let (field, e2) = authoring::asked_field(e1, id, catalog);
            let found = typed::new_question_complaint(field, catalog);
            let invalid = catalog::message_with(
                catalog,
                "cli.prompt.invalid_field_retry"@,
                seq![("error"@, found->0)],
            );
            let added = authoring::told_field_added(e2, field, done.len() + 1, catalog);
            authoring::lemma_list_fields(console::told(e2, invalid), done, catalog);
            authoring::lemma_list_fields(added, done.push(field), catalog);
            if !d1.waiting {
                replay_told(d1, e1, duplicate, duplicate, more);
                replay_list_fields(
                    console::told(d1, duplicate),
                    console::told(e1, duplicate),
                    done,
                    catalog,
                    more,
                );
                replay_field(d1, e1, id, catalog, more);
                authoring::lemma_field(d1, id, catalog);
                let (_, d2) = authoring::asked_field(d1, id, catalog);
                if !d2.waiting {
                    replay_told(d2, e2, invalid, invalid, more);
                    replay_list_fields(
                        console::told(d2, invalid),
                        console::told(e2, invalid),
                        done,
                        catalog,
                        more,
                    );
                    replay_list_fields(
                        authoring::told_field_added(d2, field, done.len() + 1, catalog),
                        added,
                        done.push(field),
                        catalog,
                        more,
                    );
                }
            }
        }
    }
}

proof fn replay_limits(d: ConsoleView, e: ConsoleView, catalog: CatalogView, more: Seq<Seq<char>>)
    requires
        ahead(d, e, more),
    ensures
        steady(authoring::asked_limits(d, catalog), authoring::asked_limits(e, catalog), more),
{
    broadcast use console::group_lines;

    let min = catalog::message(catalog, "cli.prompt.min_items"@);
    let max = catalog::message(catalog, "cli.prompt.max_items"@);
    replay_usize(d, e, min, catalog, more);
    let (_, d1) = console::asked_usize(d, min, catalog);
    let (_, e1) = console::asked_usize(e, min, catalog);
    replay_usize(d1, e1, max, catalog, more);
    console::lemma_usize(d1, max, catalog);
}

proof fn replay_list(d: ConsoleView, e: ConsoleView, catalog: CatalogView, more: Seq<Seq<char>>)
    requires
        ahead(d, e, more),
    ensures
        steady(authoring::asked_list(d, catalog), authoring::asked_list(e, catalog), more),
    decreases d.rest.len(),
{
    broadcast use console::group_lines;

    authoring::lemma_list(d, catalog);
    authoring::lemma_list(e, catalog);
    if !d.waiting {
        replay_limits(d, e, catalog, more);
        authoring::lemma_limits(d, catalog);
        let (limits, d1) = authoring::asked_limits(d, catalog);
        let (other, e1) = authoring::asked_limits(e, catalog);
        let reversed = catalog::message(catalog, "cli.prompt.min_items_gt_max_items"@);
        let lacking = catalog::message(catalog, "cli.prompt.list_requires_field"@);
        let size = catalog::message_with(
            catalog,
            "cli.prompt.list_size"@,
            seq![("size"@, hints::list_size_text(limits.0, limits.1, catalog))],
        );
        let other_size = catalog::message_with(
            catalog,
            "cli.prompt.list_size"@,
            seq![("size"@, hints::list_size_text(other.0, other.1, catalog))],
        );
        replay_told(d1, e1, size, other_size, more);
        let (d0, e0) = (console::told(d1, size), console::told(e1, other_size));
        replay_list_fields(d0, e0, Seq::empty(), catalog, more);
        authoring::lemma_list_fields(d0, Seq::empty(), catalog);
        authoring::lemma_list_fields(e0, Seq::empty(), catalog);
        let (_, d2) = authoring::asked_list_fields(d0, Seq::empty(), catalog);
        let (_, e2) = authoring::asked_list_fields(e0, Seq::empty(), catalog);
        authoring::lemma_list(console::told(e1, reversed), catalog);
        authoring::lemma_list(console::told(e2, lacking), catalog);
        if !d1.waiting {
            replay_told(d1, e1, reversed, reversed, more);
            replay_list(
                console::told(d1, reversed),
                console::told(e1, reversed),
                catalog,
                more,
            );
        }
        if !d2.waiting {
            replay_told(d2, e2, lacking, lacking, more);
            replay_list(console::told(d2, lacking), console::told(e2, lacking), catalog, more);
        }
    }
}

proof fn replay_basics(
    d: ConsoleView,
    e: ConsoleView,
    id: Seq<char>,
    catalog: CatalogView,
    more: Seq<Seq<char>>,
)
    requires
        ahead(d, e, more),
    ensures
        steady(
            authoring::asked_basics(d, id, catalog),
            authoring::asked_basics(e, id, catalog),
            more,
        ),
{
    broadcast use console::group_lines;

    let title_prompt = hints::required_prompt(
        catalog::message(catalog, "cli.prompt.question_title"@),
        catalog,
    );
    let required_prompt = catalog::message(catalog, "cli.prompt.required"@);
    let description_prompt = catalog::message(catalog, "cli.prompt.question_description"@);
    let advanced_prompt = catalog::message(catalog, "cli.prompt.advanced_features"@);
    replay_text(d, e, title_prompt, Some(id), Some(id), catalog, more);
    let (_, d1) = console::asked_text(d, title_prompt, Some(id), catalog);
    let (_, e1) = console::asked_text(e, title_prompt, Some(id), catalog);
    replay_kind(d1, e1, catalog, more);
    console::lemma_kind(d1, catalog);
    let (kind, d2) = console::asked_kind(d1, catalog);
    let (other, e2) = console::asked_kind(e1, catalog);
    replay_middle(d2, e2, false, kind, other, required_prompt, description_prompt, catalog, more);
    let (_, d3) = console::asked_bool(d2, required_prompt, true, catalog);
    let (_, e3) = console::asked_bool(e2, required_prompt, true, catalog);
    let (_, d4) = console::asked_optional(d3, description_prompt);
    let (_, e4) = console::asked_optional(e3, description_prompt);
    let (choices, d5) = authoring::asked_kind_choices(d4, kind, catalog);
    let (choices2, e5) = authoring::asked_kind_choices(e4, other, catalog);
    let (_, d6) = authoring::asked_default(d5, false, kind, choices, catalog);
    let (_, e6) = authoring::asked_default(e5, false, other, choices2, catalog);
    replay_bool(d6, e6, advanced_prompt, false, catalog, more);
    console::lemma_bool(d6, advanced_prompt, false, catalog);
}

proof fn replay_question(
    d: ConsoleView,
    e: ConsoleView,
    id: Seq<char>,
    ids: Seq<Seq<char>>,
    catalog: CatalogView,
    more: Seq<Seq<char>>,
)
    requires
        ahead(d, e, more),
    ensures
        steady(
            authoring::asked_question(d, id, ids, catalog),
            authoring::asked_question(e, id, ids, catalog),
            more,
        ),
{
    broadcast use console::group_lines;

    let secret_prompt = catalog::message(catalog, "cli.prompt.secret_value"@);
    replay_basics(d, e, id, catalog, more);
    let (basics, d1) = authoring::asked_basics(d, id, catalog);
    let (other, e1) = authoring::asked_basics(e, id, catalog);
    replay_bool(d1, e1, secret_prompt, false, catalog, more);
    console::lemma_bool(d1, secret_prompt, false, catalog);
    console::lemma_bool(e1, secret_prompt, false, catalog);
    let (_, d2) = authoring::asked_secret(d1, basics.advanced, catalog);
    let (_, e2) = authoring::asked_secret(e1, other.advanced, catalog);
    replay_list(d2, e2, catalog, more);
    authoring::lemma_list(d2, catalog);
    authoring::lemma_list(e2, catalog);
    let (_, d3) = authoring::asked_kind_list(d2, basics.kind, catalog);
    let (_, e3) = authoring::asked_kind_list(e2, other.kind, catalog);
    replay_visibility(d3, e3, ids, catalog, more);
    authoring::lemma_visibility(d3, ids, catalog);
    authoring::lemma_visibility(e3, ids, catalog);
    let (_, d4) = authoring::asked_advanced_visibility(d3, basics.advanced, ids, catalog);
    let (_, e4) = authoring::asked_advanced_visibility(e3, other.advanced, ids, catalog);
    replay_constraint(d4, e4, basics.kind, other.kind, catalog, more);
    authoring::lemma_constraint(d4, basics.kind, catalog);
    authoring::lemma_constraint(e4, other.kind, catalog);
    let (_, d5) = authoring::asked_constraint(d4, basics.kind, catalog);
    let (_, e5) = authoring::asked_constraint(e4, other.kind, catalog);
    replay_computed(d5, e5, basics.kind, other.kind, ids, catalog, more);
    authoring::lemma_computed(d5, basics.kind, ids, catalog);
    authoring::lemma_computed(e5, other.kind, ids, catalog);
}

proof fn lemma_questions(d: ConsoleView, done: Seq<QuestionInputView>, catalog: CatalogView)
    ensures
        console::went_on(d, authoring::asked_questions(d, done, catalog).1),
    decreases d.rest.len(),
{
    broadcast use console::group_lines;

    let ids = builder::input_ids(done);
    let (given, d1) = console::asked_optional(
        d,
        catalog::message(catalog, "cli.prompt.question_id"@),
    );
    if given is Some && !d1.waiting {
        let id = given->0;
        let duplicate = catalog::message_with(
            catalog,
            "cli.new.question_id_duplicate"@,
            seq![("id"@, id)],
        );
        lemma_questions(console::told(d1, duplicate), done, catalog);
        authoring::lemma_question(d1, id, ids, catalog);
        let (question, d2) = authoring::asked_question(d1, id, ids, catalog);
        if !d2.waiting {
            let found = typed::new_question_complaint(question, catalog);
            let refusal = authoring::question_refusal(question, found->0, catalog);
            lemma_questions(console::told(d2, refusal), done, catalog);
            lemma_questions(d2, done.push(question), catalog);
        }
    } else if given is Some {
        authoring::lemma_question(d1, given->0, ids, catalog);
    }
}

proof fn replay_questions(
    d: ConsoleView,
    e: ConsoleView,
    done: Seq<QuestionInputView>,
    catalog: CatalogView,
    more: Seq<Seq<char>>,
)
    requires
        ahead(d, e, more),
    ensures
        steady(
            authoring::asked_questions(d, done, catalog),
            authoring::asked_questions(e, done, catalog),
            more,
        ),
    decreases d.rest.len(),
{
    broadcast use console::group_lines;

    lemma_questions(d, done, catalog);
    lemma_questions(e, done, catalog);
    if !d.waiting {
        let ids = builder::input_ids(done);
        let prompt = catalog::message(catalog, "cli.prompt.question_id"@);
        replay_optional(d, e, prompt, more);
        let (_, d1) = console::asked_optional(d, prompt);
        let (given, e1) = console::asked_optional(e, prompt);
        if given is Some {
            let id = given->0;
            let duplicate = catalog::message_with(
                catalog,
                "cli.new.question_id_duplicate"@,
                seq![("id"@, id)],
            );
            lemma_questions(console::told(e1, duplicate), done, catalog);
            authoring::lemma_question(e1, id, ids, catalog);
            let (question, e2) = authoring::asked_question(e1, id, ids, catalog);
            let found = typed::new_question_complaint(question, catalog);
            let refusal = authoring::question_refusal(question, found->0, catalog);
            lemma_questions(console::told(e2, refusal), done, catalog);
            lemma_questions(e2, done.push(question), catalog);
            if !d1.waiting {
                replay_told(d1, e1, duplicate, duplicate, more);
                replay_questions(
                    console::told(d1, duplicate),
                    console::told(e1, duplicate),
                    done,
                    catalog,
                    more,
                );
                replay_question(d1, e1, id, ids, catalog, more);
                authoring::lemma_question(d1, id, ids, catalog);
                let (_, d2) = authoring::asked_question(d1, id, ids, catalog);
                if !d2.waiting {
                    replay_told(d2, e2, refusal, refusal, more);
                    replay_questions(
                        console::told(d2, refusal),
                        console::told(e2, refusal),
                        done,
                        catalog,
                        more,
                    );
                    replay_questions(d2, e2, done.push(question), catalog, more);
                }
            }
        }
    }
}

proof fn replay_head(d: ConsoleView, e: ConsoleView, catalog: CatalogView, more: Seq<Seq<char>>)
    requires
        ahead(d, e, more),
    ensures
        steady(authoring::asked_head(d, catalog), authoring::asked_head(e, catalog), more),
{
    broadcast use console::group_lines;

    let banner = catalog::message(catalog, "cli.new.banner"@);
    let id_prompt = authoring::required_key("cli.prompt.form_id"@, catalog);
    let title_prompt = authoring::required_key("cli.prompt.form_title"@, catalog);
    let version_prompt = authoring::required_key("cli.prompt.form_version"@, catalog);
    let description_prompt = catalog::message(catalog, "cli.prompt.form_description"@);
    let summary_prompt = catalog::message(catalog, "cli.prompt.form_summary"@);
    let dir_prompt = authoring::required_key("cli.prompt.output_directory_name"@, catalog);
    replay_told(d, e, banner, banner, more);
    let (d0, e0) = (console::told(d, banner), console::told(e, banner));
    replay_text(d0, e0, id_prompt, None, None, catalog, more);
    let (id, d1) = console::asked_text(d0, id_prompt, None, catalog);
    let (other, e1) = console::asked_text(e0, id_prompt, None, catalog);
    replay_text(d1, e1, title_prompt, None, None, catalog, more);
    console::lemma_text(d1, title_prompt, None, catalog);
    let (_, d2) = console::asked_text(d1, title_prompt, None, catalog);
    let (_, e2) = console::asked_text(e1, title_prompt, None, catalog);
    let preset = Some("0.1.0"@);
    replay_text(d2, e2, version_prompt, preset, preset, catalog, more);
    console::lemma_text(d2, version_prompt, preset, catalog);
    let (_, d3) = console::asked_text(d2, version_prompt, preset, catalog);
    let (_, e3) = console::asked_text(e2, version_prompt, preset, catalog);
    replay_optional(d3, e3, description_prompt, more);
    let (_, d4) = console::asked_optional(d3, description_prompt);
    let (_, e4) = console::asked_optional(e3, description_prompt);
    replay_optional(d4, e4, summary_prompt, more);
    let (_, d5) = console::asked_optional(d4, summary_prompt);
    let (_, e5) = console::asked_optional(e4, summary_prompt);
    replay_text(d5, e5, dir_prompt, Some(id), Some(other), catalog, more);
    console::lemma_text(d5, dir_prompt, Some(id), catalog);
}

/// Run on the lines so far and more, a dialogue about a form starts by saying what
/// it said on the lines so far. Where it did not wait, the lines that it left are
/// followed by the others, and it comes to the same.
pub proof fn law_dialogue_goes_on(
    d: ConsoleView,
    no_root: Option<Seq<char>>,
    catalog: CatalogView,
    more: Seq<Seq<char>>,
)
    ensures
        ({
            let (outcome, after) = authoring::form_dialogue(d, no_root, catalog);
            let (longer_outcome, longer_after) = authoring::form_dialogue(
                grown(d, more),
                no_root,
                catalog,
            );
            &&& console::starts_as(longer_after.said, after.said)
            &&& outcome is Some ==> longer_outcome == outcome && longer_after == grown(after, more)
        }),
{
    broadcast use console::group_lines;

    let e = grown(d, more);
    replay_head(d, e, catalog, more);
    let (_, d1) = authoring::asked_head(d, catalog);
    let (_, e1) = authoring::asked_head(e, catalog);
    replay_questions(d1, e1, Seq::empty(), catalog, more);
    lemma_questions(d1, Seq::empty(), catalog);
    lemma_questions(e1, Seq::empty(), catalog);
    let (questions, d2) = authoring::asked_questions(d1, Seq::empty(), catalog);
    let (others, e2) = authoring::asked_questions(e1, Seq::empty(), catalog);
    lemma_rules(e2, builder::input_ids(others), Seq::empty(), catalog);
    if !d2.waiting {
        replay_rules(d2, e2, builder::input_ids(questions), Seq::empty(), catalog, more);
    }
}

proof fn lemma_head(d: ConsoleView, catalog: CatalogView)
    ensures
        console::went_on(d, authoring::asked_head(d, catalog).1),
{
    broadcast use console::group_lines;

    let banner = catalog::message(catalog, "cli.new.banner"@);
    let id_prompt = authoring::required_key("cli.prompt.form_id"@, catalog);
    let title_prompt = authoring::required_key("cli.prompt.form_title"@, catalog);
    let version_prompt = authoring::required_key("cli.prompt.form_version"@, catalog);
    let description_prompt = catalog::message(catalog, "cli.prompt.form_description"@);
    let summary_prompt = catalog::message(catalog, "cli.prompt.form_summary"@);
    let dir_prompt = authoring::required_key("cli.prompt.output_directory_name"@, catalog);
    let d0 = console::told(d, banner);
    console::lemma_text(d0, id_prompt, None, catalog);
    let (id, d1) = console::asked_text(d0, id_prompt, None, catalog);
    console::lemma_text(d1, title_prompt, None, catalog);
    let (_, d2) = console::asked_text(d1, title_prompt, None, catalog);
    console::lemma_text(d2, version_prompt, Some("0.1.0"@), catalog);
    let (_, d3) = console::asked_text(d2, version_prompt, Some("0.1.0"@), catalog);
    let (_, d4) = console::asked_optional(d3, description_prompt);
    let (_, d5) = console::asked_optional(d4, summary_prompt);
    console::lemma_text(d5, dir_prompt, Some(id), catalog);
}

/// A dialogue about a form comes to nothing only where it has no line left for the
/// prompt that it said last.
pub proof fn law_dialogue_waits_at_a_prompt(
    d: ConsoleView,
    no_root: Option<Seq<char>>,
    catalog: CatalogView,
)
    requires
        !d.waiting,
    ensures
        ({
            let (outcome, after) = authoring::form_dialogue(d, no_root, catalog);
            outcome is None ==> console::at_prompt(after)
        }),
{
    broadcast use console::group_lines;

    lemma_head(d, catalog);
    let (_, d1) = authoring::asked_head(d, catalog);
    lemma_questions(d1, Seq::empty(), catalog);
    let (questions, d2) = authoring::asked_questions(d1, Seq::empty(), catalog);
    lemma_rules(d2, builder::input_ids(questions), Seq::empty(), catalog);
}

} // verus!
