//! What a dialogue about a form comes to: a description that is accepted.
use crate::authoring;
use crate::builder::{self, GenerationInputView, QuestionInputView};
use crate::catalog::{self, CatalogView};
use crate::console::{self, ConsoleView};
use crate::form::RuleView;
use crate::hints;
use crate::text;
use crate::typed;
use vstd::prelude::*;

verus! {

proof fn lemma_text_given(
    d: ConsoleView,
    prompt: Seq<char>,
    default: Option<Seq<char>>,
    catalog: CatalogView,
)
    ensures
        ({
            let (value, after) = console::asked_text(d, prompt, default, catalog);
            after.waiting || !text::is_blank(value)
        }),
    decreases d.rest.len(),
{
    let (value, after) = console::asked_line(d, prompt, default);
    if !after.waiting && text::is_blank(value) {
        lemma_text_given(
            console::told(after, catalog::message(catalog, "cli.prompt.value_empty"@)),
            prompt,
            default,
            catalog,
        );
    }
}

proof fn lemma_field_kind_plain(d: ConsoleView, catalog: CatalogView)
    ensures
        ({
            let (kind, after) = authoring::asked_field_kind(d, catalog);
            after.waiting || !(kind is List)
        }),
    decreases d.rest.len(),
{
    console::lemma_kind(d, catalog);
    let (kind, d1) = console::asked_kind(d, catalog);
    if kind is List && !d1.waiting {
        lemma_field_kind_plain(
            console::told(d1, catalog::message(catalog, "cli.prompt.nested_list_not_allowed"@)),
            catalog,
        );
    }
}

proof fn lemma_field_plain(d: ConsoleView, id: Seq<char>, catalog: CatalogView)
    ensures
        ({
            let (field, after) = authoring::asked_field(d, id, catalog);
            field.id == id && (after.waiting || !(field.kind is List))
        }),
{
    broadcast use console::group_lines;

    let title_prompt = hints::required_prompt("Field title"@, catalog);
    let required_prompt = catalog::message(catalog, "cli.prompt.field_required"@);
    let (_, d1) = console::asked_text(d, title_prompt, Some(id), catalog);
    lemma_field_kind_plain(d1, catalog);
    let (kind, d2) = authoring::asked_field_kind(d1, catalog);
    console::lemma_bool(d2, required_prompt, true, catalog);
    let (_, d3) = console::asked_bool(d2, required_prompt, true, catalog);
    let (_, d4) = console::asked_optional(
        d3,
        catalog::message(catalog, "cli.prompt.field_description"@),
    );
    authoring::lemma_kind_choices(d4, kind, catalog);
    let (choices, d5) = authoring::asked_kind_choices(d4, kind, catalog);
    authoring::lemma_default(d5, true, kind, choices, catalog);
    let (_, d6) = authoring::asked_default(d5, true, kind, choices, catalog);
    console::lemma_bool(
        d6,
        catalog::message(catalog, "cli.prompt.field_secret"@),
        false,
        catalog,
    );
}

/// Whether a field has an id of its own after those before it, and is no list.
pub open spec fn field_stands(fields: Seq<QuestionInputView>, i: int) -> bool {
    !text::is_blank(fields[i].id) && !builder::input_ids(fields.take(i)).contains(fields[i].id)
        && !(fields[i].kind is List)
}

/// Whether all fields stand.
pub open spec fn fields_stand(fields: Seq<QuestionInputView>) -> bool {
    forall|i: int| 0 <= i < fields.len() ==> #[trigger] field_stands(fields, i)
}

proof fn lemma_fields_stand_accepted(
    fields: Seq<QuestionInputView>,
    i: int,
    question_id: Seq<char>,
    catalog: CatalogView,
)
    requires
        fields_stand(fields),
        0 <= i <= fields.len(),
    ensures
        builder::fields_complaint(fields, i, question_id, catalog) is None,
    decreases fields.len() - i,
{
    if i < fields.len() {
        assert(field_stands(fields, i));
        lemma_fields_stand_accepted(fields, i + 1, question_id, catalog);
    }
}

proof fn lemma_field_added(fields: Seq<QuestionInputView>, field: QuestionInputView)
    requires
        fields_stand(fields),
        !text::is_blank(field.id),
        !builder::input_ids(fields).contains(field.id),
        !(field.kind is List),
    ensures
        fields_stand(fields.push(field)),
{
    let all = fields.push(field);
    assert forall|i: int| 0 <= i < all.len() implies #[trigger] field_stands(all, i) by {
        if i < fields.len() {
            assert(field_stands(fields, i));
            assert(all.take(i) =~= fields.take(i));
        } else {
            assert(all.take(i) =~= fields);
        }
    }
}

proof fn lemma_list_fields_stand(
    d: ConsoleView,
    done: Seq<QuestionInputView>,
    catalog: CatalogView,
)
    requires
        fields_stand(done),
    ensures
        fields_stand(authoring::asked_list_fields(d, done, catalog).0),
    decreases d.rest.len(),
{
    broadcast use console::group_lines;

    let (given, d1) = console::asked_optional(
        d,
        catalog::message(catalog, "cli.prompt.field_id"@),
    );
    if given is Some && !d1.waiting {
        let id = given->0;
        let duplicate = catalog::message_with(
            catalog,
            "cli.prompt.field_id_duplicate"@,
            seq![("id"@, id)],
        );
        if builder::input_ids(done).contains(id) {
            lemma_list_fields_stand(console::told(d1, duplicate), done, catalog);
        } else {
            authoring::lemma_field(d1, id, catalog);
            lemma_field_plain(d1, id, catalog);
            let (field, d2) = authoring::asked_field(d1, id, catalog);
            if !d2.waiting {
                match typed::new_question_complaint(field, catalog) {
                    Some(complaint) => {
                        lemma_list_fields_stand(
                            console::told(
                                d2,
                                catalog::message_with(
                                    catalog,
                                    "cli.prompt.invalid_field_retry"@,
                                    seq![("error"@, complaint)],
                                ),
                            ),
                            done,
                            catalog,
                        );
                    },
                    None => {
                        lemma_field_added(done, field);
                        lemma_list_fields_stand(
                            authoring::told_field_added(d2, field, done.len() + 1, catalog),
                            done.push(field),
                            catalog,
                        );
                    },
                }
            }
        }
    } else if given is Some {
        authoring::lemma_field(d1, given->0, catalog);
    }
}

proof fn lemma_list_stands(d: ConsoleView, catalog: CatalogView)
    ensures
        fields_stand(authoring::asked_list(d, catalog).0.fields),
    decreases d.rest.len(),
{
    broadcast use console::group_lines;

    authoring::lemma_limits(d, catalog);
    let ((min_items, max_items), d1) = authoring::asked_limits(d, catalog);
    let size = catalog::message_with(
        catalog,
        "cli.prompt.list_size"@,
        seq![("size"@, hints::list_size_text(min_items, max_items, catalog))],
    );
    let d0 = console::told(d1, size);
    authoring::lemma_list_fields(d0, Seq::empty(), catalog);
    lemma_list_fields_stand(d0, Seq::empty(), catalog);
    let (fields, d2) = authoring::asked_list_fields(d0, Seq::empty(), catalog);
    if builder::reversed(min_items, max_items) {
        if !d1.waiting {
            lemma_list_stands(
                console::told(
                    d1,
                    catalog::message(catalog, "cli.prompt.min_items_gt_max_items"@),
                ),
                catalog,
            );
        }
    } else if !d2.waiting && fields.len() == 0 {
        lemma_list_stands(
            console::told(d2, catalog::message(catalog, "cli.prompt.list_requires_field"@)),
            catalog,
        );
    }
}

/// Whether a question is accepted after those before it, but for limits that are
/// reversed.
pub open spec fn question_stands(
    questions: Seq<QuestionInputView>,
    i: int,
    catalog: CatalogView,
) -> bool {
    let question = questions[i];
    let limited = question.constraint is Some && builder::constraint_complaint(
        question.constraint->0,
        catalog,
    ) is Some;
    limited || builder::question_complaint(
        question,
        builder::input_ids(questions.take(i)),
        catalog,
    ) is None
}

/// Whether all questions stand.
pub open spec fn questions_stand(
    questions: Seq<QuestionInputView>,
    catalog: CatalogView,
) -> bool {
    forall|i: int| 0 <= i < questions.len() ==> #[trigger] question_stands(questions, i, catalog)
}

proof fn lemma_question_added(
    d: ConsoleView,
    id: Seq<char>,
    done: Seq<QuestionInputView>,
    catalog: CatalogView,
)
    requires
        questions_stand(done, catalog),
        !text::is_blank(id),
        !builder::input_ids(done).contains(id),
        typed::new_question_complaint(
            authoring::asked_question(d, id, builder::input_ids(done), catalog).0,
            catalog,
        ) is None,
    ensures
        questions_stand(
            done.push(authoring::asked_question(d, id, builder::input_ids(done), catalog).0),
            catalog,
        ),
{
    let (question, _) = authoring::asked_question(d, id, builder::input_ids(done), catalog);
    let all = done.push(question);
    let (basics, d1) = authoring::asked_basics(d, id, catalog);
    let (_, d2) = authoring::asked_secret(d1, basics.advanced, catalog);
    lemma_list_stands(d2, catalog);
    let (list, _) = authoring::asked_list(d2, catalog);
    lemma_fields_stand_accepted(list.fields, 0, id, catalog);
    assert forall|i: int| 0 <= i < all.len() implies #[trigger] question_stands(
        all,
        i,
        catalog,
    ) by {
        if i < done.len() {
            assert(question_stands(done, i, catalog));
            assert(all.take(i) =~= done.take(i));
        } else {
            assert(all.take(i) =~= done);
        }
    }
}

proof fn lemma_questions_stand(d: ConsoleView, done: Seq<QuestionInputView>, catalog: CatalogView)
    requires
        questions_stand(done, catalog),
    ensures
        questions_stand(authoring::asked_questions(d, done, catalog).0, catalog),
    decreases d.rest.len(),
{
    broadcast use console::group_lines;

    let ids = builder::input_ids(done);
    let (given, d1) = console::asked_optional(
        d,
        catalog::message(catalog, "cli.prompt.question_id"@),
    );
    if given is Some {
        let id = given->0;
        authoring::lemma_question(d1, id, ids, catalog);
        if !d1.waiting {
            if ids.contains(id) {
                lemma_questions_stand(
                    console::told(
                        d1,
                        catalog::message_with(
                            catalog,
                            "cli.new.question_id_duplicate"@,
                            seq![("id"@, id)],
                        ),
                    ),
                    done,
                    catalog,
                );
            } else {
                let (question, d2) = authoring::asked_question(d1, id, ids, catalog);
                if !d2.waiting {
                    match typed::new_question_complaint(question, catalog) {
                        Some(complaint) => {
                            lemma_questions_stand(
                                console::told(
                                    d2,
                                    authoring::question_refusal(question, complaint, catalog),
                                ),
                                done,
                                catalog,
                            );
                        },
                        None => {
                            lemma_question_added(d1, id, done, catalog);
                            lemma_questions_stand(d2, done.push(question), catalog);
                        },
                    }
                }
            }
        }
    }
}

proof fn lemma_questions_accepted(
    questions: Seq<QuestionInputView>,
    i: int,
    catalog: CatalogView,
)
    requires
        questions_stand(questions, catalog),
        limits_in_order(questions, catalog),
        0 <= i <= questions.len(),
    ensures
        builder::questions_complaint(questions, i, catalog) is None,
    decreases questions.len() - i,
{
    if i < questions.len() {
        assert(question_stands(questions, i, catalog));
        assert(limit_in_order(questions[i], catalog));
        lemma_questions_accepted(questions, i + 1, catalog);
    }
}

/// Whether the limits on the answers to a question are in order.
pub open spec fn limit_in_order(question: QuestionInputView, catalog: CatalogView) -> bool {
    question.constraint matches Some(constraint) ==> builder::constraint_complaint(
        constraint,
        catalog,
    ) is None
}

/// Whether the limits of all questions are in order.
pub open spec fn limits_in_order(
    questions: Seq<QuestionInputView>,
    catalog: CatalogView,
) -> bool {
    forall|i: int| 0 <= i < questions.len() ==> #[trigger] limit_in_order(questions[i], catalog)
}

proof fn lemma_known_ids(fields: Seq<Seq<char>>, ids: Seq<Seq<char>>)
    requires
        authoring::unknown_ids(fields, ids).len() == 0,
    ensures
        forall|i: int| 0 <= i < fields.len() ==> ids.contains(#[trigger] fields[i]),
    decreases fields.len(),
{
    if fields.len() > 0 {
        lemma_known_ids(fields.drop_last(), ids);
        assert forall|i: int| 0 <= i < fields.len() implies ids.contains(#[trigger] fields[i]) by {
            if i < fields.len() - 1 {
                assert(fields.drop_last()[i] == fields[i]);
            }
        }
    }
}

proof fn lemma_fields_known(d: ConsoleView, ids: Seq<Seq<char>>, catalog: CatalogView)
    ensures
        ({
            let (fields, after) = authoring::asked_fields(d, ids, catalog);
            after.waiting || (fields.len() > 0 && forall|i: int|
                0 <= i < fields.len() ==> ids.contains(#[trigger] fields[i]))
        }),
    decreases d.rest.len(),
{
    broadcast use console::group_lines;

    let available = catalog::message_with(
        catalog,
        "cli.prompt.available_questions"@,
        seq![("ids"@, hints::ids_text(ids, catalog))],
    );
    let (raw, d1) = console::asked_line(
        console::told(d, available),
        catalog::message(catalog, "cli.prompt.fields_to_validate"@),
        None,
    );
    let fields = authoring::without_repeats(console::comma_list(raw));
    let unknown = authoring::unknown_ids(fields, ids);
    if !d1.waiting {
        if fields.len() == 0 {
            lemma_fields_known(
                console::told(d1, catalog::message(catalog, "cli.prompt.at_least_one_field"@)),
                ids,
                catalog,
            );
        } else if unknown.len() > 0 {
            lemma_fields_known(
                console::told(
                    d1,
                    catalog::message_with(
                        catalog,
                        "cli.prompt.unknown_fields"@,
                        seq![("fields"@, text::joined(unknown, ", "@))],
                    ),
                ),
                ids,
                catalog,
            );
        } else {
            lemma_known_ids(fields, ids);
        }
    }
}

proof fn lemma_rule_fields_accepted(
    rule: RuleView,
    i: int,
    ids: Seq<Seq<char>>,
    catalog: CatalogView,
)
    requires
        0 <= i <= rule.fields.len(),
        forall|k: int| 0 <= k < rule.fields.len() ==> ids.contains(#[trigger] rule.fields[k]),
    ensures
        builder::rule_fields_complaint(rule, i, ids, catalog) is None,
    decreases rule.fields.len() - i,
{
    if i < rule.fields.len() {
        lemma_rule_fields_accepted(rule, i + 1, ids, catalog);
    }
}

proof fn lemma_rule_stands(d: ConsoleView, ids: Seq<Seq<char>>, catalog: CatalogView)
    ensures
        ({
            let (rule, after) = authoring::asked_rule(d, ids, catalog);
            after.waiting || builder::rule_complaint(rule, ids, catalog) is None
        }),
{
    broadcast use console::group_lines;

    let prompt = catalog::message(catalog, "cli.prompt.validation_message"@);
    let (_, d1) = console::asked_optional(
        d,
        catalog::message(catalog, "cli.prompt.validation_id"@),
    );
    lemma_text_given(d1, prompt, None, catalog);
    let (_, d2) = console::asked_text(d1, prompt, None, catalog);
    authoring::lemma_fields(d2, ids, catalog);
    lemma_fields_known(d2, ids, catalog);
    let (_, d3) = authoring::asked_fields(d2, ids, catalog);
    authoring::lemma_expr(d3, ids, 0, catalog);
    let (rule, d4) = authoring::asked_rule(d, ids, catalog);
    if !d4.waiting {
        lemma_rule_fields_accepted(rule, 0, ids, catalog);
    }
}

/// Whether all rules are accepted.
pub open spec fn rules_stand(
    rules: Seq<RuleView>,
    ids: Seq<Seq<char>>,
    catalog: CatalogView,
) -> bool {
    forall|i: int|
        0 <= i < rules.len() ==> builder::rule_complaint(#[trigger] rules[i], ids, catalog) is None
}

proof fn lemma_rules_stand(
    d: ConsoleView,
    ids: Seq<Seq<char>>,
    done: Seq<RuleView>,
    catalog: CatalogView,
)
    requires
        rules_stand(done, ids, catalog),
    ensures
        rules_stand(authoring::asked_rules(d, ids, done, catalog).0, ids, catalog),
    decreases d.rest.len(),
{
    broadcast use console::group_lines;

    let prompt = catalog::message(catalog, "cli.prompt.add_cross_field_validation"@);
    console::lemma_bool(d, prompt, false, catalog);
    let (more, d1) = console::asked_bool(d, prompt, false, catalog);
    authoring::lemma_rule(d1, ids, catalog);
    lemma_rule_stands(d1, ids, catalog);
    let (rule, d2) = authoring::asked_rule(d1, ids, catalog);
    if more && !d2.waiting {
        lemma_rules_stand(d2, ids, done.push(rule), catalog);
    }
}

proof fn lemma_rules_accepted(
    rules: Seq<RuleView>,
    i: int,
    ids: Seq<Seq<char>>,
    catalog: CatalogView,
)
    requires
        rules_stand(rules, ids, catalog),
        0 <= i <= rules.len(),
    ensures
        builder::rules_complaint(rules, i, ids, catalog) is None,
    decreases rules.len() - i,
{
    if i < rules.len() {
        assert(builder::rule_complaint(rules[i], ids, catalog) is None);
        lemma_rules_accepted(rules, i + 1, ids, catalog);
    }
}

proof fn lemma_head_given(d: ConsoleView, catalog: CatalogView)
    ensures
        ({
            let (head, after) = authoring::asked_head(d, catalog);
            after.waiting || (!text::is_blank(head.form_id) && !text::is_blank(head.dir_name))
        }),
{
    broadcast use console::group_lines;

    let banner = catalog::message(catalog, "cli.new.banner"@);
    let id_prompt = authoring::required_key("cli.prompt.form_id"@, catalog);
    let title_prompt = authoring::required_key("cli.prompt.form_title"@, catalog);
    let version_prompt = authoring::required_key("cli.prompt.form_version"@, catalog);
    let description_prompt = catalog::message(catalog, "cli.prompt.form_description"@);
    let summary_prompt = catalog::message(catalog, "cli.prompt.form_summary"@);
    let dir_prompt = authoring::required_key("cli.prompt.output_directory_name"@, catalog);
    let d0 = console::told(d, banner);
    lemma_text_given(d0, id_prompt, None, catalog);
    let (id, d1) = console::asked_text(d0, id_prompt, None, catalog);
    console::lemma_text(d1, title_prompt, None, catalog);
    let (_, d2) = console::asked_text(d1, title_prompt, None, catalog);
    console::lemma_text(d2, version_prompt, Some("0.1.0"@), catalog);
    let (_, d3) = console::asked_text(d2, version_prompt, Some("0.1.0"@), catalog);
    let (_, d4) = console::asked_optional(d3, description_prompt);
    let (_, d5) = console::asked_optional(d4, summary_prompt);
    console::lemma_text(d5, dir_prompt, Some(id), catalog);
    lemma_text_given(d5, dir_prompt, Some(id), catalog);
}

/// A description that a dialogue comes to is accepted, unless limits on the
/// answers to one of its questions are reversed, which the dialogue lets pass.
pub proof fn law_described_form_is_accepted(
    d: ConsoleView,
    no_root: Option<Seq<char>>,
    catalog: CatalogView,
    input: GenerationInputView,
)
    requires
        authoring::form_dialogue(d, no_root, catalog).0 == Some(
            Ok::<GenerationInputView, Seq<char>>(input),
        ),
        limits_in_order(input.questions, catalog),
    ensures
        builder::input_complaint(input, catalog) is None,
{
    lemma_head_given(d, catalog);
    let (_, d1) = authoring::asked_head(d, catalog);
    lemma_questions_stand(d1, Seq::empty(), catalog);
    let (questions, d2) = authoring::asked_questions(d1, Seq::empty(), catalog);
    let ids = builder::input_ids(questions);
    lemma_rules_stand(d2, ids, Seq::empty(), catalog);
    let (rules, _) = authoring::asked_rules(d2, ids, Seq::empty(), catalog);
    lemma_questions_accepted(questions, 0, catalog);
    lemma_rules_accepted(rules, 0, ids, catalog);
}

} // verus!
