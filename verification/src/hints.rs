//! Texts that help to describe a form.
use crate::builder::{self, CliQuestionType, QuestionInput, QuestionInputView};
use crate::catalog::{self, t, tf1, tf2, CatalogView, I18n};
use crate::form::{Expr, ExprView};
use crate::text::{self, cat, cat3, join, number_text, same, trim};
use crate::typed;
use vstd::prelude::*;

verus! {

/// A prompt that is marked as one that must be answered.
pub open spec fn required_prompt(prompt: Seq<char>, catalog: CatalogView) -> Seq<char> {
    catalog::message_with(
        catalog,
        "cli.prompt.required_label"@,
        seq![("label"@, text::trimmed(prompt))],
    )
}

/// Marks a prompt as one that must be answered.
pub fn mark_required(prompt: &str, i18n: &I18n) -> (r: String)
    ensures
        r@ == required_prompt(prompt@, i18n@),
{
    tf1(i18n, "cli.prompt.required_label", "label", trim(prompt).as_str())
}

/// How many entries a list may have, in words.
pub open spec fn list_size_text(
    min_items: Option<usize>,
    max_items: Option<usize>,
    catalog: CatalogView,
) -> Seq<char> {
    match (min_items, max_items) {
        (Some(min), Some(max)) => catalog::message_with(
            catalog,
            "cli.prompt.list_size_range"@,
            seq![("min"@, text::decimal(min as nat)), ("max"@, text::decimal(max as nat))],
        ),
        (Some(min), None) => catalog::message_with(
            catalog,
            "cli.prompt.list_size_min"@,
            seq![("min"@, text::decimal(min as nat))],
        ),
        (None, Some(max)) => catalog::message_with(
            catalog,
            "cli.prompt.list_size_max"@,
            seq![("max"@, text::decimal(max as nat))],
        ),
        (None, None) => catalog::message(catalog, "cli.prompt.list_size_unrestricted"@),
    }
}

/// Says how many entries a list may have.
pub fn describe_list_size(min_items: Option<usize>, max_items: Option<usize>, i18n: &I18n) -> (r:
    String)
    ensures
        r@ == list_size_text(min_items, max_items, i18n@),
{
    match (min_items, max_items) {
        (Some(min), Some(max)) => tf2(
            i18n,
            "cli.prompt.list_size_range",
            "min",
            number_text(min).as_str(),
            "max",
            number_text(max).as_str(),
        ),
        (Some(min), None) => tf1(
            i18n,
            "cli.prompt.list_size_min",
            "min",
            number_text(min).as_str(),
        ),
        (None, Some(max)) => tf1(
            i18n,
            "cli.prompt.list_size_max",
            "max",
            number_text(max).as_str(),
        ),
        (None, None) => t(i18n, "cli.prompt.list_size_unrestricted"),
    }
}

/// The id and the kind of each of several fields.
pub open spec fn field_summaries(fields: Seq<QuestionInputView>) -> Seq<Seq<char>> {
    fields.map_values(
        |f: QuestionInputView| f.id + " ("@ + builder::kind_label(f.kind) + ")"@,
    )
}

/// Lists fields with their kinds.
pub fn summarize_list_fields(fields: &Vec<QuestionInput>) -> (r: String)
    ensures
        r@ == text::joined(field_summaries(builder::inputs_view(fields@)), ", "@),
{
    let ghost wanted = field_summaries(builder::inputs_view(fields@));
    let mut parts: Vec<String> = Vec::new();
    let mut i: usize = 0;
    while i < fields.len()
        invariant
            i <= fields@.len(),
            wanted == field_summaries(builder::inputs_view(fields@)),
            parts@.len() == i,
            forall|k: int| 0 <= k < i ==> (#[trigger] parts@[k])@ == wanted[k],
        decreases fields.len() - i,
    {
        let head = cat3(fields[i].id.as_str(), " (", fields[i].kind.label());
        parts.push(cat(head.as_str(), ")"));
        assert(parts@[i as int]@ == wanted[i as int]);
        i += 1;
    }
    assert(text::texts(parts@) =~= wanted);
    join(&parts, ", ")
}

/// What is expected of an answer, and an example of one.
#[derive(Debug, PartialEq)]
pub struct TypeHint {
    pub expected: String,
    pub example: String,
}

#[verifier::ext_equal]
pub struct HintView {
    pub expected: Seq<char>,
    pub example: Seq<char>,
}

impl View for TypeHint {
    type V = HintView;

    open spec fn view(&self) -> HintView {
        HintView { expected: self.expected@, example: self.example@ }
    }
}

/// What is expected of a choice.
pub open spec fn enum_expected(choices: Option<Seq<Seq<char>>>, catalog: CatalogView) -> Seq<char> {
    match choices {
        Some(values) => if values.len() > 0 {
            catalog::message_with(
                catalog,
                "cli.type_hint.enum.one_of"@,
                seq![("choices"@, text::joined(values, ", "@))],
            )
        } else {
            catalog::message(catalog, "cli.type_hint.enum.expected"@)
        },
        None => catalog::message(catalog, "cli.type_hint.enum.expected"@),
    }
}

/// An example of a choice.
pub open spec fn enum_example(choices: Option<Seq<Seq<char>>>, catalog: CatalogView) -> Seq<char> {
    match choices {
        Some(values) => if values.len() > 0 {
            values[0]
        } else {
            catalog::message(catalog, "cli.type_hint.enum.example"@)
        },
        None => catalog::message(catalog, "cli.type_hint.enum.example"@),
    }
}

/// The fields of a list in words.
pub open spec fn fields_text(fields: Option<Seq<QuestionInputView>>, catalog: CatalogView) -> Seq<
    char,
> {
    match fields {
        Some(fields) => text::joined(field_summaries(fields), ", "@),
        None => catalog::message(catalog, "cli.type_hint.list.fields"@),
    }
}

/// What is expected of an answer of some kind.
pub open spec fn hint_for(
    kind: CliQuestionType,
    choices: Option<Seq<Seq<char>>>,
    fields: Option<Seq<QuestionInputView>>,
    catalog: CatalogView,
) -> HintView {
    match kind {
        CliQuestionType::String => HintView {
            expected: catalog::message(catalog, "cli.type_hint.string.expected"@),
            example: catalog::message(catalog, "cli.type_hint.string.example"@),
        },
        CliQuestionType::Boolean => HintView {
            expected: catalog::message(catalog, "cli.type_hint.boolean.expected"@),
            example: catalog::message(catalog, "cli.type_hint.boolean.example"@),
        },
        CliQuestionType::Integer => HintView {
            expected: catalog::message(catalog, "cli.type_hint.integer.expected"@),
            example: catalog::message(catalog, "cli.type_hint.integer.example"@),
        },
        CliQuestionType::Number => HintView {
            expected: catalog::message(catalog, "cli.type_hint.number.expected"@),
            example: catalog::message(catalog, "cli.type_hint.number.example"@),
        },
        CliQuestionType::Enum => HintView {
            expected: enum_expected(choices, catalog),
            example: enum_example(choices, catalog),
        },
        CliQuestionType::List => HintView {
            expected: catalog::message_with(
                catalog,
                "cli.type_hint.list.expected"@,
                seq![("fields"@, fields_text(fields, catalog))],
            ),
            example: catalog::message(catalog, "cli.type_hint.list.example"@),
        },
    }
}

/// Fields that may be absent, viewed.
pub open spec fn fields_view(fields: Option<&Vec<QuestionInput>>) -> Option<
    Seq<QuestionInputView>,
> {
    match fields {
        Some(fields) => Some(builder::inputs_view(fields@)),
        None => None,
    }
}

/// Says what is expected of an answer of some kind.
pub fn describe_type_hint(
    kind: CliQuestionType,
    choices: Option<&Vec<String>>,
    list_fields: Option<&Vec<QuestionInput>>,
    i18n: &I18n,
) -> (r: TypeHint)
    ensures
        r@ == hint_for(kind, typed::choices_view(choices), fields_view(list_fields), i18n@),
{
    match kind {
        CliQuestionType::String => TypeHint {
            expected: t(i18n, "cli.type_hint.string.expected"),
            example: t(i18n, "cli.type_hint.string.example"),
        },
        CliQuestionType::Boolean => TypeHint {
            expected: t(i18n, "cli.type_hint.boolean.expected"),
            example: t(i18n, "cli.type_hint.boolean.example"),
        },
        CliQuestionType::Integer => TypeHint {
            expected: t(i18n, "cli.type_hint.integer.expected"),
            example: t(i18n, "cli.type_hint.integer.example"),
        },
        CliQuestionType::Number => TypeHint {
            expected: t(i18n, "cli.type_hint.number.expected"),
            example: t(i18n, "cli.type_hint.number.example"),
        },
        CliQuestionType::Enum => {
            let mut expected = t(i18n, "cli.type_hint.enum.expected");
            let mut example = t(i18n, "cli.type_hint.enum.example");
            if let Some(values) = choices {
                assert(text::texts(values@).len() == values@.len());
                if values.len() > 0 {
                    let list = join(values, ", ");
                    expected = tf1(i18n, "cli.type_hint.enum.one_of", "choices", list.as_str());
                    assert(text::texts(values@)[0] == values@[0]@);
                    example = values[0].clone();
                }
            }
            TypeHint { expected, example }
        },
        CliQuestionType::List => {
            let fields = match list_fields {
                Some(fields) => summarize_list_fields(fields),
                None => t(i18n, "cli.type_hint.list.fields"),
            };
            TypeHint {
                expected: tf1(i18n, "cli.type_hint.list.expected", "fields", fields.as_str()),
                example: t(i18n, "cli.type_hint.list.example"),
            }
        },
    }
}

/// The prompt for a default of some kind.
pub open spec fn default_prompt(
    kind: CliQuestionType,
    choices: Option<Seq<Seq<char>>>,
    catalog: CatalogView,
) -> Seq<char> {
    match kind {
        CliQuestionType::Boolean => catalog::message(catalog, "cli.prompt.default_value_boolean"@),
        CliQuestionType::Integer => catalog::message(catalog, "cli.prompt.default_value_integer"@),
        CliQuestionType::Number => catalog::message(catalog, "cli.prompt.default_value_number"@),
        CliQuestionType::Enum => match choices {
            Some(choices) => if choices.len() > 0 {
                catalog::message_with(
                    catalog,
                    "cli.prompt.default_value_enum_one_of"@,
                    seq![("choices"@, text::joined(choices, "/"@))],
                )
            } else {
                catalog::message(catalog, "cli.prompt.default_value_enum"@)
            },
            None => catalog::message(catalog, "cli.prompt.default_value_enum"@),
        },
        _ => catalog::message(catalog, "cli.prompt.default_value"@),
    }
}

/// The prompt for a default of some kind.
pub fn default_prompt_for(kind: CliQuestionType, choices: Option<&Vec<String>>, i18n: &I18n) -> (r:
    String)
    ensures
        r@ == default_prompt(kind, typed::choices_view(choices), i18n@),
{
    match kind {
        CliQuestionType::Boolean => t(i18n, "cli.prompt.default_value_boolean"),
        CliQuestionType::Integer => t(i18n, "cli.prompt.default_value_integer"),
        CliQuestionType::Number => t(i18n, "cli.prompt.default_value_number"),
        CliQuestionType::Enum => match choices {
            Some(choices) => {
                assert(text::texts(choices@).len() == choices@.len());
                if choices.len() > 0 {
                    let list = join(choices, "/");
                    tf1(i18n, "cli.prompt.default_value_enum_one_of", "choices", list.as_str())
                } else {
                    t(i18n, "cli.prompt.default_value_enum")
                }
            },
            None => t(i18n, "cli.prompt.default_value_enum"),
        },
        _ => t(i18n, "cli.prompt.default_value"),
    }
}

/// The members of an example of a list entry.
pub open spec fn example_members(fields: Seq<QuestionInputView>, catalog: CatalogView) -> Seq<
    Seq<char>,
> {
    fields.map_values(
        |f: QuestionInputView|
            "\""@ + f.id + "\": "@ + hint_for(f.kind, f.choices, None, catalog).example,
    )
}

/// An example of a list entry.
pub fn render_list_example(fields: &Vec<QuestionInput>, i18n: &I18n) -> (r: String)
    ensures
        r@ == "[{ "@ + text::joined(
            example_members(builder::inputs_view(fields@), i18n@),
            ", "@,
        ) + " }]"@,
{
    let ghost wanted = example_members(builder::inputs_view(fields@), i18n@);
    let mut parts: Vec<String> = Vec::new();
    let mut i: usize = 0;
    while i < fields.len()
        invariant
            i <= fields@.len(),
            wanted == example_members(builder::inputs_view(fields@), i18n@),
            parts@.len() == i,
            forall|k: int| 0 <= k < i ==> (#[trigger] parts@[k])@ == wanted[k],
        decreases fields.len() - i,
    {
        let hint = describe_type_hint(fields[i].kind, fields[i].choices.as_ref(), None, i18n);
        let head = cat3("\"", fields[i].id.as_str(), "\": ");
        parts.push(cat(head.as_str(), hint.example.as_str()));
        assert(builder::inputs_view(fields@)[i as int] == fields@[i as int]@);
        assert(parts@[i as int]@ == wanted[i as int]);
        i += 1;
    }
    assert(text::texts(parts@) =~= wanted);
    cat3("[{ ", join(&parts, ", ").as_str(), " }]")
}

/// The ids of questions in words.
pub open spec fn ids_text(ids: Seq<Seq<char>>, catalog: CatalogView) -> Seq<char> {
    if ids.len() == 0 {
        catalog::message(catalog, "cli.common.none"@)
    } else {
        text::joined(ids, ", "@)
    }
}

/// The ids of questions.
pub fn collect_ids(questions: &Vec<QuestionInput>) -> (r: Vec<String>)
    ensures
        text::texts(r@) == builder::input_ids(builder::inputs_view(questions@)),
{
    let mut ids: Vec<String> = Vec::new();
    let mut i: usize = 0;
    while i < questions.len()
        invariant
            i <= questions@.len(),
            ids@.len() == i,
            forall|k: int| 0 <= k < i ==> (#[trigger] ids@[k])@ == questions@[k].id@,
        decreases questions.len() - i,
    {
        ids.push(questions[i].id.clone());
        i += 1;
    }
    assert(text::texts(ids@) =~= builder::input_ids(builder::inputs_view(questions@)));
    ids
}

/// Lists the ids of the questions so far.
pub fn existing_question_ids(ids: &Vec<String>, i18n: &I18n) -> (r: String)
    ensures
        r@ == ids_text(text::texts(ids@), i18n@),
{
    assert(text::texts(ids@).len() == ids@.len());
    if ids.len() == 0 {
        t(i18n, "cli.common.none")
    } else {
        join(ids, ", ")
    }
}

/// Whether there is a question with an id.
pub fn question_exists(ids: &Vec<String>, candidate: &str) -> (r: bool)
    ensures
        r == text::texts(ids@).contains(candidate@),
{
    text::contains_text(ids, candidate)
}

/// The comparison that an operator makes: an unknown one compares for equality.
pub open spec fn comparison(operator: Seq<char>, left: ExprView, right: ExprView) -> ExprView {
    if operator == "ne"@ {
        ExprView::Ne { left: Box::new(left), right: Box::new(right) }
    } else if operator == "lt"@ {
        ExprView::Lt { left: Box::new(left), right: Box::new(right) }
    } else if operator == "lte"@ {
        ExprView::Lte { left: Box::new(left), right: Box::new(right) }
    } else if operator == "gt"@ {
        ExprView::Gt { left: Box::new(left), right: Box::new(right) }
    } else if operator == "gte"@ {
        ExprView::Gte { left: Box::new(left), right: Box::new(right) }
    } else {
        ExprView::Eq { left: Box::new(left), right: Box::new(right) }
    }
}

/// Makes a comparison.
pub fn build_binary_expression(operator: &str, left: Expr, right: Expr) -> (r: Expr)
    ensures
        r@ == comparison(operator@, left@, right@),
{
    if same(operator, "ne") {
        Expr::Ne { left: Box::new(left), right: Box::new(right) }
    } else if same(operator, "lt") {
        Expr::Lt { left: Box::new(left), right: Box::new(right) }
    } else if same(operator, "lte") {
        Expr::Lte { left: Box::new(left), right: Box::new(right) }
    } else if same(operator, "gt") {
        Expr::Gt { left: Box::new(left), right: Box::new(right) }
    } else if same(operator, "gte") {
        Expr::Gte { left: Box::new(left), right: Box::new(right) }
    } else {
        Expr::Eq { left: Box::new(left), right: Box::new(right) }
    }
}

/// A comparison is the one that its operator names, of its two sides in their order.
/// It is for equality where the operator names none.
pub proof fn law_comparisons(operator: Seq<char>, left: ExprView, right: ExprView)
    ensures
        ({
            let made = comparison(operator, left, right);
            &&& operator == "ne"@ <==> made is Ne
            &&& operator == "lt"@ <==> made is Lt
            &&& operator == "lte"@ <==> made is Lte
            &&& operator == "gt"@ <==> made is Gt
            &&& operator == "gte"@ <==> made is Gte
            &&& made is Eq <==> operator != "ne"@ && operator != "lt"@ && operator != "lte"@
                && operator != "gt"@ && operator != "gte"@
            &&& match made {
                ExprView::Eq { left: l, right: r } => *l == left && *r == right,
                ExprView::Ne { left: l, right: r } => *l == left && *r == right,
                ExprView::Lt { left: l, right: r } => *l == left && *r == right,
                ExprView::Lte { left: l, right: r } => *l == left && *r == right,
                ExprView::Gt { left: l, right: r } => *l == left && *r == right,
                ExprView::Gte { left: l, right: r } => *l == left && *r == right,
                _ => false,
            }
        }),
{
    reveal_strlit("ne");
    reveal_strlit("lt");
    reveal_strlit("lte");
    reveal_strlit("gt");
    reveal_strlit("gte");
    assert("ne"@[0] == 'n' && "lt"@[0] == 'l' && "lte"@[0] == 'l' && "gt"@[0] == 'g');
    assert("gte"@[0] == 'g' && "lt"@.len() == 2 && "lte"@.len() == 3);
    assert("gt"@.len() == 2 && "gte"@.len() == 3);
}

/// The size of a list is told by the limits that it has.
pub proof fn law_list_sizes(min: usize, max: usize, catalog: CatalogView)
    ensures
        list_size_text(Some(min), Some(max), catalog) == catalog::message_with(
            catalog,
            "cli.prompt.list_size_range"@,
            seq![("min"@, text::decimal(min as nat)), ("max"@, text::decimal(max as nat))],
        ),
        list_size_text(Some(min), None, catalog) == catalog::message_with(
            catalog,
            "cli.prompt.list_size_min"@,
            seq![("min"@, text::decimal(min as nat))],
        ),
        list_size_text(None, Some(max), catalog) == catalog::message_with(
            catalog,
            "cli.prompt.list_size_max"@,
            seq![("max"@, text::decimal(max as nat))],
        ),
        list_size_text(None, None, catalog) == catalog::message(
            catalog,
            "cli.prompt.list_size_unrestricted"@,
        ),
{
}

/// What is expected of an enum question is one of its choices, and its first choice
/// is the example. Where it has none, the words for a question with choices stand in
/// their place.
pub proof fn law_enum_hints(
    choices: Option<Seq<Seq<char>>>,
    fields: Option<Seq<QuestionInputView>>,
    catalog: CatalogView,
)
    ensures
        ({
            let hint = hint_for(CliQuestionType::Enum, choices, fields, catalog);
            let offered = choices is Some && choices->0.len() > 0;
            &&& offered ==> hint.example == choices->0[0] && hint.expected == catalog::message_with(
                catalog,
                "cli.type_hint.enum.one_of"@,
                seq![("choices"@, text::joined(choices->0, ", "@))],
            )
            &&& !offered ==> hint.example == catalog::message(
                catalog,
                "cli.type_hint.enum.example"@,
            ) && hint.expected == catalog::message(catalog, "cli.type_hint.enum.expected"@)
        }),
{
}

/// A list's fields are told each with its id and its kind, in their order.
pub proof fn law_field_summaries(fields: Seq<QuestionInputView>, catalog: CatalogView)
    ensures
        field_summaries(fields).len() == fields.len(),
        forall|i: int|
            0 <= i < fields.len() ==> #[trigger] field_summaries(fields)[i] == fields[i].id + " ("@
                + builder::kind_label(fields[i].kind) + ")"@,
        hint_for(CliQuestionType::List, None, Some(fields), catalog).expected
            == catalog::message_with(
            catalog,
            "cli.type_hint.list.expected"@,
            seq![("fields"@, text::joined(field_summaries(fields), ", "@))],
        ),
        example_members(fields, catalog).len() == fields.len(),
        forall|i: int|
            0 <= i < fields.len() ==> #[trigger] example_members(fields, catalog)[i] == "\""@
                + fields[i].id + "\": "@ + hint_for(
                fields[i].kind,
                fields[i].choices,
                None,
                catalog,
            ).example,
{
}

/// The hints of the other kinds of questions are the words for their kind.
pub proof fn law_plain_hints(
    choices: Option<Seq<Seq<char>>>,
    fields: Option<Seq<QuestionInputView>>,
    catalog: CatalogView,
)
    ensures
        hint_for(CliQuestionType::String, choices, fields, catalog).expected == catalog::message(
            catalog,
            "cli.type_hint.string.expected"@,
        ),
        hint_for(CliQuestionType::Boolean, choices, fields, catalog).expected == catalog::message(
            catalog,
            "cli.type_hint.boolean.expected"@,
        ),
        hint_for(CliQuestionType::Integer, choices, fields, catalog).expected == catalog::message(
            catalog,
            "cli.type_hint.integer.expected"@,
        ),
        hint_for(CliQuestionType::Number, choices, fields, catalog).expected == catalog::message(
            catalog,
            "cli.type_hint.number.expected"@,
        ),
        hint_for(CliQuestionType::String, choices, fields, catalog).example == catalog::message(
            catalog,
            "cli.type_hint.string.example"@,
        ),
        hint_for(CliQuestionType::Boolean, choices, fields, catalog).example == catalog::message(
            catalog,
            "cli.type_hint.boolean.example"@,
        ),
        hint_for(CliQuestionType::Integer, choices, fields, catalog).example == catalog::message(
            catalog,
            "cli.type_hint.integer.example"@,
        ),
        hint_for(CliQuestionType::Number, choices, fields, catalog).example == catalog::message(
            catalog,
            "cli.type_hint.number.example"@,
        ),
{
}

/// A default is asked for in the words for its kind of question, with the choices of
/// an enum question that has any.
pub proof fn law_default_prompts(choices: Option<Seq<Seq<char>>>, catalog: CatalogView)
    ensures
        default_prompt(CliQuestionType::Boolean, choices, catalog) == catalog::message(
            catalog,
            "cli.prompt.default_value_boolean"@,
        ),
        default_prompt(CliQuestionType::Integer, choices, catalog) == catalog::message(
            catalog,
            "cli.prompt.default_value_integer"@,
        ),
        default_prompt(CliQuestionType::Number, choices, catalog) == catalog::message(
            catalog,
            "cli.prompt.default_value_number"@,
        ),
        default_prompt(CliQuestionType::String, choices, catalog) == catalog::message(
            catalog,
            "cli.prompt.default_value"@,
        ),
        choices is Some && choices->0.len() > 0 ==> default_prompt(
            CliQuestionType::Enum,
            choices,
            catalog,
        ) == catalog::message_with(
            catalog,
            "cli.prompt.default_value_enum_one_of"@,
            seq![("choices"@, text::joined(choices->0, "/"@))],
        ),
        !(choices is Some && choices->0.len() > 0) ==> default_prompt(
            CliQuestionType::Enum,
            choices,
            catalog,
        ) == catalog::message(catalog, "cli.prompt.default_value_enum"@),
{
}

/// Ids are listed, or said to be none.
pub proof fn law_ids_text(ids: Seq<Seq<char>>, catalog: CatalogView)
    ensures
        ids.len() == 0 ==> ids_text(ids, catalog) == catalog::message(catalog, "cli.common.none"@),
        ids.len() == 1 ==> ids_text(ids, catalog) == ids[0],
        ids.len() > 1 ==> ids_text(ids, catalog) == ids_text(ids.drop_last(), catalog) + ", "@
            + ids.last(),
{
}

/// A prompt that must be answered says so of its label, without the white space
/// around it; an example of a list is the words for one.
pub proof fn law_required_prompts(
    prompt: Seq<char>,
    choices: Option<Seq<Seq<char>>>,
    fields: Option<Seq<QuestionInputView>>,
    catalog: CatalogView,
)
    ensures
        required_prompt(prompt, catalog) == catalog::message_with(
            catalog,
            "cli.prompt.required_label"@,
            seq![("label"@, text::trimmed(prompt))],
        ),
        hint_for(CliQuestionType::List, choices, fields, catalog).example == catalog::message(
            catalog,
            "cli.type_hint.list.example"@,
        ),
        fields is None ==> hint_for(CliQuestionType::List, choices, fields, catalog).expected
            == catalog::message_with(
            catalog,
            "cli.type_hint.list.expected"@,
            seq![("fields"@, catalog::message(catalog, "cli.type_hint.list.fields"@))],
        ),
{
}

} // verus!
