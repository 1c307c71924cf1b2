//! Forms made from a description: its checks, the form and the files of a bundle.
use crate::catalog::{self, t, tf1, tf2, CatalogView, I18n};
use crate::entries;
use crate::form::{
    self, copy_opt_expr, copy_opt_texts, copy_rules, Bound, BoundView, Constraint, ConstraintView,
    CrossFieldValidation, Expr, ExprView, FormPresentation, FormSpec, FormView, ListSpec, ListView,
    PresentationView, ProgressPolicy, QuestionSpec, QuestionType, QuestionView, RuleView,
};
use crate::json::{self, double_below, Json};
use crate::json_text;
use crate::paths;
use crate::text::{
    self, blank, cat, cat3, chars_of, contains_text, copy_opt, number_text, same, text_of,
    to_lower, trim,
};
use vstd::prelude::*;

verus! {

/// What a bundle is made from.
#[derive(Debug, PartialEq)]
pub struct GenerationInput {
    pub dir_name: String,
    pub summary_md: Option<String>,
    pub form: FormInput,
    pub questions: Vec<QuestionInput>,
    pub validations: Vec<CrossFieldValidation>,
}

/// What is said of a form.
#[derive(Debug, PartialEq)]
pub struct FormInput {
    pub id: String,
    pub title: String,
    pub version: String,
    pub description: Option<String>,
    pub progress_policy: Option<ProgressPolicyInput>,
}

/// How progress through a form is to be counted.
#[derive(Debug, Clone, Copy, PartialEq, Eq, Structural)]
pub struct ProgressPolicyInput {
    pub skip_answered: bool,
    pub autofill_defaults: bool,
    pub treat_default_as_answered: bool,
}

impl Default for ProgressPolicyInput {
    fn default() -> (r: ProgressPolicyInput)
        ensures
            r == default_policy(),
    {
        ProgressPolicyInput {
            skip_answered: true,
            autofill_defaults: false,
            treat_default_as_answered: false,
        }
    }
}

/// How progress is counted where nothing is said of it.
pub open spec fn default_policy() -> ProgressPolicyInput {
    ProgressPolicyInput {
        skip_answered: true,
        autofill_defaults: false,
        treat_default_as_answered: false,
    }
}

/// The kinds of question that can be made.
#[derive(Debug, Clone, Copy, PartialEq, Eq, Structural)]
pub enum CliQuestionType {
    String,
    Boolean,
    Integer,
    Number,
    Enum,
    List,
}

impl Default for CliQuestionType {
    fn default() -> (r: CliQuestionType)
        ensures
            r == CliQuestionType::String,
    {
        CliQuestionType::String
    }
}

/// What is said of a question.
#[derive(Debug, PartialEq)]
pub struct QuestionInput {
    pub id: String,
    pub kind: CliQuestionType,
    pub title: String,
    pub description: Option<String>,
    pub required: bool,
    pub default_value: Option<String>,
    pub choices: Option<Vec<String>>,
    pub secret: bool,
    pub list: Option<ListInput>,
    pub visible_if: Option<Expr>,
    pub constraint: Option<Constraint>,
    pub computed: Option<Expr>,
    pub computed_overridable: bool,
}

/// What is said of the entries of a list question.
#[derive(Debug, PartialEq)]
pub struct ListInput {
    pub min_items: Option<usize>,
    pub max_items: Option<usize>,
    pub fields: Vec<QuestionInput>,
}

#[verifier::ext_equal]
pub struct QuestionInputView {
    pub id: Seq<char>,
    pub kind: CliQuestionType,
    pub title: Seq<char>,
    pub description: Option<Seq<char>>,
    pub required: bool,
    pub default_value: Option<Seq<char>>,
    pub choices: Option<Seq<Seq<char>>>,
    pub secret: bool,
    pub list: Option<ListInputView>,
    pub visible_if: Option<ExprView>,
    pub constraint: Option<ConstraintView>,
    pub computed: Option<ExprView>,
    pub computed_overridable: bool,
}

#[verifier::ext_equal]
pub struct ListInputView {
    pub min_items: Option<usize>,
    pub max_items: Option<usize>,
    pub fields: Seq<QuestionInputView>,
}

#[verifier::ext_equal]
pub struct FormInputView {
    pub id: Seq<char>,
    pub title: Seq<char>,
    pub version: Seq<char>,
    pub description: Option<Seq<char>>,
    pub progress_policy: Option<ProgressPolicyInput>,
}

#[verifier::ext_equal]
pub struct GenerationInputView {
    pub dir_name: Seq<char>,
    pub summary_md: Option<Seq<char>>,
    pub form: FormInputView,
    pub questions: Seq<QuestionInputView>,
    pub validations: Seq<RuleView>,
}

pub open spec fn question_input_view(q: QuestionInput) -> QuestionInputView
    decreases q,
{
    QuestionInputView {
        id: q.id@,
        kind: q.kind,
        title: q.title@,
        description: text::opt_text(q.description),
        required: q.required,
        default_value: text::opt_text(q.default_value),
        choices: form::opt_texts(q.choices),
        secret: q.secret,
        list: match q.list {
            Some(l) => Some(
                ListInputView {
                    min_items: l.min_items,
                    max_items: l.max_items,
                    fields: Seq::new(
                        l.fields@.len(),
                        |i: int|
                            if 0 <= i < l.fields@.len() {
                                question_input_view(l.fields@[i])
                            } else {
                                vstd::pervasive::arbitrary()
                            },
                    ),
                },
            ),
            None => None,
        },
        visible_if: form::opt_expr(q.visible_if),
        constraint: form::opt_constraint(q.constraint),
        computed: form::opt_expr(q.computed),
        computed_overridable: q.computed_overridable,
    }
}

impl View for QuestionInput {
    type V = QuestionInputView;

    open spec fn view(&self) -> QuestionInputView {
        question_input_view(*self)
    }
}

/// A list of questions, viewed.
pub open spec fn inputs_view(list: Seq<QuestionInput>) -> Seq<QuestionInputView> {
    Seq::new(list.len(), |i: int| list[i]@)
}

impl View for ListInput {
    type V = ListInputView;

    open spec fn view(&self) -> ListInputView {
        ListInputView {
            min_items: self.min_items,
            max_items: self.max_items,
            fields: inputs_view(self.fields@),
        }
    }
}

/// The list part of a question's view is the view of its list part.
pub proof fn lemma_input_list(q: QuestionInput)
    ensures
        q@.list == match q.list {
            Some(l) => Some(l@),
            None => None,
        },
{
    match q.list {
        Some(l) => {
            assert(q@.list->0.fields =~= inputs_view(l.fields@));
        },
        None => {},
    }
}

impl View for FormInput {
    type V = FormInputView;

    open spec fn view(&self) -> FormInputView {
        FormInputView {
            id: self.id@,
            title: self.title@,
            version: self.version@,
            description: text::opt_text(self.description),
            progress_policy: self.progress_policy,
        }
    }
}

impl View for GenerationInput {
    type V = GenerationInputView;

    open spec fn view(&self) -> GenerationInputView {
        GenerationInputView {
            dir_name: self.dir_name@,
            summary_md: text::opt_text(self.summary_md),
            form: self.form@,
            questions: inputs_view(self.questions@),
            validations: form::rules_view(self.validations@),
        }
    }
}

/// Whether answered questions are skipped where nothing is said of it.
pub fn default_skip_answered() -> (r: bool)
    ensures
        r,
{
    true
}

/// Whether a question is required where nothing is said of it.
pub fn default_required() -> (r: bool)
    ensures
        r,
{
    true
}

/// The label of a kind.
pub open spec fn kind_label(kind: CliQuestionType) -> Seq<char> {
    match kind {
        CliQuestionType::String => "string"@,
        CliQuestionType::Boolean => "boolean"@,
        CliQuestionType::Integer => "integer"@,
        CliQuestionType::Number => "number"@,
        CliQuestionType::Enum => "enum"@,
        CliQuestionType::List => "list"@,
    }
}

/// The kind that a word stands for.
pub open spec fn kind_named(word: Seq<char>) -> Option<CliQuestionType> {
    if word == "string"@ || word == "str"@ {
        Some(CliQuestionType::String)
    } else if word == "boolean"@ || word == "bool"@ {
        Some(CliQuestionType::Boolean)
    } else if word == "integer"@ || word == "int"@ {
        Some(CliQuestionType::Integer)
    } else if word == "number"@ || word == "float"@ {
        Some(CliQuestionType::Number)
    } else if word == "enum"@ || word == "choice"@ {
        Some(CliQuestionType::Enum)
    } else if word == "list"@ {
        Some(CliQuestionType::List)
    } else {
        None
    }
}

/// The kind that a typed-in word stands for, in whatever case and with white
/// space around it, or the complaint about it.
pub open spec fn kind_typed(value: Seq<char>, catalog: CatalogView) -> Result<
    CliQuestionType,
    Seq<char>,
> {
    match kind_named(text::lowercase(text::trimmed(value))) {
        Some(kind) => Ok(kind),
        None => Err(
            catalog::message_with(
                catalog,
                "cli.builder.unknown_question_type"@,
                seq![("value"@, value)],
            ),
        ),
    }
}

/// The question type of a kind.
pub open spec fn type_of_kind(kind: CliQuestionType) -> QuestionType {
    match kind {
        CliQuestionType::String => QuestionType::String,
        CliQuestionType::Boolean => QuestionType::Boolean,
        CliQuestionType::Integer => QuestionType::Integer,
        CliQuestionType::Number => QuestionType::Number,
        CliQuestionType::Enum => QuestionType::Enum,
        CliQuestionType::List => QuestionType::List,
    }
}

impl CliQuestionType {
    /// The label of the kind.
    pub fn label(&self) -> (r: &'static str)
        ensures
            r@ == kind_label(*self),
    {
        match self {
            CliQuestionType::String => "string",
            CliQuestionType::Boolean => "boolean",
            CliQuestionType::Integer => "integer",
            CliQuestionType::Number => "number",
            CliQuestionType::Enum => "enum",
            CliQuestionType::List => "list",
        }
    }

    /// Reads a kind that was typed in.
    pub fn from_str(value: &str, i18n: &I18n) -> (r: Result<CliQuestionType, String>)
        ensures
            match r {
                Ok(kind) => kind_typed(value@, i18n@) == Ok::<CliQuestionType, Seq<char>>(kind),
                Err(message) => kind_typed(value@, i18n@) == Err::<CliQuestionType, Seq<char>>(
                    message@,
                ),
            },
    {
        let lowered = to_lower(trim(value).as_str());
        let word = lowered.as_str();
        if same(word, "string") || same(word, "str") {
            Ok(CliQuestionType::String)
        } else if same(word, "boolean") || same(word, "bool") {
            Ok(CliQuestionType::Boolean)
        } else if same(word, "integer") || same(word, "int") {
            Ok(CliQuestionType::Integer)
        } else if same(word, "number") || same(word, "float") {
            Ok(CliQuestionType::Number)
        } else if same(word, "enum") || same(word, "choice") {
            Ok(CliQuestionType::Enum)
        } else if same(word, "list") {
            Ok(CliQuestionType::List)
        } else {
            Err(tf1(i18n, "cli.builder.unknown_question_type", "value", value))
        }
    }

    /// The question type of the kind.
    pub fn to_question_type(self) -> (r: QuestionType)
        ensures
            r == type_of_kind(self),
    {
        match self {
            CliQuestionType::String => QuestionType::String,
            CliQuestionType::Boolean => QuestionType::Boolean,
            CliQuestionType::Integer => QuestionType::Integer,
            CliQuestionType::Number => QuestionType::Number,
            CliQuestionType::Enum => QuestionType::Enum,
            CliQuestionType::List => QuestionType::List,
        }
    }
}

/// A kind is found again by its label.
pub proof fn law_kind_label_round_trip(kind: CliQuestionType)
    ensures
        kind_named(kind_label(kind)) == Some(kind),
{
    reveal_strlit("string");
    reveal_strlit("str");
    reveal_strlit("boolean");
    reveal_strlit("bool");
    reveal_strlit("integer");
    reveal_strlit("int");
    reveal_strlit("number");
    reveal_strlit("float");
    reveal_strlit("enum");
    reveal_strlit("choice");
    reveal_strlit("list");
    assert("string"@.len() == 6 && "str"@.len() == 3 && "boolean"@.len() == 7);
    assert("bool"@.len() == 4 && "integer"@.len() == 7 && "int"@.len() == 3);
    assert("number"@.len() == 6 && "float"@.len() == 5 && "enum"@.len() == 4);
    assert("choice"@.len() == 6 && "list"@.len() == 4);
    assert("string"@[0] == 's' && "number"@[0] == 'n' && "choice"@[0] == 'c');
    assert("boolean"@[0] == 'b' && "integer"@[0] == 'i');
    assert("bool"@[0] == 'b' && "enum"@[0] == 'e' && "list"@[0] == 'l');
}

/// Whether a question has choices.
pub open spec fn has_choices(question: QuestionInputView) -> bool {
    match question.choices {
        Some(choices) => choices.len() > 0,
        None => false,
    }
}

/// Whether the upper limit of a range is below the lower one.
pub open spec fn reversed(min: Option<usize>, max: Option<usize>) -> bool {
    match (min, max) {
        (Some(min), Some(max)) => min > max,
        _ => false,
    }
}

/// What is wrong with the fields of a list from the `i`-th on, where those
/// before it are in order.
pub open spec fn fields_complaint(
    fields: Seq<QuestionInputView>,
    i: int,
    question_id: Seq<char>,
    catalog: CatalogView,
) -> Option<Seq<char>>
    decreases fields.len() - i,
{
    if i < 0 || i >= fields.len() {
        None
    } else {
        let field = fields[i];
        if text::is_blank(field.id) {
            Some(catalog::message(catalog, "cli.builder.list_field_id_empty"@))
        } else if input_ids(fields.take(i)).contains(field.id) {
            Some(
                catalog::message_with(
                    catalog,
                    "cli.builder.duplicate_field_id"@,
                    seq![("field_id"@, field.id), ("question_id"@, question_id)],
                ),
            )
        } else if field.kind is List {
            Some(catalog::message(catalog, "cli.builder.list_fields_cannot_be_lists"@))
        } else {
            fields_complaint(fields, i + 1, question_id, catalog)
        }
    }
}

/// The ids of a list of questions.
pub open spec fn input_ids(questions: Seq<QuestionInputView>) -> Seq<Seq<char>> {
    questions.map_values(|q: QuestionInputView| q.id)
}

/// What is wrong with the list part of a list question.
pub open spec fn list_complaint(question: QuestionInputView, catalog: CatalogView) -> Option<
    Seq<char>,
> {
    match question.list {
        None => Some(
            catalog::message_with(
                catalog,
                "cli.builder.list_question_metadata_required"@,
                seq![("id"@, question.id)],
            ),
        ),
        Some(list) => if list.fields.len() == 0 {
            Some(
                catalog::message_with(
                    catalog,
                    "cli.builder.list_question_fields_required"@,
                    seq![("id"@, question.id)],
                ),
            )
        } else if reversed(list.min_items, list.max_items) {
            Some(
                catalog::message_with(
                    catalog,
                    "cli.builder.list_question_min_gt_max"@,
                    seq![("id"@, question.id)],
                ),
            )
        } else {
            fields_complaint(list.fields, 0, question.id, catalog)
        },
    }
}

/// Whether the numeric limits of a constraint are reversed.
pub open spec fn bounds_reversed(constraint: ConstraintView) -> bool {
    match (constraint.min, constraint.max) {
        (Some(min), Some(max)) => json::double_less(max.bits, min.bits),
        _ => false,
    }
}

/// What is wrong with a constraint.
pub open spec fn constraint_complaint(constraint: ConstraintView, catalog: CatalogView) -> Option<
    Seq<char>,
> {
    if bounds_reversed(constraint) {
        Some(
            catalog::message_with(
                catalog,
                "cli.builder.constraint_min_gt_max"@,
                seq![("min"@, constraint.min->0.text), ("max"@, constraint.max->0.text)],
            ),
        )
    } else if reversed(constraint.min_len, constraint.max_len) {
        Some(
            catalog::message_with(
                catalog,
                "cli.builder.constraint_min_len_gt_max_len"@,
                seq![
                    ("min_len"@, text::decimal(constraint.min_len->0 as nat)),
                    ("max_len"@, text::decimal(constraint.max_len->0 as nat)),
                ],
            ),
        )
    } else {
        None
    }
}

/// What is wrong with a question after those before it.
pub open spec fn question_complaint(
    question: QuestionInputView,
    before: Seq<Seq<char>>,
    catalog: CatalogView,
) -> Option<Seq<char>> {
    if text::is_blank(question.id) {
        Some(catalog::message(catalog, "cli.builder.question_id_empty"@))
    } else if before.contains(question.id) {
        Some(
            catalog::message_with(
                catalog,
                "cli.builder.duplicate_question_id"@,
                seq![("id"@, question.id)],
            ),
        )
    } else if question.kind is Enum && !has_choices(question) {
        Some(
            catalog::message_with(
                catalog,
                "cli.builder.enum_question_choices_required"@,
                seq![("id"@, question.id)],
            ),
        )
    } else if question.kind is List && list_complaint(question, catalog) is Some {
        list_complaint(question, catalog)
    } else {
        match question.constraint {
            Some(constraint) => constraint_complaint(constraint, catalog),
            None => None,
        }
    }
}

/// What is wrong with the questions from the `i`-th on.
pub open spec fn questions_complaint(
    questions: Seq<QuestionInputView>,
    i: int,
    catalog: CatalogView,
) -> Option<Seq<char>>
    decreases questions.len() - i,
{
    if i < 0 || i >= questions.len() {
        None
    } else {
        match question_complaint(questions[i], input_ids(questions.take(i)), catalog) {
            Some(complaint) => Some(complaint),
            None => questions_complaint(questions, i + 1, catalog),
        }
    }
}

/// The name under which a rule is complained about.
pub open spec fn rule_name(rule: RuleView, catalog: CatalogView) -> Seq<char> {
    match rule.id {
        Some(id) => id,
        None => catalog::message(catalog, "cli.common.unnamed"@),
    }
}

/// What is wrong with the fields of a rule from the `i`-th on.
pub open spec fn rule_fields_complaint(
    rule: RuleView,
    i: int,
    ids: Seq<Seq<char>>,
    catalog: CatalogView,
) -> Option<Seq<char>>
    decreases rule.fields.len() - i,
{
    if i < 0 || i >= rule.fields.len() {
        None
    } else if ids.contains(rule.fields[i]) {
        rule_fields_complaint(rule, i + 1, ids, catalog)
    } else {
        Some(
            catalog::message_with(
                catalog,
                "cli.builder.validation_unknown_field"@,
                seq![("validation"@, rule_name(rule, catalog)), ("field"@, rule.fields[i])],
            ),
        )
    }
}

/// What is wrong with a rule.
pub open spec fn rule_complaint(rule: RuleView, ids: Seq<Seq<char>>, catalog: CatalogView)
    -> Option<Seq<char>> {
    if text::is_blank(rule.message) {
        Some(catalog::message(catalog, "cli.builder.validation_message_required"@))
    } else if rule.fields.len() == 0 {
        Some(catalog::message(catalog, "cli.builder.validation_field_required"@))
    } else {
        rule_fields_complaint(rule, 0, ids, catalog)
    }
}

/// What is wrong with the rules from the `i`-th on.
pub open spec fn rules_complaint(
    rules: Seq<RuleView>,
    i: int,
    ids: Seq<Seq<char>>,
    catalog: CatalogView,
) -> Option<Seq<char>>
    decreases rules.len() - i,
{
    if i < 0 || i >= rules.len() {
        None
    } else {
        match rule_complaint(rules[i], ids, catalog) {
            Some(complaint) => Some(complaint),
            None => rules_complaint(rules, i + 1, ids, catalog),
        }
    }
}

/// What is wrong with a description of a form: the first thing that is found.
pub open spec fn input_complaint(input: GenerationInputView, catalog: CatalogView) -> Option<
    Seq<char>,
> {
    if text::is_blank(input.dir_name) {
        Some(catalog::message(catalog, "cli.builder.dir_name_required"@))
    } else if text::is_blank(input.form.id) {
        Some(catalog::message(catalog, "cli.builder.form_id_required"@))
    } else if input.questions.len() == 0 {
        Some(catalog::message(catalog, "cli.builder.at_least_one_question"@))
    } else {
        match questions_complaint(input.questions, 0, catalog) {
            Some(complaint) => Some(complaint),
            None => rules_complaint(input.validations, 0, input_ids(input.questions), catalog),
        }
    }
}

/// What a check found, viewed.
pub open spec fn complaint_view(r: Result<(), String>) -> Option<Seq<char>> {
    match r {
        Ok(_) => None,
        Err(message) => Some(message@),
    }
}

fn range_reversed(min: Option<usize>, max: Option<usize>) -> (r: bool)
    ensures
        r == reversed(min, max),
{
    match (min, max) {
        (Some(min), Some(max)) => min > max,
        _ => false,
    }
}

/// Checks the fields of a list question.
fn check_fields(question: &QuestionInput, fields: &Vec<QuestionInput>, i18n: &I18n) -> (r: Result<
    (),
    String,
>)
    ensures
        complaint_view(r) == fields_complaint(inputs_view(fields@), 0, question.id@, i18n@),
{
    let ghost views = inputs_view(fields@);
    let mut seen: Vec<String> = Vec::new();
    let mut i: usize = 0;
    assert(text::texts(seen@) =~= input_ids(views.take(0)));
    while i < fields.len()
        invariant
            i <= fields@.len(),
            views == inputs_view(fields@),
            text::texts(seen@) == input_ids(views.take(i as int)),
            fields_complaint(views, 0, question.id@, i18n@) == fields_complaint(
                views,
                i as int,
                question.id@,
                i18n@,
            ),
        decreases fields.len() - i,
    {
        let field = &fields[i];
        assert(views[i as int] == field@);
        if blank(field.id.as_str()) {
            return Err(t(i18n, "cli.builder.list_field_id_empty"));
        }
        if contains_text(&seen, field.id.as_str()) {
            return Err(
                tf2(
                    i18n,
                    "cli.builder.duplicate_field_id",
                    "field_id",
                    field.id.as_str(),
                    "question_id",
                    question.id.as_str(),
                ),
            );
        }
        if matches!(field.kind, CliQuestionType::List) {
            return Err(t(i18n, "cli.builder.list_fields_cannot_be_lists"));
        }
        let ghost before = text::texts(seen@);
        seen.push(field.id.clone());
        assert(text::texts(seen@) =~= before.push(field.id@));
        assert(input_ids(views.take(i + 1)) =~= input_ids(views.take(i as int)).push(field.id@));
        i += 1;
    }
    Ok(())
}

/// Checks the list part of a list question.
fn check_list(question: &QuestionInput, i18n: &I18n) -> (r: Result<(), String>)
    ensures
        complaint_view(r) == list_complaint(question@, i18n@),
{
    proof {
        lemma_input_list(*question);
    }
    let list = match &question.list {
        Some(list) => list,
        None => {
            return Err(
                tf1(
                    i18n,
                    "cli.builder.list_question_metadata_required",
                    "id",
                    question.id.as_str(),
                ),
            );
        },
    };
    if list.fields.len() == 0 {
        return Err(
            tf1(
                i18n,
                "cli.builder.list_question_fields_required",
                "id",
                question.id.as_str(),
            ),
        );
    }
    if range_reversed(list.min_items, list.max_items) {
        return Err(
            tf1(i18n, "cli.builder.list_question_min_gt_max", "id", question.id.as_str()),
        );
    }
    check_fields(question, &list.fields, i18n)
}

/// Checks a constraint.
fn check_constraint(constraint: &Constraint, i18n: &I18n) -> (r: Result<(), String>)
    ensures
        complaint_view(r) == constraint_complaint(constraint@, i18n@),
{
    if let (Some(min), Some(max)) = (&constraint.min, &constraint.max) {
        if double_below(max.bits, min.bits) {
            return Err(
                tf2(
                    i18n,
                    "cli.builder.constraint_min_gt_max",
                    "min",
                    min.text.as_str(),
                    "max",
                    max.text.as_str(),
                ),
            );
        }
    }
    if let (Some(min_len), Some(max_len)) = (constraint.min_len, constraint.max_len) {
        if min_len > max_len {
            return Err(
                tf2(
                    i18n,
                    "cli.builder.constraint_min_len_gt_max_len",
                    "min_len",
                    number_text(min_len).as_str(),
                    "max_len",
                    number_text(max_len).as_str(),
                ),
            );
        }
    }
    Ok(())
}

/// Checks a question after those whose ids were seen.
fn check_question(question: &QuestionInput, seen: &Vec<String>, i18n: &I18n) -> (r: Result<
    (),
    String,
>)
    ensures
        complaint_view(r) == question_complaint(question@, text::texts(seen@), i18n@),
{
    if blank(question.id.as_str()) {
        return Err(t(i18n, "cli.builder.question_id_empty"));
    }
    if contains_text(seen, question.id.as_str()) {
        return Err(tf1(i18n, "cli.builder.duplicate_question_id", "id", question.id.as_str()));
    }
    if matches!(question.kind, CliQuestionType::Enum) {
        let offered = match &question.choices {
            Some(choices) => {
                assert(text::texts(choices@).len() == choices@.len());
                choices.len() > 0
            },
            None => false,
        };
        if !offered {
            return Err(
                tf1(
                    i18n,
                    "cli.builder.enum_question_choices_required",
                    "id",
                    question.id.as_str(),
                ),
            );
        }
    }
    if matches!(question.kind, CliQuestionType::List) {
        if let Err(complaint) = check_list(question, i18n) {
            return Err(complaint);
        }
    }
    match &question.constraint {
        Some(constraint) => check_constraint(constraint, i18n),
        None => Ok(()),
    }
}

/// Checks a rule.
fn check_rule(rule: &CrossFieldValidation, ids: &Vec<String>, i18n: &I18n) -> (r: Result<
    (),
    String,
>)
    ensures
        complaint_view(r) == rule_complaint(rule@, text::texts(ids@), i18n@),
{
    if blank(rule.message.as_str()) {
        return Err(t(i18n, "cli.builder.validation_message_required"));
    }
    let ghost views = rule@.fields;
    assert(views.len() == rule.fields@.len());
    if rule.fields.len() == 0 {
        return Err(t(i18n, "cli.builder.validation_field_required"));
    }
    let mut i: usize = 0;
    while i < rule.fields.len()
        invariant
            i <= rule.fields@.len(),
            views == text::texts(rule.fields@),
            views == rule@.fields,
            rule_fields_complaint(rule@, 0, text::texts(ids@), i18n@) == rule_fields_complaint(
                rule@,
                i as int,
                text::texts(ids@),
                i18n@,
            ),
            !text::is_blank(rule.message@),
            views.len() > 0,
        decreases rule.fields.len() - i,
    {
        assert(views.len() == rule.fields@.len());
        assert(views[i as int] == rule.fields@[i as int]@);
        if !contains_text(ids, rule.fields[i].as_str()) {
            let name = match &rule.id {
                Some(id) => id.clone(),
                None => t(i18n, "cli.common.unnamed"),
            };
            assert(name@ == rule_name(rule@, i18n@));
            return Err(
                tf2(
                    i18n,
                    "cli.builder.validation_unknown_field",
                    "validation",
                    name.as_str(),
                    "field",
                    rule.fields[i].as_str(),
                ),
            );
        }
        i += 1;
    }
    Ok(())
}

/// Checks a description of a form.
pub fn validate_input(input: &GenerationInput, i18n: &I18n) -> (r: Result<(), String>)
    ensures
        complaint_view(r) == input_complaint(input@, i18n@),
{
    if blank(input.dir_name.as_str()) {
        return Err(t(i18n, "cli.builder.dir_name_required"));
    }
    if blank(input.form.id.as_str()) {
        return Err(t(i18n, "cli.builder.form_id_required"));
    }
    let ghost views = input@.questions;
    assert(views.len() == input.questions@.len());
    if input.questions.len() == 0 {
        return Err(t(i18n, "cli.builder.at_least_one_question"));
    }
    let mut seen: Vec<String> = Vec::new();
    let mut i: usize = 0;
    assert(text::texts(seen@) =~= input_ids(views.take(0)));
    while i < input.questions.len()
        invariant
            i <= input.questions@.len(),
            views == inputs_view(input.questions@),
            text::texts(seen@) == input_ids(views.take(i as int)),
            questions_complaint(views, 0, i18n@) == questions_complaint(views, i as int, i18n@),
            !text::is_blank(input.dir_name@),
            !text::is_blank(input.form.id@),
            views.len() > 0,
        decreases input.questions.len() - i,
    {
        assert(views[i as int] == input.questions@[i as int]@);
        if let Err(complaint) = check_question(&input.questions[i], &seen, i18n) {
            return Err(complaint);
        }
        let ghost before = text::texts(seen@);
        let ghost id = views[i as int].id;
        seen.push(input.questions[i].id.clone());
        assert(text::texts(seen@) =~= before.push(id));
        assert(input_ids(views.take(i + 1)) =~= input_ids(views.take(i as int)).push(id));
        i += 1;
    }
    assert(views.take(i as int) =~= views);
    let ghost rules = input@.validations;
    let mut k: usize = 0;
    while k < input.validations.len()
        invariant
            k <= input.validations@.len(),
            rules == form::rules_view(input.validations@),
            views == inputs_view(input.questions@),
            text::texts(seen@) == input_ids(views),
            rules_complaint(rules, 0, input_ids(views), i18n@) == rules_complaint(
                rules,
                k as int,
                input_ids(views),
                i18n@,
            ),
            questions_complaint(views, 0, i18n@) is None,
            !text::is_blank(input.dir_name@),
            !text::is_blank(input.form.id@),
            views.len() > 0,
        decreases input.validations.len() - k,
    {
        assert(rules[k as int] == input.validations@[k as int]@);
        if let Err(complaint) = check_rule(&input.validations[k], &seen, i18n) {
            return Err(complaint);
        }
        k += 1;
    }
    Ok(())
}

/// How progress is counted.
pub open spec fn policy_for(input: Option<ProgressPolicyInput>) -> ProgressPolicy {
    let policy = match input {
        Some(policy) => policy,
        None => default_policy(),
    };
    ProgressPolicy {
        skip_answered: policy.skip_answered,
        autofill_defaults: policy.autofill_defaults,
        treat_default_as_answered: policy.treat_default_as_answered,
    }
}

/// How progress is counted.
pub fn compute_progress_policy(input: Option<ProgressPolicyInput>) -> (r: ProgressPolicy)
    ensures
        r == policy_for(input),
{
    let policy = match input {
        Some(policy) => policy,
        None => ProgressPolicyInput::default(),
    };
    ProgressPolicy {
        skip_answered: policy.skip_answered,
        autofill_defaults: policy.autofill_defaults,
        treat_default_as_answered: policy.treat_default_as_answered,
    }
}

/// A numeric limit that a form can hold: one that is not finite is none.
pub open spec fn kept_bound(bound: Option<BoundView>) -> Option<BoundView> {
    match bound {
        Some(bound) => if json_text::is_finite(bound.bits) {
            Some(bound)
        } else {
            None
        },
        None => None,
    }
}

/// The limits that a form can hold.
pub open spec fn kept_constraint(constraint: Option<ConstraintView>) -> Option<ConstraintView> {
    match constraint {
        Some(constraint) => Some(
            ConstraintView {
                min: kept_bound(constraint.min),
                max: kept_bound(constraint.max),
                ..constraint
            },
        ),
        None => None,
    }
}

/// The question of a form that a description comes to.
pub open spec fn question_made(q: QuestionInputView) -> QuestionView
    decreases q,
{
    QuestionView {
        id: q.id,
        kind: type_of_kind(q.kind),
        title: q.title,
        title_i18n: None,
        description: q.description,
        description_i18n: None,
        required: q.required,
        choices: if q.kind is Enum {
            q.choices
        } else {
            None
        },
        default_value: q.default_value,
        secret: q.secret,
        visible_if: q.visible_if,
        constraint: kept_constraint(q.constraint),
        list: match q.list {
            Some(l) => Some(
                ListView {
                    min_items: l.min_items,
                    max_items: l.max_items,
                    fields: Seq::new(
                        l.fields.len(),
                        |i: int|
                            if 0 <= i < l.fields.len() {
                                question_made(l.fields[i])
                            } else {
                                vstd::pervasive::arbitrary()
                            },
                    ),
                },
            ),
            None => None,
        },
        computed: q.computed,
        computed_overridable: q.computed_overridable,
    }
}

fn keep_bound(bound: &Option<Bound>) -> (r: Option<Bound>)
    ensures
        form::opt_bound(r) == kept_bound(form::opt_bound(*bound)),
{
    match bound {
        Some(bound) => if json_text::finite(bound.bits) {
            Some(bound.clone())
        } else {
            None
        },
        None => None,
    }
}

fn keep_constraint(constraint: &Option<Constraint>) -> (r: Option<Constraint>)
    ensures
        form::opt_constraint(r) == kept_constraint(form::opt_constraint(*constraint)),
{
    match constraint {
        Some(constraint) => Some(
            Constraint {
                pattern: copy_opt(&constraint.pattern),
                min: keep_bound(&constraint.min),
                max: keep_bound(&constraint.max),
                min_len: constraint.min_len,
                max_len: constraint.max_len,
            },
        ),
        None => None,
    }
}

/// The fields of a list are smaller than the question.
proof fn lemma_input_field_smaller(question: QuestionInput, i: int)
    requires
        question.list is Some,
        0 <= i < question.list->0.fields@.len(),
    ensures
        decreases_to!(question => question.list->0.fields@[i]),
{
    assert(decreases_to!(question => question.list));
    assert(decreases_to!(question.list => question.list->0));
    assert(decreases_to!(question.list->0 => question.list->0.fields));
    assert(decreases_to!(question.list->0.fields => question.list->0.fields@));
    assert(decreases_to!(question.list->0.fields@ => question.list->0.fields@[i]));
}

/// Makes the question of a form from its description.
pub fn to_question_spec(question: &QuestionInput) -> (r: QuestionSpec)
    ensures
        r@ == question_made(question@),
    decreases question,
{
    proof {
        lemma_input_list(*question);
    }
    let choices = match question.kind {
        CliQuestionType::Enum => copy_opt_texts(&question.choices),
        _ => None,
    };
    let list = match &question.list {
        Some(list) => {
            let mut fields: Vec<QuestionSpec> = Vec::new();
            let mut i: usize = 0;
            while i < list.fields.len()
                invariant
                    i <= list.fields@.len(),
                    question.list == Some(*list),
                    fields@.len() == i,
                    forall|k: int|
                        0 <= k < i ==> (#[trigger] fields@[k])@ == question_made(list.fields@[k]@),
                decreases list.fields.len() - i,
            {
                proof {
                    lemma_input_field_smaller(*question, i as int);
                }
                let field = to_question_spec(&list.fields[i]);
                fields.push(field);
                i += 1;
            }
            assert(form::questions_view(fields@) =~= question_made(question@).list->0.fields);
            Some(ListSpec { min_items: list.min_items, max_items: list.max_items, fields })
        },
        None => None,
    };
    let made = QuestionSpec {
        id: question.id.clone(),
        kind: question.kind.to_question_type(),
        title: question.title.clone(),
        title_i18n: None,
        description: copy_opt(&question.description),
        description_i18n: None,
        required: question.required,
        choices,
        default_value: copy_opt(&question.default_value),
        secret: question.secret,
        visible_if: copy_opt_expr(&question.visible_if),
        constraint: keep_constraint(&question.constraint),
        list,
        computed: copy_opt_expr(&question.computed),
        computed_overridable: question.computed_overridable,
    };
    proof {
        form::lemma_question_list(made);
    }
    assert(made@ =~= question_made(question@));
    made
}

/// The form that a description comes to.
pub open spec fn form_made(input: GenerationInputView) -> FormView {
    FormView {
        id: input.form.id,
        title: input.form.title,
        version: input.form.version,
        description: input.form.description,
        presentation: match input.summary_md {
            Some(intro) => Some(
                PresentationView { intro: Some(intro), theme: None, default_locale: None },
            ),
            None => None,
        },
        progress_policy: Some(policy_for(input.form.progress_policy)),
        secrets_policy: None,
        store: Seq::empty(),
        validations: input.validations,
        includes: Seq::empty(),
        questions: input.questions.map_values(|q: QuestionInputView| question_made(q)),
    }
}

/// Makes a form from its description.
pub fn build_form(input: &GenerationInput, i18n: &I18n) -> (r: Result<FormSpec, String>)
    ensures
        match r {
            Ok(form) => input_complaint(input@, i18n@) is None && form@ == form_made(input@),
            Err(message) => input_complaint(input@, i18n@) == Some(message@),
        },
{
    if let Err(complaint) = validate_input(input, i18n) {
        return Err(complaint);
    }
    let mut questions: Vec<QuestionSpec> = Vec::new();
    let mut i: usize = 0;
    while i < input.questions.len()
        invariant
            i <= input.questions@.len(),
            questions@.len() == i,
            forall|k: int|
                0 <= k < i ==> (#[trigger] questions@[k])@ == question_made(input.questions@[k]@),
        decreases input.questions.len() - i,
    {
        questions.push(to_question_spec(&input.questions[i]));
        i += 1;
    }
    let presentation = match &input.summary_md {
        Some(intro) => Some(
            FormPresentation { intro: Some(intro.clone()), theme: None, default_locale: None },
        ),
        None => None,
    };
    let form = FormSpec {
        id: input.form.id.clone(),
        title: input.form.title.clone(),
        version: input.form.version.clone(),
        description: copy_opt(&input.form.description),
        presentation,
        progress_policy: Some(compute_progress_policy(input.form.progress_policy)),
        secrets_policy: None,
        store: Vec::new(),
        validations: copy_rules(&input.validations),
        includes: Vec::new(),
        questions,
    };
    assert(form@.questions =~= form_made(input@).questions);
    assert(form@.store =~= Seq::empty());
    assert(form@.includes =~= Seq::empty());
    Ok(form)
}

/// A step of a flow.
#[derive(Debug, PartialEq)]
pub enum StepSpec {
    Question { question_id: String, next: Option<String> },
    End,
}

#[verifier::ext_equal]
pub enum StepView {
    Question { question_id: Seq<char>, next: Option<Seq<char>> },
    End,
}

impl View for StepSpec {
    type V = StepView;

    open spec fn view(&self) -> StepView {
        match *self {
            StepSpec::Question { question_id, next } => StepView::Question {
                question_id: question_id@,
                next: text::opt_text(next),
            },
            StepSpec::End => StepView::End,
        }
    }
}

/// The order in which a form's questions are asked. The steps stand in the order
/// of their names.
#[derive(Debug, PartialEq)]
pub struct QAFlowSpec {
    pub id: String,
    pub title: String,
    pub version: String,
    pub entry: String,
    pub steps: Vec<(String, StepSpec)>,
}

#[verifier::ext_equal]
pub struct FlowView {
    pub id: Seq<char>,
    pub title: Seq<char>,
    pub version: Seq<char>,
    pub entry: Seq<char>,
    pub steps: Seq<(Seq<char>, StepView)>,
}

/// The steps of a flow, viewed.
pub open spec fn steps_view(steps: Seq<(String, StepSpec)>) -> Seq<(Seq<char>, StepView)> {
    steps.map_values(|e: (String, StepSpec)| (e.0@, e.1@))
}

impl View for QAFlowSpec {
    type V = FlowView;

    open spec fn view(&self) -> FlowView {
        FlowView {
            id: self.id@,
            title: self.title@,
            version: self.version@,
            entry: self.entry@,
            steps: steps_view(self.steps@),
        }
    }
}

/// Whether a character can stand in a name.
pub open spec fn name_char(c: char) -> bool {
    text::ascii_alphanumeric(c) || c == '-' || c == '_'
}

/// A text as a name: characters that cannot stand in one are replaced, and an
/// empty text has a name of its own.
pub open spec fn as_name(value: Seq<char>, replacement: char, empty: Seq<char>) -> Seq<char> {
    if value.len() == 0 {
        empty
    } else {
        value.map_values(
            |c: char|
                if name_char(c) {
                    c
                } else {
                    replacement
                },
        )
    }
}

fn make_name(value: &str, replacement: char, empty: &str) -> (r: String)
    ensures
        r@ == as_name(value@, replacement, empty@),
{
    let chars = chars_of(value);
    if chars.len() == 0 {
        return empty.to_owned();
    }
    let mut out: Vec<char> = Vec::new();
    let mut i: usize = 0;
    while i < chars.len()
        invariant
            i <= chars@.len(),
            out@.len() == i,
            forall|k: int|
                0 <= k < i ==> #[trigger] out@[k] == if name_char(chars@[k]) {
                    chars@[k]
                } else {
                    replacement
                },
        decreases chars.len() - i,
    {
        let c = chars[i];
        let keeps = ('a' <= c && c <= 'z') || ('A' <= c && c <= 'Z') || ('0' <= c && c <= '9') || c
            == '-' || c == '_';
        out.push(
            if keeps {
                c
            } else {
                replacement
            },
        );
        i += 1;
    }
    assert(out@ =~= as_name(value@, replacement, empty@));
    text_of(&out)
}

/// A text as part of a step's name.
pub fn sanitize_identifier(value: &str) -> (r: String)
    ensures
        r@ == as_name(value@, '_', "step"@),
{
    make_name(value, '_', "step")
}

/// A text as part of a file's name.
pub fn sanitize_file_name(value: &str) -> (r: String)
    ensures
        r@ == as_name(value@, '-', "bundle"@),
{
    make_name(value, '-', "bundle")
}

/// The name of the step of a question.
pub open spec fn step_name(id: Seq<char>) -> Seq<char> {
    "question_"@ + as_name(id, '_', "step"@)
}

/// The name of the step of a question.
pub fn question_step_id(id: &str) -> (r: String)
    ensures
        r@ == step_name(id@),
{
    cat("question_", sanitize_identifier(id).as_str())
}

/// The step after the `i`-th question.
pub open spec fn next_step(questions: Seq<QuestionInputView>, i: int) -> Seq<char> {
    if i + 1 < questions.len() {
        step_name(questions[i + 1].id)
    } else {
        "complete"@
    }
}

/// The steps of the first `n` questions.
pub open spec fn question_steps(questions: Seq<QuestionInputView>, n: int) -> Seq<
    (Seq<char>, StepView),
>
    decreases n,
{
    if n <= 0 || n > questions.len() {
        Seq::empty()
    } else {
        entries::put(
            question_steps(questions, n - 1),
            step_name(questions[n - 1].id),
            StepView::Question {
                question_id: questions[n - 1].id,
                next: Some(next_step(questions, n - 1)),
            },
        )
    }
}

/// The steps of a flow: one for each question, and an end.
pub open spec fn flow_steps(questions: Seq<QuestionInputView>) -> Seq<(Seq<char>, StepView)> {
    entries::put(
        question_steps(questions, questions.len() as int),
        "complete"@,
        StepView::End,
    )
}

/// The flow through the questions of a form.
pub open spec fn flow_made(form: FormView, questions: Seq<QuestionInputView>) -> FlowView {
    FlowView {
        id: form.id + "-flow"@,
        title: form.title + " flow"@,
        version: form.version,
        entry: step_name(questions[0].id),
        steps: flow_steps(questions),
    }
}

fn put_step(steps: &mut Vec<(String, StepSpec)>, name: String, step: StepSpec)
    ensures
        steps_view(final(steps)@) == entries::put(steps_view(old(steps)@), name@, step@),
{
    proof {
        assert(entries::view_keys(steps_view(steps@)) =~= entries::keys_of(steps@));
        entries::lemma_slot(entries::keys_of(steps@), name@);
    }
    entries::insert(steps, name, step);
    assert(steps_view(steps@) =~= entries::put(steps_view(old(steps)@), name@, step@));
}

/// Makes the flow through the questions of a form.
pub fn build_flow_spec(form: &FormSpec, questions: &Vec<QuestionInput>) -> (r: QAFlowSpec)
    requires
        questions@.len() > 0,
    ensures
        r@ == flow_made(form@, inputs_view(questions@)),
{
    let ghost views = inputs_view(questions@);
    let mut steps: Vec<(String, StepSpec)> = Vec::new();
    assert(views[0] == questions@[0]@);
    let entry = question_step_id(questions[0].id.as_str());
    let mut i: usize = 0;
    assert(steps_view(steps@) =~= Seq::empty());
    while i < questions.len()
        invariant
            i <= questions@.len(),
            views == inputs_view(questions@),
            steps_view(steps@) == question_steps(views, i as int),
        decreases questions.len() - i,
    {
        assert(views[i as int] == questions@[i as int]@);
        let next = if i + 1 < questions.len() {
            assert(views[i + 1] == questions@[i + 1]@);
            question_step_id(questions[i + 1].id.as_str())
        } else {
            "complete".to_owned()
        };
        put_step(
            &mut steps,
            question_step_id(questions[i].id.as_str()),
            StepSpec::Question { question_id: questions[i].id.clone(), next: Some(next) },
        );
        i += 1;
    }
    put_step(&mut steps, "complete".to_owned(), StepSpec::End);
    QAFlowSpec {
        id: cat(form.id.as_str(), "-flow"),
        title: cat(form.title.as_str(), " flow"),
        version: form.version.clone(),
        entry,
        steps,
    }
}

/// A form with what is derived from it.
#[derive(Debug, PartialEq)]
pub struct GeneratedBundle {
    pub spec: FormSpec,
    pub flow: QAFlowSpec,
    pub schema: Json,
    pub examples: Json,
}

/// Makes a bundle: `schema` and `examples` are those of the form that the
/// description comes to.
pub fn build_bundle(input: &GenerationInput, schema: Json, examples: Json, i18n: &I18n) -> (r:
    Result<GeneratedBundle, String>)
    ensures
        match r {
            Ok(bundle) => {
                &&& input_complaint(input@, i18n@) is None
                &&& bundle.spec@ == form_made(input@)
                &&& bundle.flow@ == flow_made(form_made(input@), input@.questions)
                &&& bundle.schema == schema
                &&& bundle.examples == examples
            },
            Err(message) => input_complaint(input@, i18n@) == Some(message@),
        },
{
    let spec = match build_form(input, i18n) {
        Ok(spec) => spec,
        Err(complaint) => {
            return Err(complaint);
        },
    };
    assert(input@.questions.len() == input.questions@.len());
    let flow = build_flow_spec(&spec, &input.questions);
    Ok(GeneratedBundle { spec, flow, schema, examples })
}

/// Where the parts of a bundle go.
#[derive(Debug, PartialEq)]
pub struct BundlePaths {
    pub bundle_dir: String,
    pub forms_dir: String,
    pub flows_dir: String,
    pub examples_dir: String,
    pub schemas_dir: String,
    pub form_file: String,
    pub flow_file: String,
    pub example_file: String,
    pub schema_file: String,
    pub readme_file: String,
}

/// The file of one part of a bundle.
pub open spec fn part_file(
    rules: paths::RulesView,
    dir: Seq<char>,
    part: Seq<char>,
    base: Seq<char>,
    ending: Seq<char>,
) -> Seq<char> {
    paths::below(rules, paths::below(rules, dir, part), base + ending)
}

/// Says where the parts of a bundle go.
pub fn bundle_paths(
    rules: &paths::PathRules,
    out_root: &str,
    dir_name: &str,
    form_id: &str,
) -> (r: BundlePaths)
    ensures
        ({
            let dir = paths::below(rules@, out_root@, dir_name@);
            let base = as_name(form_id@, '-', "bundle"@);
            &&& r.bundle_dir@ == dir
            &&& r.forms_dir@ == paths::below(rules@, dir, "forms"@)
            &&& r.flows_dir@ == paths::below(rules@, dir, "flows"@)
            &&& r.examples_dir@ == paths::below(rules@, dir, "examples"@)
            &&& r.schemas_dir@ == paths::below(rules@, dir, "schemas"@)
            &&& r.form_file@ == part_file(rules@, dir, "forms"@, base, ".form.json"@)
            &&& r.flow_file@ == part_file(rules@, dir, "flows"@, base, ".qaflow.json"@)
            &&& r.example_file@ == part_file(rules@, dir, "examples"@, base, ".answers.example.json"@)
            &&& r.schema_file@ == part_file(rules@, dir, "schemas"@, base, ".answers.schema.json"@)
            &&& r.readme_file@ == paths::below(rules@, dir, "README.md"@)
        }),
{
    let bundle_dir = paths::join_path(rules, out_root, dir_name);
    let dir = bundle_dir.as_str();
    let base_name = sanitize_file_name(form_id);
    let base = base_name.as_str();
    let forms_dir = paths::join_path(rules, dir, "forms");
    let flows_dir = paths::join_path(rules, dir, "flows");
    let examples_dir = paths::join_path(rules, dir, "examples");
    let schemas_dir = paths::join_path(rules, dir, "schemas");
    let form_file = paths::join_path(rules, forms_dir.as_str(), cat(base, ".form.json").as_str());
    let flow_file = paths::join_path(rules, flows_dir.as_str(), cat(base, ".qaflow.json").as_str());
    let example_file = paths::join_path(
        rules,
        examples_dir.as_str(),
        cat(base, ".answers.example.json").as_str(),
    );
    let schema_file = paths::join_path(
        rules,
        schemas_dir.as_str(),
        cat(base, ".answers.schema.json").as_str(),
    );
    let readme_file = paths::join_path(rules, dir, "README.md");
    BundlePaths {
        bundle_dir,
        forms_dir,
        flows_dir,
        examples_dir,
        schemas_dir,
        form_file,
        flow_file,
        example_file,
        schema_file,
        readme_file,
    }
}

/// The head of a bundle's read-me.
pub open spec fn readme_head(
    form: FormView,
    description: Option<Seq<char>>,
    summary: Option<Seq<char>>,
) -> Seq<char> {
    let shown_description = match description {
        Some(description) => description,
        None => "No description provided."@,
    };
    let shown_summary = match summary {
        Some(summary) => summary,
        None => "Generated by `greentic-qa`."@,
    };
    "# "@ + form.title + "\n\nVersion: "@ + form.version + "\n\n"@ + shown_description
        + "\n\n## Summary\n\n"@ + shown_summary
}

/// The list of files in a bundle's read-me.
pub open spec fn readme_files(base: Seq<char>) -> Seq<char> {
    "\n\n## Files\n\n- `forms/"@ + base + ".form.json`\n- `flows/"@ + base
        + ".qaflow.json`\n- `examples/"@ + base + ".answers.example.json`\n- `schemas/"@ + base
        + ".answers.schema.json`\n\nValidate the generated answers with:\n\n```\ngreentic-qa validate --spec forms/"@
        + base + ".form.json --answers examples/"@ + base + ".answers.example.json\n```\n"@
}

/// The read-me of a bundle.
pub fn build_readme(spec: &FormSpec, input: &GenerationInput, base: &str) -> (r: String)
    ensures
        r@ == readme_head(spec@, input@.form.description, input@.summary_md) + readme_files(base@),
{
    let summary = match &input.summary_md {
        Some(summary) => summary.clone(),
        None => "Generated by `greentic-qa`.".to_owned(),
    };
    let description = match &input.form.description {
        Some(description) => description.clone(),
        None => "No description provided.".to_owned(),
    };
    let mut head = cat3("# ", spec.title.as_str(), "\n\nVersion: ");
    head = cat3(head.as_str(), spec.version.as_str(), "\n\n");
    head = cat3(head.as_str(), description.as_str(), "\n\n## Summary\n\n");
    head = cat(head.as_str(), summary.as_str());
    let mut files = cat3("\n\n## Files\n\n- `forms/", base, ".form.json`\n- `flows/");
    files = cat3(files.as_str(), base, ".qaflow.json`\n- `examples/");
    files = cat3(files.as_str(), base, ".answers.example.json`\n- `schemas/");
    files = cat3(
        files.as_str(),
        base,
        ".answers.schema.json`\n\nValidate the generated answers with:\n\n```\ngreentic-qa validate --spec forms/",
    );
    files = cat3(files.as_str(), base, ".form.json --answers examples/");
    files = cat3(files.as_str(), base, ".answers.example.json\n```\n");
    cat(head.as_str(), files.as_str())
}

/// The ids of an accepted description's questions differ from each other, and
/// none is blank.
pub proof fn law_accepted_ids(input: GenerationInputView, catalog: CatalogView)
    requires
        input_complaint(input, catalog) is None,
    ensures
        input_ids(input.questions).no_duplicates(),
        forall|i: int|
            0 <= i < input.questions.len() ==> !text::is_blank((#[trigger] input.questions[i]).id),
        input.questions.len() > 0,
{
    let questions = input.questions;
    assert forall|i: int| 0 <= i < questions.len() implies question_complaint(
        #[trigger] questions[i],
        input_ids(questions.take(i)),
        catalog,
    ) is None by {
        lemma_questions_accepted(questions, 0, i, catalog);
    }
    let ids = input_ids(questions);
    assert forall|i: int, j: int| 0 <= i < j < ids.len() implies ids[i] != ids[j] by {
        assert(question_complaint(questions[j], input_ids(questions.take(j)), catalog) is None);
        let before = input_ids(questions.take(j));
        assert(before[i] == ids[i]);
        assert(before.contains(before[i]));
    }
}

proof fn lemma_questions_accepted(
    questions: Seq<QuestionInputView>,
    from: int,
    i: int,
    catalog: CatalogView,
)
    requires
        0 <= from <= i < questions.len(),
        questions_complaint(questions, from, catalog) is None,
    ensures
        question_complaint(questions[i], input_ids(questions.take(i)), catalog) is None,
    decreases i - from,
{
    if from < i {
        lemma_questions_accepted(questions, from + 1, i, catalog);
    }
}

/// The rules of an accepted description speak of its questions alone.
pub proof fn law_accepted_rules(
    input: GenerationInputView,
    catalog: CatalogView,
    rule: int,
    field: int,
)
    requires
        input_complaint(input, catalog) is None,
        0 <= rule < input.validations.len(),
        0 <= field < input.validations[rule].fields.len(),
    ensures
        input_ids(input.questions).contains(input.validations[rule].fields[field]),
        !text::is_blank(input.validations[rule].message),
{
    let ids = input_ids(input.questions);
    lemma_rules_accepted(input.validations, 0, rule, ids, catalog);
    lemma_rule_fields_accepted(input.validations[rule], 0, field, ids, catalog);
}

proof fn lemma_rules_accepted(
    rules: Seq<RuleView>,
    from: int,
    i: int,
    ids: Seq<Seq<char>>,
    catalog: CatalogView,
)
    requires
        0 <= from <= i < rules.len(),
        rules_complaint(rules, from, ids, catalog) is None,
    ensures
        rule_complaint(rules[i], ids, catalog) is None,
    decreases i - from,
{
    if from < i {
        lemma_rules_accepted(rules, from + 1, i, ids, catalog);
    }
}

proof fn lemma_rule_fields_accepted(
    rule: RuleView,
    from: int,
    i: int,
    ids: Seq<Seq<char>>,
    catalog: CatalogView,
)
    requires
        0 <= from <= i < rule.fields.len(),
        rule_fields_complaint(rule, from, ids, catalog) is None,
    ensures
        ids.contains(rule.fields[i]),
    decreases i - from,
{
    if from < i {
        lemma_rule_fields_accepted(rule, from + 1, i, ids, catalog);
    }
}

/// A name holds only characters that can stand in one, and is its own name.
pub proof fn law_name_is_clean(value: Seq<char>)
    ensures
        as_name(value, '_', "step"@).len() > 0,
        as_name(value, '-', "bundle"@).len() > 0,
        forall|i: int|
            0 <= i < as_name(value, '_', "step"@).len() ==> name_char(
                #[trigger] as_name(value, '_', "step"@)[i],
            ),
        forall|i: int|
            0 <= i < as_name(value, '-', "bundle"@).len() ==> name_char(
                #[trigger] as_name(value, '-', "bundle"@)[i],
            ),
        as_name(as_name(value, '_', "step"@), '_', "step"@) == as_name(value, '_', "step"@),
        as_name(as_name(value, '-', "bundle"@), '-', "bundle"@) == as_name(
            value,
            '-',
            "bundle"@,
        ),
{
    reveal_strlit("step");
    reveal_strlit("bundle");
    assert("step"@.len() == 4 && "bundle"@.len() == 6);
    let a = as_name(value, '_', "step"@);
    let b = as_name(value, '-', "bundle"@);
    assert forall|i: int| 0 <= i < a.len() implies name_char(#[trigger] a[i]) by {
        if value.len() == 0 {
            assert(a[i] == "step"@[i]);
        }
    }
    assert forall|i: int| 0 <= i < b.len() implies name_char(#[trigger] b[i]) by {
        if value.len() == 0 {
            assert(b[i] == "bundle"@[i]);
        }
    }
    assert(as_name(a, '_', "step"@) =~= a);
    assert(as_name(b, '-', "bundle"@) =~= b);
}

/// A flow starts at one of its steps, its last step ends it, and every step that
/// asks a question leads to one of its steps.
pub proof fn law_flow_is_closed(questions: Seq<QuestionInputView>, name: Seq<char>)
    requires
        questions.len() > 0,
    ensures
        entries::lookup(flow_steps(questions), step_name(questions[0].id)) is Some,
        entries::lookup(flow_steps(questions), "complete"@) == Some(StepView::End),
        entries::lookup(flow_steps(questions), name) matches Some(StepView::Question {
            next,
            ..
        }) ==> next is Some && entries::lookup(flow_steps(questions), next->0) is Some,
{
    let n = questions.len() as int;
    let before = question_steps(questions, n);
    let steps = flow_steps(questions);
    entries::law_put_then_lookup(before, "complete"@, StepView::End);
    lemma_steps_there(questions, n, 0);
    lemma_not_complete(questions[0].id);
    entries::law_put_keeps_others(
        before,
        "complete"@,
        StepView::End,
        step_name(questions[0].id),
    );
    if entries::lookup(steps, name) is Some && entries::lookup(steps, name)->0
        is Question {
        if name != "complete"@ {
            entries::law_put_keeps_others(before, "complete"@, StepView::End, name);
            lemma_step_leads(questions, n, name);
            let k = choose|k: int|
                0 <= k < n && entries::lookup(before, name) == Some(
                    StepView::Question {
                        question_id: questions[k].id,
                        next: Some(#[trigger] next_step(questions, k)),
                    },
                );
            if k + 1 < n {
                lemma_steps_there(questions, n, k + 1);
                lemma_not_complete(questions[k + 1].id);
                entries::law_put_keeps_others(
                    before,
                    "complete"@,
                    StepView::End,
                    step_name(questions[k + 1].id),
                );
            }
        }
    }
}

proof fn lemma_not_complete(id: Seq<char>)
    ensures
        step_name(id) != "complete"@,
{
    reveal_strlit("complete");
    reveal_strlit("question_");
    assert("complete"@[0] == 'c');
    assert("question_"@.len() == 9 && "question_"@[0] == 'q');
    assert(step_name(id)[0] == 'q');
}

proof fn lemma_steps_there(questions: Seq<QuestionInputView>, n: int, k: int)
    requires
        0 <= k < n <= questions.len(),
    ensures
        entries::lookup(question_steps(questions, n), step_name(questions[k].id)) is Some,
    decreases n,
{
    let before = question_steps(questions, n - 1);
    let name = step_name(questions[n - 1].id);
    let step = StepView::Question {
        question_id: questions[n - 1].id,
        next: Some(next_step(questions, n - 1)),
    };
    if step_name(questions[k].id) == name {
        entries::law_put_then_lookup(before, name, step);
    } else {
        lemma_steps_there(questions, n - 1, k);
        entries::law_put_keeps_others(before, name, step, step_name(questions[k].id));
    }
}

proof fn lemma_step_leads(questions: Seq<QuestionInputView>, n: int, name: Seq<char>)
    requires
        0 <= n <= questions.len(),
        entries::lookup(question_steps(questions, n), name) is Some,
    ensures
        exists|k: int|
            0 <= k < n && entries::lookup(question_steps(questions, n), name) == Some(
                StepView::Question {
                    question_id: questions[k].id,
                    next: Some(#[trigger] next_step(questions, k)),
                },
            ),
    decreases n,
{
    if n == 0 {
        entries::lemma_position(
            entries::view_keys(question_steps(questions, 0)),
            name,
        );
    } else {
        let before = question_steps(questions, n - 1);
        let last = step_name(questions[n - 1].id);
        let step = StepView::Question {
            question_id: questions[n - 1].id,
            next: Some(next_step(questions, n - 1)),
        };
        if name == last {
            entries::law_put_then_lookup(before, last, step);
            assert(next_step(questions, n - 1) == step->next->0);
        } else {
            entries::law_put_keeps_others(before, last, step, name);
            lemma_step_leads(questions, n - 1, name);
            let k = choose|k: int|
                0 <= k < n - 1 && entries::lookup(before, name) == Some(
                    StepView::Question {
                        question_id: questions[k].id,
                        next: Some(#[trigger] next_step(questions, k)),
                    },
                );
            assert(next_step(questions, k) == next_step(questions, k));
        }
    }
}

/// In a form that is made from an accepted description, an enum question offers the
/// choices that the description gave it, of which there is at least one, and no other
/// question offers any.
pub proof fn law_choices_are_kept(input: GenerationInputView, catalog: CatalogView, i: int)
    requires
        input_complaint(input, catalog) is None,
        0 <= i < input.questions.len(),
    ensures
        ({
            let made = form_made(input).questions[i];
            &&& made.kind == QuestionType::Enum <==> input.questions[i].kind is Enum
            &&& made.kind == QuestionType::Enum ==> made.choices == input.questions[i].choices
                && made.choices is Some && made.choices->0.len() > 0
            &&& made.kind != QuestionType::Enum ==> made.choices is None
        }),
{
    lemma_questions_accepted(input.questions, 0, i, catalog);
}

/// A question is made of what its description says: each part is kept as it is.
pub proof fn law_question_is_kept(q: QuestionInputView)
    ensures
        ({
            let made = question_made(q);
            &&& made.id == q.id
            &&& made.title == q.title
            &&& made.title_i18n is None
            &&& made.description == q.description
            &&& made.description_i18n is None
            &&& made.required == q.required
            &&& made.default_value == q.default_value
            &&& made.secret == q.secret
            &&& made.visible_if == q.visible_if
            &&& made.computed == q.computed
            &&& made.computed_overridable == q.computed_overridable
            &&& q.kind is Enum ==> made.choices == q.choices
            &&& !(q.kind is Enum) ==> made.choices is None
        }),
{
}

/// A kind of question that is described is the kind that is made.
pub proof fn law_kind_is_kept(q: QuestionInputView)
    ensures
        q.kind is String <==> question_made(q).kind == QuestionType::String,
        q.kind is Boolean <==> question_made(q).kind == QuestionType::Boolean,
        q.kind is Integer <==> question_made(q).kind == QuestionType::Integer,
        q.kind is Number <==> question_made(q).kind == QuestionType::Number,
        q.kind is Enum <==> question_made(q).kind == QuestionType::Enum,
        q.kind is List <==> question_made(q).kind == QuestionType::List,
{
}

/// A list keeps its limits and its fields, each made as a question is, in their
/// order.
pub proof fn law_list_is_kept(q: QuestionInputView)
    ensures
        question_made(q).list is Some <==> q.list is Some,
        q.list matches Some(list) ==> {
            let made = question_made(q).list->0;
            &&& made.min_items == list.min_items
            &&& made.max_items == list.max_items
            &&& made.fields.len() == list.fields.len()
            &&& forall|i: int|
                0 <= i < list.fields.len() ==> #[trigger] made.fields[i] == question_made(
                    list.fields[i],
                )
        },
{
}

/// A constraint keeps its pattern, its lengths and each limit that is a finite
/// number. Limits that are not finite are no limits.
pub proof fn law_constraint_is_kept(q: QuestionInputView)
    ensures
        question_made(q).constraint is Some <==> q.constraint is Some,
        q.constraint matches Some(given) ==> {
            let made = question_made(q).constraint->0;
            &&& made.pattern == given.pattern
            &&& made.min_len == given.min_len
            &&& made.max_len == given.max_len
            &&& given.min is None ==> made.min is None
            &&& given.max is None ==> made.max is None
            &&& given.min matches Some(min) ==> if min.bits < 0x7ff0_0000_0000_0000
                || 0x8000_0000_0000_0000 <= min.bits < 0xfff0_0000_0000_0000 {
                made.min == given.min
            } else {
                made.min is None
            }
            &&& given.max matches Some(max) ==> if max.bits < 0x7ff0_0000_0000_0000
                || 0x8000_0000_0000_0000 <= max.bits < 0xfff0_0000_0000_0000 {
                made.max == given.max
            } else {
                made.max is None
            }
        },
{
}

/// A form is made of what its description says, with one question for each that is
/// described, in their order.
pub proof fn law_form_is_kept(input: GenerationInputView)
    ensures
        ({
            let made = form_made(input);
            &&& made.id == input.form.id
            &&& made.title == input.form.title
            &&& made.version == input.form.version
            &&& made.description == input.form.description
            &&& made.validations == input.validations
            &&& made.includes.len() == 0
            &&& made.store.len() == 0
            &&& made.secrets_policy is None
            &&& made.questions.len() == input.questions.len()
            &&& forall|i: int|
                0 <= i < input.questions.len() ==> #[trigger] made.questions[i] == question_made(
                    input.questions[i],
                )
            &&& match input.summary_md {
                Some(intro) => made.presentation is Some && made.presentation->0.intro == Some(
                    intro,
                ) && made.presentation->0.theme is None
                    && made.presentation->0.default_locale is None,
                None => made.presentation is None,
            }
        }),
{
}

/// A form takes the progress policy of its description. Where there is none, answered
/// questions are skipped and defaults are neither filled in nor taken as answers.
pub proof fn law_policy_is_kept(input: GenerationInputView)
    ensures
        ({
            let made = form_made(input).progress_policy;
            &&& made is Some
            &&& match input.form.progress_policy {
                Some(policy) => made->0.skip_answered == policy.skip_answered
                    && made->0.autofill_defaults == policy.autofill_defaults
                    && made->0.treat_default_as_answered == policy.treat_default_as_answered,
                None => made->0.skip_answered && !made->0.autofill_defaults
                    && !made->0.treat_default_as_answered,
            }
        }),
{
}

proof fn lemma_fields_complaint(
    fields: Seq<QuestionInputView>,
    i: int,
    question_id: Seq<char>,
    catalog: CatalogView,
)
    requires
        0 <= i <= fields.len(),
    ensures
        fields_complaint(fields, i, question_id, catalog) is None <==> forall|k: int|
            i <= k < fields.len() ==> !text::is_blank((#[trigger] fields[k]).id)
                && !input_ids(fields.take(k)).contains(fields[k].id) && !(fields[k].kind is List),
    decreases fields.len() - i,
{
    if i < fields.len() {
        lemma_fields_complaint(fields, i + 1, question_id, catalog);
        if !text::is_blank(fields[i].id) && !input_ids(fields.take(i)).contains(fields[i].id) && !(
        fields[i].kind is List) {
            assert(fields_complaint(fields, i, question_id, catalog) == fields_complaint(
                fields,
                i + 1,
                question_id,
                catalog,
            ));
        } else {
            assert(fields_complaint(fields, i, question_id, catalog) is Some);
        }
    }
}

proof fn lemma_own_ids(questions: Seq<QuestionInputView>)
    ensures
        (forall|k: int|
            0 <= k < questions.len() ==> !input_ids(questions.take(k)).contains(
                (#[trigger] questions[k]).id,
            )) <==> (forall|j: int, k: int|
            0 <= j < k < questions.len() ==> (#[trigger] questions[j]).id != (
            #[trigger] questions[k]).id),
{
    if forall|k: int|
        0 <= k < questions.len() ==> !input_ids(questions.take(k)).contains(
            (#[trigger] questions[k]).id,
        ) {
        assert forall|j: int, k: int| 0 <= j < k < questions.len() implies (
        #[trigger] questions[j]).id != (#[trigger] questions[k]).id by {
            let before = input_ids(questions.take(k));
            assert(before[j] == questions[j].id);
            assert(before.contains(before[j]));
        }
    }
    if forall|j: int, k: int|
        0 <= j < k < questions.len() ==> (#[trigger] questions[j]).id != (
        #[trigger] questions[k]).id {
        assert forall|k: int| 0 <= k < questions.len() implies !input_ids(
            questions.take(k),
        ).contains((#[trigger] questions[k]).id) by {
            let before = input_ids(questions.take(k));
            if before.contains(questions[k].id) {
                let j = choose|j: int| 0 <= j < before.len() && before[j] == questions[k].id;
                assert(before[j] == questions[j].id);
            }
        }
    }
}

/// Whether a described question is accepted by itself: it has an id, an enum question
/// has a choice, a list question has fields with ids of their own that are no lists,
/// and no limit is above its counterpart.
pub open spec fn stands_alone(q: QuestionInputView) -> bool {
    &&& !text::is_blank(q.id)
    &&& q.kind is Enum ==> q.choices is Some && q.choices->0.len() > 0
    &&& q.kind is List ==> {
        &&& q.list is Some
        &&& q.list->0.fields.len() > 0
        &&& q.list->0.min_items is Some && q.list->0.max_items is Some
            ==> q.list->0.min_items->0 <= q.list->0.max_items->0
        &&& forall|k: int|
            0 <= k < q.list->0.fields.len() ==> !text::is_blank(
                (#[trigger] q.list->0.fields[k]).id,
            ) && !(q.list->0.fields[k].kind is List)
        &&& forall|j: int, k: int|
            0 <= j < k < q.list->0.fields.len() ==> (#[trigger] q.list->0.fields[j]).id != (
            #[trigger] q.list->0.fields[k]).id
    }
    &&& q.constraint matches Some(limits) ==> {
        &&& limits.min is Some && limits.max is Some ==> !json::double_less(
            limits.max->0.bits,
            limits.min->0.bits,
        )
        &&& limits.min_len is Some && limits.max_len is Some ==> limits.min_len->0
            <= limits.max_len->0
    }
}

/// A described question is accepted if and only if it is accepted by itself and no
/// question before it has its id.
pub proof fn law_accepted_questions(
    q: QuestionInputView,
    before: Seq<Seq<char>>,
    catalog: CatalogView,
)
    ensures
        question_complaint(q, before, catalog) is None <==> stands_alone(q) && !before.contains(
            q.id,
        ),
{
    if q.list is Some {
        let fields = q.list->0.fields;
        lemma_fields_complaint(fields, 0, q.id, catalog);
        lemma_own_ids(fields);
        if list_complaint(q, catalog) is None {
            assert forall|k: int| 0 <= k < fields.len() implies !input_ids(
                fields.take(k),
            ).contains((#[trigger] fields[k]).id) by {}
        }
    }
}

proof fn lemma_questions_complaint(
    questions: Seq<QuestionInputView>,
    i: int,
    catalog: CatalogView,
)
    requires
        0 <= i <= questions.len(),
    ensures
        questions_complaint(questions, i, catalog) is None <==> forall|k: int|
            i <= k < questions.len() ==> question_complaint(
                #[trigger] questions[k],
                input_ids(questions.take(k)),
                catalog,
            ) is None,
    decreases questions.len() - i,
{
    if i < questions.len() {
        lemma_questions_complaint(questions, i + 1, catalog);
        if question_complaint(questions[i], input_ids(questions.take(i)), catalog) is Some {
            assert(questions_complaint(questions, i, catalog) is Some);
        } else {
            assert(questions_complaint(questions, i, catalog) == questions_complaint(
                questions,
                i + 1,
                catalog,
            ));
        }
    }
}

proof fn lemma_rule_fields_complaint(
    rule: RuleView,
    i: int,
    ids: Seq<Seq<char>>,
    catalog: CatalogView,
)
    requires
        0 <= i <= rule.fields.len(),
    ensures
        rule_fields_complaint(rule, i, ids, catalog) is None <==> forall|k: int|
            i <= k < rule.fields.len() ==> ids.contains(#[trigger] rule.fields[k]),
    decreases rule.fields.len() - i,
{
    if i < rule.fields.len() {
        lemma_rule_fields_complaint(rule, i + 1, ids, catalog);
    }
}

proof fn lemma_rules_complaint(
    rules: Seq<RuleView>,
    i: int,
    ids: Seq<Seq<char>>,
    catalog: CatalogView,
)
    requires
        0 <= i <= rules.len(),
    ensures
        rules_complaint(rules, i, ids, catalog) is None <==> forall|k: int|
            i <= k < rules.len() ==> rule_stands(#[trigger] rules[k], ids),
    decreases rules.len() - i,
{
    if i < rules.len() {
        lemma_rules_complaint(rules, i + 1, ids, catalog);
        lemma_rule_fields_complaint(rules[i], 0, ids, catalog);
        if rule_stands(rules[i], ids) {
            assert(rules_complaint(rules, i, ids, catalog) == rules_complaint(
                rules,
                i + 1,
                ids,
                catalog,
            ));
        } else {
            assert(rules_complaint(rules, i, ids, catalog) is Some);
        }
    }
}

/// Whether a rule has a message and fields, each of which is one of the ids.
pub open spec fn rule_stands(rule: RuleView, ids: Seq<Seq<char>>) -> bool {
    &&& !text::is_blank(rule.message)
    &&& rule.fields.len() > 0
    &&& forall|k: int| 0 <= k < rule.fields.len() ==> ids.contains(#[trigger] rule.fields[k])
}

/// A description is accepted if and only if it names its directory and its form, has
/// at least one question, has questions that are accepted by themselves and have ids
/// of their own, and has rules with a message and with fields that are among the
/// questions.
pub proof fn law_accepted_descriptions(input: GenerationInputView, catalog: CatalogView)
    ensures
        input_complaint(input, catalog) is None <==> {
            &&& !text::is_blank(input.dir_name)
            &&& !text::is_blank(input.form.id)
            &&& input.questions.len() > 0
            &&& forall|k: int|
                0 <= k < input.questions.len() ==> stands_alone(#[trigger] input.questions[k])
            &&& forall|j: int, k: int|
                0 <= j < k < input.questions.len() ==> (#[trigger] input.questions[j]).id != (
                #[trigger] input.questions[k]).id
            &&& forall|k: int|
                0 <= k < input.validations.len() ==> rule_stands(
                    #[trigger] input.validations[k],
                    input_ids(input.questions),
                )
        },
{
    let questions = input.questions;
    lemma_questions_complaint(questions, 0, catalog);
    lemma_rules_complaint(input.validations, 0, input_ids(questions), catalog);
    lemma_own_ids(questions);
    assert forall|k: int| 0 <= k < questions.len() implies (question_complaint(
        #[trigger] questions[k],
        input_ids(questions.take(k)),
        catalog,
    ) is None <==> stands_alone(questions[k]) && !input_ids(questions.take(k)).contains(
        questions[k].id,
    )) by {
        law_accepted_questions(questions[k], input_ids(questions.take(k)), catalog);
    }
}

/// What is wrong with a described question is told in the words for it, with its id.
pub proof fn law_question_complaints(
    q: QuestionInputView,
    before: Seq<Seq<char>>,
    catalog: CatalogView,
)
    ensures
        ({
            let told = question_complaint(q, before, catalog);
            let id = seq![("id"@, q.id)];
            let named = !text::is_blank(q.id) && !before.contains(q.id);
            &&& text::is_blank(q.id) ==> told == Some(
                catalog::message(catalog, "cli.builder.question_id_empty"@),
            )
            &&& !text::is_blank(q.id) && before.contains(q.id) ==> told == Some(
                catalog::message_with(catalog, "cli.builder.duplicate_question_id"@, id),
            )
            &&& named && q.kind is Enum && !(q.choices is Some && q.choices->0.len() > 0) ==> told
                == Some(
                catalog::message_with(catalog, "cli.builder.enum_question_choices_required"@, id),
            )
            &&& named && q.kind is List && q.list is None ==> told == Some(
                catalog::message_with(
                    catalog,
                    "cli.builder.list_question_metadata_required"@,
                    id,
                ),
            )
            &&& named && q.kind is List && q.list is Some && q.list->0.fields.len() == 0 ==> told
                == Some(
                catalog::message_with(catalog, "cli.builder.list_question_fields_required"@, id),
            )
            &&& named && q.kind is List && q.list is Some && q.list->0.fields.len() > 0
                && q.list->0.min_items is Some && q.list->0.max_items is Some
                && q.list->0.min_items->0 > q.list->0.max_items->0 ==> told == Some(
                catalog::message_with(catalog, "cli.builder.list_question_min_gt_max"@, id),
            )
        }),
{
}

/// Limits above their counterpart are told with both limits.
pub proof fn law_constraint_complaints(limits: ConstraintView, catalog: CatalogView)
    ensures
        ({
            let told = constraint_complaint(limits, catalog);
            let wide = limits.min is Some && limits.max is Some && json::double_less(
                limits.max->0.bits,
                limits.min->0.bits,
            );
            &&& wide ==> told == Some(
                catalog::message_with(
                    catalog,
                    "cli.builder.constraint_min_gt_max"@,
                    seq![("min"@, limits.min->0.text), ("max"@, limits.max->0.text)],
                ),
            )
            &&& !wide && limits.min_len is Some && limits.max_len is Some && limits.min_len->0
                > limits.max_len->0 ==> told == Some(
                catalog::message_with(
                    catalog,
                    "cli.builder.constraint_min_len_gt_max_len"@,
                    seq![
                        ("min_len"@, text::decimal(limits.min_len->0 as nat)),
                        ("max_len"@, text::decimal(limits.max_len->0 as nat)),
                    ],
                ),
            )
        }),
{
}

/// What is wrong with a description as a whole is told in the words for it. What is
/// wrong with its first wrong question is told before its rules are looked at.
pub proof fn law_description_complaints(
    input: GenerationInputView,
    catalog: CatalogView,
    i: int,
)
    ensures
        ({
            let told = input_complaint(input, catalog);
            let named = !text::is_blank(input.dir_name) && !text::is_blank(input.form.id);
            &&& text::is_blank(input.dir_name) ==> told == Some(
                catalog::message(catalog, "cli.builder.dir_name_required"@),
            )
            &&& !text::is_blank(input.dir_name) && text::is_blank(input.form.id) ==> told == Some(
                catalog::message(catalog, "cli.builder.form_id_required"@),
            )
            &&& named && input.questions.len() == 0 ==> told == Some(
                catalog::message(catalog, "cli.builder.at_least_one_question"@),
            )
            &&& named && 0 <= i < input.questions.len() && (forall|k: int|
                0 <= k < i ==> question_complaint(
                    #[trigger] input.questions[k],
                    input_ids(input.questions.take(k)),
                    catalog,
                ) is None) && question_complaint(
                input.questions[i],
                input_ids(input.questions.take(i)),
                catalog,
            ) is Some ==> told == question_complaint(
                input.questions[i],
                input_ids(input.questions.take(i)),
                catalog,
            )
        }),
{
    if 0 <= i < input.questions.len() && forall|k: int|
        0 <= k < i ==> question_complaint(
            #[trigger] input.questions[k],
            input_ids(input.questions.take(k)),
            catalog,
        ) is None {
        lemma_first_question_told(input.questions, 0, i, catalog);
    }
}

proof fn lemma_first_question_told(
    questions: Seq<QuestionInputView>,
    from: int,
    i: int,
    catalog: CatalogView,
)
    requires
        0 <= from <= i < questions.len(),
        forall|k: int|
            from <= k < i ==> question_complaint(
                #[trigger] questions[k],
                input_ids(questions.take(k)),
                catalog,
            ) is None,
    ensures
        questions_complaint(questions, from, catalog) == questions_complaint(questions, i, catalog),
    decreases i - from,
{
    if from < i {
        assert(question_complaint(questions[from], input_ids(questions.take(from)), catalog)
            is None);
        lemma_first_question_told(questions, from + 1, i, catalog);
    }
}

/// What is wrong with a rule is told in the words for it. The first of its fields
/// that is no question is told with the rule's id.
pub proof fn law_rule_complaints(
    rule: RuleView,
    ids: Seq<Seq<char>>,
    catalog: CatalogView,
    i: int,
)
    ensures
        ({
            let told = rule_complaint(rule, ids, catalog);
            let name = match rule.id {
                Some(id) => id,
                None => catalog::message(catalog, "cli.common.unnamed"@),
            };
            &&& text::is_blank(rule.message) ==> told == Some(
                catalog::message(catalog, "cli.builder.validation_message_required"@),
            )
            &&& !text::is_blank(rule.message) && rule.fields.len() == 0 ==> told == Some(
                catalog::message(catalog, "cli.builder.validation_field_required"@),
            )
            &&& !text::is_blank(rule.message) && 0 <= i < rule.fields.len() && !ids.contains(
                rule.fields[i],
            ) && (forall|k: int| 0 <= k < i ==> ids.contains(#[trigger] rule.fields[k])) ==> told
                == Some(
                catalog::message_with(
                    catalog,
                    "cli.builder.validation_unknown_field"@,
                    seq![("validation"@, name), ("field"@, rule.fields[i])],
                ),
            )
        }),
{
    if 0 <= i < rule.fields.len() && forall|k: int|
        0 <= k < i ==> ids.contains(#[trigger] rule.fields[k]) {
        lemma_first_field_told(rule, 0, i, ids, catalog);
    }
}

proof fn lemma_first_field_told(
    rule: RuleView,
    from: int,
    i: int,
    ids: Seq<Seq<char>>,
    catalog: CatalogView,
)
    requires
        0 <= from <= i < rule.fields.len(),
        forall|k: int| from <= k < i ==> ids.contains(#[trigger] rule.fields[k]),
    ensures
        rule_fields_complaint(rule, from, ids, catalog) == rule_fields_complaint(
            rule,
            i,
            ids,
            catalog,
        ),
    decreases i - from,
{
    if from < i {
        assert(ids.contains(rule.fields[from]));
        lemma_first_field_told(rule, from + 1, i, ids, catalog);
    }
}

/// A name keeps its letters, its digits, its hyphens and its underscores in their
/// places, and has the given character in place of every other.
pub proof fn law_names(value: Seq<char>, replacement: char, empty: Seq<char>)
    ensures
        value.len() == 0 ==> as_name(value, replacement, empty) == empty,
        value.len() > 0 ==> as_name(value, replacement, empty).len() == value.len(),
        forall|i: int|
            0 <= i < value.len() ==> #[trigger] as_name(value, replacement, empty)[i] == if ('a'
                <= value[i] <= 'z') || ('A' <= value[i] <= 'Z') || ('0' <= value[i] <= '9')
                || value[i] == '-' || value[i] == '_' {
                value[i]
            } else {
                replacement
            },
{
}

/// A flow begins with the step of the first question. The step of a question asks
/// that question and leads on to the next question's step, and the last one to the
/// end. Where two questions have steps of one name, the later one has it.
pub proof fn law_flow_asks_in_order(
    form: FormView,
    questions: Seq<QuestionInputView>,
    i: int,
)
    requires
        0 <= i < questions.len(),
        forall|j: int|
            i < j < questions.len() ==> step_name((#[trigger] questions[j]).id) != step_name(
                questions[i].id,
            ),
    ensures
        ({
            let flow = flow_made(form, questions);
            &&& flow.id == form.id + "-flow"@
            &&& flow.title == form.title + " flow"@
            &&& flow.version == form.version
            &&& flow.entry == step_name(questions[0].id)
            &&& entries::lookup(flow.steps, "complete"@) == Some(StepView::End)
            &&& entries::lookup(flow.steps, step_name(questions[i].id)) == Some(
                StepView::Question {
                    question_id: questions[i].id,
                    next: Some(
                        if i + 1 == questions.len() {
                            "complete"@
                        } else {
                            step_name(questions[i + 1].id)
                        },
                    ),
                },
            )
        }),
{
    let n = questions.len() as int;
    let before = question_steps(questions, n);
    entries::law_put_then_lookup(before, "complete"@, StepView::End);
    lemma_not_complete(questions[i].id);
    entries::law_put_keeps_others(before, "complete"@, StepView::End, step_name(questions[i].id));
    lemma_step_of_question(questions, n, i);
}

proof fn lemma_step_of_question(questions: Seq<QuestionInputView>, n: int, i: int)
    requires
        0 <= i < n <= questions.len(),
        forall|j: int|
            i < j < questions.len() ==> step_name((#[trigger] questions[j]).id) != step_name(
                questions[i].id,
            ),
    ensures
        entries::lookup(question_steps(questions, n), step_name(questions[i].id)) == Some(
            StepView::Question {
                question_id: questions[i].id,
                next: Some(next_step(questions, i)),
            },
        ),
    decreases n,
{
    let before = question_steps(questions, n - 1);
    let name = step_name(questions[n - 1].id);
    let step = StepView::Question {
        question_id: questions[n - 1].id,
        next: Some(next_step(questions, n - 1)),
    };
    if i == n - 1 {
        entries::law_put_then_lookup(before, name, step);
    } else {
        lemma_step_of_question(questions, n - 1, i);
        assert(step_name(questions[n - 1].id) != step_name(questions[i].id));
        entries::law_put_keeps_others(before, name, step, step_name(questions[i].id));
    }
}

/// A step is named after its question.
pub proof fn law_step_names(id: Seq<char>)
    ensures
        id.len() == 0 ==> step_name(id) == "question_"@ + "step"@,
        step_name(id).len() == if id.len() == 0 {
            13
        } else {
            (9 + id.len()) as int
        },
        text::begins_with(step_name(id), "question_"@),
        forall|i: int|
            0 <= i < id.len() && (('a' <= id[i] <= 'z') || ('A' <= id[i] <= 'Z') || ('0' <= id[i]
                <= '9') || id[i] == '-' || id[i] == '_') ==> #[trigger] step_name(id)[i + 9]
                == id[i],
{
    reveal_strlit("question_");
    reveal_strlit("step");
    assert("question_"@.len() == 9 && "step"@.len() == 4);
    assert(step_name(id).take(9) =~= "question_"@);
}

/// A kind of question goes by its own name or by a shorter one, in any case and with
/// white space around it.
pub proof fn law_kind_words(value: Seq<char>, catalog: CatalogView, kind: CliQuestionType)
    ensures
        ({
            let word = text::lowercase(text::trimmed(value));
            let typed = kind_typed(value, catalog);
            &&& typed == Ok::<CliQuestionType, Seq<char>>(kind) <==> match kind {
                CliQuestionType::String => word == "string"@ || word == "str"@,
                CliQuestionType::Boolean => word == "boolean"@ || word == "bool"@,
                CliQuestionType::Integer => word == "integer"@ || word == "int"@,
                CliQuestionType::Number => word == "number"@ || word == "float"@,
                CliQuestionType::Enum => word == "enum"@ || word == "choice"@,
                CliQuestionType::List => word == "list"@,
            }
            &&& typed matches Err(told) ==> told == catalog::message_with(
                catalog,
                "cli.builder.unknown_question_type"@,
                seq![("value"@, value)],
            )
        }),
{
    reveal_strlit("string");
    reveal_strlit("str");
    reveal_strlit("boolean");
    reveal_strlit("bool");
    reveal_strlit("integer");
    reveal_strlit("int");
    reveal_strlit("number");
    reveal_strlit("float");
    reveal_strlit("enum");
    reveal_strlit("choice");
    reveal_strlit("list");
    assert("string"@[0] == 's' && "str"@[0] == 's' && "boolean"@[0] == 'b' && "bool"@[0] == 'b');
    assert("integer"@[0] == 'i' && "int"@[0] == 'i' && "number"@[0] == 'n' && "float"@[0] == 'f');
    assert("enum"@[0] == 'e' && "choice"@[0] == 'c' && "list"@[0] == 'l');
}

/// What is said of a described question is said of the description that is there.
pub proof fn law_description_is_seen_whole(q: QuestionInput)
    ensures
        q@.id == q.id@,
        q@.kind == q.kind,
        q@.title == q.title@,
        q@.required == q.required,
        q@.secret == q.secret,
        q@.computed_overridable == q.computed_overridable,
        q@.description is Some <==> q.description is Some,
        q.description is Some ==> q@.description->0 == q.description->0@,
        q@.default_value is Some <==> q.default_value is Some,
        q.default_value is Some ==> q@.default_value->0 == q.default_value->0@,
        q@.visible_if is Some <==> q.visible_if is Some,
        q.visible_if is Some ==> q@.visible_if->0 == q.visible_if->0@,
        q@.computed is Some <==> q.computed is Some,
        q.computed is Some ==> q@.computed->0 == q.computed->0@,
        q@.constraint is Some <==> q.constraint is Some,
        q.constraint is Some ==> q@.constraint->0 == q.constraint->0@,
        q@.choices is Some <==> q.choices is Some,
        q.choices is Some ==> q@.choices->0.len() == q.choices->0@.len() && forall|i: int|
            0 <= i < q.choices->0@.len() ==> #[trigger] q@.choices->0[i] == q.choices->0@[i]@,
        q@.list is Some <==> q.list is Some,
        q.list is Some ==> q@.list->0.min_items == q.list->0.min_items && q@.list->0.max_items
            == q.list->0.max_items && q@.list->0.fields.len() == q.list->0.fields@.len() && forall|
            i: int,
        |
            0 <= i < q.list->0.fields@.len() ==> #[trigger] q@.list->0.fields[i]
                == q.list->0.fields@[i]@,
{
}

/// A part of what is generated stands in a directory of its own, under the form's
/// name and with its own ending.
pub proof fn law_part_files(
    rules: paths::RulesView,
    dir: Seq<char>,
    part: Seq<char>,
    base: Seq<char>,
    ending: Seq<char>,
)
    requires
        rules.separator == '/',
        !rules.drives,
        dir.len() > 0,
        dir.last() != '/',
        part.len() > 0,
        part[0] != '/',
        part.last() != '/',
        base.len() > 0,
        base[0] != '/',
    ensures
        part_file(rules, dir, part, base, ending) == dir + "/"@ + part + "/"@ + base + ending,
{
    let below = dir + "/"@ + part;
    assert(below.last() == part.last());
    assert((base + ending)[0] == base[0]);
    assert(part_file(rules, dir, part, base, ending) =~= dir + "/"@ + part + "/"@ + base + ending);
}

/// A readme begins with the form's title and its version, and tells its description
/// and its summary, or what stands in place of those that it lacks.
pub proof fn law_readme_head(
    form: FormView,
    description: Option<Seq<char>>,
    summary: Option<Seq<char>>,
)
    ensures
        ({
            let head = readme_head(form, description, summary);
            let start = "# "@ + form.title + "\n\nVersion: "@ + form.version + "\n\n"@;
            &&& text::begins_with(head, start)
            &&& description is Some && summary is Some ==> head == start + description->0
                + "\n\n## Summary\n\n"@ + summary->0
            &&& description is None && summary is Some ==> head == start
                + "No description provided."@ + "\n\n## Summary\n\n"@ + summary->0
            &&& description is Some && summary is None ==> head == start + description->0
                + "\n\n## Summary\n\n"@ + "Generated by `greentic-qa`."@
        }),
{
    let head = readme_head(form, description, summary);
    let start = "# "@ + form.title + "\n\nVersion: "@ + form.version + "\n\n"@;
    assert(head.take(start.len() as int) =~= start);
}

} // verus!
