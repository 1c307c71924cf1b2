//! Answers and defaults that are typed in.
use crate::builder::{self, CliQuestionType, QuestionInput, QuestionInputView};
use crate::catalog::{self, t, tf1, CatalogView, I18n};
use crate::json::{self, collect_strings, Json, JsonView, Number};
use crate::json_text::{self, finite, parse_json};
use crate::text::{
    self, contains_text, join, parse_i64, same, same_ignoring_ascii_case, to_lower, trim,
};
use crate::wizard::{AnswerFaultView, AnswerParseError};
use vstd::prelude::*;

verus! {

/// A double that was read: its bit pattern, the text that shows it, and whether
/// it is a JSON number.
#[derive(Debug, PartialEq)]
pub struct ReadDouble {
    pub bits: u64,
    pub text: String,
    pub number: bool,
}

/// What `str::parse` reads from a text as a double: its bit pattern and the text
/// that `to_string` shows it as.
pub uninterp spec fn double_of_text(text: Seq<char>) -> Option<(u64, Seq<char>)>;

/// Whether two bit patterns are of one double: those that are no number are not
/// told apart.
pub open spec fn same_double(a: u64, b: u64) -> bool {
    a == b || (json::is_nan(a) && json::is_nan(b))
}

/// Whether a double was read as a name says.
pub open spec fn read_as(read: Option<ReadDouble>, named: Option<(u64, Seq<char>)>) -> bool {
    match (read, named) {
        (Some(read), Some((bits, text))) => same_double(read.bits, bits) && read.text@ == text
            && read.number == json_text::is_finite(read.bits),
        (None, None) => true,
        _ => false,
    }
}

/// `str::parse` into a double, its `to_bits` and `to_string`, and whether
/// `serde_json::Number::from_f64` has a number for it, which is so where it is
/// finite. Of a double that is no number, the bit pattern is left open.
#[verifier::external_body]
fn read_double(raw: &str) -> (r: Option<ReadDouble>)
    ensures
        read_as(r, double_of_text(raw@)),
{
    match raw.parse() {
        Ok(value) => {
            let number = serde_json::Number::from_f64(value).is_some();
            Some(ReadDouble { bits: value.to_bits(), text: value.to_string(), number })
        },
        Err(_) => None,
    }
}

/// The double that a text is read as: its bit pattern, one of them for those that
/// are no number, and the text that shows it.
pub open spec fn double_typed(text: Seq<char>) -> Option<(u64, Seq<char>)> {
    match double_of_text(text) {
        Some((bits, shown)) => Some(
            (
                if json::is_nan(bits) {
                    0x7ff8_0000_0000_0000
                } else {
                    bits
                },
                shown,
            ),
        ),
        None => None,
    }
}

/// Reads a double.
pub fn parse_double(raw: &str) -> (r: Option<ReadDouble>)
    ensures
        match r {
            Some(read) => double_typed(raw@) == Some((read.bits, read.text@)) && read.number
                == json_text::is_finite(read.bits),
            None => double_typed(raw@) is None,
        },
{
    match read_double(raw) {
        Some(read) => {
            let bits: u64 = if read.bits % 0x8000_0000_0000_0000 > 0x7ff0_0000_0000_0000 {
                0x7ff8_0000_0000_0000
            } else {
                read.bits
            };
            Some(ReadDouble { bits, text: read.text, number: read.number })
        },
        None => None,
    }
}

/// The truth value that a word stands for, in lower case.
pub open spec fn truth_named(word: Seq<char>) -> Option<bool> {
    if word == "true"@ || word == "t"@ || word == "yes"@ || word == "y"@ || word == "1"@ {
        Some(true)
    } else if word == "false"@ || word == "f"@ || word == "no"@ || word == "n"@ || word == "0"@ {
        Some(false)
    } else {
        None
    }
}

fn read_truth(word: &str) -> (r: Option<bool>)
    ensures
        r == truth_named(word@),
{
    if same(word, "true") || same(word, "t") || same(word, "yes") || same(word, "y") || same(
        word,
        "1",
    ) {
        Some(true)
    } else if same(word, "false") || same(word, "f") || same(word, "no") || same(word, "n")
        || same(word, "0") {
        Some(false)
    } else {
        None
    }
}

/// A refused answer.
pub open spec fn refused(user: Seq<char>, debug: Option<Seq<char>>) -> Result<
    JsonView,
    AnswerFaultView,
> {
    Err(AnswerFaultView { user_message: user, debug_message: debug })
}

/// An answer that was read, viewed.
pub open spec fn answer_view(r: Result<Json, AnswerParseError>) -> Result<
    JsonView,
    AnswerFaultView,
> {
    match r {
        Ok(value) => Ok(value@),
        Err(error) => Err(error@),
    }
}

/// The truth value that was typed in.
pub open spec fn boolean_typed(raw: Seq<char>, catalog: CatalogView) -> Result<
    JsonView,
    AnswerFaultView,
> {
    match truth_named(text::lowercase(raw)) {
        Some(value) => Ok(JsonView::Bool(value)),
        None => refused(
            catalog::message(catalog, "cli.parse.boolean_prompt"@),
            Some("expected boolean (y/n/true/false)"@),
        ),
    }
}

/// The integer that was typed in.
pub open spec fn integer_typed(raw: Seq<char>, catalog: CatalogView) -> Result<
    JsonView,
    AnswerFaultView,
> {
    match text::i64_value(raw) {
        Some(value) => Ok(JsonView::Number(json::number_of_int(value as i64))),
        None => refused(
            catalog::message(catalog, "cli.parse.integer_prompt"@),
            Some("expected integer"@),
        ),
    }
}

/// The number that was typed in.
pub open spec fn number_typed(raw: Seq<char>, catalog: CatalogView) -> Result<
    JsonView,
    AnswerFaultView,
> {
    match double_typed(raw) {
        Some((bits, _)) => if json_text::is_finite(bits) {
            Ok(JsonView::Number(Number::Float(bits)))
        } else {
            refused(
                catalog::message(catalog, "cli.parse.number_finite"@),
                Some("number must be finite"@),
            )
        },
        None => refused(
            catalog::message(catalog, "cli.parse.number_prompt"@),
            Some("expected number"@),
        ),
    }
}

/// The first of several choices that is equal to a text but for case.
pub open spec fn chosen(choices: Seq<Seq<char>>, raw: Seq<char>, i: int) -> Option<Seq<char>>
    decreases choices.len() - i,
{
    if i < 0 || i >= choices.len() {
        None
    } else if text::equal_ignoring_ascii_case(choices[i], raw) {
        Some(choices[i])
    } else {
        chosen(choices, raw, i + 1)
    }
}

/// The choice that was typed in.
pub open spec fn enum_typed(question: JsonView, raw: Seq<char>, catalog: CatalogView) -> Result<
    JsonView,
    AnswerFaultView,
> {
    match json::member_array(question, "choices"@) {
        None => refused(catalog::message(catalog, "cli.parse.choices_missing"@), None),
        Some(items) => {
            let allowed = json::strings_in(items);
            match chosen(allowed, raw, 0) {
                Some(choice) => Ok(JsonView::String(choice)),
                None => refused(
                    catalog::message_with(
                        catalog,
                        "cli.parse.choose_one_of"@,
                        seq![("choices"@, text::joined(allowed, ", "@))],
                    ),
                    Some(
                        catalog::message_with(
                            catalog,
                            "cli.parse.allowed_values"@,
                            seq![("choices"@, text::joined(allowed, ", "@))],
                        ),
                    ),
                ),
            }
        },
    }
}

/// The names of the fields of a list question.
pub open spec fn field_names(question: JsonView, catalog: CatalogView) -> Seq<char> {
    let names = text::joined(crate::wizard::list_fields_in(question), ", "@);
    if names.len() == 0 {
        catalog::message(catalog, "cli.common.unknown"@)
    } else {
        names
    }
}

/// The list that was typed in.
pub open spec fn list_typed(question: JsonView, raw: Seq<char>, catalog: CatalogView) -> Result<
    JsonView,
    AnswerFaultView,
> {
    match json_text::json_of_text(raw) {
        Ok(value) => if value is Array {
            Ok(value)
        } else {
            refused(
                catalog::message(catalog, "cli.parse.list_array"@),
                Some(
                    catalog::message_with(
                        catalog,
                        "cli.parse.list_expected_fields"@,
                        seq![("fields"@, field_names(question, catalog))],
                    ),
                ),
            )
        },
        Err(details) => refused(
            catalog::message(catalog, "cli.parse.list_invalid"@),
            Some(details),
        ),
    }
}

/// What was typed in, or the default of the question where it is nothing.
pub open spec fn given_text(question: JsonView, raw: Seq<char>) -> Seq<char> {
    if raw.len() == 0 {
        match json::member_string(question, "default"@) {
            Some(default) => text::trimmed(default),
            None => Seq::empty(),
        }
    } else {
        text::trimmed(raw)
    }
}

/// Whether a rendered question must be answered.
pub open spec fn must_answer(question: JsonView) -> bool {
    match json::member_bool(question, "required"@) {
        Some(required) => required,
        None => true,
    }
}

/// The type of a rendered question.
pub open spec fn type_label(question: JsonView) -> Seq<char> {
    match json::member_string(question, "type"@) {
        Some(label) => label,
        None => "string"@,
    }
}

/// The answer that a text is to a rendered question.
pub open spec fn answer_typed(question: JsonView, raw: Seq<char>, catalog: CatalogView) -> Result<
    JsonView,
    AnswerFaultView,
> {
    let value = given_text(question, raw);
    let label = type_label(question);
    if value.len() == 0 {
        if must_answer(question) {
            refused(catalog::message(catalog, "cli.wizard.required_answer"@), None)
        } else {
            Ok(JsonView::Null)
        }
    } else if label == "boolean"@ {
        boolean_typed(value, catalog)
    } else if label == "integer"@ {
        integer_typed(value, catalog)
    } else if label == "number"@ {
        number_typed(value, catalog)
    } else if label == "enum"@ {
        enum_typed(question, value, catalog)
    } else if label == "list"@ {
        list_typed(question, value, catalog)
    } else {
        Ok(JsonView::String(value))
    }
}

/// Reads a truth value.
pub fn parse_boolean(raw: &str, i18n: &I18n) -> (r: Result<Json, AnswerParseError>)
    ensures
        answer_view(r) == boolean_typed(raw@, i18n@),
{
    match read_truth(to_lower(raw).as_str()) {
        Some(value) => Ok(Json::Bool(value)),
        None => Err(
            AnswerParseError::new(
                t(i18n, "cli.parse.boolean_prompt"),
                Some("expected boolean (y/n/true/false)".to_owned()),
            ),
        ),
    }
}

/// Reads an integer.
pub fn parse_integer(raw: &str, i18n: &I18n) -> (r: Result<Json, AnswerParseError>)
    ensures
        answer_view(r) == integer_typed(raw@, i18n@),
{
    match parse_i64(raw) {
        Some(value) => Ok(Json::Number(Number::from_i64(value))),
        None => Err(
            AnswerParseError::new(
                t(i18n, "cli.parse.integer_prompt"),
                Some("expected integer".to_owned()),
            ),
        ),
    }
}

/// Takes a double that was read as a number.
pub fn number_answer(read: Option<ReadDouble>, i18n: &I18n) -> (r: Result<Json, AnswerParseError>)
    ensures
        answer_view(r) == match read {
            Some(read) => if read.number {
                Ok(JsonView::Number(Number::Float(read.bits)))
            } else {
                refused(
                    catalog::message(i18n@, "cli.parse.number_finite"@),
                    Some("number must be finite"@),
                )
            },
            None => refused(
                catalog::message(i18n@, "cli.parse.number_prompt"@),
                Some("expected number"@),
            ),
        },
{
    match read {
        Some(read) => if read.number {
            Ok(Json::Number(Number::Float(read.bits)))
        } else {
            Err(
                AnswerParseError::new(
                    t(i18n, "cli.parse.number_finite"),
                    Some("number must be finite".to_owned()),
                ),
            )
        },
        None => Err(
            AnswerParseError::new(
                t(i18n, "cli.parse.number_prompt"),
                Some("expected number".to_owned()),
            ),
        ),
    }
}

/// Reads a number.
pub fn parse_number(raw: &str, i18n: &I18n) -> (r: Result<Json, AnswerParseError>)
    ensures
        answer_view(r) == number_typed(raw@, i18n@),
{
    number_answer(parse_double(raw), i18n)
}

/// Reads a choice.
pub fn parse_enum(question: &Json, raw: &str, i18n: &I18n) -> (r: Result<Json, AnswerParseError>)
    ensures
        answer_view(r) == enum_typed(question@, raw@, i18n@),
{
    let items = match question.get("choices") {
        Some(choices) => match choices.as_array() {
            Some(items) => items,
            None => {
                return Err(AnswerParseError::new(t(i18n, "cli.parse.choices_missing"), None));
            },
        },
        None => {
            return Err(AnswerParseError::new(t(i18n, "cli.parse.choices_missing"), None));
        },
    };
    let allowed = collect_strings(items);
    let ghost views = text::texts(allowed@);
    let mut i: usize = 0;
    while i < allowed.len()
        invariant
            i <= allowed@.len(),
            views == text::texts(allowed@),
            json::member_array(question@, "choices"@) is Some,
            views == json::strings_in(json::member_array(question@, "choices"@)->0),
            chosen(views, raw@, 0) == chosen(views, raw@, i as int),
        decreases allowed.len() - i,
    {
        assert(views[i as int] == allowed@[i as int]@);
        assert(views.len() == allowed@.len());
        if same_ignoring_ascii_case(allowed[i].as_str(), raw) {
            return Ok(Json::String(allowed[i].clone()));
        }
        i += 1;
    }
    let list = join(&allowed, ", ");
    Err(
        AnswerParseError::new(
            tf1(i18n, "cli.parse.choose_one_of", "choices", list.as_str()),
            Some(tf1(i18n, "cli.parse.allowed_values", "choices", list.as_str())),
        ),
    )
}

/// The names of the fields of a list question.
pub fn describe_list_fields(question: &Json, i18n: &I18n) -> (r: String)
    ensures
        r@ == field_names(question@, i18n@),
{
    let names = crate::wizard::read_list_fields(question);
    let description = join(&names, ", ");
    if text::chars_of(description.as_str()).len() == 0 {
        t(i18n, "cli.common.unknown")
    } else {
        description
    }
}

/// Reads a list.
pub fn parse_list(question: &Json, raw: &str, i18n: &I18n) -> (r: Result<Json, AnswerParseError>)
    ensures
        answer_view(r) == list_typed(question@, raw@, i18n@),
{
    match parse_json(raw) {
        Ok(value) => if value.as_array().is_some() {
            Ok(value)
        } else {
            let fields = describe_list_fields(question, i18n);
            Err(
                AnswerParseError::new(
                    t(i18n, "cli.parse.list_array"),
                    Some(tf1(i18n, "cli.parse.list_expected_fields", "fields", fields.as_str())),
                ),
            )
        },
        Err(details) => Err(
            AnswerParseError::new(t(i18n, "cli.parse.list_invalid"), Some(details)),
        ),
    }
}

/// Reads the answer to a rendered question.
pub fn parse_answer(question: &Json, raw: &str, i18n: &I18n) -> (r: Result<Json, AnswerParseError>)
    ensures
        answer_view(r) == answer_typed(question@, raw@, i18n@),
{
    let value = if text::chars_of(raw).len() == 0 {
        match question.get_str("default") {
            Some(default) => trim(default),
            None => String::new(),
        }
    } else {
        trim(raw)
    };
    if text::chars_of(value.as_str()).len() == 0 {
        let required = match question.get_bool("required") {
            Some(required) => required,
            None => true,
        };
        if !required {
            return Ok(Json::Null);
        }
        return Err(AnswerParseError::new(t(i18n, "cli.wizard.required_answer"), None));
    }
    let label = match question.get_str("type") {
        Some(label) => label,
        None => "string",
    };
    if same(label, "boolean") {
        parse_boolean(value.as_str(), i18n)
    } else if same(label, "integer") {
        parse_integer(value.as_str(), i18n)
    } else if same(label, "number") {
        parse_number(value.as_str(), i18n)
    } else if same(label, "enum") {
        parse_enum(question, value.as_str(), i18n)
    } else if same(label, "list") {
        parse_list(question, value.as_str(), i18n)
    } else {
        Ok(Json::String(value))
    }
}

/// What is wrong with a default truth value.
pub open spec fn boolean_default_complaint(raw: Seq<char>, catalog: CatalogView) -> Option<
    Seq<char>,
> {
    if truth_named(text::lowercase(raw)) is Some {
        None
    } else {
        Some(catalog::message(catalog, "cli.new.boolean_default_invalid"@))
    }
}

/// What is wrong with a default integer.
pub open spec fn integer_default_complaint(raw: Seq<char>, catalog: CatalogView) -> Option<
    Seq<char>,
> {
    if text::i64_value(raw) is Some {
        None
    } else {
        Some(catalog::message(catalog, "cli.new.integer_default_invalid"@))
    }
}

/// What is wrong with a default number.
pub open spec fn number_default_complaint(raw: Seq<char>, catalog: CatalogView) -> Option<
    Seq<char>,
> {
    match double_typed(raw) {
        Some((bits, _)) => if json_text::is_finite(bits) {
            None
        } else {
            Some(catalog::message(catalog, "cli.new.number_default_not_finite"@))
        },
        None => Some(catalog::message(catalog, "cli.new.number_default_invalid"@)),
    }
}

/// What is wrong with a default choice.
pub open spec fn enum_default_complaint(
    raw: Seq<char>,
    choices: Option<Seq<Seq<char>>>,
    catalog: CatalogView,
) -> Option<Seq<char>> {
    match choices {
        None => Some(catalog::message(catalog, "cli.new.enum_default_no_choices"@)),
        Some(choices) => if choices.contains(raw) {
            None
        } else {
            Some(
                catalog::message_with(
                    catalog,
                    "cli.new.enum_default_must_match"@,
                    seq![("choices"@, text::joined(choices, ", "@))],
                ),
            )
        },
    }
}

/// What is wrong with a default for a question of some kind.
pub open spec fn default_complaint(
    kind: CliQuestionType,
    raw: Seq<char>,
    choices: Option<Seq<Seq<char>>>,
    catalog: CatalogView,
) -> Option<Seq<char>> {
    match kind {
        CliQuestionType::Boolean => boolean_default_complaint(raw, catalog),
        CliQuestionType::Integer => integer_default_complaint(raw, catalog),
        CliQuestionType::Number => number_default_complaint(raw, catalog),
        CliQuestionType::Enum => enum_default_complaint(raw, choices, catalog),
        CliQuestionType::String => None,
        CliQuestionType::List => Some(
            catalog::message(catalog, "cli.new.list_default_not_allowed"@),
        ),
    }
}

/// Choices that may be absent, viewed.
pub open spec fn choices_view(choices: Option<&Vec<String>>) -> Option<Seq<Seq<char>>> {
    match choices {
        Some(choices) => Some(text::texts(choices@)),
        None => None,
    }
}

/// Checks a default truth value.
pub fn parse_boolean_default(raw: &str, i18n: &I18n) -> (r: Result<(), String>)
    ensures
        builder::complaint_view(r) == boolean_default_complaint(raw@, i18n@),
{
    match read_truth(to_lower(raw).as_str()) {
        Some(_) => Ok(()),
        None => Err(t(i18n, "cli.new.boolean_default_invalid")),
    }
}

/// Checks a default integer.
pub fn parse_integer_default(raw: &str, i18n: &I18n) -> (r: Result<(), String>)
    ensures
        builder::complaint_view(r) == integer_default_complaint(raw@, i18n@),
{
    match parse_i64(raw) {
        Some(_) => Ok(()),
        None => Err(t(i18n, "cli.new.integer_default_invalid")),
    }
}

/// Checks a default number.
pub fn parse_number_default(raw: &str, i18n: &I18n) -> (r: Result<(), String>)
    ensures
        builder::complaint_view(r) == number_default_complaint(raw@, i18n@),
{
    match parse_double(raw) {
        Some(read) => if read.number {
            Ok(())
        } else {
            Err(t(i18n, "cli.new.number_default_not_finite"))
        },
        None => Err(t(i18n, "cli.new.number_default_invalid")),
    }
}

/// Checks a default choice.
pub fn parse_enum_default(raw: &str, choices: Option<&Vec<String>>, i18n: &I18n) -> (r: Result<
    (),
    String,
>)
    ensures
        builder::complaint_view(r) == enum_default_complaint(raw@, choices_view(choices), i18n@),
{
    let choices = match choices {
        Some(choices) => choices,
        None => {
            return Err(t(i18n, "cli.new.enum_default_no_choices"));
        },
    };
    if contains_text(choices, raw) {
        Ok(())
    } else {
        let list = join(choices, ", ");
        Err(tf1(i18n, "cli.new.enum_default_must_match", "choices", list.as_str()))
    }
}

/// Checks a default for a question of some kind.
pub fn ensure_default_matches_type(
    kind: CliQuestionType,
    default: &str,
    choices: Option<&Vec<String>>,
    i18n: &I18n,
) -> (r: Result<(), String>)
    ensures
        builder::complaint_view(r) == default_complaint(
            kind,
            default@,
            choices_view(choices),
            i18n@,
        ),
{
    match kind {
        CliQuestionType::Boolean => parse_boolean_default(default, i18n),
        CliQuestionType::Integer => parse_integer_default(default, i18n),
        CliQuestionType::Number => parse_number_default(default, i18n),
        CliQuestionType::Enum => parse_enum_default(default, choices, i18n),
        CliQuestionType::String => Ok(()),
        CliQuestionType::List => Err(t(i18n, "cli.new.list_default_not_allowed")),
    }
}

/// What is wrong with a list part that was typed in.
pub open spec fn new_list_complaint(
    list: Option<builder::ListInputView>,
    catalog: CatalogView,
) -> Option<Seq<char>> {
    match list {
        None => Some(catalog::message(catalog, "cli.new.list_metadata_required"@)),
        Some(list) => if list.fields.len() == 0 {
            Some(catalog::message(catalog, "cli.new.list_fields_required"@))
        } else if builder::reversed(list.min_items, list.max_items) {
            Some(catalog::message(catalog, "cli.new.list_min_gt_max"@))
        } else {
            None
        },
    }
}

/// What is wrong with a question that was typed in.
pub open spec fn new_question_complaint(question: QuestionInputView, catalog: CatalogView)
    -> Option<Seq<char>> {
    if question.kind is Enum && !builder::has_choices(question) {
        Some(catalog::message(catalog, "cli.new.enum_choices_required"@))
    } else if question.kind is List && new_list_complaint(question.list, catalog) is Some {
        new_list_complaint(question.list, catalog)
    } else {
        match question.default_value {
            Some(default) => default_complaint(question.kind, default, question.choices, catalog),
            None => None,
        }
    }
}

/// Checks a question that was typed in.
pub fn validate_question_input(question: &QuestionInput, i18n: &I18n) -> (r: Result<(), String>)
    ensures
        builder::complaint_view(r) == new_question_complaint(question@, i18n@),
{
    proof {
        builder::lemma_input_list(*question);
    }
    if matches!(question.kind, CliQuestionType::Enum) {
        let offered = match &question.choices {
            Some(choices) => {
                assert(text::texts(choices@).len() == choices@.len());
                choices.len() > 0
            },
            None => false,
        };
        if !offered {
            return Err(t(i18n, "cli.new.enum_choices_required"));
        }
    }
    if matches!(question.kind, CliQuestionType::List) {
        let list = match &question.list {
            Some(list) => list,
            None => {
                return Err(t(i18n, "cli.new.list_metadata_required"));
            },
        };
        if list.fields.len() == 0 {
            return Err(t(i18n, "cli.new.list_fields_required"));
        }
        if let (Some(min), Some(max)) = (list.min_items, list.max_items) {
            if min > max {
                return Err(t(i18n, "cli.new.list_min_gt_max"));
            }
        }
    }
    match &question.default_value {
        Some(default) => ensure_default_matches_type(
            question.kind,
            default.as_str(),
            question.choices.as_ref(),
            i18n,
        ),
        None => Ok(()),
    }
}

/// The value that a word in an expression stands for.
pub open spec fn literal_typed(raw: Seq<char>) -> JsonView {
    let word = text::trimmed(raw);
    if text::equal_ignoring_ascii_case(word, "true"@) {
        JsonView::Bool(true)
    } else if text::equal_ignoring_ascii_case(word, "false"@) {
        JsonView::Bool(false)
    } else {
        match text::i64_value(word) {
            Some(value) => JsonView::Number(json::number_of_int(value as i64)),
            None => match double_typed(word) {
                Some((bits, _)) => if json_text::is_finite(bits) {
                    JsonView::Number(Number::Float(bits))
                } else {
                    json_or_text(word)
                },
                None => json_or_text(word),
            },
        }
    }
}

/// What a text reads as, or the text where it is no JSON.
pub open spec fn json_or_text(word: Seq<char>) -> JsonView {
    match json_text::json_of_text(word) {
        Ok(value) => value,
        Err(_) => JsonView::String(word),
    }
}

/// Reads a value in an expression.
pub fn parse_expression_literal(raw: &str) -> (r: Json)
    ensures
        r@ == literal_typed(raw@),
{
    let trimmed = trim(raw);
    let word = trimmed.as_str();
    if same_ignoring_ascii_case(word, "true") {
        return Json::Bool(true);
    }
    if same_ignoring_ascii_case(word, "false") {
        return Json::Bool(false);
    }
    if let Some(value) = parse_i64(word) {
        return Json::Number(Number::from_i64(value));
    }
    if let Some(read) = parse_double(word) {
        if read.number {
            return Json::Number(Number::Float(read.bits));
        }
    }
    match parse_json(word) {
        Ok(value) => value,
        Err(_) => Json::String(trimmed),
    }
}

/// A choice that is accepted is one of the choices on offer.
pub proof fn law_chosen_is_on_offer(choices: Seq<Seq<char>>, raw: Seq<char>, i: int)
    requires
        0 <= i,
    ensures
        chosen(choices, raw, i) matches Some(choice) ==> choices.contains(choice)
            && text::equal_ignoring_ascii_case(choice, raw),
    decreases choices.len() - i,
{
    if i < choices.len() {
        if text::equal_ignoring_ascii_case(choices[i], raw) {
            assert(choices.contains(choices[i]));
        } else {
            law_chosen_is_on_offer(choices, raw, i + 1);
        }
    }
}

/// A question that need not be answered takes nothing for an answer, and one that
/// must be does not, unless it has a default.
pub proof fn law_empty_answer(question: JsonView, catalog: CatalogView)
    requires
        given_text(question, Seq::empty()).len() == 0,
    ensures
        must_answer(question) <==> answer_typed(question, Seq::empty(), catalog) is Err,
        !must_answer(question) ==> answer_typed(question, Seq::empty(), catalog) == Ok::<
            JsonView,
            AnswerFaultView,
        >(JsonView::Null),
{
}

/// An accepted answer is of the type that its question asks for.
pub proof fn law_answer_has_type(question: JsonView, raw: Seq<char>, catalog: CatalogView)
    requires
        answer_typed(question, raw, catalog) is Ok,
    ensures
        ({
            let value = answer_typed(question, raw, catalog)->Ok_0;
            let label = type_label(question);
            value is Null || if label == "boolean"@ {
                value is Bool
            } else if label == "integer"@ || label == "number"@ {
                value is Number
            } else if label == "list"@ {
                value is Array
            } else {
                value is String
            }
        }),
{
    reveal_strlit("boolean");
    reveal_strlit("integer");
    reveal_strlit("number");
    reveal_strlit("enum");
    reveal_strlit("list");
    assert("boolean"@[0] == 'b' && "integer"@[0] == 'i' && "number"@[0] == 'n');
    assert("enum"@[0] == 'e' && "list"@[0] == 'l');
}

/// What is taken as the answer is the typed text without the white space around it,
/// or the default's where nothing was typed.
pub proof fn law_given_text(question: JsonView, raw: Seq<char>)
    ensures
        raw.len() > 0 ==> given_text(question, raw) == text::trimmed(raw),
        raw.len() == 0 ==> given_text(question, raw) == match json::member(question, "default"@) {
            Some(JsonView::String(default)) => text::trimmed(default),
            _ => Seq::empty(),
        },
{
}

/// Nothing is an answer only where the question says that it need not be answered.
pub proof fn law_nothing_typed(question: JsonView, raw: Seq<char>, catalog: CatalogView)
    requires
        given_text(question, raw).len() == 0,
    ensures
        json::member(question, "required"@) == Some(JsonView::Bool(false)) ==> answer_typed(
            question,
            raw,
            catalog,
        ) == Ok::<JsonView, AnswerFaultView>(JsonView::Null),
        json::member(question, "required"@) != Some(JsonView::Bool(false)) ==> answer_typed(
            question,
            raw,
            catalog,
        ) == Err::<JsonView, AnswerFaultView>(
            AnswerFaultView {
                user_message: catalog::message(catalog, "cli.wizard.required_answer"@),
                debug_message: None,
            },
        ),
{
}

proof fn lemma_labels_differ()
    ensures
        "boolean"@ != "integer"@ && "boolean"@ != "number"@ && "boolean"@ != "enum"@,
        "boolean"@ != "list"@ && "integer"@ != "number"@ && "integer"@ != "enum"@,
        "integer"@ != "list"@ && "number"@ != "enum"@ && "number"@ != "list"@,
        "enum"@ != "list"@ && "string"@ != "boolean"@ && "string"@ != "integer"@,
        "string"@ != "number"@ && "string"@ != "enum"@ && "string"@ != "list"@,
{
    reveal_strlit("boolean");
    reveal_strlit("integer");
    reveal_strlit("number");
    reveal_strlit("enum");
    reveal_strlit("list");
    reveal_strlit("string");
    assert("boolean"@[0] == 'b' && "integer"@[0] == 'i' && "number"@[0] == 'n');
    assert("enum"@[0] == 'e' && "list"@[0] == 'l' && "string"@[0] == 's');
}

/// The answer to a question for a list is the array that its text is read as. Every
/// array that is read is taken, and nothing else is.
pub proof fn law_list_answers(
    question: JsonView,
    raw: Seq<char>,
    catalog: CatalogView,
    value: JsonView,
)
    requires
        json::member(question, "type"@) == Some(JsonView::String("list"@)),
        given_text(question, raw).len() > 0,
    ensures
        answer_typed(question, raw, catalog) == Ok::<JsonView, AnswerFaultView>(value) <==> value
            is Array && json_text::json_of_text(given_text(question, raw)) == Ok::<
            JsonView,
            Seq<char>,
        >(value),
        json_text::json_of_text(given_text(question, raw)) matches Err(details) ==> answer_typed(
            question,
            raw,
            catalog,
        ) == Err::<JsonView, AnswerFaultView>(
            AnswerFaultView {
                user_message: catalog::message(catalog, "cli.parse.list_invalid"@),
                debug_message: Some(details),
            },
        ),
        json_text::json_of_text(given_text(question, raw)) matches Ok(other) ==> !(other is Array)
            ==> (answer_typed(question, raw, catalog) matches Err(told) && told.user_message
            == catalog::message(catalog, "cli.parse.list_array"@)),
{
    lemma_labels_differ();
}

/// The answer to a question for a truth value is the one that the text names, in any
/// case: one of five words each.
pub proof fn law_boolean_answers(
    question: JsonView,
    raw: Seq<char>,
    catalog: CatalogView,
    value: bool,
)
    requires
        json::member(question, "type"@) == Some(JsonView::String("boolean"@)),
        given_text(question, raw).len() > 0,
    ensures
        ({
            let word = text::lowercase(given_text(question, raw));
            let typed = answer_typed(question, raw, catalog);
            let yes = word == "true"@ || word == "t"@ || word == "yes"@ || word == "y"@ || word
                == "1"@;
            let no = word == "false"@ || word == "f"@ || word == "no"@ || word == "n"@ || word
                == "0"@;
            &&& typed == Ok::<JsonView, AnswerFaultView>(JsonView::Bool(value)) <==> (if value {
                yes
            } else {
                no
            })
            &&& typed is Ok ==> typed->Ok_0 is Bool
            &&& !yes && !no ==> typed == Err::<JsonView, AnswerFaultView>(
                AnswerFaultView {
                    user_message: catalog::message(catalog, "cli.parse.boolean_prompt"@),
                    debug_message: Some("expected boolean (y/n/true/false)"@),
                },
            )
        }),
{
    lemma_labels_differ();
    reveal_strlit("true");
    reveal_strlit("t");
    reveal_strlit("yes");
    reveal_strlit("y");
    reveal_strlit("1");
    reveal_strlit("false");
    reveal_strlit("f");
    reveal_strlit("no");
    reveal_strlit("n");
    reveal_strlit("0");
    assert("true"@[0] == 't' && "t"@[0] == 't' && "yes"@[0] == 'y' && "y"@[0] == 'y');
    assert("1"@[0] == '1' && "0"@[0] == '0' && "false"@[0] == 'f' && "f"@[0] == 'f');
    assert("no"@[0] == 'n' && "n"@[0] == 'n');
}

/// The answer to a question for an integer is the integer that the text denotes,
/// where it fits in 64 signed bits.
pub proof fn law_integer_answers(
    question: JsonView,
    raw: Seq<char>,
    catalog: CatalogView,
    value: i64,
)
    requires
        json::member(question, "type"@) == Some(JsonView::String("integer"@)),
        given_text(question, raw).len() > 0,
    ensures
        ({
            let typed = answer_typed(question, raw, catalog);
            let read = text::integer_value(given_text(question, raw));
            &&& typed == Ok::<JsonView, AnswerFaultView>(
                JsonView::Number(json::number_of_int(value)),
            ) <==> read == Some(value as int)
            &&& typed is Ok ==> exists|v: i64|
                typed->Ok_0 == JsonView::Number(#[trigger] json::number_of_int(v))
            &&& typed is Err ==> typed == Err::<JsonView, AnswerFaultView>(
                AnswerFaultView {
                    user_message: catalog::message(catalog, "cli.parse.integer_prompt"@),
                    debug_message: Some("expected integer"@),
                },
            )
        }),
{
    lemma_labels_differ();
    let read = text::i64_value(given_text(question, raw));
    match read {
        Some(n) => {
            assert(json::number_of_int(n as i64) == json::number_of_int(value) ==> n == value);
        },
        None => {},
    }
}

/// The answer to a question for a number is the double that the text is read as. It
/// is refused where the text is read as none, or as one that is not finite.
pub proof fn law_number_answers(
    question: JsonView,
    raw: Seq<char>,
    catalog: CatalogView,
)
    requires
        json::member(question, "type"@) == Some(JsonView::String("number"@)),
        given_text(question, raw).len() > 0,
    ensures
        ({
            let typed = answer_typed(question, raw, catalog);
            match double_of_text(given_text(question, raw)) {
                Some((bits, _)) => if bits < 0x7ff0_0000_0000_0000 || 0x8000_0000_0000_0000 <= bits
                    < 0xfff0_0000_0000_0000 {
                    typed == Ok::<JsonView, AnswerFaultView>(JsonView::Number(Number::Float(bits)))
                } else {
                    typed == Err::<JsonView, AnswerFaultView>(
                        AnswerFaultView {
                            user_message: catalog::message(catalog, "cli.parse.number_finite"@),
                            debug_message: Some("number must be finite"@),
                        },
                    )
                },
                None => typed == Err::<JsonView, AnswerFaultView>(
                    AnswerFaultView {
                        user_message: catalog::message(catalog, "cli.parse.number_prompt"@),
                        debug_message: Some("expected number"@),
                    },
                ),
            }
        }),
{
    lemma_labels_differ();
}

proof fn lemma_chosen(choices: Seq<Seq<char>>, raw: Seq<char>, i: int)
    requires
        0 <= i,
    ensures
        match chosen(choices, raw, i) {
            Some(choice) => exists|k: int|
                i <= k < choices.len() && #[trigger] choices[k] == choice
                    && text::equal_ignoring_ascii_case(choices[k], raw) && forall|j: int|
                    i <= j < k ==> !text::equal_ignoring_ascii_case(#[trigger] choices[j], raw),
            None => forall|j: int|
                i <= j < choices.len() ==> !text::equal_ignoring_ascii_case(
                    #[trigger] choices[j],
                    raw,
                ),
        },
    decreases choices.len() - i,
{
    if i < choices.len() {
        if text::equal_ignoring_ascii_case(choices[i], raw) {
            assert(choices[i] == chosen(choices, raw, i)->0);
        } else {
            lemma_chosen(choices, raw, i + 1);
            if chosen(choices, raw, i) is Some {
                let choice = chosen(choices, raw, i)->0;
                let k = choose|k: int|
                    i + 1 <= k < choices.len() && #[trigger] choices[k] == choice
                        && text::equal_ignoring_ascii_case(choices[k], raw) && forall|j: int|
                        i + 1 <= j < k ==> !text::equal_ignoring_ascii_case(
                            #[trigger] choices[j],
                            raw,
                        );
                assert(choices[k] == choice);
                assert forall|j: int| i <= j < k implies !text::equal_ignoring_ascii_case(
                    #[trigger] choices[j],
                    raw,
                ) by {}
            }
        }
    }
}

/// The answer to a question with choices is the first choice that the text names in
/// any case, spelled as the choice is. It is refused only where it names none.
pub proof fn law_enum_answers(
    question: JsonView,
    raw: Seq<char>,
    catalog: CatalogView,
    items: Seq<JsonView>,
)
    requires
        json::member(question, "type"@) == Some(JsonView::String("enum"@)),
        json::member(question, "choices"@) == Some(JsonView::Array(items)),
        given_text(question, raw).len() > 0,
    ensures
        ({
            let choices = json::strings_in(items);
            let given = given_text(question, raw);
            match answer_typed(question, raw, catalog) {
                Ok(value) => exists|k: int|
                    0 <= k < choices.len() && value == JsonView::String(#[trigger] choices[k])
                        && text::equal_ignoring_ascii_case(choices[k], given) && forall|j: int|
                        0 <= j < k ==> !text::equal_ignoring_ascii_case(
                            #[trigger] choices[j],
                            given,
                        ),
                Err(told) => {
                    &&& forall|j: int|
                        0 <= j < choices.len() ==> !text::equal_ignoring_ascii_case(
                            #[trigger] choices[j],
                            given,
                        )
                    &&& told.user_message == catalog::message_with(
                        catalog,
                        "cli.parse.choose_one_of"@,
                        seq![("choices"@, text::joined(choices, ", "@))],
                    )
                    &&& told.debug_message == Some(
                        catalog::message_with(
                            catalog,
                            "cli.parse.allowed_values"@,
                            seq![("choices"@, text::joined(choices, ", "@))],
                        ),
                    )
                },
            }
        }),
{
    lemma_labels_differ();
    lemma_chosen(json::strings_in(items), given_text(question, raw), 0);
}

/// A question with choices that lists none takes no answer.
pub proof fn law_enum_without_choices(question: JsonView, raw: Seq<char>, catalog: CatalogView)
    requires
        json::member(question, "type"@) == Some(JsonView::String("enum"@)),
        !(json::member(question, "choices"@) matches Some(JsonView::Array(_))),
        given_text(question, raw).len() > 0,
    ensures
        answer_typed(question, raw, catalog) == Err::<JsonView, AnswerFaultView>(
            AnswerFaultView {
                user_message: catalog::message(catalog, "cli.parse.choices_missing"@),
                debug_message: None,
            },
        ),
{
    lemma_labels_differ();
}

/// Every text answers a question for a text, as it is, and so it does where the
/// question does not say what it asks for.
pub proof fn law_text_answers(question: JsonView, raw: Seq<char>, catalog: CatalogView)
    requires
        json::member(question, "type"@) == Some(JsonView::String("string"@)) || !(json::member(
            question,
            "type"@,
        ) matches Some(JsonView::String(_))),
        given_text(question, raw).len() > 0,
    ensures
        answer_typed(question, raw, catalog) == Ok::<JsonView, AnswerFaultView>(
            JsonView::String(given_text(question, raw)),
        ),
{
    lemma_labels_differ();
}

/// A default is complained of if and only if, typed as the answer to a question of
/// its kind, it would be refused. This is said of the kinds whose answers stand in
/// the text alone.
pub proof fn law_defaults_are_answers(
    question: JsonView,
    kind: CliQuestionType,
    raw: Seq<char>,
    choices: Option<Seq<Seq<char>>>,
    catalog: CatalogView,
)
    requires
        raw.len() > 0,
        text::trimmed(raw) == raw,
        kind is String ==> json::member(question, "type"@) == Some(JsonView::String("string"@)),
        kind is Boolean ==> json::member(question, "type"@) == Some(JsonView::String("boolean"@)),
        kind is Integer ==> json::member(question, "type"@) == Some(JsonView::String("integer"@)),
        kind is Number ==> json::member(question, "type"@) == Some(JsonView::String("number"@)),
        !(kind is Enum) && !(kind is List),
    ensures
        default_complaint(kind, raw, choices, catalog) is None <==> answer_typed(
            question,
            raw,
            catalog,
        ) is Ok,
{
    lemma_labels_differ();
}

/// The default of an enum question is one of its choices, spelled as it is there.
pub proof fn law_enum_defaults(
    raw: Seq<char>,
    choices: Option<Seq<Seq<char>>>,
    catalog: CatalogView,
)
    ensures
        default_complaint(CliQuestionType::Enum, raw, choices, catalog) is None <==> choices is Some
            && exists|i: int| 0 <= i < choices->0.len() && #[trigger] choices->0[i] == raw,
        choices is None ==> default_complaint(CliQuestionType::Enum, raw, choices, catalog) == Some(
            catalog::message(catalog, "cli.new.enum_default_no_choices"@),
        ),
        default_complaint(CliQuestionType::List, raw, choices, catalog) == Some(
            catalog::message(catalog, "cli.new.list_default_not_allowed"@),
        ),
{
    if choices is Some {
        assert(choices->0.contains(raw) <==> exists|i: int|
            0 <= i < choices->0.len() && #[trigger] choices->0[i] == raw);
    }
}

/// Each kind of question complains of a wrong default in its own words.
pub proof fn law_default_complaints(
    kind: CliQuestionType,
    raw: Seq<char>,
    choices: Option<Seq<Seq<char>>>,
    catalog: CatalogView,
)
    ensures
        default_complaint(kind, raw, choices, catalog) matches Some(told) ==> {
            &&& !(kind is String)
            &&& kind is Boolean ==> told == catalog::message(
                catalog,
                "cli.new.boolean_default_invalid"@,
            )
            &&& kind is Integer ==> told == catalog::message(
                catalog,
                "cli.new.integer_default_invalid"@,
            )
            &&& kind is Number && double_of_text(raw) is None ==> told == catalog::message(
                catalog,
                "cli.new.number_default_invalid"@,
            )
            &&& kind is Number && double_of_text(raw) is Some ==> told == catalog::message(
                catalog,
                "cli.new.number_default_not_finite"@,
            )
            &&& kind is Enum && choices is Some ==> told == catalog::message_with(
                catalog,
                "cli.new.enum_default_must_match"@,
                seq![("choices"@, text::joined(choices->0, ", "@))],
            )
        },
{
}

/// A new question is taken if and only if an enum question has a choice, a list
/// question has a field and limits that are not reversed, and its default, where it
/// has one, is none to complain of.
pub proof fn law_new_questions(question: QuestionInputView, catalog: CatalogView)
    ensures
        new_question_complaint(question, catalog) is None <==> {
            &&& question.kind is Enum ==> question.choices is Some && question.choices->0.len() > 0
            &&& question.kind is List ==> question.list is Some && question.list->0.fields.len() > 0
                && !(question.list->0.min_items is Some && question.list->0.max_items is Some
                && question.list->0.min_items->0 > question.list->0.max_items->0)
            &&& question.default_value is Some ==> default_complaint(
                question.kind,
                question.default_value->0,
                question.choices,
                catalog,
            ) is None
        },
{
}

/// What is wrong with a new question is told in the words for it.
pub proof fn law_new_question_complaints(question: QuestionInputView, catalog: CatalogView)
    ensures
        question.kind is Enum && !(question.choices is Some && question.choices->0.len() > 0)
            ==> new_question_complaint(question, catalog) == Some(
            catalog::message(catalog, "cli.new.enum_choices_required"@),
        ),
        question.kind is List && question.list is None ==> new_question_complaint(question, catalog)
            == Some(catalog::message(catalog, "cli.new.list_metadata_required"@)),
        question.kind is List && question.list is Some && question.list->0.fields.len() == 0
            ==> new_question_complaint(question, catalog) == Some(
            catalog::message(catalog, "cli.new.list_fields_required"@),
        ),
        question.kind is List && question.list is Some && question.list->0.fields.len() > 0
            && question.list->0.min_items is Some && question.list->0.max_items is Some
            && question.list->0.min_items->0 > question.list->0.max_items->0
            ==> new_question_complaint(question, catalog) == Some(
            catalog::message(catalog, "cli.new.list_min_gt_max"@),
        ),
{
}

/// A literal is a truth value where it names one in any case; else an integer where
/// it denotes one of 64 signed bits; else a number where it is read as a finite
/// double; else what it is read as as JSON; and else the text itself.
pub proof fn law_literals(raw: Seq<char>)
    ensures
        ({
            let word = text::trimmed(raw);
            let value = literal_typed(raw);
            let truth = text::equal_ignoring_ascii_case(word, "true"@)
                || text::equal_ignoring_ascii_case(word, "false"@);
            let integer = text::i64_value(word);
            let read = double_of_text(word);
            let finite = (read matches Some((bits, _)) && (bits < 0x7ff0_0000_0000_0000
                || 0x8000_0000_0000_0000 <= bits < 0xfff0_0000_0000_0000));
            &&& text::equal_ignoring_ascii_case(word, "true"@) ==> value == JsonView::Bool(true)
            &&& text::equal_ignoring_ascii_case(word, "false"@) ==> value == JsonView::Bool(false)
            &&& !truth && integer is Some ==> value == JsonView::Number(
                json::number_of_int(integer->0 as i64),
            )
            &&& !truth && integer is None && finite ==> (read matches Some((bits, _)) && value
                == JsonView::Number(Number::Float(bits)))
            &&& !truth && integer is None && !finite ==> match json_text::json_of_text(word) {
                Ok(read) => value == read,
                Err(_) => value == JsonView::String(word),
            }
        }),
{
    reveal_strlit("true");
    reveal_strlit("false");
    let word = text::trimmed(raw);
    if text::equal_ignoring_ascii_case(word, "false"@) {
        assert(word.map_values(|c: char| text::ascii_lower(c)).len() == 5);
        assert("true"@.map_values(|c: char| text::ascii_lower(c)).len() == 4);
    }
}

/// An answer to a question for a list that is no list is told which fields an entry
/// has, or that they are not known.
pub proof fn law_list_fields_are_told(question: JsonView, raw: Seq<char>, catalog: CatalogView)
    requires
        json::member(question, "type"@) == Some(JsonView::String("list"@)),
        given_text(question, raw).len() > 0,
        json_text::json_of_text(given_text(question, raw)) is Ok,
        !(json_text::json_of_text(given_text(question, raw))->Ok_0 is Array),
    ensures
        ({
            let names = text::joined(crate::wizard::list_fields_in(question), ", "@);
            let shown = if names.len() == 0 {
                catalog::message(catalog, "cli.common.unknown"@)
            } else {
                names
            };
            answer_typed(question, raw, catalog) == Err::<JsonView, AnswerFaultView>(
                AnswerFaultView {
                    user_message: catalog::message(catalog, "cli.parse.list_array"@),
                    debug_message: Some(
                        catalog::message_with(
                            catalog,
                            "cli.parse.list_expected_fields"@,
                            seq![("fields"@, shown)],
                        ),
                    ),
                },
            )
        }),
{
    lemma_labels_differ();
}

} // verus!
