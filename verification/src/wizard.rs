//! What the wizard reads from a rendered form, and the lines that it prints.
use crate::answers::AnswerSet;
use crate::catalog::{self, t, tf, tf1, CatalogView, I18n};
use crate::json::{self, collect_strings, Json, JsonView};
use crate::text::{self, cat, cat3, cat5, copy_opt, copy_texts, encode_hex, join, number_text, same};
use vstd::prelude::*;

verus! {

/// How much the wizard prints.
#[derive(Debug, Clone, Copy, PartialEq, Eq, Structural)]
pub enum Verbosity {
    /// Prompts alone.
    Clean,
    /// Status, shown questions, details of faults and help too.
    Verbose,
}

impl Verbosity {
    pub fn from_verbose(verbose: bool) -> (r: Verbosity)
        ensures
            r == if verbose {
                Verbosity::Verbose
            } else {
                Verbosity::Clean
            },
    {
        if verbose {
            Verbosity::Verbose
        } else {
            Verbosity::Clean
        }
    }

    pub fn is_verbose(&self) -> (r: bool)
        ensures
            r == (*self is Verbose),
    {
        matches!(self, Verbosity::Verbose)
    }
}

/// How far a rendered form has been filled in.
#[derive(Debug, Clone, Copy, PartialEq, Eq, Structural)]
pub struct RenderProgress {
    pub answered: usize,
    pub total: usize,
}

/// What state a rendered form is in.
#[derive(Debug, Clone, Copy, PartialEq, Eq, Structural)]
pub enum RenderStatus {
    NeedInput,
    Complete,
    Error,
}

/// The label of a state.
pub open spec fn status_label(status: RenderStatus) -> Seq<char> {
    match status {
        RenderStatus::NeedInput => "need_input"@,
        RenderStatus::Complete => "complete"@,
        RenderStatus::Error => "error"@,
    }
}

/// The state that a label stands for: an unknown one asks for input.
pub open spec fn status_of(label: Seq<char>) -> RenderStatus {
    if label == "complete"@ {
        RenderStatus::Complete
    } else if label == "error"@ {
        RenderStatus::Error
    } else {
        RenderStatus::NeedInput
    }
}

impl RenderStatus {
    pub fn as_str(&self) -> (r: &'static str)
        ensures
            r@ == status_label(*self),
    {
        match self {
            RenderStatus::NeedInput => "need_input",
            RenderStatus::Complete => "complete",
            RenderStatus::Error => "error",
        }
    }

    pub fn from_label(label: &str) -> (r: RenderStatus)
        ensures
            r == status_of(label@),
    {
        if same(label, "complete") {
            RenderStatus::Complete
        } else if same(label, "error") {
            RenderStatus::Error
        } else {
            RenderStatus::NeedInput
        }
    }
}

/// A state is found again by its label.
pub proof fn law_status_label_round_trip(status: RenderStatus)
    ensures
        status_of(status_label(status)) == status,
{
    reveal_strlit("need_input");
    reveal_strlit("complete");
    reveal_strlit("error");
    assert("need_input"@.len() == 10 && "complete"@.len() == 8 && "error"@.len() == 5);
}

/// The kinds of prompt.
#[derive(Debug, Clone, Copy, PartialEq, Eq, Structural)]
pub enum QuestionKind {
    String,
    Boolean,
    Integer,
    Number,
    Enum,
    List,
    Unknown,
}

/// The kind that a label stands for.
pub open spec fn kind_of(label: Seq<char>) -> QuestionKind {
    if label == "string"@ {
        QuestionKind::String
    } else if label == "boolean"@ {
        QuestionKind::Boolean
    } else if label == "integer"@ {
        QuestionKind::Integer
    } else if label == "number"@ {
        QuestionKind::Number
    } else if label == "enum"@ {
        QuestionKind::Enum
    } else if label == "list"@ {
        QuestionKind::List
    } else {
        QuestionKind::Unknown
    }
}

/// The hint that a kind of prompt gives.
pub open spec fn kind_hint(
    kind: QuestionKind,
    choices: Seq<Seq<char>>,
    catalog: CatalogView,
) -> Option<Seq<char>> {
    match kind {
        QuestionKind::Boolean => Some(catalog::message(catalog, "cli.wizard.hint.boolean"@)),
        QuestionKind::Integer => Some(catalog::message(catalog, "cli.wizard.hint.integer"@)),
        QuestionKind::Number => Some(catalog::message(catalog, "cli.wizard.hint.number"@)),
        QuestionKind::Enum => if choices.len() > 0 {
            Some(
                catalog::message_with(
                    catalog,
                    "cli.wizard.hint.enum"@,
                    seq![("choices"@, text::joined(choices, "/"@))],
                ),
            )
        } else {
            None
        },
        QuestionKind::List => Some(catalog::message(catalog, "cli.wizard.hint.list"@)),
        _ => None,
    }
}

impl QuestionKind {
    pub fn from_label(label: &str) -> (r: QuestionKind)
        ensures
            r == kind_of(label@),
    {
        if same(label, "string") {
            QuestionKind::String
        } else if same(label, "boolean") {
            QuestionKind::Boolean
        } else if same(label, "integer") {
            QuestionKind::Integer
        } else if same(label, "number") {
            QuestionKind::Number
        } else if same(label, "enum") {
            QuestionKind::Enum
        } else if same(label, "list") {
            QuestionKind::List
        } else {
            QuestionKind::Unknown
        }
    }

    pub fn hint(&self, choices: &Vec<String>, i18n: &I18n) -> (r: Option<String>)
        ensures
            text::opt_text(r) == kind_hint(*self, text::texts(choices@), i18n@),
    {
        assert(text::texts(choices@).len() == choices@.len());
        match self {
            QuestionKind::Boolean => Some(t(i18n, "cli.wizard.hint.boolean")),
            QuestionKind::Integer => Some(t(i18n, "cli.wizard.hint.integer")),
            QuestionKind::Number => Some(t(i18n, "cli.wizard.hint.number")),
            QuestionKind::Enum => if choices.len() > 0 {
                Some(tf1(i18n, "cli.wizard.hint.enum", "choices", join(choices, "/").as_str()))
            } else {
                None
            },
            QuestionKind::List => Some(t(i18n, "cli.wizard.hint.list")),
            _ => None,
        }
    }
}

/// What a prompt shows of a question.
#[derive(Debug, PartialEq)]
pub struct WizardQuestion {
    pub id: String,
    pub title: String,
    pub description: Option<String>,
    pub kind: QuestionKind,
    pub required: bool,
    pub choices: Vec<String>,
    pub visible: bool,
    pub list_fields: Vec<String>,
}

#[verifier::ext_equal]
pub struct WizardQuestionView {
    pub id: Seq<char>,
    pub title: Seq<char>,
    pub description: Option<Seq<char>>,
    pub kind: QuestionKind,
    pub required: bool,
    pub choices: Seq<Seq<char>>,
    pub visible: bool,
    pub list_fields: Seq<Seq<char>>,
}

impl View for WizardQuestion {
    type V = WizardQuestionView;

    open spec fn view(&self) -> WizardQuestionView {
        WizardQuestionView {
            id: self.id@,
            title: self.title@,
            description: text::opt_text(self.description),
            kind: self.kind,
            required: self.required,
            choices: text::texts(self.choices@),
            visible: self.visible,
            list_fields: text::texts(self.list_fields@),
        }
    }
}

/// A rendered form.
#[derive(Debug, PartialEq)]
pub struct WizardPayload {
    pub form_title: String,
    pub help: Option<String>,
    pub status: RenderStatus,
    pub progress: RenderProgress,
    pub questions: Vec<WizardQuestion>,
}

#[verifier::ext_equal]
pub struct WizardPayloadView {
    pub form_title: Seq<char>,
    pub help: Option<Seq<char>>,
    pub status: RenderStatus,
    pub progress: RenderProgress,
    pub questions: Seq<WizardQuestionView>,
}

/// A list of questions, viewed.
pub open spec fn wizard_questions_view(list: Seq<WizardQuestion>) -> Seq<WizardQuestionView> {
    Seq::new(list.len(), |i: int| list[i]@)
}

impl View for WizardPayload {
    type V = WizardPayloadView;

    open spec fn view(&self) -> WizardPayloadView {
        WizardPayloadView {
            form_title: self.form_title@,
            help: text::opt_text(self.help),
            status: self.status,
            progress: self.progress,
            questions: wizard_questions_view(self.questions@),
        }
    }
}

/// The ids of those fields that have one.
pub open spec fn field_ids(fields: Seq<JsonView>) -> Seq<Seq<char>>
    decreases fields.len(),
{
    if fields.len() == 0 {
        Seq::empty()
    } else {
        let before = field_ids(fields.drop_last());
        match json::member_string(fields.last(), "id"@) {
            Some(id) => before.push(id),
            None => before,
        }
    }
}

/// A value, or else a default.
pub open spec fn or_default<T>(value: Option<T>, default: T) -> T {
    match value {
        Some(v) => v,
        None => default,
    }
}

/// The fields of the list that a question has.
pub open spec fn list_fields_in(value: JsonView) -> Seq<Seq<char>> {
    match json::member(value, "list"@) {
        Some(list) => field_ids(json::member_items(list, "fields"@)),
        None => Seq::empty(),
    }
}

/// What a prompt shows of a rendered question, or what the question lacks.
pub open spec fn question_in(value: JsonView, catalog: CatalogView) -> Result<
    WizardQuestionView,
    Seq<char>,
> {
    match json::member_string(value, "id"@) {
        None => Err(catalog::message(catalog, "cli.wizard.question_missing_id"@)),
        Some(id) => match json::member_string(value, "title"@) {
            None => Err(
                catalog::message_with(
                    catalog,
                    "cli.wizard.question_missing_title"@,
                    seq![("id"@, id)],
                ),
            ),
            Some(title) => Ok(
                WizardQuestionView {
                    id,
                    title,
                    description: json::member_string(value, "description"@),
                    kind: kind_of(or_default(json::member_string(value, "type"@), "string"@)),
                    required: or_default(json::member_bool(value, "required"@), false),
                    choices: json::strings_in(json::member_items(value, "choices"@)),
                    visible: or_default(json::member_bool(value, "visible"@), true),
                    list_fields: list_fields_in(value),
                },
            ),
        },
    }
}

/// A rendered question, viewed.
pub open spec fn question_result(r: Result<WizardQuestion, String>) -> Result<
    WizardQuestionView,
    Seq<char>,
> {
    match r {
        Ok(q) => Ok(q@),
        Err(message) => Err(message@),
    }
}

/// Copies a text that may be absent.
fn owned(text: Option<&str>) -> (r: Option<String>)
    ensures
        match text {
            Some(s) => r is Some && r->0@ == s@,
            None => r is None,
        },
{
    match text {
        Some(s) => Some(s.to_owned()),
        None => None,
    }
}

/// The ids of those fields that have one.
fn collect_field_ids(fields: &Vec<Json>) -> (r: Vec<String>)
    ensures
        text::texts(r@) == field_ids(json::items_view(fields@)),
{
    let ghost views = json::items_view(fields@);
    let mut out: Vec<String> = Vec::new();
    let mut i: usize = 0;
    assert(views.take(0) =~= Seq::empty());
    assert(text::texts(out@) =~= Seq::empty());
    while i < fields.len()
        invariant
            i <= fields@.len(),
            views == json::items_view(fields@),
            text::texts(out@) == field_ids(views.take(i as int)),
        decreases fields.len() - i,
    {
        assert(views.take(i + 1).drop_last() =~= views.take(i as int));
        assert(views.take(i + 1).last() == fields@[i as int]@);
        if let Some(id) = fields[i].get_str("id") {
            let ghost before = text::texts(out@);
            out.push(id.to_owned());
            assert(text::texts(out@) =~= before.push(id@));
        }
        i += 1;
    }
    assert(views.take(i as int) =~= views);
    out
}

/// The fields of the list that a question has.
pub fn read_list_fields(value: &Json) -> (r: Vec<String>)
    ensures
        text::texts(r@) == list_fields_in(value@),
{
    let none: Vec<String> = Vec::new();
    assert(text::texts(none@) =~= Seq::empty());
    match value.get("list") {
        Some(list) => match list.get("fields") {
            Some(fields) => match fields.as_array() {
                Some(items) => collect_field_ids(items),
                None => none,
            },
            None => none,
        },
        None => none,
    }
}

impl WizardQuestion {
    /// Reads what a prompt shows of a rendered question.
    pub fn from_json(value: &Json, i18n: &I18n) -> (r: Result<WizardQuestion, String>)
        ensures
            question_result(r) == question_in(value@, i18n@),
    {
        let id = match value.get_str("id") {
            Some(id) => id.to_owned(),
            None => {
                return Err(t(i18n, "cli.wizard.question_missing_id"));
            },
        };
        let title = match value.get_str("title") {
            Some(title) => title.to_owned(),
            None => {
                return Err(tf1(i18n, "cli.wizard.question_missing_title", "id", id.as_str()));
            },
        };
        let description = owned(value.get_str("description"));
        let required = match value.get_bool("required") {
            Some(required) => required,
            None => false,
        };
        let kind = match value.get_str("type") {
            Some(label) => QuestionKind::from_label(label),
            None => QuestionKind::from_label("string"),
        };
        let no_choices: Vec<String> = Vec::new();
        assert(text::texts(no_choices@) =~= Seq::empty());
        let choices = match value.get("choices") {
            Some(choices) => match choices.as_array() {
                Some(items) => collect_strings(items),
                None => no_choices,
            },
            None => no_choices,
        };
        let visible = match value.get_bool("visible") {
            Some(visible) => visible,
            None => true,
        };
        let list_fields = read_list_fields(value);
        Ok(
            WizardQuestion {
                id,
                title,
                description,
                kind,
                required,
                choices,
                visible,
                list_fields,
            },
        )
    }
}

/// The rendered questions from the `i`-th on, up to the first that lacks something.
pub open spec fn questions_in(
    items: Seq<JsonView>,
    i: int,
    read: Seq<WizardQuestionView>,
    catalog: CatalogView,
) -> Result<Seq<WizardQuestionView>, Seq<char>>
    decreases items.len() - i,
{
    if i < 0 || i >= items.len() {
        Ok(read)
    } else {
        match question_in(items[i], catalog) {
            Ok(question) => questions_in(items, i + 1, read.push(question), catalog),
            Err(message) => Err(message),
        }
    }
}

/// A counter of the progress of a rendered form.
pub open spec fn counter_in(progress: JsonView, key: Seq<char>) -> usize {
    match json::member(progress, key) {
        Some(value) => or_default(json::u64_of(value), 0) as usize,
        None => 0,
    }
}

/// What the wizard reads from a rendered form, or what the form lacks.
pub open spec fn payload_in(value: JsonView, catalog: CatalogView) -> Result<
    WizardPayloadView,
    Seq<char>,
> {
    match json::member_string(value, "form_title"@) {
        None => Err(catalog::message(catalog, "cli.wizard.payload_missing_form_title"@)),
        Some(form_title) => match json::member(value, "progress"@) {
            Some(JsonView::Object(progress)) => match json::member_array(value, "questions"@) {
                None => Err(catalog::message(catalog, "cli.wizard.payload_missing_questions"@)),
                Some(items) => match questions_in(items, 0, Seq::empty(), catalog) {
                    Err(message) => Err(message),
                    Ok(questions) => Ok(
                        WizardPayloadView {
                            form_title,
                            help: json::member_string(value, "help"@),
                            status: status_of(
                                or_default(json::member_string(value, "status"@), "need_input"@),
                            ),
                            progress: RenderProgress {
                                answered: counter_in(JsonView::Object(progress), "answered"@),
                                total: counter_in(JsonView::Object(progress), "total"@),
                            },
                            questions,
                        },
                    ),
                },
            },
            _ => Err(catalog::message(catalog, "cli.wizard.payload_missing_progress"@)),
        },
    }
}

/// A rendered form, viewed.
pub open spec fn payload_result(r: Result<WizardPayload, String>) -> Result<
    WizardPayloadView,
    Seq<char>,
> {
    match r {
        Ok(payload) => Ok(payload@),
        Err(message) => Err(message@),
    }
}

fn read_counter(progress: &Json, key: &str) -> (r: usize)
    ensures
        r == counter_in(progress@, key@),
{
    match progress.get(key) {
        Some(value) => match value.as_u64() {
            Some(n) => n as usize,
            None => 0,
        },
        None => 0,
    }
}

/// The shown questions of a rendered form.
pub open spec fn visible_questions(questions: Seq<WizardQuestionView>) -> Seq<WizardQuestionView> {
    questions.filter(|q: WizardQuestionView| q.visible)
}

impl WizardPayload {
    /// Reads a rendered form.
    pub fn from_json(json: &Json, i18n: &I18n) -> (r: Result<WizardPayload, String>)
        ensures
            payload_result(r) == payload_in(json@, i18n@),
    {
        broadcast use json::lemma_object;

        let form_title = match json.get_str("form_title") {
            Some(title) => title.to_owned(),
            None => {
                return Err(t(i18n, "cli.wizard.payload_missing_form_title"));
            },
        };
        let help = owned(json.get_str("help"));
        let status = match json.get_str("status") {
            Some(label) => RenderStatus::from_label(label),
            None => RenderStatus::from_label("need_input"),
        };
        let progress = match json.get("progress") {
            Some(progress) => progress,
            None => {
                return Err(t(i18n, "cli.wizard.payload_missing_progress"));
            },
        };
        if progress.as_object().is_none() {
            return Err(t(i18n, "cli.wizard.payload_missing_progress"));
        }
        let answered = read_counter(progress, "answered");
        let total = read_counter(progress, "total");
        let items = match json.get("questions") {
            Some(questions) => match questions.as_array() {
                Some(items) => items,
                None => {
                    return Err(t(i18n, "cli.wizard.payload_missing_questions"));
                },
            },
            None => {
                return Err(t(i18n, "cli.wizard.payload_missing_questions"));
            },
        };
        let ghost views = json::items_view(items@);
        let mut questions: Vec<WizardQuestion> = Vec::new();
        let mut i: usize = 0;
        assert(wizard_questions_view(questions@) =~= Seq::empty());
        while i < items.len()
            invariant
                i <= items@.len(),
                views == json::items_view(items@),
                json::member_string(json@, "form_title"@) is Some,
                json::member(json@, "progress"@) is Some,
                json::member(json@, "progress"@)->0 is Object,
                json::member_array(json@, "questions"@) == Some(views),
                questions_in(views, 0, Seq::empty(), i18n@) == questions_in(
                    views,
                    i as int,
                    wizard_questions_view(questions@),
                    i18n@,
                ),
            decreases items.len() - i,
        {
            assert(views[i as int] == items@[i as int]@);
            match WizardQuestion::from_json(&items[i], i18n) {
                Ok(question) => {
                    let ghost before = wizard_questions_view(questions@);
                    questions.push(question);
                    assert(wizard_questions_view(questions@) =~= before.push(question@));
                },
                Err(message) => {
                    return Err(message);
                },
            }
            i += 1;
        }
        Ok(
            WizardPayload {
                form_title,
                help,
                status,
                progress: RenderProgress { answered, total },
                questions,
            },
        )
    }

    /// How many questions are shown.
    pub fn visible_count(&self) -> (r: usize)
        ensures
            r == visible_questions(self@.questions).len(),
    {
        broadcast use vstd::seq_lib::group_filter_ensures;

        let ghost views = self@.questions;
        let ghost shown = |q: WizardQuestionView| q.visible;
        let mut count: usize = 0;
        let mut i: usize = 0;
        assert(views.take(0).filter(shown).len() == 0) by {
            reveal(Seq::filter);
        }
        while i < self.questions.len()
            invariant
                i <= self.questions@.len(),
                views == wizard_questions_view(self.questions@),
                shown == (|q: WizardQuestionView| q.visible),
                count <= i,
                count == views.take(i as int).filter(shown).len(),
            decreases self.questions.len() - i,
        {
            assert(views.take(i + 1).drop_last() =~= views.take(i as int));
            assert(views.take(i + 1).last() == self.questions@[i as int]@);
            proof {
                reveal(Seq::filter);
            }
            if self.questions[i].visible {
                count += 1;
            }
            i += 1;
        }
        assert(views.take(i as int) =~= views);
        count
    }

    /// The first question with an id.
    pub fn question(&self, id: &str) -> (r: Option<&WizardQuestion>)
        ensures
            match r {
                Some(q) => q.id@ == id@ && exists|i: int|
                    0 <= i < self.questions@.len() && *q == #[trigger] self.questions@[i] && forall|
                        j: int,
                    |
                        0 <= j < i ==> (#[trigger] self.questions@[j]).id@ != id@,
                None => forall|i: int|
                    0 <= i < self.questions@.len() ==> (#[trigger] self.questions@[i]).id@ != id@,
            },
    {
        let mut i: usize = 0;
        while i < self.questions.len()
            invariant
                i <= self.questions@.len(),
                forall|j: int| 0 <= j < i ==> (#[trigger] self.questions@[j]).id@ != id@,
            decreases self.questions.len() - i,
        {
            if same(self.questions[i].id.as_str(), id) {
                assert(self.questions@[i as int].id@ == id@);
                return Some(&self.questions[i]);
            }
            i += 1;
        }
        None
    }
}

/// What a single prompt shows.
#[derive(Debug, PartialEq)]
pub struct PromptContext {
    pub index: usize,
    pub total: usize,
    pub title: String,
    pub description: Option<String>,
    pub required: bool,
    pub hint: Option<String>,
    pub choices: Vec<String>,
    pub list_fields: Vec<String>,
}

#[verifier::ext_equal]
pub struct PromptView {
    pub index: usize,
    pub total: usize,
    pub title: Seq<char>,
    pub description: Option<Seq<char>>,
    pub required: bool,
    pub hint: Option<Seq<char>>,
    pub choices: Seq<Seq<char>>,
    pub list_fields: Seq<Seq<char>>,
}

impl View for PromptContext {
    type V = PromptView;

    open spec fn view(&self) -> PromptView {
        PromptView {
            index: self.index,
            total: self.total,
            title: self.title@,
            description: text::opt_text(self.description),
            required: self.required,
            hint: text::opt_text(self.hint),
            choices: text::texts(self.choices@),
            list_fields: text::texts(self.list_fields@),
        }
    }
}

/// What the prompt for a question shows at a point of progress.
pub open spec fn prompt_for(
    question: WizardQuestionView,
    progress: RenderProgress,
    catalog: CatalogView,
) -> PromptView {
    PromptView {
        index: (progress.answered + 1) as usize,
        total: progress.total,
        title: question.title,
        description: question.description,
        required: question.required,
        hint: kind_hint(question.kind, question.choices, catalog),
        choices: question.choices,
        list_fields: question.list_fields,
    }
}

impl PromptContext {
    pub fn new(question: &WizardQuestion, progress: &RenderProgress, i18n: &I18n) -> (r:
        PromptContext)
        requires
            progress.answered < usize::MAX,
        ensures
            r@ == prompt_for(question@, *progress, i18n@),
    {
        PromptContext {
            index: progress.answered + 1,
            total: progress.total,
            title: question.title.clone(),
            description: copy_opt(&question.description),
            required: question.required,
            hint: question.kind.hint(&question.choices, i18n),
            choices: copy_texts(&question.choices),
            list_fields: copy_texts(&question.list_fields),
        }
    }
}

/// Why an answer that was typed in is refused.
#[derive(Debug, PartialEq)]
pub struct AnswerParseError {
    pub user_message: String,
    pub debug_message: Option<String>,
}

#[verifier::ext_equal]
pub struct AnswerFaultView {
    pub user_message: Seq<char>,
    pub debug_message: Option<Seq<char>>,
}

impl View for AnswerParseError {
    type V = AnswerFaultView;

    open spec fn view(&self) -> AnswerFaultView {
        AnswerFaultView {
            user_message: self.user_message@,
            debug_message: text::opt_text(self.debug_message),
        }
    }
}

impl AnswerParseError {
    pub fn new(user_message: String, debug_message: Option<String>) -> (r: AnswerParseError)
        ensures
            r.user_message == user_message,
            r.debug_message == debug_message,
    {
        AnswerParseError { user_message, debug_message }
    }
}

/// A line to print: among the results, or among the complaints.
#[derive(Debug, PartialEq)]
pub enum Line {
    Out(String),
    Complaint(String),
}

#[verifier::ext_equal]
pub enum LineView {
    Out(Seq<char>),
    Complaint(Seq<char>),
}

impl View for Line {
    type V = LineView;

    open spec fn view(&self) -> LineView {
        match *self {
            Line::Out(text) => LineView::Out(text@),
            Line::Complaint(text) => LineView::Complaint(text@),
        }
    }
}

/// A list of lines, viewed.
pub open spec fn lines_view(lines: Seq<Line>) -> Seq<LineView> {
    Seq::new(lines.len(), |i: int| lines[i]@)
}

/// Says what the wizard prints.
#[derive(Debug, PartialEq)]
pub struct WizardPresenter {
    pub verbosity: Verbosity,
    pub header_printed: bool,
    pub show_answers_json: bool,
}

/// The lines above the first prompt.
pub open spec fn header_lines(
    verbosity: Verbosity,
    payload: WizardPayloadView,
    catalog: CatalogView,
) -> Seq<Seq<char>> {
    let title = catalog::message_with(
        catalog,
        "cli.wizard.form"@,
        seq![("title"@, payload.form_title)],
    );
    match payload.help {
        Some(help) => if verbosity is Verbose {
            seq![
                title,
                catalog::message_with(catalog, "cli.wizard.help"@, seq![("help"@, help)]),
            ]
        } else {
            seq![title]
        },
        None => seq![title],
    }
}

/// The line for a shown question.
pub open spec fn question_line(question: WizardQuestionView) -> Seq<char> {
    let line = " - "@ + question.id + " ("@ + question.title + ")"@;
    if question.required {
        line + " [required]"@
    } else {
        line
    }
}

/// The lines for the shown ones of a list of questions.
pub open spec fn question_lines(questions: Seq<WizardQuestionView>) -> Seq<Seq<char>>
    decreases questions.len(),
{
    if questions.len() == 0 {
        Seq::empty()
    } else {
        let before = question_lines(questions.drop_last());
        if questions.last().visible {
            before.push(question_line(questions.last()))
        } else {
            before
        }
    }
}

/// The line with the state and the progress of a rendered form.
pub open spec fn status_line(payload: WizardPayloadView, catalog: CatalogView) -> Seq<char> {
    catalog::message_with(
        catalog,
        "cli.wizard.status"@,
        seq![
            ("status"@, status_label(payload.status)),
            ("answered"@, text::decimal(payload.progress.answered as nat)),
            ("total"@, text::decimal(payload.progress.total as nat)),
        ],
    )
}

/// The lines with the state of a rendered form.
pub open spec fn status_lines(
    verbosity: Verbosity,
    payload: WizardPayloadView,
    catalog: CatalogView,
) -> Seq<Seq<char>> {
    if verbosity is Verbose {
        seq![
            status_line(payload, catalog),
            catalog::message(catalog, "cli.wizard.visible_questions"@),
        ] + question_lines(payload.questions)
    } else if payload.status is NeedInput && visible_questions(payload.questions).len() == 0 {
        seq![catalog::message(catalog, "cli.wizard.no_visible_questions"@)]
    } else {
        Seq::empty()
    }
}

/// The first line of a prompt.
pub open spec fn prompt_line(prompt: PromptView) -> Seq<char> {
    let head = if prompt.total > 0 {
        text::decimal(prompt.index as nat) + "/"@ + text::decimal(prompt.total as nat) + " "@
            + prompt.title
    } else {
        text::decimal(prompt.index as nat) + " "@ + prompt.title
    };
    let marked = if prompt.required {
        head + " *"@
    } else {
        head
    };
    match prompt.hint {
        Some(hint) => marked + " "@ + hint,
        None => marked,
    }
}

/// The lines of a prompt.
pub open spec fn prompt_lines(verbosity: Verbosity, prompt: PromptView, catalog: CatalogView)
    -> Seq<Seq<char>> {
    let description = match prompt.description {
        Some(description) => seq![description],
        None => Seq::empty(),
    };
    let fields = if prompt.list_fields.len() > 0 {
        seq![
            catalog::message_with(
                catalog,
                "cli.wizard.list_fields"@,
                seq![("fields"@, text::joined(prompt.list_fields, ", "@))],
            ),
        ]
    } else {
        Seq::empty()
    };
    let choices = if verbosity is Verbose && prompt.choices.len() > 0 {
        seq![
            catalog::message_with(
                catalog,
                "cli.wizard.choices"@,
                seq![("choices"@, text::joined(prompt.choices, ", "@))],
            ),
        ]
    } else {
        Seq::empty()
    };
    seq![prompt_line(prompt)] + description + fields + choices
}

/// The lines that complain about an answer. What was expected is a detail for
/// verbose output.
pub open spec fn parse_error_lines(
    verbosity: Verbosity,
    error: AnswerFaultView,
    catalog: CatalogView,
) -> Seq<Seq<char>> {
    let complaint = catalog::message_with(
        catalog,
        "cli.wizard.invalid_answer"@,
        seq![("error"@, error.user_message)],
    );
    if verbosity is Verbose && error.debug_message is Some {
        seq![
            complaint,
            catalog::message_with(
                catalog,
                "cli.wizard.expected"@,
                seq![("expected"@, error.debug_message->0)],
            ),
        ]
    } else {
        seq![complaint]
    }
}

/// The line with the CBOR of the answers, or with why it cannot be written.
pub open spec fn cbor_line(cbor: Result<Seq<u8>, Seq<char>>, catalog: CatalogView) -> LineView {
    match cbor {
        Ok(bytes) => LineView::Out(
            catalog::message_with(
                catalog,
                "cli.wizard.answers_cbor"@,
                seq![("hex"@, text::hex(bytes))],
            ),
        ),
        Err(error) => LineView::Complaint(
            catalog::message_with(
                catalog,
                "cli.wizard.cbor_serialize_failed"@,
                seq![("error"@, error)],
            ),
        ),
    }
}

/// The line with the JSON of the answers, or with why it cannot be written.
pub open spec fn json_line(pretty: Result<String, String>, catalog: CatalogView) -> LineView {
    match pretty {
        Ok(pretty) => LineView::Out(pretty@),
        Err(error) => LineView::Complaint(
            catalog::message_with(
                catalog,
                "cli.wizard.json_serialize_failed"@,
                seq![("error"@, error@)],
            ),
        ),
    }
}

/// The lines at the end of a run.
pub open spec fn completion_lines(
    show_answers_json: bool,
    cbor: Result<Seq<u8>, Seq<char>>,
    pretty: Result<String, String>,
    catalog: CatalogView,
) -> Seq<LineView> {
    let head = seq![
        LineView::Out(catalog::message(catalog, "cli.wizard.done"@)),
        cbor_line(cbor, catalog),
    ];
    if show_answers_json {
        head.push(json_line(pretty, catalog))
    } else {
        head
    }
}

impl WizardPresenter {
    pub fn new(verbosity: Verbosity, show_answers_json: bool) -> (r: WizardPresenter)
        ensures
            r == (WizardPresenter { verbosity, header_printed: false, show_answers_json }),
    {
        WizardPresenter { verbosity, header_printed: false, show_answers_json }
    }

    /// The lines above the first prompt. They are given once.
    pub fn show_header(&mut self, payload: &WizardPayload, i18n: &I18n) -> (r: Vec<String>)
        ensures
            *final(self) == (WizardPresenter { header_printed: true, ..*old(self) }),
            text::texts(r@) == if old(self).header_printed {
                Seq::empty()
            } else {
                header_lines(old(self).verbosity, payload@, i18n@)
            },
    {
        let mut lines: Vec<String> = Vec::new();
        assert(text::texts(lines@) =~= Seq::empty());
        if self.header_printed {
            return lines;
        }
        lines.push(tf1(i18n, "cli.wizard.form", "title", payload.form_title.as_str()));
        if self.verbosity.is_verbose() {
            if let Some(help) = &payload.help {
                lines.push(tf1(i18n, "cli.wizard.help", "help", help.as_str()));
            }
        }
        assert(text::texts(lines@) =~= header_lines(self.verbosity, payload@, i18n@));
        self.header_printed = true;
        lines
    }

    /// The lines with the state of a rendered form.
    pub fn show_status(&self, payload: &WizardPayload, i18n: &I18n) -> (r: Vec<String>)
        ensures
            text::texts(r@) == status_lines(self.verbosity, payload@, i18n@),
    {
        let mut lines: Vec<String> = Vec::new();
        if self.verbosity.is_verbose() {
            let args = vec![
                ("status", payload.status.as_str().to_owned()),
                ("answered", number_text(payload.progress.answered)),
                ("total", number_text(payload.progress.total)),
            ];
            assert(catalog::args_view(args@) =~= seq![
                ("status"@, status_label(payload.status)),
                ("answered"@, text::decimal(payload.progress.answered as nat)),
                ("total"@, text::decimal(payload.progress.total as nat)),
            ]);
            lines.push(tf(i18n, "cli.wizard.status", &args));
            lines.push(t(i18n, "cli.wizard.visible_questions"));
            let ghost head = text::texts(lines@);
            assert(head =~= seq![
                status_line(payload@, i18n@),
                catalog::message(i18n@, "cli.wizard.visible_questions"@),
            ]);
            let ghost views = payload@.questions;
            let mut i: usize = 0;
            assert(views.take(0) =~= Seq::empty());
            assert(text::texts(lines@) =~= head + question_lines(views.take(0)));
            while i < payload.questions.len()
                invariant
                    i <= payload.questions@.len(),
                    views == wizard_questions_view(payload.questions@),
                    text::texts(lines@) == head + question_lines(views.take(i as int)),
                decreases payload.questions.len() - i,
            {
                assert(views.take(i + 1).drop_last() =~= views.take(i as int));
                assert(views.take(i + 1).last() == payload.questions@[i as int]@);
                if payload.questions[i].visible {
                    let question = &payload.questions[i];
                    let mut line = cat5(
                        " - ",
                        question.id.as_str(),
                        " (",
                        question.title.as_str(),
                        ")",
                    );
                    if question.required {
                        line = cat(line.as_str(), " [required]");
                    }
                    let ghost before = text::texts(lines@);
                    lines.push(line);
                    assert(text::texts(lines@) =~= before.push(question_line(question@)));
                    assert(text::texts(lines@) =~= head + question_lines(views.take(i + 1)));
                }
                i += 1;
            }
            assert(views.take(i as int) =~= views);
        } else if payload.status == RenderStatus::NeedInput && payload.visible_count() == 0 {
            lines.push(t(i18n, "cli.wizard.no_visible_questions"));
        }
        assert(text::texts(lines@) =~= status_lines(self.verbosity, payload@, i18n@));
        lines
    }

    /// The lines of a prompt.
    pub fn show_prompt(&self, prompt: &PromptContext, i18n: &I18n) -> (r: Vec<String>)
        ensures
            text::texts(r@) == prompt_lines(self.verbosity, prompt@, i18n@),
    {
        assert(text::texts(prompt.list_fields@).len() == prompt.list_fields@.len());
        assert(text::texts(prompt.choices@).len() == prompt.choices@.len());
        let mut line = if prompt.total > 0 {
            cat5(
                number_text(prompt.index).as_str(),
                "/",
                number_text(prompt.total).as_str(),
                " ",
                prompt.title.as_str(),
            )
        } else {
            cat3(number_text(prompt.index).as_str(), " ", prompt.title.as_str())
        };
        if prompt.required {
            line = cat(line.as_str(), " *");
        }
        if let Some(hint) = &prompt.hint {
            line = cat3(line.as_str(), " ", hint.as_str());
        }
        let mut lines: Vec<String> = Vec::new();
        lines.push(line);
        if let Some(description) = &prompt.description {
            lines.push(description.clone());
        }
        if prompt.list_fields.len() > 0 {
            let fields = join(&prompt.list_fields, ", ");
            lines.push(tf1(i18n, "cli.wizard.list_fields", "fields", fields.as_str()));
        }
        if self.verbosity.is_verbose() && prompt.choices.len() > 0 {
            let choices = join(&prompt.choices, ", ");
            lines.push(tf1(i18n, "cli.wizard.choices", "choices", choices.as_str()));
        }
        assert(text::texts(lines@) =~= prompt_lines(self.verbosity, prompt@, i18n@));
        lines
    }

    /// The lines that complain about an answer.
    pub fn show_parse_error(&self, error: &AnswerParseError, i18n: &I18n) -> (r: Vec<String>)
        ensures
            text::texts(r@) == parse_error_lines(self.verbosity, error@, i18n@),
    {
        let mut lines: Vec<String> = Vec::new();
        lines.push(tf1(i18n, "cli.wizard.invalid_answer", "error", error.user_message.as_str()));
        if self.verbosity.is_verbose() {
            if let Some(debug) = &error.debug_message {
                lines.push(tf1(i18n, "cli.wizard.expected", "expected", debug.as_str()));
            }
        }
        assert(text::texts(lines@) =~= parse_error_lines(self.verbosity, error@, i18n@));
        lines
    }

    /// The lines at the end of a run: `pretty` is the answer set as indented JSON.
    pub fn show_completion(
        &self,
        answer_set: &AnswerSet,
        pretty: Result<String, String>,
        i18n: &I18n,
    ) -> (r: Vec<Line>)
        ensures
            lines_view(r@) == completion_lines(
                self.show_answers_json,
                Ok(crate::answers::answer_set_cbor(*answer_set)),
                pretty,
                i18n@,
            ),
    {
        let mut lines: Vec<Line> = Vec::new();
        lines.push(Line::Out(t(i18n, "cli.wizard.done")));
        match answer_set.to_cbor() {
            Ok(bytes) => {
                let hex = encode_hex(bytes.as_slice());
                lines.push(Line::Out(tf1(i18n, "cli.wizard.answers_cbor", "hex", hex.as_str())));
            },
            Err(error) => {
                lines.push(
                    Line::Complaint(
                        tf1(i18n, "cli.wizard.cbor_serialize_failed", "error", error.as_str()),
                    ),
                );
            },
        }
        if self.show_answers_json {
            match pretty {
                Ok(pretty) => {
                    lines.push(Line::Out(pretty));
                },
                Err(error) => {
                    lines.push(
                        Line::Complaint(
                            tf1(i18n, "cli.wizard.json_serialize_failed", "error", error.as_str()),
                        ),
                    );
                },
            }
        }
        assert(lines_view(lines@) =~= completion_lines(
            self.show_answers_json,
            Ok(crate::answers::answer_set_cbor(*answer_set)),
            pretty,
            i18n@,
        ));
        lines
    }
}

/// A status goes by its label. One that is not known needs input.
pub proof fn law_status_by_label(label: Seq<char>)
    ensures
        status_of(label) is Complete <==> label == "complete"@,
        status_of(label) is Error <==> label == "error"@,
        status_of(label) is NeedInput <==> label != "complete"@ && label != "error"@,
        status_label(RenderStatus::NeedInput) == "need_input"@,
{
    reveal_strlit("complete");
    reveal_strlit("error");
    assert("complete"@[0] == 'c' && "error"@[0] == 'e');
}

/// A kind of question goes by its label and by no other.
pub proof fn law_kind_by_label(label: Seq<char>)
    ensures
        kind_of(label) is String <==> label == "string"@,
        kind_of(label) is Boolean <==> label == "boolean"@,
        kind_of(label) is Integer <==> label == "integer"@,
        kind_of(label) is Number <==> label == "number"@,
        kind_of(label) is Enum <==> label == "enum"@,
        kind_of(label) is List <==> label == "list"@,
{
    reveal_strlit("string");
    reveal_strlit("boolean");
    reveal_strlit("integer");
    reveal_strlit("number");
    reveal_strlit("enum");
    reveal_strlit("list");
    assert("string"@[0] == 's' && "boolean"@[0] == 'b' && "integer"@[0] == 'i');
    assert("number"@[0] == 'n' && "enum"@[0] == 'e' && "list"@[0] == 'l');
}

/// A hint says how to answer each kind of question but a text. A question with
/// choices is hinted at with them, where there are any.
pub proof fn law_hints(kind: QuestionKind, choices: Seq<Seq<char>>, catalog: CatalogView)
    ensures
        ({
            let hint = kind_hint(kind, choices, catalog);
            &&& hint is Some <==> kind is Boolean || kind is Integer || kind is Number || kind
                is List || (kind is Enum && choices.len() > 0)
            &&& kind is Boolean ==> hint == Some(
                catalog::message(catalog, "cli.wizard.hint.boolean"@),
            )
            &&& kind is Integer ==> hint == Some(
                catalog::message(catalog, "cli.wizard.hint.integer"@),
            )
            &&& kind is Number ==> hint == Some(
                catalog::message(catalog, "cli.wizard.hint.number"@),
            )
            &&& kind is List ==> hint == Some(catalog::message(catalog, "cli.wizard.hint.list"@))
            &&& kind is Enum && choices.len() > 0 ==> hint == Some(
                catalog::message_with(
                    catalog,
                    "cli.wizard.hint.enum"@,
                    seq![("choices"@, text::joined(choices, "/"@))],
                ),
            )
        }),
{
}

/// The ids of the fields are those that the fields have, in their order.
pub proof fn law_field_ids(fields: Seq<JsonView>, field: JsonView)
    ensures
        json::member(field, "id"@) matches Some(JsonView::String(id)) ==> field_ids(
            fields.push(field),
        ) == field_ids(fields).push(id),
        !(json::member(field, "id"@) is Some && json::member(field, "id"@)->0 is String)
            ==> field_ids(fields.push(field)) == field_ids(fields),
        field_ids(seq![]).len() == 0,
{
    assert(fields.push(field).drop_last() =~= fields);
}

/// A question that is told has an id and a title. All else of it is what it tells;
/// where it does not tell, it asks for a text, is not required, and is visible.
pub proof fn law_question_told(value: JsonView, catalog: CatalogView)
    ensures
        ({
            let read = question_in(value, catalog);
            let id = json::member(value, "id"@);
            let title = json::member(value, "title"@);
            let named = id is Some && id->0 is String;
            let titled = title is Some && title->0 is String;
            &&& read is Ok <==> named && titled
            &&& !named ==> read == Err::<WizardQuestionView, Seq<char>>(
                catalog::message(catalog, "cli.wizard.question_missing_id"@),
            )
            &&& named && !titled ==> read == Err::<WizardQuestionView, Seq<char>>(
                catalog::message_with(
                    catalog,
                    "cli.wizard.question_missing_title"@,
                    seq![("id"@, id->0->String_0)],
                ),
            )
            &&& read matches Ok(q) ==> {
                &&& id == Some(JsonView::String(q.id))
                &&& title == Some(JsonView::String(q.title))
                &&& q.description == match json::member(value, "description"@) {
                    Some(JsonView::String(description)) => Some(description),
                    _ => None,
                }
                &&& q.kind == match json::member(value, "type"@) {
                    Some(JsonView::String(label)) => kind_of(label),
                    _ => QuestionKind::String,
                }
                &&& q.required <==> json::member(value, "required"@) == Some(JsonView::Bool(true))
                &&& q.visible <==> json::member(value, "visible"@) != Some(JsonView::Bool(false))
                &&& q.choices == json::strings_in(json::member_items(value, "choices"@))
                &&& q.list_fields == match json::member(value, "list"@) {
                    Some(list) => field_ids(json::member_items(list, "fields"@)),
                    None => Seq::empty(),
                }
            }
        }),
{
    law_kind_by_label("string"@);
}

proof fn lemma_questions_in(
    items: Seq<JsonView>,
    i: int,
    read: Seq<WizardQuestionView>,
    catalog: CatalogView,
)
    requires
        0 <= i <= items.len(),
    ensures
        match questions_in(items, i, read, catalog) {
            Ok(all) => all.len() == read.len() + items.len() - i && (forall|k: int|
                0 <= k < read.len() ==> #[trigger] all[k] == read[k]) && forall|k: int|
                i <= k < items.len() ==> question_in(#[trigger] items[k], catalog) == Ok::<
                    WizardQuestionView,
                    Seq<char>,
                >(all[read.len() + k - i]),
            Err(message) => exists|k: int|
                i <= k < items.len() && question_in(#[trigger] items[k], catalog) == Err::<
                    WizardQuestionView,
                    Seq<char>,
                >(message) && forall|j: int|
                    i <= j < k ==> question_in(#[trigger] items[j], catalog) is Ok,
        },
    decreases items.len() - i,
{
    if i < items.len() {
        match question_in(items[i], catalog) {
            Ok(question) => {
                let more = read.push(question);
                lemma_questions_in(items, i + 1, more, catalog);
                match questions_in(items, i + 1, more, catalog) {
                    Ok(all) => {
                        assert(all[read.len() as int] == more[read.len() as int]);
                        assert forall|k: int| 0 <= k < read.len() implies #[trigger] all[k]
                            == read[k] by {
                            assert(all[k] == more[k]);
                        }
                        assert forall|k: int| i <= k < items.len() implies question_in(
                            #[trigger] items[k],
                            catalog,
                        ) == Ok::<WizardQuestionView, Seq<char>>(all[read.len() + k - i]) by {}
                    },
                    Err(message) => {
                        let k = choose|k: int|
                            i + 1 <= k < items.len() && question_in(#[trigger] items[k], catalog)
                                == Err::<WizardQuestionView, Seq<char>>(message) && forall|j: int|
                                i + 1 <= j < k ==> question_in(#[trigger] items[j], catalog) is Ok;
                        assert(question_in(items[k], catalog) == Err::<
                            WizardQuestionView,
                            Seq<char>,
                        >(message));
                        assert forall|j: int| i <= j < k implies question_in(
                            #[trigger] items[j],
                            catalog,
                        ) is Ok by {}
                    },
                }
            },
            Err(message) => {
                assert(question_in(items[i], catalog) == Err::<WizardQuestionView, Seq<char>>(
                    message,
                ));
            },
        }
    }
}

/// What a wizard shows is read from a payload with a title, a progress and questions,
/// each of which has an id and a title. Every question is read, in its order.
pub proof fn law_payload_told(value: JsonView, catalog: CatalogView)
    ensures
        ({
            let read = payload_in(value, catalog);
            let title = json::member(value, "form_title"@);
            let progress = json::member(value, "progress"@);
            let questions = json::member(value, "questions"@);
            let titled = title is Some && title->0 is String;
            let counted = progress is Some && progress->0 is Object;
            let listed = questions is Some && questions->0 is Array;
            let items = questions->0->Array_0;
            &&& !titled ==> read == Err::<WizardPayloadView, Seq<char>>(
                catalog::message(catalog, "cli.wizard.payload_missing_form_title"@),
            )
            &&& titled && !counted ==> read == Err::<WizardPayloadView, Seq<char>>(
                catalog::message(catalog, "cli.wizard.payload_missing_progress"@),
            )
            &&& titled && counted && !listed ==> read == Err::<WizardPayloadView, Seq<char>>(
                catalog::message(catalog, "cli.wizard.payload_missing_questions"@),
            )
            &&& read is Ok <==> titled && counted && listed && forall|i: int|
                0 <= i < items.len() ==> question_in(#[trigger] items[i], catalog) is Ok
            &&& read matches Ok(payload) ==> {
                &&& title == Some(JsonView::String(payload.form_title))
                &&& payload.help == match json::member(value, "help"@) {
                    Some(JsonView::String(help)) => Some(help),
                    _ => None,
                }
                &&& payload.status == match json::member(value, "status"@) {
                    Some(JsonView::String(label)) => status_of(label),
                    _ => RenderStatus::NeedInput,
                }
                &&& payload.progress.answered == counter_in(progress->0, "answered"@)
                &&& payload.progress.total == counter_in(progress->0, "total"@)
                &&& payload.questions.len() == items.len()
                &&& forall|i: int|
                    0 <= i < items.len() ==> question_in(#[trigger] items[i], catalog) == Ok::<
                        WizardQuestionView,
                        Seq<char>,
                    >(payload.questions[i])
            }
        }),
{
    let questions = json::member(value, "questions"@);
    if questions is Some && questions->0 is Array {
        lemma_questions_in(questions->0->Array_0, 0, Seq::empty(), catalog);
    }
    law_status_by_label("need_input"@);
    reveal_strlit("need_input");
    reveal_strlit("complete");
    reveal_strlit("error");
    assert("need_input"@[0] == 'n' && "complete"@[0] == 'c' && "error"@[0] == 'e');
}

/// A counter is the whole number that is told, or zero.
pub proof fn law_counters(progress: JsonView, key: Seq<char>, n: u64)
    requires
        n <= usize::MAX,
    ensures
        json::member(progress, key) == Some(JsonView::Number(json::Number::PosInt(n)))
            ==> counter_in(progress, key) == n,
        json::member(progress, key) is None ==> counter_in(progress, key) == 0,
{
}

/// A prompt shows its question, after as many as were answered.
pub proof fn law_prompts(
    question: WizardQuestionView,
    progress: RenderProgress,
    catalog: CatalogView,
)
    requires
        progress.answered < usize::MAX,
    ensures
        ({
            let prompt = prompt_for(question, progress, catalog);
            &&& prompt.index == progress.answered + 1
            &&& prompt.total == progress.total
            &&& prompt.title == question.title
            &&& prompt.description == question.description
            &&& prompt.required == question.required
            &&& prompt.choices == question.choices
            &&& prompt.list_fields == question.list_fields
            &&& prompt.hint == kind_hint(question.kind, question.choices, catalog)
        }),
{
}

/// The questions that are shown are the visible ones, in their order.
pub proof fn law_visible_questions(
    questions: Seq<WizardQuestionView>,
    question: WizardQuestionView,
)
    ensures
        question.visible ==> visible_questions(questions.push(question)) == visible_questions(
            questions,
        ).push(question),
        !question.visible ==> visible_questions(questions.push(question)) == visible_questions(
            questions,
        ),
        question.visible ==> question_lines(questions.push(question)) == question_lines(
            questions,
        ).push(question_line(question)),
        !question.visible ==> question_lines(questions.push(question)) == question_lines(questions),
{
    reveal(Seq::filter);
    assert(questions.push(question).drop_last() =~= questions);
}

/// A question's line has its id and its title, and says whether it is required.
pub proof fn law_question_line(question: WizardQuestionView)
    ensures
        question.required ==> question_line(question) == " - "@ + question.id + " ("@
            + question.title + ")"@ + " [required]"@,
        !question.required ==> question_line(question) == " - "@ + question.id + " ("@
            + question.title + ")"@,
{
}

/// The title of the form is always shown, and its help only at length.
pub proof fn law_header(verbosity: Verbosity, payload: WizardPayloadView, catalog: CatalogView)
    ensures
        ({
            let lines = header_lines(verbosity, payload, catalog);
            &&& lines[0] == catalog::message_with(
                catalog,
                "cli.wizard.form"@,
                seq![("title"@, payload.form_title)],
            )
            &&& lines.len() == if verbosity is Verbose && payload.help is Some {
                2nat
            } else {
                1
            }
            &&& verbosity is Verbose && payload.help is Some ==> lines[1] == catalog::message_with(
                catalog,
                "cli.wizard.help"@,
                seq![("help"@, payload.help->0)],
            )
        }),
{
}

/// At length the status and the visible questions are shown. Else it is only told
/// where input is needed and there is no question to show.
pub proof fn law_status_lines(
    verbosity: Verbosity,
    payload: WizardPayloadView,
    catalog: CatalogView,
)
    ensures
        ({
            let lines = status_lines(verbosity, payload, catalog);
            let hidden = forall|i: int|
                0 <= i < payload.questions.len() ==> !(#[trigger] payload.questions[i]).visible;
            &&& verbosity is Verbose ==> lines.len() == 2 + question_lines(payload.questions).len()
                && lines[0] == catalog::message_with(
                catalog,
                "cli.wizard.status"@,
                seq![
                    ("status"@, status_label(payload.status)),
                    ("answered"@, text::decimal(payload.progress.answered as nat)),
                    ("total"@, text::decimal(payload.progress.total as nat)),
                ],
            ) && lines[1] == catalog::message(catalog, "cli.wizard.visible_questions"@)
                && lines.skip(2) == question_lines(payload.questions)
            &&& !(verbosity is Verbose) && payload.status is NeedInput && hidden ==> lines == seq![
                catalog::message(catalog, "cli.wizard.no_visible_questions"@),
            ]
            &&& !(verbosity is Verbose) && !(payload.status is NeedInput && hidden) ==> lines.len()
                == 0
        }),
{
    let questions = payload.questions;
    lemma_none_visible(questions);
    if verbosity is Verbose {
        let lines = status_lines(verbosity, payload, catalog);
        assert(lines.skip(2) =~= question_lines(questions));
    }
}

proof fn lemma_none_visible(questions: Seq<WizardQuestionView>)
    ensures
        visible_questions(questions).len() == 0 <==> forall|i: int|
            0 <= i < questions.len() ==> !(#[trigger] questions[i]).visible,
    decreases questions.len(),
{
    reveal(Seq::filter);
    if questions.len() > 0 {
        let front = questions.drop_last();
        lemma_none_visible(front);
        assert(questions[questions.len() - 1] == questions.last());
        if visible_questions(questions).len() == 0 {
            assert forall|i: int| 0 <= i < questions.len() implies !(
            #[trigger] questions[i]).visible by {
                if i < front.len() {
                    assert(front[i] == questions[i]);
                }
            }
        }
        if forall|i: int| 0 <= i < questions.len() ==> !(#[trigger] questions[i]).visible {
            assert forall|i: int| 0 <= i < front.len() implies !(#[trigger] front[i]).visible by {
                assert(front[i] == questions[i]);
            }
        }
    }
}

/// A prompt's line has its place, the number of questions where that is known, the
/// title, a star where an answer is required, and the hint.
pub proof fn law_prompt_line(prompt: PromptView)
    ensures
        ({
            let place = text::decimal(prompt.index as nat);
            let counted = if prompt.total > 0 {
                place + "/"@ + text::decimal(prompt.total as nat)
            } else {
                place
            };
            let star = if prompt.required {
                " *"@
            } else {
                Seq::empty()
            };
            let hint = match prompt.hint {
                Some(hint) => " "@ + hint,
                None => Seq::empty(),
            };
            prompt_line(prompt) == counted + " "@ + prompt.title + star + hint
        }),
{
    let place = text::decimal(prompt.index as nat);
    let counted = if prompt.total > 0 {
        place + "/"@ + text::decimal(prompt.total as nat)
    } else {
        place
    };
    let star = if prompt.required {
        " *"@
    } else {
        Seq::empty()
    };
    let hint = match prompt.hint {
        Some(hint) => " "@ + hint,
        None => Seq::empty(),
    };
    assert(prompt_line(prompt) =~= counted + " "@ + prompt.title + star + hint);
}

/// A prompt is shown with its description and its fields where it has any, and with
/// its choices only at length.
pub proof fn law_prompt_lines(verbosity: Verbosity, prompt: PromptView, catalog: CatalogView)
    ensures
        ({
            let lines = prompt_lines(verbosity, prompt, catalog);
            let described: int = if prompt.description is Some {
                1
            } else {
                0
            };
            let fielded: int = if prompt.list_fields.len() > 0 {
                1
            } else {
                0
            };
            let chosen: int = if verbosity is Verbose && prompt.choices.len() > 0 {
                1
            } else {
                0
            };
            &&& lines.len() == 1 + described + fielded + chosen
            &&& lines[0] == prompt_line(prompt)
            &&& described == 1 ==> lines[1] == prompt.description->0
            &&& fielded == 1 ==> lines[1 + described] == catalog::message_with(
                catalog,
                "cli.wizard.list_fields"@,
                seq![("fields"@, text::joined(prompt.list_fields, ", "@))],
            )
            &&& chosen == 1 ==> lines[1 + described + fielded] == catalog::message_with(
                catalog,
                "cli.wizard.choices"@,
                seq![("choices"@, text::joined(prompt.choices, ", "@))],
            )
        }),
{
}

/// A refused answer is told why, and at length also what was expected.
pub proof fn law_parse_error_lines(
    verbosity: Verbosity,
    error: AnswerFaultView,
    catalog: CatalogView,
)
    ensures
        ({
            let lines = parse_error_lines(verbosity, error, catalog);
            let shown = verbosity is Verbose && error.debug_message is Some;
            &&& lines.len() == if shown {
                2nat
            } else {
                1
            }
            &&& lines[0] == catalog::message_with(
                catalog,
                "cli.wizard.invalid_answer"@,
                seq![("error"@, error.user_message)],
            )
            &&& shown ==> lines[1] == catalog::message_with(
                catalog,
                "cli.wizard.expected"@,
                seq![("expected"@, error.debug_message->0)],
            )
        }),
{
}

/// At the end it is told that the answers are complete, what they are in CBOR, and
/// what they are in JSON where that is asked for. What could not be written is a
/// complaint.
pub proof fn law_completion_lines(
    show_answers_json: bool,
    cbor: Result<Seq<u8>, Seq<char>>,
    pretty: Result<String, String>,
    catalog: CatalogView,
)
    ensures
        ({
            let lines = completion_lines(show_answers_json, cbor, pretty, catalog);
            &&& lines.len() == if show_answers_json {
                3nat
            } else {
                2
            }
            &&& lines[0] == LineView::Out(catalog::message(catalog, "cli.wizard.done"@))
            &&& cbor matches Ok(bytes) ==> lines[1] == LineView::Out(
                catalog::message_with(
                    catalog,
                    "cli.wizard.answers_cbor"@,
                    seq![("hex"@, text::hex(bytes))],
                ),
            )
            &&& cbor is Err ==> lines[1] is Complaint
            &&& show_answers_json ==> (pretty matches Ok(shown) ==> lines[2] == LineView::Out(
                shown@,
            ))
            &&& show_answers_json && pretty is Err ==> lines[2] is Complaint
        }),
{
}

/// What could not be written at the end is told with the reason.
pub proof fn law_unwritten_answers_are_told(
    reason: Seq<char>,
    details: String,
    catalog: CatalogView,
)
    ensures
        completion_lines(true, Err(reason), Err(details), catalog)[1] == LineView::Complaint(
            catalog::message_with(
                catalog,
                "cli.wizard.cbor_serialize_failed"@,
                seq![("error"@, reason)],
            ),
        ),
        completion_lines(true, Err(reason), Err(details), catalog)[2] == LineView::Complaint(
            catalog::message_with(
                catalog,
                "cli.wizard.json_serialize_failed"@,
                seq![("error"@, details@)],
            ),
        ),
{
}

} // verus!
