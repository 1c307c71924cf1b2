//! Setup, update and removal of a component by way of its form.
use crate::assets::{self, normalize_locale_chain, resolve_pack_i18n_text, LoadedFormValue};
use crate::context::{self, payload_answers, payload_form_id};
use crate::entries::{self, add_member, find};
use crate::faults::{self, ComponentError, FaultView};
use crate::form::{self, FormSpec, FormView, QuestionSpec, QuestionType, QuestionView};
use crate::json::{self, copy_entries, entry, put_member, Json, JsonView};
use crate::json_text::{self, from_value};
use crate::requests::{self, ensure_form};
use crate::responses::{self, errors_value};
use crate::text::{self, cat, cat3, same};
use crate::validate::{self, validate_evaluated, Evaluated};
use greentic_types::i18n_text::I18nText;
use greentic_types::schemas::component::v0_6_0::{
    ChoiceOption, ComponentQaSpec, QaMode, Question, QuestionKind,
};
use vstd::prelude::*;

verus! {

/// What a form is filled in for.
#[derive(Debug, Clone, Copy, PartialEq, Eq, Structural)]
pub enum NormalizedMode {
    Setup,
    Update,
    Remove,
}

/// The modes that a host asks for.
#[derive(Debug, Clone, Copy, PartialEq, Eq, Structural)]
pub enum HostMode {
    Default,
    Setup,
    Update,
    Remove,
}

/// The label of a mode.
pub open spec fn mode_label(mode: NormalizedMode) -> Seq<char> {
    match mode {
        NormalizedMode::Setup => "setup"@,
        NormalizedMode::Update => "update"@,
        NormalizedMode::Remove => "remove"@,
    }
}

/// The mode that a label stands for.
pub open spec fn mode_of(raw: Seq<char>) -> Option<NormalizedMode> {
    if raw == "default"@ || raw == "setup"@ || raw == "install"@ {
        Some(NormalizedMode::Setup)
    } else if raw == "update"@ || raw == "upgrade"@ {
        Some(NormalizedMode::Update)
    } else if raw == "remove"@ {
        Some(NormalizedMode::Remove)
    } else {
        None
    }
}

impl NormalizedMode {
    pub fn as_str(self) -> (r: &'static str)
        ensures
            r@ == mode_label(self),
    {
        match self {
            NormalizedMode::Setup => "setup",
            NormalizedMode::Update => "update",
            NormalizedMode::Remove => "remove",
        }
    }
}

/// Reads the label of a mode.
pub fn normalize_mode(raw: &str) -> (r: Option<NormalizedMode>)
    ensures
        r == mode_of(raw@),
{
    if same(raw, "default") || same(raw, "setup") || same(raw, "install") {
        Some(NormalizedMode::Setup)
    } else if same(raw, "update") || same(raw, "upgrade") {
        Some(NormalizedMode::Update)
    } else if same(raw, "remove") {
        Some(NormalizedMode::Remove)
    } else {
        None
    }
}

/// A mode is found again by its label.
pub proof fn law_mode_label_round_trip(mode: NormalizedMode)
    ensures
        mode_of(mode_label(mode)) == Some(mode),
{
    reveal_strlit("default");
    reveal_strlit("setup");
    reveal_strlit("install");
    reveal_strlit("update");
    reveal_strlit("upgrade");
    reveal_strlit("remove");
    assert("default"@.len() == 7 && "setup"@.len() == 5 && "install"@.len() == 7);
    assert("update"@[0] == 'u' && "remove"@[0] == 'r' && "update"@.len() == 6 && "remove"@.len() == 6);
    assert("upgrade"@.len() == 7);
}

/// The mode that a host's mode comes to.
pub fn qa_mode_to_normalized(mode: HostMode) -> (r: NormalizedMode)
    ensures
        r == match mode {
            HostMode::Default => NormalizedMode::Setup,
            HostMode::Setup => NormalizedMode::Setup,
            HostMode::Update => NormalizedMode::Update,
            HostMode::Remove => NormalizedMode::Remove,
        },
{
    match mode {
        HostMode::Default => NormalizedMode::Setup,
        HostMode::Setup => NormalizedMode::Setup,
        HostMode::Update => NormalizedMode::Update,
        HostMode::Remove => NormalizedMode::Remove,
    }
}

/// The translation keys of the title and the description of a mode.
pub open spec fn mode_keys(mode: NormalizedMode) -> (Seq<char>, Seq<char>) {
    match mode {
        NormalizedMode::Setup => ("qa.install.title"@, "qa.install.description"@),
        NormalizedMode::Update => ("qa.update.title"@, "qa.update.description"@),
        NormalizedMode::Remove => ("qa.remove.title"@, "qa.remove.description"@),
    }
}

/// The translation keys of the title and the description of a mode.
pub fn mode_title(mode: NormalizedMode) -> (r: (&'static str, &'static str))
    ensures
        (r.0@, r.1@) == mode_keys(mode),
{
    match mode {
        NormalizedMode::Setup => ("qa.install.title", "qa.install.description"),
        NormalizedMode::Update => ("qa.update.title", "qa.update.description"),
        NormalizedMode::Remove => ("qa.remove.title", "qa.remove.description"),
    }
}

/// A translation key with the text to fall back on.
#[derive(Debug, PartialEq)]
pub struct QaText {
    pub key: String,
    pub fallback: Option<String>,
}

/// A choice of a question.
#[derive(Debug, PartialEq)]
pub struct QaChoice {
    pub value: String,
    pub label: QaText,
}

/// What kind of input a question asks for.
#[derive(Debug, PartialEq)]
pub enum QaKind {
    Text,
    Choice(Vec<QaChoice>),
    Number,
    Bool,
}

/// A question as a host asks it.
#[derive(Debug, PartialEq)]
pub struct QaQuestion {
    pub id: String,
    pub label: QaText,
    pub help: Option<QaText>,
    pub kind: QaKind,
    pub required: bool,
}

/// What a host asks in a mode.
#[derive(Debug, PartialEq)]
pub struct QaSpec {
    pub mode: NormalizedMode,
    pub title: QaText,
    pub description: Option<QaText>,
    pub questions: Vec<QaQuestion>,
}

#[verifier::ext_equal]
pub struct QaTextView {
    pub key: Seq<char>,
    pub fallback: Option<Seq<char>>,
}

#[verifier::ext_equal]
pub struct QaChoiceView {
    pub value: Seq<char>,
    pub label: QaTextView,
}

#[verifier::ext_equal]
pub enum QaKindView {
    Text,
    Choice(Seq<QaChoiceView>),
    Number,
    Bool,
}

#[verifier::ext_equal]
pub struct QaQuestionView {
    pub id: Seq<char>,
    pub label: QaTextView,
    pub help: Option<QaTextView>,
    pub kind: QaKindView,
    pub required: bool,
}

#[verifier::ext_equal]
pub struct QaSpecView {
    pub mode: NormalizedMode,
    pub title: QaTextView,
    pub description: Option<QaTextView>,
    pub questions: Seq<QaQuestionView>,
}

impl View for QaText {
    type V = QaTextView;

    open spec fn view(&self) -> QaTextView {
        QaTextView { key: self.key@, fallback: text::opt_text(self.fallback) }
    }
}

/// A text that may be absent, viewed.
pub open spec fn opt_qa_text(text: Option<QaText>) -> Option<QaTextView> {
    match text {
        Some(text) => Some(text@),
        None => None,
    }
}

impl View for QaChoice {
    type V = QaChoiceView;

    open spec fn view(&self) -> QaChoiceView {
        QaChoiceView { value: self.value@, label: self.label@ }
    }
}

/// A list of choices, viewed.
pub open spec fn choices_view(list: Seq<QaChoice>) -> Seq<QaChoiceView> {
    Seq::new(list.len(), |i: int| list[i]@)
}

impl View for QaKind {
    type V = QaKindView;

    open spec fn view(&self) -> QaKindView {
        match *self {
            QaKind::Text => QaKindView::Text,
            QaKind::Choice(options) => QaKindView::Choice(choices_view(options@)),
            QaKind::Number => QaKindView::Number,
            QaKind::Bool => QaKindView::Bool,
        }
    }
}

impl View for QaQuestion {
    type V = QaQuestionView;

    open spec fn view(&self) -> QaQuestionView {
        QaQuestionView {
            id: self.id@,
            label: self.label@,
            help: opt_qa_text(self.help),
            kind: self.kind@,
            required: self.required,
        }
    }
}

/// A list of questions, viewed.
pub open spec fn qa_questions_view(list: Seq<QaQuestion>) -> Seq<QaQuestionView> {
    Seq::new(list.len(), |i: int| list[i]@)
}

impl View for QaSpec {
    type V = QaSpecView;

    open spec fn view(&self) -> QaSpecView {
        QaSpecView {
            mode: self.mode,
            title: self.title@,
            description: opt_qa_text(self.description),
            questions: qa_questions_view(self.questions@),
        }
    }
}

/// A choice of a question as a host offers it.
pub open spec fn choice_for(id: Seq<char>, choice: Seq<char>) -> QaChoiceView {
    QaChoiceView {
        value: choice,
        label: QaTextView {
            key: "qa.field."@ + id + ".option."@ + choice,
            fallback: Some(choice),
        },
    }
}

/// What kind of input a question asks for.
pub open spec fn kind_for(question: QuestionView) -> QaKindView {
    match question.kind {
        QuestionType::Boolean => QaKindView::Bool,
        QuestionType::Integer => QaKindView::Number,
        QuestionType::Number => QaKindView::Number,
        QuestionType::Enum => QaKindView::Choice(
            match question.choices {
                Some(choices) => choices.map_values(
                    |choice: Seq<char>| choice_for(question.id, choice),
                ),
                None => Seq::empty(),
            },
        ),
        QuestionType::List => QaKindView::Text,
        QuestionType::String => QaKindView::Text,
    }
}

/// What kind of input a question asks for.
pub fn question_kind(question: &QuestionSpec) -> (r: QaKind)
    ensures
        r@ == kind_for(question@),
{
    match question.kind {
        QuestionType::Boolean => QaKind::Bool,
        QuestionType::Integer => QaKind::Number,
        QuestionType::Number => QaKind::Number,
        QuestionType::Enum => {
            let mut options: Vec<QaChoice> = Vec::new();
            if let Some(choices) = &question.choices {
                let mut i: usize = 0;
                while i < choices.len()
                    invariant
                        i <= choices@.len(),
                        options@.len() == i,
                        forall|k: int|
                            0 <= k < i ==> (#[trigger] options@[k])@ == choice_for(
                                question.id@,
                                choices@[k]@,
                            ),
                    decreases choices.len() - i,
                {
                    let choice = choices[i].as_str();
                    let head = cat3("qa.field.", question.id.as_str(), ".option.");
                    let key = cat(head.as_str(), choice);
                    options.push(
                        QaChoice {
                            value: choice.to_owned(),
                            label: QaText { key, fallback: Some(choice.to_owned()) },
                        },
                    );
                    i += 1;
                }
            }
            assert(choices_view(options@) =~= kind_for(question@)->Choice_0);
            QaKind::Choice(options)
        },
        QuestionType::List => QaKind::Text,
        QuestionType::String => QaKind::Text,
    }
}

/// The label of a question: its translated title, or its title.
pub open spec fn label_for(
    question: QuestionView,
    maps: Seq<Option<Seq<(Seq<char>, Seq<char>)>>>,
) -> QaTextView {
    match question.title_i18n {
        Some(key) => QaTextView {
            key,
            fallback: assets::pack_text(maps, key, Some(question.title)),
        },
        None => QaTextView {
            key: "qa.field."@ + question.id + ".label"@,
            fallback: Some(question.title),
        },
    }
}

/// The help of a question: its translated description, or its description.
pub open spec fn help_for(
    question: QuestionView,
    maps: Seq<Option<Seq<(Seq<char>, Seq<char>)>>>,
) -> Option<QaTextView> {
    match question.description_i18n {
        Some(key) => Some(
            QaTextView { key, fallback: assets::pack_text(maps, key, question.description) },
        ),
        None => match question.description {
            Some(description) => Some(
                QaTextView {
                    key: "qa.field."@ + question.id + ".help"@,
                    fallback: Some(description),
                },
            ),
            None => None,
        },
    }
}

/// A question as a host asks it.
pub open spec fn question_for(
    question: QuestionView,
    maps: Seq<Option<Seq<(Seq<char>, Seq<char>)>>>,
) -> QaQuestionView {
    QaQuestionView {
        id: question.id,
        label: label_for(question, maps),
        help: help_for(question, maps),
        kind: kind_for(question),
        required: question.required,
    }
}

/// Whether a question is asked. One that is not listed is not.
pub open spec fn is_asked(visibility: Seq<(Seq<char>, bool)>, id: Seq<char>) -> bool {
    entries::lookup(visibility, id) == Some(true)
}

/// The questions that a host asks, in the form's order.
pub open spec fn questions_for(
    questions: Seq<QuestionView>,
    visibility: Seq<(Seq<char>, bool)>,
    maps: Seq<Option<Seq<(Seq<char>, Seq<char>)>>>,
) -> Seq<QaQuestionView>
    decreases questions.len(),
{
    if questions.len() == 0 {
        Seq::empty()
    } else {
        let before = questions_for(questions.drop_last(), visibility, maps);
        if is_asked(visibility, questions.last().id) {
            before.push(question_for(questions.last(), maps))
        } else {
            before
        }
    }
}

/// What a host asks in a mode.
pub open spec fn spec_for(
    mode: NormalizedMode,
    form: FormView,
    visibility: Seq<(Seq<char>, bool)>,
    maps: Seq<Option<Seq<(Seq<char>, Seq<char>)>>>,
) -> QaSpecView {
    QaSpecView {
        mode,
        title: QaTextView { key: mode_keys(mode).0, fallback: Some(form.title) },
        description: match form.description {
            Some(description) => Some(
                QaTextView { key: mode_keys(mode).1, fallback: Some(description) },
            ),
            None => None,
        },
        questions: questions_for(form.questions, visibility, maps),
    }
}

/// What a host asks in a mode, or why the form is not to be had.
pub open spec fn qa_spec_of(
    mode: NormalizedMode,
    form: Result<FormView, FaultView>,
    loaded: Result<(JsonView, Seq<char>), FaultView>,
    visibility: Seq<(Seq<char>, bool)>,
    maps: Seq<Option<Seq<(Seq<char>, Seq<char>)>>>,
) -> Result<QaSpecView, FaultView> {
    match form {
        Err(fault) => Err(fault),
        Ok(form) => match loaded {
            Err(fault) => Err(fault),
            Ok(_) => Ok(spec_for(mode, form, visibility, maps)),
        },
    }
}

/// The locales whose texts a host's questions are given in, in turn.
pub fn spec_locales(ctx_json: &str) -> (r: Vec<String>)
    ensures
        text::texts(r@) == assets::locale_chain(
            json::member_string(context::runtime_context(ctx_json@), "locale"@),
        ),
{
    let ctx = context::parse_runtime_context(ctx_json);
    normalize_locale_chain(ctx.get_str("locale"))
}

fn make_label(question: &QuestionSpec, maps: &Vec<Option<Vec<(String, String)>>>) -> (r: QaText)
    ensures
        r@ == label_for(question@, assets::maps_view(maps@)),
{
    match &question.title_i18n {
        Some(key) => QaText {
            key: key.clone(),
            fallback: resolve_pack_i18n_text(maps, key.as_str(), &Some(question.title.clone())),
        },
        None => QaText {
            key: cat3("qa.field.", question.id.as_str(), ".label"),
            fallback: Some(question.title.clone()),
        },
    }
}

fn make_help(question: &QuestionSpec, maps: &Vec<Option<Vec<(String, String)>>>) -> (r: Option<
    QaText,
>)
    ensures
        opt_qa_text(r) == help_for(question@, assets::maps_view(maps@)),
{
    match &question.description_i18n {
        Some(key) => Some(
            QaText {
                key: key.clone(),
                fallback: resolve_pack_i18n_text(maps, key.as_str(), &question.description),
            },
        ),
        None => match &question.description {
            Some(description) => Some(
                QaText {
                    key: cat3("qa.field.", question.id.as_str(), ".help"),
                    fallback: Some(description.clone()),
                },
            ),
            None => None,
        },
    }
}

/// What a request for questions comes to, viewed.
pub open spec fn qa_spec_view(spec: Result<QaSpec, ComponentError>) -> Result<
    QaSpecView,
    FaultView,
> {
    match spec {
        Ok(spec) => Ok(spec@),
        Err(fault) => Err(fault@),
    }
}

/// What a host asks in a mode: `visibility` says which questions are shown for
/// the answers so far, and `maps` are the texts of the locales in turn.
pub fn component_qa_spec(
    mode: NormalizedMode,
    form_id: &str,
    spec: &Result<FormSpec, ComponentError>,
    loaded: &Result<LoadedFormValue, ComponentError>,
    visibility: &Vec<(String, bool)>,
    maps: &Vec<Option<Vec<(String, String)>>>,
) -> (r: Result<QaSpec, ComponentError>)
    ensures
        qa_spec_view(r) == qa_spec_of(
            mode,
            requests::form_for(form_id@, assets::spec_view(*spec)),
            assets::loaded_view(*loaded),
            validate::visibility_view(visibility@),
            assets::maps_view(maps@),
        ),
{
    let form = match ensure_form(form_id, spec) {
        Ok(form) => form,
        Err(fault) => {
            return Err(fault);
        },
    };
    if let Err(fault) = loaded {
        return Err(fault.clone());
    }
    let (title_key, description_key) = mode_title(mode);
    let ghost shown = validate::visibility_view(visibility@);
    let ghost map_views = assets::maps_view(maps@);
    let ghost views = form@.questions;
    let mut questions: Vec<QaQuestion> = Vec::new();
    let mut i: usize = 0;
    assert(entries::view_keys(shown) =~= entries::keys_of(visibility@));
    assert(views.take(0) =~= Seq::empty());
    assert(qa_questions_view(questions@) =~= Seq::empty());
    while i < form.questions.len()
        invariant
            i <= form.questions@.len(),
            shown == validate::visibility_view(visibility@),
            entries::view_keys(shown) == entries::keys_of(visibility@),
            map_views == assets::maps_view(maps@),
            views == form::questions_view(form.questions@),
            qa_questions_view(questions@) == questions_for(views.take(i as int), shown, map_views),
        decreases form.questions.len() - i,
    {
        assert(views.take(i + 1).drop_last() =~= views.take(i as int));
        assert(views.take(i + 1).last() == form.questions@[i as int]@);
        let question = &form.questions[i];
        let asked = match find(visibility, question.id.as_str()) {
            Some(at) => visibility[at].1,
            None => false,
        };
        assert(asked == is_asked(shown, question@.id));
        if asked {
            let ghost before = qa_questions_view(questions@);
            let made = QaQuestion {
                id: question.id.clone(),
                label: make_label(question, maps),
                help: make_help(question, maps),
                kind: question_kind(question),
                required: question.required,
            };
            questions.push(made);
            assert(qa_questions_view(questions@) =~= before.push(
                question_for(question@, map_views),
            ));
        }
        i += 1;
    }
    assert(views.take(i as int) =~= views);
    let description = match &form.description {
        Some(description) => Some(
            QaText { key: description_key.to_owned(), fallback: Some(description.clone()) },
        ),
        None => None,
    };
    Ok(
        QaSpec {
            mode,
            title: QaText { key: title_key.to_owned(), fallback: Some(form.title.clone()) },
            description,
            questions,
        },
    )
}

/// Questions of the `greentic_types` crate.
#[verifier::external_type_specification]
#[verifier::external_body]
pub struct ExQuestion(greentic_types::schemas::component::v0_6_0::Question);

/// What a question of `greentic_types` is serialised as.
pub uninterp spec fn question_value(
    question: greentic_types::schemas::component::v0_6_0::Question,
) -> JsonView;

/// A translation key with its fallback as JSON.
pub open spec fn text_json(text: QaTextView) -> JsonView {
    JsonView::Object(
        seq![
            ("fallback"@, json::opt_string(text.fallback)),
            ("key"@, JsonView::String(text.key)),
        ],
    )
}

/// A choice as JSON.
pub open spec fn choice_json(choice: QaChoiceView) -> JsonView {
    JsonView::Object(
        seq![("label"@, text_json(choice.label)), ("value"@, JsonView::String(choice.value))],
    )
}

/// A kind of input as JSON.
pub open spec fn kind_json(kind: QaKindView) -> JsonView {
    match kind {
        QaKindView::Text => JsonView::Object(seq![("type"@, JsonView::String("text"@))]),
        QaKindView::Number => JsonView::Object(seq![("type"@, JsonView::String("number"@))]),
        QaKindView::Bool => JsonView::Object(seq![("type"@, JsonView::String("bool"@))]),
        QaKindView::Choice(options) => JsonView::Object(
            seq![
                (
                    "options"@,
                    JsonView::Array(options.map_values(|c: QaChoiceView| choice_json(c))),
                ),
                ("type"@, JsonView::String("choice"@)),
            ],
        ),
    }
}

/// A question as JSON.
pub open spec fn question_json(question: QaQuestionView) -> JsonView {
    let help = match question.help {
        Some(help) => seq![("help"@, text_json(help))],
        None => Seq::empty(),
    };
    JsonView::Object(
        help + seq![
            ("id"@, JsonView::String(question.id)),
            ("kind"@, kind_json(question.kind)),
            ("label"@, text_json(question.label)),
            ("required"@, JsonView::Bool(question.required)),
        ],
    )
}

/// What a host asks, as JSON.
pub open spec fn spec_json(
    mode: NormalizedMode,
    title: QaTextView,
    description: Option<QaTextView>,
    questions: Seq<JsonView>,
) -> JsonView {
    JsonView::Object(
        seq![
            ("defaults"@, json::empty_object()),
            (
                "description"@,
                match description {
                    Some(description) => text_json(description),
                    None => JsonView::Null,
                },
            ),
            ("mode"@, JsonView::String(mode_label(mode))),
            ("questions"@, JsonView::Array(questions)),
            ("title"@, text_json(title)),
        ],
    )
}

/// Makes a `Question` of `greentic_types`, without an error text, a default and a
/// condition to skip it. Its serialisation leaves those three out, and the help
/// where there is none; a kind is told by its `type`, and the members stand in
/// the order of their keys.
#[verifier::external_body]
fn make_question(question: &QaQuestion) -> (r: greentic_types::schemas::component::v0_6_0::Question)
    ensures
        question_value(r) == question_json(question@),
{
    let label = |text: &QaText| I18nText::new(text.key.clone(), text.fallback.clone());
    let option = |c: &QaChoice| ChoiceOption { value: c.value.clone(), label: label(&c.label) };
    Question {
        id: question.id.clone(),
        label: label(&question.label),
        help: question.help.as_ref().map(label),
        error: None,
        kind: match &question.kind {
            QaKind::Text => QuestionKind::Text,
            QaKind::Choice(c) => QuestionKind::Choice { options: c.iter().map(option).collect() },
            QaKind::Number => QuestionKind::Number,
            QaKind::Bool => QuestionKind::Bool,
        },
        required: question.required, default: None, skip_if: None,
    }
}

/// `serde_json::to_value` on a `ComponentQaSpec` of `greentic_types` without
/// defaults, which has a value for every one of them. A description that is
/// absent is null.
#[verifier::external_body]
fn encode_spec(
    spec: &QaSpec,
    questions: Vec<greentic_types::schemas::component::v0_6_0::Question>,
) -> (r: serde_json::Value)
    ensures
        json_text::value_view(r) == spec_json(
            spec.mode,
            spec.title@,
            opt_qa_text(spec.description),
            questions@.map_values(
                |q: greentic_types::schemas::component::v0_6_0::Question| question_value(q),
            ),
        ),
{
    let label = |text: &QaText| I18nText::new(text.key.clone(), text.fallback.clone());
    serde_json::to_value(ComponentQaSpec {
        mode: match spec.mode {
            NormalizedMode::Setup => QaMode::Setup,
            NormalizedMode::Update => QaMode::Update,
            NormalizedMode::Remove => QaMode::Remove,
        },
        title: label(&spec.title),
        description: spec.description.as_ref().map(label),
        questions,
        defaults: Default::default(),
    }).unwrap_or_default()
}

/// The questions that a host asks, as JSON.
pub open spec fn questions_json(questions: Seq<QaQuestionView>) -> Seq<JsonView> {
    questions.map_values(|q: QaQuestionView| question_json(q))
}

proof fn lemma_text_nests(text: QaTextView, limit: nat)
    requires
        limit >= 1,
    ensures
        json_text::nests_within(text_json(text), limit),
{
    let members = text_json(text)->Object_0;
    assert forall|i: int| 0 <= i < members.len() implies json_text::nests_within(
        (#[trigger] members[i]).1,
        (limit - 1) as nat,
    ) by {}
}

proof fn lemma_kind_nests(kind: QaKindView, limit: nat)
    requires
        limit >= 4,
    ensures
        json_text::nests_within(kind_json(kind), limit),
{
    let members = kind_json(kind)->Object_0;
    assert forall|i: int| 0 <= i < members.len() implies json_text::nests_within(
        (#[trigger] members[i]).1,
        (limit - 1) as nat,
    ) by {
        if kind is Choice && i == 0 {
            let options = members[0].1->Array_0;
            assert forall|k: int| 0 <= k < options.len() implies json_text::nests_within(
                #[trigger] options[k],
                (limit - 2) as nat,
            ) by {
                let choice = kind->Choice_0[k];
                assert(options[k] == choice_json(choice));
                lemma_text_nests(choice.label, (limit - 3) as nat);
                let inner = choice_json(choice)->Object_0;
                assert forall|j: int| 0 <= j < inner.len() implies json_text::nests_within(
                    (#[trigger] inner[j]).1,
                    (limit - 3) as nat,
                ) by {}
            }
        }
    }
}

proof fn lemma_question_nests(question: QaQuestionView, limit: nat)
    requires
        limit >= 5,
    ensures
        json_text::nests_within(question_json(question), limit),
{
    let members = question_json(question)->Object_0;
    lemma_kind_nests(question.kind, (limit - 1) as nat);
    lemma_text_nests(question.label, (limit - 1) as nat);
    if question.help is Some {
        lemma_text_nests(question.help->0, (limit - 1) as nat);
    }
    assert forall|i: int| 0 <= i < members.len() implies json_text::nests_within(
        (#[trigger] members[i]).1,
        (limit - 1) as nat,
    ) by {}
}

proof fn lemma_spec_nests(
    mode: NormalizedMode,
    title: QaTextView,
    description: Option<QaTextView>,
    questions: Seq<QaQuestionView>,
    limit: nat,
)
    requires
        limit >= 7,
    ensures
        json_text::nests_within(
            spec_json(mode, title, description, questions_json(questions)),
            limit,
        ),
{
    let members = spec_json(mode, title, description, questions_json(questions))->Object_0;
    let asked = questions_json(questions);
    lemma_text_nests(title, (limit - 1) as nat);
    if description is Some {
        lemma_text_nests(description->0, (limit - 1) as nat);
    }
    assert forall|i: int| 0 <= i < members.len() implies json_text::nests_within(
        (#[trigger] members[i]).1,
        (limit - 1) as nat,
    ) by {
        if i == 3 {
            assert(members[3].1 == JsonView::Array(asked));
            assert forall|k: int| 0 <= k < asked.len() implies json_text::nests_within(
                #[trigger] asked[k],
                (limit - 2) as nat,
            ) by {
                lemma_question_nests(questions[k], (limit - 2) as nat);
            }
        }
    }
}

impl QaSpec {
    /// What the host asks, as JSON.
    pub fn to_json(&self) -> (r: Json)
        ensures
            r@ == spec_json(
                self.mode,
                self.title@,
                opt_qa_text(self.description),
                questions_json(self@.questions),
            ),
    {
        let ghost wanted = questions_json(self@.questions);
        let mut questions: Vec<greentic_types::schemas::component::v0_6_0::Question> = Vec::new();
        let mut i: usize = 0;
        while i < self.questions.len()
            invariant
                i <= self.questions@.len(),
                wanted == questions_json(qa_questions_view(self.questions@)),
                questions@.len() == i,
                forall|k: int|
                    0 <= k < i ==> question_value(#[trigger] questions@[k]) == wanted[k],
            decreases self.questions.len() - i,
        {
            assert(wanted[i as int] == question_json(self.questions@[i as int]@));
            questions.push(make_question(&self.questions[i]));
            i += 1;
        }
        assert(questions@.map_values(
            |q: greentic_types::schemas::component::v0_6_0::Question| question_value(q),
        ) =~= wanted);
        proof {
            lemma_spec_nests(
                self.mode,
                self.title@,
                opt_qa_text(self.description),
                self@.questions,
                128,
            );
        }
        let value = encode_spec(self, questions);
        from_value(&value, 128)
    }
}

/// What is given in place of questions where the form is not to be had.
pub open spec fn unavailable_json(mode: NormalizedMode, fault: FaultView) -> JsonView {
    JsonView::Object(
        seq![
            ("defaults"@, json::empty_object()),
            (
                "description"@,
                JsonView::Object(
                    seq![
                        ("default"@, JsonView::String(faults::fault_message(fault))),
                        ("key"@, JsonView::String("qa.error.spec_unavailable.description"@)),
                    ],
                ),
            ),
            ("mode"@, JsonView::String(mode_label(mode))),
            ("questions"@, JsonView::Array(Seq::empty())),
            (
                "title"@,
                JsonView::Object(
                    seq![
                        ("default"@, JsonView::String("QA unavailable"@)),
                        ("key"@, JsonView::String("qa.error.spec_unavailable"@)),
                    ],
                ),
            ),
        ],
    )
}

/// What a host asks in a mode as JSON, or what is given in its place.
pub open spec fn qa_reply(mode: NormalizedMode, spec: Result<QaSpecView, FaultView>) -> JsonView {
    match spec {
        Ok(spec) => spec_json(
            spec.mode,
            spec.title,
            spec.description,
            questions_json(spec.questions),
        ),
        Err(fault) => unavailable_json(mode, fault),
    }
}

fn unavailable_value(mode: NormalizedMode, fault: &ComponentError) -> (r: Json)
    ensures
        r@ == unavailable_json(mode, fault@),
{
    let description = vec![
        entry("default", Json::String(fault.message())),
        entry("key", Json::string("qa.error.spec_unavailable.description")),
    ];
    let title = vec![
        entry("default", Json::string("QA unavailable")),
        entry("key", Json::string("qa.error.spec_unavailable")),
    ];
    let none: Vec<Json> = Vec::new();
    let ghost wanted = unavailable_json(mode, fault@)->Object_0;
    assert(json::entries_view(description@) =~= wanted[1].1->Object_0);
    assert(json::entries_view(title@) =~= wanted[4].1->Object_0);
    assert(json::items_view(none@) =~= Seq::empty());
    let members = vec![
        entry("defaults", Json::empty()),
        entry("description", Json::object(description)),
        entry("mode", Json::string(mode.as_str())),
        entry("questions", Json::array(none)),
        entry("title", Json::object(title)),
    ];
    assert(json::entries_view(members@) =~= wanted);
    Json::object(members)
}

/// What a host asks in a mode for the form that a payload names: `spec` and
/// `loaded` are the form of the payload's configuration, `visibility` says which
/// questions are shown for its answers, and `maps` are the texts of its locales.
pub fn qa_spec_json(
    mode: NormalizedMode,
    payload: &Json,
    spec: &Result<FormSpec, ComponentError>,
    loaded: &Result<LoadedFormValue, ComponentError>,
    visibility: &Vec<(String, bool)>,
    maps: &Vec<Option<Vec<(String, String)>>>,
) -> (r: Json)
    ensures
        r@ == qa_reply(
            mode,
            qa_spec_of(
                mode,
                requests::form_for(context::form_id_in(payload@), assets::spec_view(*spec)),
                assets::loaded_view(*loaded),
                validate::visibility_view(visibility@),
                assets::maps_view(maps@),
            ),
        ),
{
    let form_id = payload_form_id(payload);
    match component_qa_spec(mode, form_id.as_str(), spec, loaded, visibility, maps) {
        Ok(spec) => spec.to_json(),
        Err(fault) => unavailable_value(mode, &fault),
    }
}

/// What a host asks, under the mode that it asked for: a default keeps its name.
pub open spec fn under_host_mode(mode: HostMode, spec: JsonView) -> JsonView {
    match spec {
        JsonView::Object(members) => if mode is Default {
            JsonView::Object(
                entries::put(members, "mode"@, JsonView::String("default"@)),
            )
        } else {
            spec
        },
        _ => spec,
    }
}

/// Puts what a host asks under the mode that it asked for.
pub fn host_spec(mode: HostMode, spec: Json) -> (r: Json)
    ensures
        r@ == under_host_mode(mode, spec@),
{
    if !matches!(mode, HostMode::Default) {
        return spec;
    }
    let mut members = match spec.as_object() {
        Some(members) => copy_entries(members),
        None => {
            return spec;
        },
    };
    put_member(&mut members, "mode".to_owned(), Json::string("default"));
    Json::object(members)
}

/// All keys of a list, in order and without repeats.
pub open spec fn key_set(keys: Seq<Seq<char>>, n: int) -> Seq<Seq<char>>
    decreases n,
{
    if n <= 0 || n > keys.len() {
        Seq::empty()
    } else {
        entries::with_member(key_set(keys, n - 1), keys[n - 1])
    }
}

/// The translation keys of the component: those of its own catalog. A form adds
/// none, since without a configuration there is no form.
pub fn i18n_keys(all_keys: &Vec<String>) -> (r: Vec<String>)
    ensures
        text::texts(r@) == key_set(text::texts(all_keys@), all_keys@.len() as int),
{
    let ghost views = text::texts(all_keys@);
    let mut keys: Vec<String> = Vec::new();
    let mut i: usize = 0;
    assert(text::texts(keys@) =~= Seq::empty());
    while i < all_keys.len()
        invariant
            i <= all_keys@.len(),
            views == text::texts(all_keys@),
            text::texts(keys@) == key_set(views, i as int),
        decreases all_keys.len() - i,
    {
        assert(views[i as int] == all_keys@[i as int]@);
        add_member(&mut keys, all_keys[i].clone());
        i += 1;
    }
    keys
}

/// What an application of answers says of itself.
pub open spec fn apply_meta(mode: NormalizedMode) -> JsonView {
    JsonView::Object(
        seq![
            ("mode"@, JsonView::String(mode_label(mode))),
            ("version"@, JsonView::String("v1"@)),
        ],
    )
}

/// The reply where answers are not applied.
pub open spec fn not_applied(mode: NormalizedMode, errors: JsonView) -> JsonView {
    JsonView::Object(
        seq![
            ("errors"@, errors),
            ("meta"@, apply_meta(mode)),
            ("ok"@, JsonView::Bool(false)),
            ("warnings"@, JsonView::Array(Seq::empty())),
        ],
    )
}

/// The reply where answers are applied.
pub open spec fn applied(mode: NormalizedMode, config: Seq<(Seq<char>, JsonView)>) -> JsonView {
    JsonView::Object(
        seq![
            (
                "audit"@,
                JsonView::Object(
                    seq![
                        ("reasons"@, json::strings(seq!["qa.apply_answers"@])),
                        ("timings_ms"@, json::empty_object()),
                    ],
                ),
            ),
            ("config"@, JsonView::Object(config)),
            ("errors"@, JsonView::Array(Seq::empty())),
            ("meta"@, apply_meta(mode)),
            ("ok"@, JsonView::Bool(true)),
            ("warnings"@, JsonView::Array(Seq::empty())),
        ],
    )
}

/// A configuration with the first `n` answers put in.
pub open spec fn with_answers(
    config: Seq<(Seq<char>, JsonView)>,
    answers: Seq<(Seq<char>, JsonView)>,
    n: int,
) -> Seq<(Seq<char>, JsonView)>
    decreases n,
{
    if n <= 0 || n > answers.len() {
        config
    } else {
        entries::put(
            with_answers(config, answers, n - 1),
            answers[n - 1].0,
            answers[n - 1].1,
        )
    }
}

/// The members of an object, or none.
pub open spec fn members_of(value: JsonView) -> Seq<(Seq<char>, JsonView)> {
    match value {
        JsonView::Object(members) => members,
        _ => Seq::empty(),
    }
}

/// The configuration after answers were applied: removal disables it.
pub open spec fn new_config(mode: NormalizedMode, current: JsonView, answers: JsonView) -> Seq<
    (Seq<char>, JsonView),
> {
    let given = members_of(answers);
    let config = with_answers(members_of(current), given, given.len() as int);
    if mode is Remove {
        entries::put(config, "enabled"@, JsonView::Bool(false))
    } else {
        config
    }
}

/// The configuration that a payload carries.
pub open spec fn current_config_in(payload: JsonView) -> JsonView {
    match json::member(payload, "current_config"@) {
        Some(config) => config,
        None => json::empty_object(),
    }
}

/// What is reported where the form is not to be had.
pub open spec fn unavailable_errors(fault: FaultView) -> JsonView {
    JsonView::Array(
        seq![
            JsonView::Object(
                seq![
                    ("key"@, JsonView::String("qa.error.spec_unavailable"@)),
                    ("message"@, JsonView::String(faults::fault_message(fault))),
                ],
            ),
        ],
    )
}

/// What applying the answers of a payload comes to.
pub open spec fn application(
    mode: NormalizedMode,
    payload: JsonView,
    form: Result<FormView, FaultView>,
    evaluated: Evaluated,
) -> JsonView {
    match form {
        Err(fault) => not_applied(mode, unavailable_errors(fault)),
        Ok(form) => {
            let found = validate::outcome_of(form, evaluated);
            if found.valid {
                applied(
                    mode,
                    new_config(
                        mode,
                        current_config_in(payload),
                        context::answers_in(payload),
                    ),
                )
            } else {
                not_applied(mode, responses::errors_json(found.errors))
            }
        },
    }
}

fn meta_value(mode: NormalizedMode) -> (r: Json)
    ensures
        r@ == apply_meta(mode),
{
    let members = vec![
        entry("mode", Json::string(mode.as_str())),
        entry("version", Json::string("v1")),
    ];
    assert(json::entries_view(members@) =~= apply_meta(mode)->Object_0);
    Json::object(members)
}

fn empty_array() -> (r: Json)
    ensures
        r@ == JsonView::Array(Seq::empty()),
{
    let none: Vec<Json> = Vec::new();
    assert(json::items_view(none@) =~= Seq::empty());
    Json::array(none)
}

fn not_applied_value(mode: NormalizedMode, errors: Json) -> (r: Json)
    ensures
        r@ == not_applied(mode, errors@),
{
    let members = vec![
        entry("errors", errors),
        entry("meta", meta_value(mode)),
        entry("ok", Json::Bool(false)),
        entry("warnings", empty_array()),
    ];
    assert(json::entries_view(members@) =~= not_applied(mode, errors@)->Object_0);
    Json::object(members)
}

fn applied_value(mode: NormalizedMode, config: Vec<(String, Json)>) -> (r: Json)
    ensures
        r@ == applied(mode, json::entries_view(config@)),
{
    let ghost wanted = applied(mode, json::entries_view(config@))->Object_0;
    let reasons = vec!["qa.apply_answers".to_owned()];
    assert(text::texts(reasons@) =~= seq!["qa.apply_answers"@]);
    let audit = vec![
        entry("reasons", json::string_array(&reasons)),
        entry("timings_ms", Json::empty()),
    ];
    assert(json::entries_view(audit@) =~= wanted[0].1->Object_0);
    let members = vec![
        entry("audit", Json::object(audit)),
        entry("config", Json::object(config)),
        entry("errors", empty_array()),
        entry("meta", meta_value(mode)),
        entry("ok", Json::Bool(true)),
        entry("warnings", empty_array()),
    ];
    assert(json::entries_view(members@) =~= wanted);
    Json::object(members)
}

fn unavailable_errors_value(fault: &ComponentError) -> (r: Json)
    ensures
        r@ == unavailable_errors(fault@),
{
    let ghost wanted = unavailable_errors(fault@)->Array_0;
    let members = vec![
        entry("key", Json::string("qa.error.spec_unavailable")),
        entry("message", Json::String(fault.message())),
    ];
    assert(json::entries_view(members@) =~= wanted[0]->Object_0);
    let items = vec![Json::object(members)];
    assert(json::items_view(items@) =~= wanted);
    Json::array(items)
}

/// The members of an object, or none.
fn copy_members(value: &Json) -> (r: Vec<(String, Json)>)
    ensures
        json::entries_view(r@) == members_of(value@),
{
    match value.as_object() {
        Some(members) => copy_entries(members),
        None => {
            let none: Vec<(String, Json)> = Vec::new();
            assert(json::entries_view(none@) =~= Seq::empty());
            none
        },
    }
}

/// Applies the answers of a payload to its configuration: `spec` is the form of
/// the payload's configuration, and `evaluated` what its expressions came to on
/// the answers.
pub fn apply_answers(
    mode: NormalizedMode,
    payload: &Json,
    spec: &Result<FormSpec, ComponentError>,
    evaluated: &Evaluated,
) -> (r: Json)
    ensures
        r@ == application(
            mode,
            payload@,
            requests::form_for(context::form_id_in(payload@), assets::spec_view(*spec)),
            *evaluated,
        ),
{
    let form_id = payload_form_id(payload);
    let form = match ensure_form(form_id.as_str(), spec) {
        Ok(form) => form,
        Err(fault) => {
            return not_applied_value(mode, unavailable_errors_value(&fault));
        },
    };
    let validation = validate_evaluated(form, evaluated);
    if !validation.valid {
        return not_applied_value(mode, errors_value(&validation.errors));
    }
    let answers = copy_members(&payload_answers(payload));
    let mut config = match payload.get("current_config") {
        Some(current) => copy_members(current),
        None => copy_members(&Json::empty()),
    };
    let ghost start = json::entries_view(config@);
    let ghost given = json::entries_view(answers@);
    let mut i: usize = 0;
    while i < answers.len()
        invariant
            i <= answers@.len(),
            given == json::entries_view(answers@),
            json::entries_view(config@) == with_answers(start, given, i as int),
        decreases answers.len() - i,
    {
        assert(given[i as int] == (answers@[i as int].0@, answers@[i as int].1@));
        put_member(&mut config, answers[i].0.clone(), answers[i].1.copy());
        i += 1;
    }
    if matches!(mode, NormalizedMode::Remove) {
        put_member(&mut config, "enabled".to_owned(), Json::Bool(false));
    }
    applied_value(mode, config)
}

/// The configuration that a host keeps after an application: the new one, else
/// the current one.
pub open spec fn kept_config(result: JsonView, payload: JsonView) -> JsonView {
    match json::member(result, "config"@) {
        Some(config) => config,
        None => current_config_in(payload),
    }
}

/// The configuration that a host keeps after an application.
pub fn applied_config(result: &Json, payload: &Json) -> (r: Json)
    ensures
        r@ == kept_config(result@, payload@),
{
    match result.get("config") {
        Some(config) => config.copy(),
        None => match payload.get("current_config") {
            Some(config) => config.copy(),
            None => Json::empty(),
        },
    }
}

/// What a run of the component is asked to do.
#[derive(Debug, PartialEq)]
pub enum Operation {
    QaSpec(NormalizedMode),
    ApplyAnswers(NormalizedMode),
    I18nKeys,
    Message(Json),
}

#[verifier::ext_equal]
pub enum OperationView {
    QaSpec(NormalizedMode),
    ApplyAnswers(NormalizedMode),
    I18nKeys,
    Message(JsonView),
}

impl View for Operation {
    type V = OperationView;

    open spec fn view(&self) -> OperationView {
        match *self {
            Operation::QaSpec(mode) => OperationView::QaSpec(mode),
            Operation::ApplyAnswers(mode) => OperationView::ApplyAnswers(mode),
            Operation::I18nKeys => OperationView::I18nKeys,
            Operation::Message(reply) => OperationView::Message(reply@),
        }
    }
}

/// The mode that a payload names: setup where it names none.
pub open spec fn mode_in(payload: JsonView) -> NormalizedMode {
    match json::member_string(payload, "mode"@) {
        Some(raw) => match mode_of(raw) {
            Some(mode) => mode,
            None => NormalizedMode::Setup,
        },
        None => NormalizedMode::Setup,
    }
}

/// The operation that a payload names.
pub open spec fn operation_name(payload: JsonView) -> Seq<char> {
    match json::member_string(payload, "operation"@) {
        Some(name) => name,
        None => "handle_message"@,
    }
}

/// The reply to a message.
pub open spec fn message_reply(payload: JsonView) -> JsonView {
    let input = match json::member_string(payload, "input"@) {
        Some(input) => input,
        None => json_text::shown(payload),
    };
    JsonView::Object(
        seq![
            (
                "message"@,
                JsonView::String(
                    "component-qa::"@ + operation_name(payload) + " => "@ + text::trimmed(input),
                ),
            ),
        ],
    )
}

/// What a run of the component is asked to do.
pub open spec fn operation_of(payload: JsonView) -> OperationView {
    let name = operation_name(payload);
    if name == "qa-spec"@ {
        OperationView::QaSpec(mode_in(payload))
    } else if name == "apply-answers"@ {
        OperationView::ApplyAnswers(mode_in(payload))
    } else if name == "i18n-keys"@ {
        OperationView::I18nKeys
    } else {
        OperationView::Message(message_reply(payload))
    }
}

fn payload_mode(payload: &Json) -> (r: NormalizedMode)
    ensures
        r == mode_in(payload@),
{
    match payload.get_str("mode") {
        Some(raw) => match normalize_mode(raw) {
            Some(mode) => mode,
            None => NormalizedMode::Setup,
        },
        None => NormalizedMode::Setup,
    }
}

/// Tells what a run of the component is asked to do. A message is answered at
/// once.
pub fn run_operation(payload: &Json) -> (r: Operation)
    ensures
        r@ == operation_of(payload@),
{
    let operation = match payload.get_str("operation") {
        Some(name) => name,
        None => "handle_message",
    };
    if same(operation, "qa-spec") {
        return Operation::QaSpec(payload_mode(payload));
    }
    if same(operation, "apply-answers") {
        return Operation::ApplyAnswers(payload_mode(payload));
    }
    if same(operation, "i18n-keys") {
        return Operation::I18nKeys;
    }
    let input = match payload.get_str("input") {
        Some(input) => input.to_owned(),
        None => json_text::render_json(payload),
    };
    let members = vec![
        entry("message", Json::String(requests::handle_message(operation, input.as_str()))),
    ];
    assert(json::entries_view(members@) =~= message_reply(payload@)->Object_0);
    Operation::Message(Json::object(members))
}

/// The labels that stand for a mode beside its own.
pub proof fn law_mode_aliases()
    ensures
        mode_of("default"@) == Some(NormalizedMode::Setup),
        mode_of("install"@) == Some(NormalizedMode::Setup),
        mode_of("upgrade"@) == Some(NormalizedMode::Update),
{
    reveal_strlit("default");
    reveal_strlit("setup");
    reveal_strlit("install");
    reveal_strlit("update");
    reveal_strlit("upgrade");
    assert("upgrade"@[0] == 'u' && "default"@[0] == 'd' && "install"@[0] == 'i');
    assert("upgrade"@.len() == 7 && "setup"@.len() == 5);
}

/// A payload with a label for its mode.
pub open spec fn labelled(members: Seq<(Seq<char>, JsonView)>, label: Seq<char>) -> JsonView {
    JsonView::Object(entries::put(members, "mode"@, JsonView::String(label)))
}

proof fn lemma_one_label(
    members: Seq<(Seq<char>, JsonView)>,
    label: Seq<char>,
    other: Seq<char>,
    key: Seq<char>,
)
    requires
        key.len() != "mode"@.len(),
    ensures
        json::member(labelled(members, label), key) == json::member(labelled(members, other), key),
{
    entries::law_put_keeps_others(members, "mode"@, JsonView::String(label), key);
    entries::law_put_keeps_others(members, "mode"@, JsonView::String(other), key);
}

/// Under two labels for one mode a run is asked to do the same, for the same form
/// with the same answers, and applying these comes to the same. A message is left
/// out, whose reply may show the payload itself.
pub proof fn law_aliases_run_alike(
    members: Seq<(Seq<char>, JsonView)>,
    label: Seq<char>,
    other: Seq<char>,
    spec: Result<FormView, FaultView>,
    evaluated: Evaluated,
)
    requires
        mode_of(label) == mode_of(other),
        !(operation_of(labelled(members, label)) is Message),
    ensures
        ({
            let (a, b) = (labelled(members, label), labelled(members, other));
            &&& operation_of(a) == operation_of(b)
            &&& context::form_id_in(a) == context::form_id_in(b)
            &&& context::config_text_in(a) == context::config_text_in(b)
            &&& context::ctx_text_in(a) == context::ctx_text_in(b)
            &&& context::answers_in(a) == context::answers_in(b)
            &&& application(
                mode_in(a),
                a,
                requests::form_for(context::form_id_in(a), spec),
                evaluated,
            ) == application(
                mode_in(b),
                b,
                requests::form_for(context::form_id_in(b), spec),
                evaluated,
            )
        }),
{
    reveal_strlit("mode");
    reveal_strlit("operation");
    reveal_strlit("form_id");
    reveal_strlit("config_json");
    reveal_strlit("config");
    reveal_strlit("qa_form_asset_path");
    reveal_strlit("include_registry");
    reveal_strlit("answers");
    reveal_strlit("ctx_json");
    reveal_strlit("ctx");
    reveal_strlit("current_config");
    assert("mode"@.len() == 4);
    lemma_one_label(members, label, other, "operation"@);
    lemma_one_label(members, label, other, "form_id"@);
    lemma_one_label(members, label, other, "config_json"@);
    lemma_one_label(members, label, other, "config"@);
    lemma_one_label(members, label, other, "qa_form_asset_path"@);
    lemma_one_label(members, label, other, "include_registry"@);
    lemma_one_label(members, label, other, "answers"@);
    lemma_one_label(members, label, other, "ctx_json"@);
    lemma_one_label(members, label, other, "ctx"@);
    lemma_one_label(members, label, other, "current_config"@);
    entries::law_put_then_lookup(members, "mode"@, JsonView::String(label));
    entries::law_put_then_lookup(members, "mode"@, JsonView::String(other));
}

/// Where a form is not to be had, no questions are asked and the description
/// says why.
pub proof fn law_unavailable_form_asks_nothing(
    mode: NormalizedMode,
    fault: FaultView,
    loaded: Result<(JsonView, Seq<char>), FaultView>,
    visibility: Seq<(Seq<char>, bool)>,
    maps: Seq<Option<Seq<(Seq<char>, Seq<char>)>>>,
)
    ensures
        ({
            let reply = qa_reply(mode, qa_spec_of(mode, Err(fault), loaded, visibility, maps));
            &&& json::member_array(reply, "questions"@) == Some(Seq::<JsonView>::empty())
            &&& json::member(reply, "description"@) is Some
            &&& json::member_string(json::member(reply, "description"@)->0, "default"@) == Some(
                faults::fault_message(fault),
            )
        }),
{
    let reply = unavailable_json(mode, fault);
    let members = reply->Object_0;
    let keys = entries::view_keys(members);
    lemma_reply_keys_differ();
    assert(keys =~= seq!["defaults"@, "description"@, "mode"@, "questions"@, "title"@]);
    entries::lemma_position_is(keys, "questions"@, 3);
    entries::lemma_position_is(keys, "description"@, 1);
    let inner = members[1].1->Object_0;
    let inner_keys = entries::view_keys(inner);
    assert(inner_keys =~= seq!["default"@, "key"@]);
    entries::lemma_position_is(inner_keys, "default"@, 0);
}

proof fn lemma_reply_keys_differ()
    ensures
        "defaults"@ != "description"@,
        "defaults"@ != "questions"@,
        "description"@ != "questions"@,
        "mode"@ != "questions"@,
{
    reveal_strlit("defaults");
    reveal_strlit("description");
    reveal_strlit("mode");
    reveal_strlit("questions");
    assert("defaults"@.len() == 8 && "description"@.len() == 11);
    assert("mode"@.len() == 4 && "questions"@.len() == 9);
}

/// What was answered stands in the new configuration, and what was not keeps its
/// value, but for the mark that removal sets.
pub proof fn law_new_config(
    mode: NormalizedMode,
    current: JsonView,
    answers: JsonView,
    key: Seq<char>,
)
    requires
        json::well_formed(answers),
        mode is Remove ==> key != "enabled"@,
    ensures
        entries::lookup(new_config(mode, current, answers), key) == match json::member(
            answers,
            key,
        ) {
            Some(value) => Some(value),
            None => json::member(current, key),
        },
{
    let given = members_of(answers);
    let base = members_of(current);
    lemma_with_answers(base, given, given.len() as int, key);
    let config = with_answers(base, given, given.len() as int);
    if mode is Remove {
        entries::law_put_keeps_others(config, "enabled"@, JsonView::Bool(false), key);
    }
    assert(given.take(given.len() as int) =~= given);
    if !(current is Object) {
        entries::lemma_position(entries::view_keys(base), key);
    }
    if !(answers is Object) {
        entries::lemma_position(entries::view_keys(given), key);
    }
}

proof fn lemma_with_answers(
    base: Seq<(Seq<char>, JsonView)>,
    given: Seq<(Seq<char>, JsonView)>,
    n: int,
    key: Seq<char>,
)
    requires
        entries::increasing(entries::view_keys(given)),
        0 <= n <= given.len(),
    ensures
        entries::lookup(with_answers(base, given, n), key) == match entries::lookup(
            given.take(n),
            key,
        ) {
            Some(value) => Some(value),
            None => entries::lookup(base, key),
        },
    decreases n,
{
    if n == 0 {
        entries::lemma_position(entries::view_keys(given.take(0)), key);
    } else {
        lemma_with_answers(base, given, n - 1, key);
        let before = with_answers(base, given, n - 1);
        let last = given[n - 1];
        let all = entries::view_keys(given);
        let keys = entries::view_keys(given.take(n));
        let front = entries::view_keys(given.take(n - 1));
        entries::lemma_position(front, key);
        if key == last.0 {
            entries::law_put_then_lookup(before, last.0, last.1);
            assert forall|j: int| 0 <= j < n - 1 implies keys[j] != key by {
                assert(keys[j] == all[j]);
                assert(text::precedes(all[j], all[n - 1]));
                text::lemma_precedes_irreflexive(key);
            }
            assert(keys[n - 1] == key);
            entries::lemma_position_is(keys, key, n - 1);
        } else {
            entries::law_put_keeps_others(before, last.0, last.1, key);
            match entries::position(front, key) {
                Some(k) => {
                    assert(keys[k] == front[k]);
                    assert forall|j: int| 0 <= j < k implies keys[j] != key by {
                        assert(keys[j] == front[j]);
                    }
                    entries::lemma_position_is(keys, key, k);
                },
                None => {
                    assert forall|j: int| 0 <= j < n implies keys[j] != key by {
                        if j < n - 1 {
                            assert(keys[j] == front[j]);
                            assert(front.contains(front[j]));
                        }
                    }
                    entries::lemma_position(keys, key);
                },
            }
        }
    }
}

/// Removal disables the configuration, whatever was answered.
pub proof fn law_removal_disables(current: JsonView, answers: JsonView)
    ensures
        entries::lookup(new_config(NormalizedMode::Remove, current, answers), "enabled"@) == Some(
            JsonView::Bool(false),
        ),
{
    let given = members_of(answers);
    entries::law_put_then_lookup(
        with_answers(members_of(current), given, given.len() as int),
        "enabled"@,
        JsonView::Bool(false),
    );
}

/// Without a configuration there is no form, and what is reported is how to get
/// one.
pub proof fn law_blank_config_has_no_form(
    config_json: Seq<char>,
    config: Result<assets::ComponentConfig, String>,
    asset: Result<(Seq<char>, Seq<char>), FaultView>,
)
    requires
        text::is_blank(config_json),
    ensures
        assets::loading(config_json, config, asset) == Err::<(JsonView, Seq<char>), FaultView>(
            FaultView::MissingQaFormAssetPath,
        ),
{
}

/// A question is asked as a truth value if and only if truth values answer it, as a
/// number if and only if whole numbers answer it, as a choice if and only if it is an
/// enum question, and as a text where it is none of these.
pub proof fn law_asked_as_it_is_answered(
    question: QuestionView,
    maps: Seq<Option<Seq<(Seq<char>, Seq<char>)>>>,
    truth: bool,
)
    ensures
        ({
            let kind = question_for(question, maps).kind;
            let zero = JsonView::Number(json::Number::PosInt(0));
            &&& kind is Bool <==> validate::type_matches(question.kind, JsonView::Bool(truth))
            &&& kind is Number <==> validate::type_matches(question.kind, zero)
            &&& kind is Choice <==> question.kind == QuestionType::Enum
            &&& kind is Text <==> question.kind == QuestionType::String || question.kind
                == QuestionType::List
        }),
{
}

/// A question with choices is asked with each of them, in their order, under a
/// translation key of its own and with the choice itself in place of a translation.
pub proof fn law_asked_choices(
    question: QuestionView,
    maps: Seq<Option<Seq<(Seq<char>, Seq<char>)>>>,
)
    requires
        question.kind == QuestionType::Enum,
    ensures
        ({
            let options = question_for(question, maps).kind->Choice_0;
            match question.choices {
                Some(choices) => options.len() == choices.len() && forall|i: int|
                    0 <= i < choices.len() ==> {
                        &&& (#[trigger] options[i]).value == choices[i]
                        &&& options[i].label.key == "qa.field."@ + question.id + ".option."@
                            + choices[i]
                        &&& options[i].label.fallback == Some(choices[i])
                    },
                None => options.len() == 0,
            }
        }),
{
}

/// A question is asked under its own id, and it is required where it was. Its label
/// and its help are its title and its description under the keys it names, or under
/// keys made of its id.
pub proof fn law_asked_question(
    question: QuestionView,
    maps: Seq<Option<Seq<(Seq<char>, Seq<char>)>>>,
)
    ensures
        ({
            let asked = question_for(question, maps);
            &&& asked.id == question.id
            &&& asked.required == question.required
            &&& match question.title_i18n {
                Some(key) => asked.label.key == key && asked.label.fallback == assets::pack_text(
                    maps,
                    key,
                    Some(question.title),
                ),
                None => asked.label.key == "qa.field."@ + question.id + ".label"@
                    && asked.label.fallback == Some(question.title),
            }
            &&& asked.help is Some <==> question.description_i18n is Some || question.description
                is Some
            &&& question.description_i18n matches Some(key) ==> asked.help->0.key == key
                && asked.help->0.fallback == assets::pack_text(maps, key, question.description)
            &&& question.description_i18n is None && question.description is Some
                ==> asked.help->0.key == "qa.field."@ + question.id + ".help"@
                && asked.help->0.fallback == question.description
        }),
{
}

/// What is asked are the questions that are shown, in their order. One that is not
/// said to be shown is not asked.
pub proof fn law_asked_questions(
    first: Seq<QuestionView>,
    behind: Seq<QuestionView>,
    visibility: Seq<(Seq<char>, bool)>,
    maps: Seq<Option<Seq<(Seq<char>, Seq<char>)>>>,
)
    ensures
        questions_for(first + behind, visibility, maps) == questions_for(first, visibility, maps)
            + questions_for(behind, visibility, maps),
        first.len() == 1 && entries::lookup(visibility, first[0].id) == Some(true)
            ==> questions_for(first, visibility, maps) == seq![question_for(first[0], maps)],
        first.len() == 1 && entries::lookup(visibility, first[0].id) != Some(true)
            ==> questions_for(first, visibility, maps).len() == 0,
    decreases behind.len(),
{
    reveal_with_fuel(questions_for, 2);
    if first.len() == 1 {
        assert(first.drop_last() =~= Seq::empty());
        assert(first.last() == first[0]);
        if entries::lookup(visibility, first[0].id) == Some(true) {
            assert(questions_for(first, visibility, maps) =~= seq![question_for(first[0], maps)]);
        }
    }
    if behind.len() == 0 {
        assert(first + behind =~= first);
        assert(questions_for(first, visibility, maps) + questions_for(behind, visibility, maps)
            =~= questions_for(first, visibility, maps));
    } else {
        assert((first + behind).drop_last() =~= first + behind.drop_last());
        law_asked_questions(first, behind.drop_last(), visibility, maps);
        assert(questions_for(first + behind, visibility, maps) =~= questions_for(
            first,
            visibility,
            maps,
        ) + questions_for(behind, visibility, maps));
    }
}

/// Every question that is asked is one of the form's that is shown, and every one of
/// those is asked.
pub proof fn law_asked_if_shown(
    questions: Seq<QuestionView>,
    visibility: Seq<(Seq<char>, bool)>,
    maps: Seq<Option<Seq<(Seq<char>, Seq<char>)>>>,
    asked: QaQuestionView,
)
    ensures
        questions_for(questions, visibility, maps).contains(asked) <==> exists|i: int|
            0 <= i < questions.len() && entries::lookup(
                visibility,
                (#[trigger] questions[i]).id,
            ) == Some(true) && question_for(questions[i], maps) == asked,
    decreases questions.len(),
{
    let all = questions_for(questions, visibility, maps);
    if questions.len() > 0 {
        let front = questions.drop_last();
        let before = questions_for(front, visibility, maps);
        law_asked_if_shown(front, visibility, maps, asked);
        assert(questions[questions.len() - 1] == questions.last());
        if before.contains(asked) {
            let i = choose|i: int|
                0 <= i < front.len() && entries::lookup(
                    visibility,
                    (#[trigger] front[i]).id,
                ) == Some(true) && question_for(front[i], maps) == asked;
            assert(questions[i] == front[i]);
            let k = choose|k: int| 0 <= k < before.len() && before[k] == asked;
            assert(all[k] == asked);
        }
        if all.contains(asked) && !before.contains(asked) {
            let k = choose|k: int| 0 <= k < all.len() && all[k] == asked;
            assert(k == before.len());
        }
        assert forall|i: int|
            0 <= i < questions.len() && entries::lookup(
                visibility,
                (#[trigger] questions[i]).id,
            ) == Some(true) && question_for(questions[i], maps) == asked implies all.contains(
            asked,
        ) by {
            if i < front.len() {
                assert(front[i] == questions[i]);
            } else {
                assert(all.last() == asked);
            }
        }
    }
}

/// The questions of a mode come under the mode's own title and description, with the
/// form's in place of a translation.
pub proof fn law_asked_under_a_mode(
    mode: NormalizedMode,
    form: FormView,
    visibility: Seq<(Seq<char>, bool)>,
    maps: Seq<Option<Seq<(Seq<char>, Seq<char>)>>>,
)
    ensures
        ({
            let asked = spec_for(mode, form, visibility, maps);
            let described = asked.description;
            &&& asked.mode == mode
            &&& asked.title.fallback == Some(form.title)
            &&& described is Some <==> form.description is Some
            &&& described is Some ==> described->0.fallback == form.description
            &&& asked.questions == questions_for(form.questions, visibility, maps)
            &&& mode is Setup ==> asked.title.key == "qa.install.title"@ && (described is Some
                ==> described->0.key == "qa.install.description"@)
            &&& mode is Update ==> asked.title.key == "qa.update.title"@ && (described is Some
                ==> described->0.key == "qa.update.description"@)
            &&& mode is Remove ==> asked.title.key == "qa.remove.title"@ && (described is Some
                ==> described->0.key == "qa.remove.description"@)
        }),
{
}

/// What is asked is told where there is a form that could be loaded. Else the fault
/// is told: the form's own before that of its file.
pub proof fn law_asked_of_a_loaded_form(
    mode: NormalizedMode,
    form: Result<FormView, FaultView>,
    loaded: Result<(JsonView, Seq<char>), FaultView>,
    visibility: Seq<(Seq<char>, bool)>,
    maps: Seq<Option<Seq<(Seq<char>, Seq<char>)>>>,
)
    ensures
        ({
            let asked = qa_spec_of(mode, form, loaded, visibility, maps);
            &&& form is Ok && loaded is Ok ==> asked == Ok::<QaSpecView, FaultView>(
                spec_for(mode, form->Ok_0, visibility, maps),
            )
            &&& form is Err ==> asked == Err::<QaSpecView, FaultView>(form->Err_0)
            &&& form is Ok && loaded is Err ==> asked == Err::<QaSpecView, FaultView>(
                loaded->Err_0,
            )
        }),
{
}

proof fn lemma_short_keys_differ()
    ensures
        "defaults"@ != "description"@ && "defaults"@ != "mode"@ && "defaults"@ != "questions"@,
        "defaults"@ != "title"@ && "description"@ != "mode"@ && "description"@ != "questions"@,
        "description"@ != "title"@ && "mode"@ != "questions"@ && "mode"@ != "title"@,
        "questions"@ != "title"@ && "help"@ != "id"@ && "help"@ != "kind"@ && "help"@ != "label"@,
        "help"@ != "required"@ && "id"@ != "kind"@ && "id"@ != "label"@ && "id"@ != "required"@,
        "kind"@ != "label"@ && "kind"@ != "required"@ && "label"@ != "required"@,
        "fallback"@ != "key"@ && "label"@ != "value"@ && "options"@ != "type"@,
{
    reveal_strlit("defaults");
    reveal_strlit("description");
    reveal_strlit("mode");
    reveal_strlit("questions");
    reveal_strlit("title");
    reveal_strlit("help");
    reveal_strlit("id");
    reveal_strlit("kind");
    reveal_strlit("label");
    reveal_strlit("required");
    reveal_strlit("fallback");
    reveal_strlit("key");
    reveal_strlit("value");
    reveal_strlit("options");
    reveal_strlit("type");
    assert("defaults"@.len() == 8 && "description"@.len() == 11 && "mode"@.len() == 4);
    assert("questions"@.len() == 9 && "title"@.len() == 5 && "help"@.len() == 4);
    assert("id"@.len() == 2 && "kind"@.len() == 4 && "label"@.len() == 5);
    assert("required"@.len() == 8 && "fallback"@.len() == 8 && "key"@.len() == 3);
    assert("options"@.len() == 7 && "type"@.len() == 4);
    assert("help"@[0] == 'h' && "kind"@[0] == 'k' && "label"@[0] == 'l' && "value"@[0] == 'v');
}

/// A translation key is told with what stands in place of a translation.
pub proof fn law_text_is_told(text: QaTextView)
    ensures
        json::member(text_json(text), "key"@) == Some(JsonView::String(text.key)),
        json::member(text_json(text), "fallback"@) == Some(
            match text.fallback {
                Some(fallback) => JsonView::String(fallback),
                None => JsonView::Null,
            },
        ),
{
    lemma_short_keys_differ();
    let members = text_json(text)->Object_0;
    entries::law_lookup_finds_the_first(members, 0);
    entries::law_lookup_finds_the_first(members, 1);
}

/// A question is told with its id, its label, whether it is required, how it is
/// asked, and its help where it has any.
pub proof fn law_question_is_told(question: QaQuestionView)
    ensures
        ({
            let told = question_json(question);
            &&& json::member(told, "id"@) == Some(JsonView::String(question.id))
            &&& json::member(told, "kind"@) == Some(kind_json(question.kind))
            &&& json::member(told, "label"@) == Some(text_json(question.label))
            &&& json::member(told, "required"@) == Some(JsonView::Bool(question.required))
            &&& json::member(told, "help"@) == match question.help {
                Some(help) => Some(text_json(help)),
                None => None,
            }
        }),
{
    lemma_short_keys_differ();
    let members = question_json(question)->Object_0;
    let first: int = if question.help is Some {
        1
    } else {
        0
    };
    assert(members.len() == first + 4);
    assert(members[first].0 == "id"@ && members[first + 1].0 == "kind"@);
    assert(members[first + 2].0 == "label"@ && members[first + 3].0 == "required"@);
    entries::law_lookup_finds_the_first(members, first);
    entries::law_lookup_finds_the_first(members, first + 1);
    entries::law_lookup_finds_the_first(members, first + 2);
    entries::law_lookup_finds_the_first(members, first + 3);
    if question.help is Some {
        entries::law_lookup_finds_the_first(members, 0);
    } else {
        entries::law_lookup_finds_nothing_else(members, "help"@);
    }
}

/// How a question is asked is told by a name, and with the options of a choice.
pub proof fn law_kind_is_told(kind: QaKindView)
    ensures
        json::member(kind_json(kind), "type"@) == Some(
            JsonView::String(
                match kind {
                    QaKindView::Text => "text"@,
                    QaKindView::Number => "number"@,
                    QaKindView::Bool => "bool"@,
                    QaKindView::Choice(_) => "choice"@,
                },
            ),
        ),
        kind matches QaKindView::Choice(options) ==> {
            let told = json::member_items(kind_json(kind), "options"@);
            &&& told.len() == options.len()
            &&& forall|i: int|
                0 <= i < options.len() ==> {
                    &&& json::member(#[trigger] told[i], "value"@) == Some(
                        JsonView::String(options[i].value),
                    )
                    &&& json::member(told[i], "label"@) == Some(text_json(options[i].label))
                }
        },
{
    lemma_short_keys_differ();
    let members = kind_json(kind)->Object_0;
    entries::law_lookup_finds_the_first(members, 0);
    if kind is Choice {
        entries::law_lookup_finds_the_first(members, 1);
        let options = kind->Choice_0;
        let told = json::member_items(kind_json(kind), "options"@);
        assert forall|i: int| 0 <= i < options.len() implies {
            &&& json::member(#[trigger] told[i], "value"@) == Some(
                JsonView::String(options[i].value),
            )
            &&& json::member(told[i], "label"@) == Some(text_json(options[i].label))
        } by {
            let inner = choice_json(options[i])->Object_0;
            assert(told[i] == choice_json(options[i]));
            entries::law_lookup_finds_the_first(inner, 0);
            entries::law_lookup_finds_the_first(inner, 1);
        }
    }
}

/// The reply holds each question that is asked, in their order, the mode, the title
/// and the description.
pub proof fn law_reply_holds_the_questions(mode: NormalizedMode, asked: QaSpecView)
    ensures
        ({
            let reply = qa_reply(mode, Ok(asked));
            let told = json::member_items(reply, "questions"@);
            &&& told.len() == asked.questions.len()
            &&& forall|i: int|
                0 <= i < told.len() ==> #[trigger] told[i] == question_json(asked.questions[i])
            &&& json::member(reply, "title"@) == Some(text_json(asked.title))
            &&& json::member(reply, "description"@) == Some(
                match asked.description {
                    Some(description) => text_json(description),
                    None => JsonView::Null,
                },
            )
            &&& json::member(reply, "mode"@) == Some(
                JsonView::String(
                    match asked.mode {
                        NormalizedMode::Setup => "setup"@,
                        NormalizedMode::Update => "update"@,
                        NormalizedMode::Remove => "remove"@,
                    },
                ),
            )
            &&& json::member(reply, "defaults"@) == Some(JsonView::Object(Seq::empty()))
        }),
{
    lemma_short_keys_differ();
    let members = qa_reply(mode, Ok(asked))->Object_0;
    entries::law_lookup_finds_the_first(members, 0);
    entries::law_lookup_finds_the_first(members, 1);
    entries::law_lookup_finds_the_first(members, 2);
    entries::law_lookup_finds_the_first(members, 3);
    entries::law_lookup_finds_the_first(members, 4);
}

/// A mode goes by these labels and by no others.
pub proof fn law_modes_by_label(label: Seq<char>)
    ensures
        mode_of(label) == Some(NormalizedMode::Setup) <==> label == "default"@ || label == "setup"@
            || label == "install"@,
        mode_of(label) == Some(NormalizedMode::Update) <==> label == "update"@ || label
            == "upgrade"@,
        mode_of(label) == Some(NormalizedMode::Remove) <==> label == "remove"@,
{
    reveal_strlit("default");
    reveal_strlit("setup");
    reveal_strlit("install");
    reveal_strlit("update");
    reveal_strlit("upgrade");
    reveal_strlit("remove");
    assert("default"@[0] == 'd' && "setup"@[0] == 's' && "install"@[0] == 'i');
    assert("update"@[0] == 'u' && "upgrade"@[0] == 'u' && "remove"@[0] == 'r');
}

/// A payload asks for the operation that it names, in the mode that it names, and for
/// a setup where it names no mode. A message is answered where it names no operation
/// that there is.
pub proof fn law_operations(payload: JsonView)
    ensures
        ({
            let name = json::member(payload, "operation"@);
            let mode = match json::member(payload, "mode"@) {
                Some(JsonView::String(label)) => match mode_of(label) {
                    Some(mode) => mode,
                    None => NormalizedMode::Setup,
                },
                _ => NormalizedMode::Setup,
            };
            &&& name == Some(JsonView::String("qa-spec"@)) ==> operation_of(payload)
                == OperationView::QaSpec(mode)
            &&& name == Some(JsonView::String("apply-answers"@)) ==> operation_of(payload)
                == OperationView::ApplyAnswers(mode)
            &&& name == Some(JsonView::String("i18n-keys"@)) ==> operation_of(payload)
                == OperationView::I18nKeys
            &&& name != Some(JsonView::String("qa-spec"@)) && name != Some(
                JsonView::String("apply-answers"@),
            ) && name != Some(JsonView::String("i18n-keys"@)) ==> operation_of(payload) is Message
        }),
{
    reveal_strlit("qa-spec");
    reveal_strlit("apply-answers");
    reveal_strlit("i18n-keys");
    reveal_strlit("handle_message");
    assert("qa-spec"@.len() == 7 && "apply-answers"@.len() == 13);
    assert("i18n-keys"@.len() == 9 && "handle_message"@.len() == 14);
}

/// A message is answered with the operation's name and the input, without the white
/// space around it. Where there is no input, the whole payload is it.
pub proof fn law_message_is_answered(payload: JsonView)
    ensures
        ({
            let name = match json::member(payload, "operation"@) {
                Some(JsonView::String(name)) => name,
                _ => "handle_message"@,
            };
            let input = match json::member(payload, "input"@) {
                Some(JsonView::String(input)) => input,
                _ => json_text::shown(payload),
            };
            json::member(message_reply(payload), "message"@) == Some(
                JsonView::String("component-qa::"@ + name + " => "@ + text::trimmed(input)),
            )
        }),
{
    entries::law_lookup_finds_the_first(message_reply(payload)->Object_0, 0);
}

proof fn lemma_application_keys_differ()
    ensures
        "audit"@ != "config"@ && "audit"@ != "errors"@ && "audit"@ != "meta"@ && "audit"@ != "ok"@,
        "audit"@ != "warnings"@ && "config"@ != "errors"@ && "config"@ != "meta"@,
        "config"@ != "ok"@ && "config"@ != "warnings"@ && "errors"@ != "meta"@,
        "errors"@ != "ok"@ && "errors"@ != "warnings"@ && "meta"@ != "ok"@,
        "meta"@ != "warnings"@ && "ok"@ != "warnings"@ && "key"@ != "message"@,
        "mode"@ != "version"@,
{
    reveal_strlit("audit");
    reveal_strlit("config");
    reveal_strlit("errors");
    reveal_strlit("meta");
    reveal_strlit("ok");
    reveal_strlit("warnings");
    reveal_strlit("key");
    reveal_strlit("message");
    reveal_strlit("mode");
    reveal_strlit("version");
    assert("audit"@.len() == 5 && "config"@.len() == 6 && "errors"@.len() == 6);
    assert("meta"@.len() == 4 && "ok"@.len() == 2 && "warnings"@.len() == 8);
    assert("config"@[0] == 'c' && "errors"@[0] == 'e');
    assert("key"@.len() == 3 && "message"@.len() == 7);
    assert("mode"@.len() == 4 && "version"@.len() == 7);
}

/// Answers are applied if and only if there is a form and they are valid for it. The
/// configuration is then the current one with the answers put in; else there is none,
/// and the reply holds what was found.
pub proof fn law_application(
    mode: NormalizedMode,
    payload: JsonView,
    form: Result<FormView, FaultView>,
    evaluated: Evaluated,
)
    ensures
        ({
            let reply = application(mode, payload, form, evaluated);
            let applies = form is Ok && validate::outcome_of(form->Ok_0, evaluated).valid;
            let current = match json::member(payload, "current_config"@) {
                Some(config) => config,
                None => JsonView::Object(Seq::empty()),
            };
            &&& json::member(reply, "ok"@) == Some(JsonView::Bool(applies))
            &&& applies ==> json::member(reply, "config"@) == Some(
                JsonView::Object(new_config(mode, current, context::answers_in(payload))),
            )
            &&& !applies ==> json::member(reply, "config"@) is None
            &&& applies ==> json::member(reply, "errors"@) == Some(JsonView::Array(Seq::empty()))
            &&& form is Ok && !applies ==> json::member(reply, "errors"@) == Some(
                responses::errors_json(validate::outcome_of(form->Ok_0, evaluated).errors),
            )
            &&& form matches Err(fault) ==> json::member_items(reply, "errors"@).len() == 1
                && json::member(json::member_items(reply, "errors"@)[0], "key"@) == Some(
                JsonView::String("qa.error.spec_unavailable"@),
            ) && json::member(json::member_items(reply, "errors"@)[0], "message"@) == Some(
                JsonView::String(faults::fault_message(fault)),
            )
            &&& json::member(reply, "warnings"@) == Some(JsonView::Array(Seq::empty()))
            &&& json::member(reply, "meta"@) is Some
            &&& json::member(json::member(reply, "meta"@)->0, "mode"@) == Some(
                JsonView::String(mode_label(mode)),
            )
            &&& json::member(json::member(reply, "meta"@)->0, "version"@) == Some(
                JsonView::String("v1"@),
            )
        }),
{
    lemma_application_keys_differ();
    let reply = application(mode, payload, form, evaluated);
    let members = reply->Object_0;
    let meta = apply_meta(mode)->Object_0;
    entries::law_lookup_finds_the_first(meta, 0);
    entries::law_lookup_finds_the_first(meta, 1);
    entries::law_lookup_finds_the_first(members, 0);
    entries::law_lookup_finds_the_first(members, 1);
    entries::law_lookup_finds_the_first(members, 2);
    entries::law_lookup_finds_the_first(members, 3);
    if form is Ok && validate::outcome_of(form->Ok_0, evaluated).valid {
        entries::law_lookup_finds_the_first(members, 4);
        entries::law_lookup_finds_the_first(members, 5);
    } else {
        entries::law_lookup_finds_nothing_else(members, "config"@);
        if form is Err {
            let inner = json::member_items(reply, "errors"@)[0]->Object_0;
            entries::law_lookup_finds_the_first(inner, 0);
            entries::law_lookup_finds_the_first(inner, 1);
        }
    }
}

/// What is kept of the configuration after an application is the new one where the
/// answers were applied, and the current one where they were not.
pub proof fn law_refused_answers_change_nothing(
    mode: NormalizedMode,
    payload: JsonView,
    form: Result<FormView, FaultView>,
    evaluated: Evaluated,
)
    ensures
        ({
            let kept = kept_config(application(mode, payload, form, evaluated), payload);
            let current = match json::member(payload, "current_config"@) {
                Some(config) => config,
                None => JsonView::Object(Seq::empty()),
            };
            if form is Ok && validate::outcome_of(form->Ok_0, evaluated).valid {
                kept == JsonView::Object(new_config(mode, current, context::answers_in(payload)))
            } else {
                kept == current
            }
        }),
{
    law_application(mode, payload, form, evaluated);
}

/// A host that asks in its default mode is told that mode; otherwise what is told
/// stays as it is.
pub proof fn law_under_host_mode(
    mode: HostMode,
    members: Seq<(Seq<char>, JsonView)>,
    key: Seq<char>,
)
    ensures
        ({
            let told = under_host_mode(mode, JsonView::Object(members));
            &&& !(mode is Default) ==> told == JsonView::Object(members)
            &&& mode is Default ==> json::member(told, "mode"@) == Some(
                JsonView::String("default"@),
            )
            &&& key != "mode"@ ==> json::member(told, key) == entries::lookup(members, key)
        }),
{
    entries::law_put_then_lookup(members, "mode"@, JsonView::String("default"@));
    if key != "mode"@ {
        entries::law_put_keeps_others(members, "mode"@, JsonView::String("default"@), key);
    }
}

/// The keys of a form's texts are told in order and each once.
pub proof fn law_key_set(keys: Seq<Seq<char>>, n: int, key: Seq<char>)
    requires
        0 <= n <= keys.len(),
    ensures
        entries::increasing(key_set(keys, n)),
        key_set(keys, n).contains(key) <==> exists|i: int| 0 <= i < n && #[trigger] keys[i] == key,
    decreases n,
{
    if n > 0 {
        law_key_set(keys, n - 1, key);
        entries::lemma_with_member(key_set(keys, n - 1), keys[n - 1]);
        if keys[n - 1] == key {
            assert(0 <= n - 1 < n && keys[n - 1] == key);
        }
    }
}

/// A form that is not available is told with the reason, in the mode that was asked
/// for, and with no question.
pub proof fn law_unavailable_reply(mode: NormalizedMode, fault: FaultView)
    ensures
        ({
            let reply = qa_reply(mode, Err(fault));
            let title = json::member(reply, "title"@);
            let described = json::member(reply, "description"@);
            &&& json::member(reply, "mode"@) == Some(JsonView::String(mode_label(mode)))
            &&& json::member(reply, "questions"@) == Some(JsonView::Array(Seq::empty()))
            &&& json::member(reply, "defaults"@) == Some(JsonView::Object(Seq::empty()))
            &&& title is Some && json::member(title->0, "key"@) == Some(
                JsonView::String("qa.error.spec_unavailable"@),
            )
            &&& described is Some && json::member(described->0, "default"@) == Some(
                JsonView::String(faults::fault_message(fault)),
            ) && json::member(described->0, "key"@) == Some(
                JsonView::String("qa.error.spec_unavailable.description"@),
            )
        }),
{
    lemma_short_keys_differ();
    reveal_strlit("default");
    reveal_strlit("key");
    assert("default"@.len() == 7 && "key"@.len() == 3);
    let members = qa_reply(mode, Err(fault))->Object_0;
    entries::law_lookup_finds_the_first(members, 0);
    entries::law_lookup_finds_the_first(members, 1);
    entries::law_lookup_finds_the_first(members, 2);
    entries::law_lookup_finds_the_first(members, 3);
    entries::law_lookup_finds_the_first(members, 4);
    entries::law_lookup_finds_the_first(members[1].1->Object_0, 0);
    entries::law_lookup_finds_the_first(members[1].1->Object_0, 1);
    entries::law_lookup_finds_the_first(members[4].1->Object_0, 1);
}

} // verus!
