//! A run of the wizard, as the replies of the component move it on.
use crate::answers::{self, AnswerSet};
use crate::cbor;
use crate::entries::{self, find, put_text};
use crate::json::{self, entry, Json, JsonView};
use crate::json_text::{self, parse_json, render_json, render_pretty};
use crate::localize;
use crate::paths::{self, join_path, PathRules};
use crate::requests;
use crate::responses::{self, text_map_value};
use crate::text::{self, cat, cat3, encode_hex, same};
use vstd::prelude::*;

verus! {

/// What a form is rendered as for the one who fills it in.
#[derive(Debug, Clone, Copy, PartialEq, Eq, Structural)]
pub enum WizardFrontend {
    Text,
    JsonUi,
    Card,
}

/// The locale of a run, and its translated texts.
#[derive(Debug, PartialEq)]
pub struct I18nConfig {
    pub locale: Option<String>,
    pub resolved: Option<Vec<(String, String)>>,
    pub debug: bool,
}

impl Default for I18nConfig {
    fn default() -> (r: I18nConfig)
        ensures
            r.locale is None,
            r.resolved is None,
            !r.debug,
    {
        I18nConfig { locale: None, resolved: None, debug: false }
    }
}

/// What a run is started with.
#[derive(Debug, PartialEq)]
pub struct WizardRunConfig {
    pub spec_json: String,
    pub initial_answers_json: Option<String>,
    pub frontend: WizardFrontend,
    pub i18n: I18nConfig,
    pub verbose: bool,
}

/// What a run came to.
#[derive(Debug, PartialEq)]
pub struct WizardRunResult {
    pub answer_set: AnswerSet,
    pub answer_set_cbor_hex: String,
}

/// What a submission came to.
#[derive(Debug, PartialEq)]
pub struct ValidationOrProgress {
    pub status: String,
    pub response_json: String,
}

/// Why a run cannot go on.
#[derive(Debug, PartialEq)]
pub enum QaLibError {
    Json(String),
    NeedsInteraction,
    Component(String),
    InvalidPatch(String),
    MissingField(String),
    Validation(String),
}

#[verifier::ext_equal]
pub enum LibFault {
    Json(Seq<char>),
    NeedsInteraction,
    Component(Seq<char>),
    InvalidPatch(Seq<char>),
    MissingField(Seq<char>),
    Validation(Seq<char>),
}

impl View for QaLibError {
    type V = LibFault;

    open spec fn view(&self) -> LibFault {
        match *self {
            QaLibError::Json(details) => LibFault::Json(details@),
            QaLibError::NeedsInteraction => LibFault::NeedsInteraction,
            QaLibError::Component(details) => LibFault::Component(details@),
            QaLibError::InvalidPatch(details) => LibFault::InvalidPatch(details@),
            QaLibError::MissingField(field) => LibFault::MissingField(field@),
            QaLibError::Validation(details) => LibFault::Validation(details@),
        }
    }
}

/// What a fault is reported as.
pub open spec fn lib_fault_message(fault: LibFault) -> Seq<char> {
    match fault {
        LibFault::Json(details) => "json parse error: "@ + details,
        LibFault::NeedsInteraction => "wizard needs interaction"@,
        LibFault::Component(details) => "component error: "@ + details,
        LibFault::InvalidPatch(details) => "invalid patch: "@ + details,
        LibFault::MissingField(field) => "wizard payload missing field '"@ + field + "'"@,
        LibFault::Validation(details) => "validation failed: "@ + details,
    }
}

impl QaLibError {
    /// What the fault is reported as.
    pub fn message(&self) -> (r: String)
        ensures
            r@ == lib_fault_message(self@),
    {
        match self {
            QaLibError::Json(details) => cat("json parse error: ", details.as_str()),
            QaLibError::NeedsInteraction => "wizard needs interaction".to_owned(),
            QaLibError::Component(details) => cat("component error: ", details.as_str()),
            QaLibError::InvalidPatch(details) => cat("invalid patch: ", details.as_str()),
            QaLibError::MissingField(field) => cat3(
                "wizard payload missing field '",
                field.as_str(),
                "'",
            ),
            QaLibError::Validation(details) => cat("validation failed: ", details.as_str()),
        }
    }
}

/// A value or a fault, viewed.
pub open spec fn value_result(r: Result<Json, QaLibError>) -> Result<JsonView, LibFault> {
    match r {
        Ok(value) => Ok(value@),
        Err(fault) => Err(fault@),
    }
}

/// The context of a run as JSON.
pub open spec fn run_context(config: I18nConfig) -> JsonView {
    let debug = responses::member_if(config.debug, "debug_i18n"@, JsonView::Bool(true))
        + responses::member_if(config.debug, "i18n_debug"@, JsonView::Bool(true));
    let resolved = match config.resolved {
        Some(map) => seq![
            ("i18n_resolved"@, responses::text_map_json(entries::text_entries(map@))),
        ],
        None => Seq::empty(),
    };
    JsonView::Object(
        debug + resolved + answers::opt_member("locale"@, text::opt_text(config.locale)),
    )
}

/// The context of a run as a text.
pub fn build_ctx_json(i18n: &I18nConfig) -> (r: String)
    ensures
        r@ == json_text::shown(run_context(*i18n)),
        json_text::reads_back(r@, json_text::clean(run_context(*i18n))),
{
    let mut members: Vec<(String, Json)> = Vec::new();
    if i18n.debug {
        members.push(entry("debug_i18n", Json::Bool(true)));
        members.push(entry("i18n_debug", Json::Bool(true)));
    }
    if let Some(map) = &i18n.resolved {
        members.push(entry("i18n_resolved", text_map_value(map)));
    }
    answers::push_opt(&mut members, "locale", &i18n.locale);
    assert(json::entries_view(members@) =~= run_context(*i18n)->Object_0);
    render_json(&Json::object(members))
}

/// What a reply of the component reads as: a value, unless it says that something
/// went wrong.
pub open spec fn component_result(raw: Seq<char>) -> Result<JsonView, LibFault> {
    match json_text::json_of_text(raw) {
        Err(details) => Err(LibFault::Json(details)),
        Ok(value) => match json::member_string(value, "error"@) {
            Some(error) => Err(LibFault::Component(error)),
            None => Ok(value),
        },
    }
}

/// Reads a reply of the component.
pub fn parse_component_result(raw: &str) -> (r: Result<Json, QaLibError>)
    ensures
        value_result(r) == component_result(raw@),
{
    let value = match parse_json(raw) {
        Ok(value) => value,
        Err(details) => {
            return Err(QaLibError::Json(details));
        },
    };
    if let Some(error) = value.get_str("error") {
        return Err(QaLibError::Component(error.to_owned()));
    }
    Ok(value)
}

/// Answers as an object: what is none has no answers.
pub open spec fn as_answers(value: JsonView) -> JsonView {
    if value is Object {
        value
    } else {
        json::empty_object()
    }
}

/// Makes an object of answers.
pub fn normalize_answers(value: Json) -> (r: Json)
    ensures
        r@ == as_answers(value@),
{
    broadcast use json::lemma_object;

    if value.as_object().is_some() {
        value
    } else {
        Json::empty()
    }
}

/// A map with a text under a key, unless the key is there.
pub open spec fn with_first(
    map: Seq<(Seq<char>, Seq<char>)>,
    key: Seq<char>,
    text: Seq<char>,
) -> Seq<(Seq<char>, Seq<char>)> {
    if entries::lookup(map, key) is Some {
        map
    } else {
        entries::put(map, key, text)
    }
}

/// A map with one of a question's texts under its translation key: the key
/// itself where there is no text.
pub open spec fn with_text_default(
    map: Seq<(Seq<char>, Seq<char>)>,
    question: JsonView,
    key_member: Seq<char>,
    text_member: Seq<char>,
) -> Seq<(Seq<char>, Seq<char>)> {
    match localize::text_key(question, key_member) {
        Some(key) => with_first(
            map,
            key,
            match json::member_string(question, text_member) {
                Some(text) => text,
                None => key,
            },
        ),
        None => map,
    }
}

/// The members of an object are smaller than the object.
pub proof fn lemma_member_view_smaller(value: JsonView, key: Seq<char>)
    requires
        json::member(value, key) is Some,
    ensures
        decreases_to!(value => json::member(value, key)->0),
{
    let members = value->Object_0;
    entries::lemma_position(entries::view_keys(members), key);
    let i = entries::position(entries::view_keys(members), key)->0;
    assert(decreases_to!(value => value->Object_0));
    assert(decreases_to!(members => members[i]));
    assert(decreases_to!(members[i] => members[i].1));
}

/// The fields of a question's list, where it has any.
pub open spec fn field_values(question: JsonView) -> Option<Seq<JsonView>> {
    match json::member(question, "list"@) {
        Some(list) => json::member_array(list, "fields"@),
        None => None,
    }
}

/// The fields of a question's list are smaller than the question.
pub proof fn lemma_field_values_smaller(question: JsonView)
    requires
        field_values(question) is Some,
    ensures
        decreases_to!(question => field_values(question)->0),
{
    lemma_member_view_smaller(question, "list"@);
    let list = json::member(question, "list"@)->0;
    lemma_member_view_smaller(list, "fields"@);
    let fields = json::member(list, "fields"@)->0;
    assert(decreases_to!(fields => fields->Array_0));
}

/// A map with the texts of a question and of the fields of its list.
pub open spec fn with_question_texts(map: Seq<(Seq<char>, Seq<char>)>, question: JsonView) -> Seq<
    (Seq<char>, Seq<char>),
>
    decreases question, 0int,
{
    let titled = with_text_default(map, question, "title_i18n"@, "title"@);
    let own = with_text_default(titled, question, "description_i18n"@, "description"@);
    match field_values(question) {
        Some(fields) => {
            proof {
                lemma_field_values_smaller(question);
            }
            with_all_texts(own, fields, fields.len() as int)
        },
        None => own,
    }
}

/// A map with the texts of the first `n` questions.
pub open spec fn with_all_texts(
    map: Seq<(Seq<char>, Seq<char>)>,
    questions: Seq<JsonView>,
    n: int,
) -> Seq<(Seq<char>, Seq<char>)>
    decreases questions, n,
{
    if n <= 0 || n > questions.len() {
        map
    } else {
        with_question_texts(with_all_texts(map, questions, n - 1), questions[n - 1])
    }
}

fn add_text_default(
    map: &mut Vec<(String, String)>,
    question: &Json,
    key_member: &str,
    text_member: &str,
)
    ensures
        entries::text_entries(final(map)@) == with_text_default(
            entries::text_entries(old(map)@),
            question@,
            key_member@,
            text_member@,
        ),
{
    let key = match question.get(key_member) {
        Some(text) => match text.get_str("key") {
            Some(key) => key,
            None => {
                return;
            },
        },
        None => {
            return;
        },
    };
    let fallback = match question.get_str(text_member) {
        Some(text) => text.to_owned(),
        None => key.to_owned(),
    };
    assert(entries::view_keys(entries::text_entries(map@)) =~= entries::keys_of(map@));
    match find(map, key) {
        Some(_) => {},
        None => {
            put_text(map, key.to_owned(), fallback);
        },
    }
}

/// Adds the texts of a question, and of the fields of its list, under their
/// translation keys. The first text under a key stays.
pub fn collect_question_i18n_defaults(question: &Json, en_map: &mut Vec<(String, String)>)
    ensures
        entries::text_entries(final(en_map)@) == with_question_texts(
            entries::text_entries(old(en_map)@),
            question@,
        ),
    decreases question,
{
    add_text_default(en_map, question, "title_i18n", "title");
    add_text_default(en_map, question, "description_i18n", "description");
    let ghost own = entries::text_entries(en_map@);
    let list = match question.get("list") {
        Some(list) => list,
        None => {
            return;
        },
    };
    let fields = match list.get("fields") {
        Some(fields) => fields,
        None => {
            return;
        },
    };
    let items = match fields.as_array() {
        Some(items) => items,
        None => {
            return;
        },
    };
    let ghost views = json::items_view(items@);
    proof {
        let a = choose|a: int|
            0 <= a < question->Object_0@.len() && question->Object_0@[a].1 == *list;
        json::lemma_member_smaller(*question, a);
        let b = choose|b: int| 0 <= b < list->Object_0@.len() && list->Object_0@[b].1 == *fields;
        json::lemma_member_smaller(*list, b);
    }
    let mut i: usize = 0;
    while i < items.len()
        invariant
            i <= items@.len(),
            views == json::items_view(items@),
            *fields == Json::Array(*items),
            decreases_to!(*question => *list),
            decreases_to!(*list => *fields),
            entries::text_entries(en_map@) == with_all_texts(own, views, i as int),
        decreases items.len() - i,
    {
        assert(views[i as int] == items@[i as int]@);
        proof {
            json::lemma_item_smaller(*fields, i as int);
        }
        collect_question_i18n_defaults(&items[i], en_map);
        i += 1;
    }
}

/// The texts of a form under their translation keys.
pub open spec fn form_texts(spec_value: JsonView) -> Seq<(Seq<char>, Seq<char>)> {
    let questions = json::member_items(spec_value, "questions"@);
    with_all_texts(Seq::empty(), questions, questions.len() as int)
}

/// Collects the texts of a form under their translation keys.
pub fn collect_i18n_defaults(spec_value: &Json) -> (r: Vec<(String, String)>)
    ensures
        entries::text_entries(r@) == form_texts(spec_value@),
{
    let mut en_map: Vec<(String, String)> = Vec::new();
    assert(entries::text_entries(en_map@) =~= Seq::empty());
    let items = match spec_value.get("questions") {
        Some(questions) => match questions.as_array() {
            Some(items) => items,
            None => {
                return en_map;
            },
        },
        None => {
            return en_map;
        },
    };
    let ghost views = json::items_view(items@);
    let mut i: usize = 0;
    while i < items.len()
        invariant
            i <= items@.len(),
            views == json::items_view(items@),
            entries::text_entries(en_map@) == with_all_texts(Seq::empty(), views, i as int),
        decreases items.len() - i,
    {
        assert(views[i as int] == items@[i as int]@);
        collect_question_i18n_defaults(&items[i], &mut en_map);
        i += 1;
    }
    en_map
}

proof fn lemma_default_ordered(
    map: Seq<(Seq<char>, Seq<char>)>,
    question: JsonView,
    key_member: Seq<char>,
    text_member: Seq<char>,
)
    requires
        entries::increasing(entries::view_keys(map)),
    ensures
        entries::increasing(
            entries::view_keys(with_text_default(map, question, key_member, text_member)),
        ),
{
    match localize::text_key(question, key_member) {
        Some(key) => {
            let text = match json::member_string(question, text_member) {
                Some(text) => text,
                None => key,
            };
            entries::law_put_keeps_order(map, key, text);
        },
        None => {},
    }
}

proof fn lemma_texts_ordered(map: Seq<(Seq<char>, Seq<char>)>, question: JsonView)
    requires
        entries::increasing(entries::view_keys(map)),
    ensures
        entries::increasing(entries::view_keys(with_question_texts(map, question))),
    decreases question, 0int,
{
    let titled = with_text_default(map, question, "title_i18n"@, "title"@);
    lemma_default_ordered(map, question, "title_i18n"@, "title"@);
    lemma_default_ordered(titled, question, "description_i18n"@, "description"@);
    let own = with_text_default(titled, question, "description_i18n"@, "description"@);
    if field_values(question) is Some {
        let fields = field_values(question)->0;
        lemma_field_values_smaller(question);
        lemma_all_texts_ordered(own, fields, fields.len() as int);
    }
}

proof fn lemma_all_texts_ordered(
    map: Seq<(Seq<char>, Seq<char>)>,
    questions: Seq<JsonView>,
    n: int,
)
    requires
        0 <= n <= questions.len(),
        entries::increasing(entries::view_keys(map)),
    ensures
        entries::increasing(entries::view_keys(with_all_texts(map, questions, n))),
    decreases questions, n,
{
    if n > 0 {
        lemma_all_texts_ordered(map, questions, n - 1);
        lemma_texts_ordered(with_all_texts(map, questions, n - 1), questions[n - 1]);
    }
}

/// The files that a form is laid out in for a run: the form itself, and its
/// texts as the English catalog.
#[derive(Debug, PartialEq)]
pub struct SpecAssets {
    pub forms_dir: String,
    pub i18n_dir: String,
    pub form_file: String,
    pub form_text: String,
    pub english_file: String,
    pub english_text: String,
}

/// Lays a form out in files below a directory. What is read from the English
/// catalog are the texts of the form.
pub fn materialize_spec_assets(rules: &PathRules, root: &str, spec_value: &Json) -> (r: SpecAssets)
    ensures
        r.forms_dir@ == paths::below(rules@, root@, "forms"@),
        r.i18n_dir@ == paths::below(rules@, root@, "i18n"@),
        r.form_file@ == paths::below(
            rules@,
            paths::below(rules@, root@, "forms"@),
            "wizard.form.json"@,
        ),
        r.form_text@ == json_text::pretty_shown(spec_value@),
        json_text::reads_back(r.form_text@, json_text::clean(spec_value@)),
        r.english_file@ == paths::below(
            rules@,
            paths::below(rules@, root@, "i18n"@),
            "en.json"@,
        ),
        r.english_text@ == json_text::pretty_shown(
            responses::text_map_json(form_texts(spec_value@)),
        ),
        json_text::text_map_of(r.english_text@) == Ok::<Seq<(Seq<char>, Seq<char>)>, Seq<char>>(
            form_texts(spec_value@),
        ),
{
    let forms_dir = join_path(rules, root, "forms");
    let i18n_dir = join_path(rules, root, "i18n");
    let form_file = join_path(rules, forms_dir.as_str(), "wizard.form.json");
    let english_file = join_path(rules, i18n_dir.as_str(), "en.json");
    let form_text = render_pretty(spec_value);
    let english = text_map_value(&collect_i18n_defaults(spec_value));
    proof {
        let map = form_texts(spec_value@);
        let questions = json::member_items(spec_value@, "questions"@);
        let members = json_text::text_members(map);
        lemma_all_texts_ordered(Seq::empty(), questions, questions.len() as int);
        assert(entries::view_keys(members) =~= entries::view_keys(map));
        assert forall|i: int| 0 <= i < members.len() implies json::well_formed(
            (#[trigger] members[i]).1,
        ) && json_text::proper(members[i].1) by {}
        json_text::law_proper_value_is_clean(english@);
    }
    let english_text = render_pretty(&english);
    SpecAssets { forms_dir, i18n_dir, form_file, form_text, english_file, english_text }
}

/// Finds the first rendered question with an id, from the `i`-th on.
pub open spec fn question_with(items: Seq<JsonView>, id: Seq<char>, i: int) -> Option<JsonView>
    decreases items.len() - i,
{
    if i < 0 || i >= items.len() {
        None
    } else if json::member_string(items[i], "id"@) == Some(id) {
        Some(items[i])
    } else {
        question_with(items, id, i + 1)
    }
}

/// The rendered question with an id.
pub open spec fn question_in_ui(ui: JsonView, id: Seq<char>) -> Option<JsonView> {
    question_with(json::member_items(ui, "questions"@), id, 0)
}

/// Finds a rendered question.
pub fn lookup_question(ui: &Json, question_id: &str) -> (r: Option<Json>)
    ensures
        match r {
            Some(question) => question_in_ui(ui@, question_id@) == Some(question@),
            None => question_in_ui(ui@, question_id@) is None,
        },
{
    let items = match ui.get("questions") {
        Some(questions) => match questions.as_array() {
            Some(items) => items,
            None => {
                return None;
            },
        },
        None => {
            return None;
        },
    };
    let ghost views = json::items_view(items@);
    let mut i: usize = 0;
    while i < items.len()
        invariant
            i <= items@.len(),
            views == json::items_view(items@),
            json::member_items(ui@, "questions"@) == views,
            question_with(views, question_id@, 0) == question_with(views, question_id@, i as int),
        decreases items.len() - i,
    {
        assert(views[i as int] == items@[i as int]@);
        if let Some(id) = items[i].get_str("id") {
            if same(id, question_id) {
                return Some(items[i].copy());
            }
        }
        i += 1;
    }
    None
}

/// The rendered question with an id, or the fault that there is none.
pub open spec fn found_question(ui: JsonView, id: Seq<char>) -> Result<JsonView, LibFault> {
    match question_in_ui(ui, id) {
        Some(question) => Ok(question),
        None => Err(LibFault::MissingField("questions["@ + id + "]"@)),
    }
}

/// Finds a rendered question.
pub fn find_question(ui: &Json, question_id: &str) -> (r: Result<Json, QaLibError>)
    ensures
        value_result(r) == found_question(ui@, question_id@),
{
    match lookup_question(ui, question_id) {
        Some(question) => Ok(question),
        None => Err(QaLibError::MissingField(cat3("questions[", question_id, "]"))),
    }
}

/// A run of the wizard: its form and context, the answers so far, whether it is
/// complete, and what was last rendered.
#[derive(Debug, PartialEq)]
pub struct WizardDriver {
    pub form_id: String,
    pub spec_version: String,
    pub config_json: String,
    pub ctx_json: String,
    pub frontend: WizardFrontend,
    pub answers: Json,
    pub complete: bool,
    pub last_ui: Option<String>,
}

#[verifier::ext_equal]
pub struct DriverView {
    pub form_id: Seq<char>,
    pub spec_version: Seq<char>,
    pub config_json: Seq<char>,
    pub ctx_json: Seq<char>,
    pub frontend: WizardFrontend,
    pub answers: JsonView,
    pub complete: bool,
    pub last_ui: Option<Seq<char>>,
}

impl View for WizardDriver {
    type V = DriverView;

    open spec fn view(&self) -> DriverView {
        DriverView {
            form_id: self.form_id@,
            spec_version: self.spec_version@,
            config_json: self.config_json@,
            ctx_json: self.ctx_json@,
            frontend: self.frontend,
            answers: self.answers@,
            complete: self.complete,
            last_ui: text::opt_text(self.last_ui),
        }
    }
}

/// The answers that a run starts with.
pub open spec fn initial_answers(raw: Option<Seq<char>>) -> Result<JsonView, LibFault> {
    match raw {
        Some(raw) => match json_text::json_of_text(raw) {
            Ok(value) => Ok(as_answers(value)),
            Err(details) => Err(LibFault::Json(details)),
        },
        None => Ok(json::empty_object()),
    }
}

/// The configuration that names a form asset.
pub open spec fn asset_config(path: Seq<char>) -> JsonView {
    JsonView::Object(seq![("qa_form_asset_path"@, JsonView::String(path))])
}

/// The version of a form, where it has one.
pub open spec fn version_in(spec_value: JsonView) -> Seq<char> {
    match json::member_string(spec_value, "version"@) {
        Some(version) => version,
        None => "0.0.0"@,
    }
}

/// A run that is started.
pub open spec fn started(config: WizardRunConfig, assets: Result<Seq<char>, Seq<char>>) -> Result<
    DriverView,
    LibFault,
> {
    match json_text::json_of_text(config.spec_json@) {
        Err(details) => Err(LibFault::Json(details)),
        Ok(spec_value) => match json::member_string(spec_value, "id"@) {
            None => Err(LibFault::MissingField("id"@)),
            Some(form_id) => match initial_answers(text::opt_text(config.initial_answers_json)) {
                Err(fault) => Err(fault),
                Ok(answers) => match assets {
                    Err(details) => Err(LibFault::Component(details)),
                    Ok(path) => Ok(
                        DriverView {
                            form_id,
                            spec_version: version_in(spec_value),
                            config_json: json_text::shown(asset_config(path)),
                            ctx_json: json_text::shown(run_context(config.i18n)),
                            frontend: config.frontend,
                            answers,
                            complete: false,
                            last_ui: None,
                        },
                    ),
                },
            },
        },
    }
}

/// Whether a value has some status.
pub open spec fn has_status(value: JsonView, status: Seq<char>) -> bool {
    json::member_string(value, "status"@) == Some(status)
}

fn is_status(value: &Json, status: &str) -> (r: bool)
    ensures
        r == has_status(value@, status@),
{
    match value.get_str("status") {
        Some(found) => same(found, status),
        None => false,
    }
}

/// A member of a value, or else a default.
pub open spec fn member_or(value: JsonView, key: Seq<char>, default: JsonView) -> JsonView {
    match json::member(value, key) {
        Some(found) => found,
        None => default,
    }
}

fn copy_member_or(value: &Json, key: &str, default: Json) -> (r: Json)
    ensures
        r@ == member_or(value@, key@, default@),
{
    match value.get(key) {
        Some(found) => found.copy(),
        None => default,
    }
}

/// A form rendered as text, with where it stands.
pub open spec fn text_payload(ui: JsonView, rendered: Seq<char>) -> JsonView {
    JsonView::Object(
        seq![
            ("next_question_id"@, member_or(ui, "next_question_id"@, JsonView::Null)),
            ("progress"@, member_or(ui, "progress"@, requests::progress_json(0, 0))),
            ("status"@, member_or(ui, "status"@, JsonView::String("need_input"@))),
            ("text"@, JsonView::String(rendered)),
        ],
    )
}

/// What the one who fills a form in is given.
pub open spec fn frontend_payload(
    frontend: WizardFrontend,
    ui_raw: Seq<char>,
    ui: JsonView,
    rendered: Seq<char>,
) -> Result<Seq<char>, LibFault> {
    match frontend {
        WizardFrontend::JsonUi => Ok(ui_raw),
        WizardFrontend::Card => match component_result(rendered) {
            Ok(_) => Ok(rendered),
            Err(fault) => Err(fault),
        },
        WizardFrontend::Text => Ok(json_text::shown(text_payload(ui, rendered))),
    }
}

/// What a run gives after a rendering, and the run after it.
pub open spec fn after_rendering(d: DriverView, ui_raw: Seq<char>, rendered: Seq<char>) -> (
    Result<Seq<char>, LibFault>,
    DriverView,
) {
    match component_result(ui_raw) {
        Err(fault) => (Err(fault), d),
        Ok(ui) => (
            frontend_payload(d.frontend, ui_raw, ui, rendered),
            DriverView {
                complete: has_status(ui, "complete"@),
                last_ui: Some(ui_raw),
                ..d
            },
        ),
    }
}

/// A text or a fault, viewed.
pub open spec fn text_result(r: Result<String, QaLibError>) -> Result<Seq<char>, LibFault> {
    match r {
        Ok(text) => Ok(text@),
        Err(fault) => Err(fault@),
    }
}

/// What a reply to a submission comes to, and the run after it. A run that is
/// complete stays so.
pub open spec fn after_reply(d: DriverView, raw: Seq<char>) -> (
    Result<JsonView, LibFault>,
    DriverView,
) {
    match component_result(raw) {
        Err(fault) => (Err(fault), d),
        Ok(value) => (
            Ok(value),
            DriverView {
                answers: match json::member(value, "answers"@) {
                    Some(answers) => as_answers(answers),
                    None => d.answers,
                },
                complete: d.complete || has_status(value, "complete"@),
                ..d
            },
        ),
    }
}

/// What several replies come to, one after the other, up to the first fault.
pub open spec fn after_replies(d: DriverView, replies: Seq<Seq<char>>, i: int, last: JsonView) -> (
    Result<JsonView, LibFault>,
    DriverView,
)
    decreases replies.len() - i,
{
    if i < 0 || i >= replies.len() {
        (Ok(last), d)
    } else {
        match after_reply(d, replies[i]) {
            (Ok(value), next) => after_replies(next, replies, i + 1, value),
            (Err(fault), next) => (Err(fault), next),
        }
    }
}

/// The answers of a patch.
pub open spec fn patch_entries(patch_json: Seq<char>) -> Result<
    Seq<(Seq<char>, JsonView)>,
    LibFault,
> {
    match json_text::json_of_text(patch_json) {
        Err(details) => Err(LibFault::Json(details)),
        Ok(JsonView::Object(members)) => if members.len() == 0 {
            Err(LibFault::InvalidPatch("patch_json cannot be empty"@))
        } else {
            Ok(members)
        },
        Ok(_) => Err(
            LibFault::InvalidPatch(
                "patch_json must be a JSON object map of question_id -> value"@,
            ),
        ),
    }
}

/// Reads the answers of a patch, in the order of their keys.
pub fn read_patch(patch_json: &str) -> (r: Result<Vec<(String, Json)>, QaLibError>)
    ensures
        match r {
            Ok(members) => patch_entries(patch_json@) == Ok::<
                Seq<(Seq<char>, JsonView)>,
                LibFault,
            >(json::entries_view(members@)) && members@.len() > 0,
            Err(fault) => patch_entries(patch_json@) == Err::<
                Seq<(Seq<char>, JsonView)>,
                LibFault,
            >(fault@),
        },
{
    let value = match parse_json(patch_json) {
        Ok(value) => value,
        Err(details) => {
            return Err(QaLibError::Json(details));
        },
    };
    match value.as_object() {
        Some(members) => {
            let members = json::copy_entries(members);
            assert(json::entries_view(members@).len() == members@.len());
            if members.len() == 0 {
                Err(QaLibError::InvalidPatch("patch_json cannot be empty".to_owned()))
            } else {
                Ok(members)
            }
        },
        None => Err(
            QaLibError::InvalidPatch(
                "patch_json must be a JSON object map of question_id -> value".to_owned(),
            ),
        ),
    }
}

/// What a submission came to, as its last reply says.
pub open spec fn outcome_status(last: JsonView) -> Seq<char> {
    match json::member_string(last, "status"@) {
        Some(status) => status,
        None => "need_input"@,
    }
}

/// What a submission came to, viewed.
pub open spec fn outcome_result(r: Result<ValidationOrProgress, QaLibError>) -> Result<
    (Seq<char>, Seq<char>),
    LibFault,
> {
    match r {
        Ok(outcome) => Ok((outcome.status@, outcome.response_json@)),
        Err(fault) => Err(fault@),
    }
}

/// Says what a submission came to.
pub fn submission_outcome(last: &Json) -> (r: ValidationOrProgress)
    ensures
        r.status@ == outcome_status(last@),
        responses::says(r.response_json@, last@),
{
    let status = match last.get_str("status") {
        Some(status) => status.to_owned(),
        None => "need_input".to_owned(),
    };
    ValidationOrProgress { status, response_json: render_json(last) }
}

/// Whether there is a reply to each of several answers, or to those up to one
/// whose reply reports a fault, after which no more are submitted.
pub open spec fn all_replied(replies: Seq<Seq<char>>, n: nat) -> bool {
    replies.len() == n || 0 < replies.len() < n && component_result(replies.last()) is Err
}

/// Whether the answers of a patch have their replies.
pub open spec fn patch_replied(patch_json: Seq<char>, replies: Seq<Seq<char>>) -> bool {
    patch_entries(patch_json) matches Ok(members) ==> all_replied(replies, members.len())
}

/// What submitting a patch comes to, and the run after it: the replies are those
/// of the component to the answers of the patch, in the order of their keys.
pub open spec fn after_patch(d: DriverView, patch_json: Seq<char>, replies: Seq<Seq<char>>) -> (
    Result<(Seq<char>, Seq<char>), LibFault>,
    DriverView,
) {
    match patch_entries(patch_json) {
        Err(fault) => (Err(fault), d),
        Ok(_) => match after_replies(d, replies, 0, JsonView::Null) {
            (Ok(last), next) => (Ok((outcome_status(last), json_text::shown(last))), next),
            (Err(fault), next) => (Err(fault), next),
        },
    }
}

/// A finished run, or the fault that it is not complete.
pub open spec fn finished(d: DriverView) -> Result<Seq<char>, LibFault> {
    if !d.complete {
        Err(LibFault::NeedsInteraction)
    } else {
        Ok(
            text::hex(
                cbor::cbor_of_value(cbor::canonical(json_text::clean(final_answers_json(d)))),
            ),
        )
    }
}

/// The answer set of a run as JSON.
pub open spec fn final_answers_json(d: DriverView) -> JsonView {
    JsonView::Object(
        seq![
            ("answers"@, d.answers),
            ("form_id"@, JsonView::String(d.form_id)),
            ("spec_version"@, JsonView::String(d.spec_version)),
        ],
    )
}

impl WizardDriver {
    /// Starts a run: `assets` is where the form was put as an asset, or why it
    /// could not be.
    pub fn new(config: WizardRunConfig, assets: Result<String, String>) -> (r: Result<
        WizardDriver,
        QaLibError,
    >)
        ensures
            ({
                let out = started(
                    config,
                    match assets {
                        Ok(path) => Ok(path@),
                        Err(details) => Err(details@),
                    },
                );
                match r {
                    Ok(driver) => out == Ok::<DriverView, LibFault>(driver@),
                    Err(fault) => out == Err::<DriverView, LibFault>(fault@),
                }
            }),
    {
        let spec_value = match parse_json(config.spec_json.as_str()) {
            Ok(value) => value,
            Err(details) => {
                return Err(QaLibError::Json(details));
            },
        };
        let form_id = match spec_value.get_str("id") {
            Some(id) => id.to_owned(),
            None => {
                return Err(QaLibError::MissingField("id".to_owned()));
            },
        };
        let spec_version = match spec_value.get_str("version") {
            Some(version) => version.to_owned(),
            None => "0.0.0".to_owned(),
        };
        let answers = match &config.initial_answers_json {
            Some(raw) => match parse_json(raw.as_str()) {
                Ok(value) => normalize_answers(value),
                Err(details) => {
                    return Err(QaLibError::Json(details));
                },
            },
            None => Json::empty(),
        };
        let path = match assets {
            Ok(path) => path,
            Err(details) => {
                return Err(QaLibError::Component(details));
            },
        };
        let ghost path_view = path@;
        let members = vec![entry("qa_form_asset_path", Json::String(path))];
        assert(json::entries_view(members@) =~= asset_config(path_view)->Object_0);
        let driver = WizardDriver {
            form_id,
            spec_version,
            config_json: render_json(&Json::object(members)),
            ctx_json: build_ctx_json(&config.i18n),
            frontend: config.frontend,
            answers,
            complete: false,
            last_ui: None,
        };
        Ok(driver)
    }

    /// The answers so far as a text.
    pub fn answers_json(&self) -> (r: String)
        ensures
            r@ == json_text::shown(self.answers@),
            json_text::reads_back(r@, json_text::clean(self.answers@)),
    {
        render_json(&self.answers)
    }

    /// Takes a rendering: `ui_raw` is the form rendered as JSON for the answers so
    /// far, and `rendered` the form rendered as a card or as text where the one
    /// who fills it in is given that.
    pub fn next_payload_json(&mut self, ui_raw: String, rendered: String) -> (r: Result<
        String,
        QaLibError,
    >)
        ensures
            (text_result(r), final(self)@) == after_rendering(old(self)@, ui_raw@, rendered@),
    {
        let ui = match parse_component_result(ui_raw.as_str()) {
            Ok(ui) => ui,
            Err(fault) => {
                return Err(fault);
            },
        };
        self.complete = is_status(&ui, "complete");
        self.last_ui = Some(ui_raw.clone());
        match self.frontend {
            WizardFrontend::JsonUi => Ok(ui_raw),
            WizardFrontend::Card => match parse_component_result(rendered.as_str()) {
                Ok(_) => Ok(rendered),
                Err(fault) => Err(fault),
            },
            WizardFrontend::Text => {
                let ghost wanted = text_payload(ui@, rendered@);
                let none = vec![entry("answered", Json::count(0)), entry("total", Json::count(0))];
                assert(json::entries_view(none@) =~= requests::progress_json(0, 0)->Object_0);
                let members = vec![
                    entry("next_question_id", copy_member_or(&ui, "next_question_id", Json::Null)),
                    entry("progress", copy_member_or(&ui, "progress", Json::object(none))),
                    entry("status", copy_member_or(&ui, "status", Json::string("need_input"))),
                    entry("text", Json::String(rendered)),
                ];
                assert(json::entries_view(members@) =~= wanted->Object_0);
                Ok(render_json(&Json::object(members)))
            },
        }
    }

    /// Takes a reply of the component to an answer.
    pub fn take_reply(&mut self, raw: &str) -> (r: Result<Json, QaLibError>)
        ensures
            (value_result(r), final(self)@) == after_reply(old(self)@, raw@),
    {
        let value = match parse_component_result(raw) {
            Ok(value) => value,
            Err(fault) => {
                return Err(fault);
            },
        };
        if let Some(answers) = value.get("answers") {
            self.answers = normalize_answers(answers.copy());
        }
        if is_status(&value, "complete") {
            self.complete = true;
        }
        Ok(value)
    }

    /// Submits a patch, on the replies of the component to its answers.
    pub fn submit_patch_json(&mut self, patch_json: &str, replies: &Vec<String>) -> (r: Result<
        ValidationOrProgress,
        QaLibError,
    >)
        requires
            patch_replied(patch_json@, text::texts(replies@)),
        ensures
            (outcome_result(r), final(self)@) == after_patch(
                old(self)@,
                patch_json@,
                text::texts(replies@),
            ),
    {
        if let Err(fault) = read_patch(patch_json) {
            return Err(fault);
        }
        let ghost start = self@;
        let ghost views = text::texts(replies@);
        let mut last = Json::Null;
        let mut i: usize = 0;
        while i < replies.len()
            invariant
                i <= replies@.len(),
                views == text::texts(replies@),
                start == old(self)@,
                patch_entries(patch_json@) is Ok,
                after_replies(start, views, 0, JsonView::Null) == after_replies(
                    self@,
                    views,
                    i as int,
                    last@,
                ),
            decreases replies.len() - i,
        {
            assert(views[i as int] == replies@[i as int]@);
            match self.take_reply(replies[i].as_str()) {
                Ok(value) => {
                    last = value;
                },
                Err(fault) => {
                    return Err(fault);
                },
            }
            i += 1;
        }
        Ok(submission_outcome(&last))
    }

    /// Submits a patch where its answers have their replies.
    pub fn submit_replied(&mut self, patch_json: &str, replies: &Vec<String>) -> (r: Option<
        Result<ValidationOrProgress, QaLibError>,
    >)
        ensures
            match r {
                Some(outcome) => patch_replied(patch_json@, text::texts(replies@)) && (
                    outcome_result(outcome),
                    final(self)@,
                ) == after_patch(old(self)@, patch_json@, text::texts(replies@)),
                None => !patch_replied(patch_json@, text::texts(replies@)) && *final(self) == *old(
                    self,
                ),
            },
    {
        let ghost views = text::texts(replies@);
        if let Ok(members) = read_patch(patch_json) {
            let given: usize = replies.len();
            let wanted: usize = members.len();
            assert(views.len() == given && patch_entries(patch_json@)->Ok_0.len() == wanted);
            if given != wanted {
                if given == 0 || given > wanted {
                    return None;
                }
                assert(views.last() == replies@[given - 1]@);
                if parse_component_result(replies[given - 1].as_str()).is_ok() {
                    return None;
                }
            }
        }
        Some(self.submit_patch_json(patch_json, replies))
    }

    /// Whether the form is complete.
    pub fn is_complete(&self) -> (r: bool)
        ensures
            r == self.complete,
    {
        self.complete
    }

    /// What was last rendered as JSON.
    pub fn last_ui_json(&self) -> (r: Option<&str>)
        ensures
            match r {
                Some(ui) => text::opt_text(self.last_ui) == Some(ui@),
                None => self.last_ui is None,
            },
    {
        match &self.last_ui {
            Some(ui) => Some(ui.as_str()),
            None => None,
        }
    }

    /// Finishes a complete run.
    pub fn finish(self) -> (r: Result<WizardRunResult, QaLibError>)
        ensures
            match r {
                Ok(result) => {
                    &&& finished(self@) == Ok::<Seq<char>, LibFault>(result.answer_set_cbor_hex@)
                    &&& result.answer_set.form_id == self.form_id
                    &&& result.answer_set.spec_version == self.spec_version
                    &&& result.answer_set.answers == self.answers
                    &&& result.answer_set.meta is None
                },
                Err(fault) => finished(self@) == Err::<Seq<char>, LibFault>(fault@),
            },
    {
        if !self.complete {
            return Err(QaLibError::NeedsInteraction);
        }
        let ghost d = self@;
        let answer_set = AnswerSet {
            form_id: self.form_id,
            spec_version: self.spec_version,
            answers: self.answers,
            meta: None,
        };
        assert(answers::answer_set_json(answer_set)->Object_0 =~= final_answers_json(d)->Object_0);
        match answer_set.to_cbor() {
            Ok(bytes) => {
                let answer_set_cbor_hex = encode_hex(bytes.as_slice());
                Ok(WizardRunResult { answer_set, answer_set_cbor_hex })
            },
            Err(details) => Err(QaLibError::Component(details)),
        }
    }
}

/// What a run does next: it finishes, or asks a question.
#[derive(Debug, PartialEq)]
pub enum RunStep {
    Finish,
    Ask { question_id: String, question: Json },
}

#[verifier::ext_equal]
pub enum RunStepView {
    Finish,
    Ask { question_id: Seq<char>, question: JsonView },
}

impl View for RunStep {
    type V = RunStepView;

    open spec fn view(&self) -> RunStepView {
        match *self {
            RunStep::Finish => RunStepView::Finish,
            RunStep::Ask { question_id, question } => RunStepView::Ask {
                question_id: question_id@,
                question: question@,
            },
        }
    }
}

/// What a run does next.
pub open spec fn step_after(d: DriverView) -> Result<RunStepView, LibFault> {
    if d.complete {
        Ok(RunStepView::Finish)
    } else {
        match d.last_ui {
            None => Err(LibFault::MissingField("last_ui_json"@)),
            Some(raw) => match json_text::json_of_text(raw) {
                Err(details) => Err(LibFault::Json(details)),
                Ok(ui) => match json::member_string(ui, "next_question_id"@) {
                    None => Err(LibFault::MissingField("next_question_id"@)),
                    Some(question_id) => match found_question(ui, question_id) {
                        Err(fault) => Err(fault),
                        Ok(question) => Ok(RunStepView::Ask { question_id, question }),
                    },
                },
            },
        }
    }
}

/// Runs the wizard, step by step.
#[derive(Debug, PartialEq)]
pub struct QaRunner;

impl QaRunner {
    /// What a run does next.
    pub fn next_step(driver: &WizardDriver) -> (r: Result<RunStep, QaLibError>)
        ensures
            match r {
                Ok(step) => step_after(driver@) == Ok::<RunStepView, LibFault>(step@),
                Err(fault) => step_after(driver@) == Err::<RunStepView, LibFault>(fault@),
            },
    {
        if driver.complete {
            return Ok(RunStep::Finish);
        }
        let raw = match &driver.last_ui {
            Some(raw) => raw,
            None => {
                return Err(QaLibError::MissingField("last_ui_json".to_owned()));
            },
        };
        let ui = match parse_json(raw.as_str()) {
            Ok(ui) => ui,
            Err(details) => {
                return Err(QaLibError::Json(details));
            },
        };
        let question_id = match ui.get_str("next_question_id") {
            Some(id) => id.to_owned(),
            None => {
                return Err(QaLibError::MissingField("next_question_id".to_owned()));
            },
        };
        match find_question(&ui, question_id.as_str()) {
            Ok(question) => Ok(RunStep::Ask { question_id, question }),
            Err(fault) => Err(fault),
        }
    }

    /// The patch with the answer to a question.
    pub fn answer_patch(question_id: &str, answer: Json) -> (r: String)
        ensures
            r@ == json_text::shown(JsonView::Object(seq![(question_id@, answer@)])),
            json_text::reads_back(
                r@,
                json_text::clean(JsonView::Object(seq![(question_id@, answer@)])),
            ),
    {
        let members = vec![entry(question_id, answer)];
        assert(json::entries_view(members@) =~= seq![(question_id@, answer@)]);
        render_json(&Json::object(members))
    }

    /// Stops a run whose answer was refused.
    pub fn check_submission(submission: &ValidationOrProgress) -> (r: Result<(), QaLibError>)
        ensures
            match r {
                Ok(_) => submission.status@ != "error"@,
                Err(fault) => submission.status@ == "error"@ && fault@ == LibFault::Validation(
                    submission.response_json@,
                ),
            },
    {
        if same(submission.status.as_str(), "error") {
            Err(QaLibError::Validation(submission.response_json.clone()))
        } else {
            Ok(())
        }
    }
}

/// Replies leave the form, its context and what was last rendered as they are,
/// and a run that is complete stays so.
pub proof fn law_replies_keep_form(
    d: DriverView,
    replies: Seq<Seq<char>>,
    i: int,
    last: JsonView,
)
    ensures
        ({
            let next = after_replies(d, replies, i, last).1;
            &&& next.form_id == d.form_id
            &&& next.spec_version == d.spec_version
            &&& next.config_json == d.config_json
            &&& next.ctx_json == d.ctx_json
            &&& next.frontend == d.frontend
            &&& next.last_ui == d.last_ui
            &&& d.complete ==> next.complete
        }),
    decreases replies.len() - i,
{
    if 0 <= i < replies.len() {
        match after_reply(d, replies[i]) {
            (Ok(value), next) => law_replies_keep_form(next, replies, i + 1, value),
            _ => {},
        }
    }
}

/// The answers of a run are an object from the start, and stay one.
pub proof fn law_answers_are_object(
    d: DriverView,
    replies: Seq<Seq<char>>,
    i: int,
    last: JsonView,
)
    requires
        d.answers is Object,
    ensures
        after_replies(d, replies, i, last).1.answers is Object,
    decreases replies.len() - i,
{
    if 0 <= i < replies.len() {
        match after_reply(d, replies[i]) {
            (Ok(value), next) => law_answers_are_object(next, replies, i + 1, value),
            _ => {},
        }
    }
}

/// A run that is started has answers that are an object, and is not complete.
pub proof fn law_started_run(config: WizardRunConfig, assets: Result<Seq<char>, Seq<char>>)
    ensures
        started(config, assets) matches Ok(d) ==> d.answers is Object && !d.complete && d.last_ui
            is None,
{
}

/// A patch that is refused as such leaves the run as it is.
pub proof fn law_bad_patch_changes_nothing(
    d: DriverView,
    patch_json: Seq<char>,
    replies: Seq<Seq<char>>,
)
    requires
        patch_entries(patch_json) is Err,
    ensures
        after_patch(d, patch_json, replies).1 == d,
        after_patch(d, patch_json, replies).0 is Err,
{
}

/// A run is finished exactly where it is complete.
pub proof fn law_only_complete_run_finishes(d: DriverView)
    ensures
        !d.complete ==> finished(d) == Err::<Seq<char>, LibFault>(LibFault::NeedsInteraction),
        finished(d) is Ok <==> d.complete,
{
}

/// A map that texts were added to still holds what it held.
proof fn lemma_texts_stay(map: Seq<(Seq<char>, Seq<char>)>, question: JsonView, key: Seq<char>)
    requires
        entries::lookup(map, key) is Some,
    ensures
        entries::lookup(with_question_texts(map, question), key) == entries::lookup(map, key),
    decreases question, 0int,
{
    let titled = with_text_default(map, question, "title_i18n"@, "title"@);
    lemma_default_stays(map, question, "title_i18n"@, "title"@, key);
    lemma_default_stays(titled, question, "description_i18n"@, "description"@, key);
    let own = with_text_default(titled, question, "description_i18n"@, "description"@);
    if field_values(question) is Some {
        let fields = field_values(question)->0;
        lemma_field_values_smaller(question);
        lemma_all_texts_stay(own, fields, fields.len() as int, key);
    }
}

proof fn lemma_default_stays(
    map: Seq<(Seq<char>, Seq<char>)>,
    question: JsonView,
    key_member: Seq<char>,
    text_member: Seq<char>,
    key: Seq<char>,
)
    requires
        entries::lookup(map, key) is Some,
    ensures
        entries::lookup(with_text_default(map, question, key_member, text_member), key)
            == entries::lookup(map, key),
{
    match localize::text_key(question, key_member) {
        Some(own) => {
            let text = match json::member_string(question, text_member) {
                Some(text) => text,
                None => own,
            };
            if own != key {
                entries::law_put_keeps_others(map, own, text, key);
            }
        },
        None => {},
    }
}

proof fn lemma_all_texts_stay(
    map: Seq<(Seq<char>, Seq<char>)>,
    questions: Seq<JsonView>,
    n: int,
    key: Seq<char>,
)
    requires
        entries::lookup(map, key) is Some,
        0 <= n <= questions.len(),
    ensures
        entries::lookup(with_all_texts(map, questions, n), key) == entries::lookup(map, key),
    decreases questions, n,
{
    if n > 0 {
        lemma_all_texts_stay(map, questions, n - 1, key);
        lemma_texts_stay(with_all_texts(map, questions, n - 1), questions[n - 1], key);
    }
}

/// Every translation key that a question of a form uses has a text among those
/// that are collected from the form.
pub proof fn law_collected_texts_cover_keys(spec_value: JsonView, i: int)
    requires
        0 <= i < json::member_items(spec_value, "questions"@).len(),
    ensures
        ({
            let question = json::member_items(spec_value, "questions"@)[i];
            &&& localize::text_key(question, "title_i18n"@) matches Some(key)
                ==> entries::lookup(form_texts(spec_value), key) is Some
            &&& localize::text_key(question, "description_i18n"@) matches Some(key)
                ==> entries::lookup(form_texts(spec_value), key) is Some
        }),
{
    let questions = json::member_items(spec_value, "questions"@);
    lemma_cover(questions, questions.len() as int, i);
}

proof fn lemma_cover(questions: Seq<JsonView>, n: int, i: int)
    requires
        0 <= i < n <= questions.len(),
    ensures
        localize::text_key(questions[i], "title_i18n"@) matches Some(key)
            ==> entries::lookup(with_all_texts(Seq::empty(), questions, n), key) is Some,
        localize::text_key(questions[i], "description_i18n"@) matches Some(key)
            ==> entries::lookup(with_all_texts(Seq::empty(), questions, n), key) is Some,
    decreases n,
{
    let before = with_all_texts(Seq::empty(), questions, n - 1);
    assert(with_all_texts(Seq::empty(), questions, n) == with_question_texts(
        before,
        questions[n - 1],
    ));
    if i < n - 1 {
        lemma_cover(questions, n - 1, i);
        if localize::text_key(questions[i], "title_i18n"@) is Some {
            lemma_texts_stay(
                before,
                questions[n - 1],
                localize::text_key(questions[i], "title_i18n"@)->0,
            );
        }
        if localize::text_key(questions[i], "description_i18n"@) is Some {
            lemma_texts_stay(
                before,
                questions[n - 1],
                localize::text_key(questions[i], "description_i18n"@)->0,
            );
        }
    } else {
        let question = questions[i];
        let titled = with_text_default(before, question, "title_i18n"@, "title"@);
        let own = with_text_default(titled, question, "description_i18n"@, "description"@);
        assert(with_question_texts(before, question) == match field_values(question) {
            Some(fields) => with_all_texts(own, fields, fields.len() as int),
            None => own,
        });
        lemma_default_there(before, question, "title_i18n"@, "title"@);
        lemma_default_there(titled, question, "description_i18n"@, "description"@);
        if localize::text_key(question, "title_i18n"@) is Some {
            let key = localize::text_key(question, "title_i18n"@)->0;
            lemma_default_stays(titled, question, "description_i18n"@, "description"@, key);
            if field_values(question) is Some {
                let fields = field_values(question)->0;
                lemma_all_texts_stay(own, fields, fields.len() as int, key);
            }
        }
        if localize::text_key(question, "description_i18n"@) is Some {
            let key = localize::text_key(question, "description_i18n"@)->0;
            if field_values(question) is Some {
                let fields = field_values(question)->0;
                lemma_all_texts_stay(own, fields, fields.len() as int, key);
            }
        }
    }
}

proof fn lemma_default_there(
    map: Seq<(Seq<char>, Seq<char>)>,
    question: JsonView,
    key_member: Seq<char>,
    text_member: Seq<char>,
)
    ensures
        localize::text_key(question, key_member) matches Some(key) ==> entries::lookup(
            with_text_default(map, question, key_member, text_member),
            key,
        ) is Some,
{
    match localize::text_key(question, key_member) {
        Some(key) => {
            let text = match json::member_string(question, text_member) {
                Some(text) => text,
                None => key,
            };
            entries::law_put_then_lookup(map, key, text);
        },
        None => {},
    }
}

proof fn lemma_context_keys_differ()
    ensures
        "debug_i18n"@ != "i18n_debug"@ && "debug_i18n"@ != "i18n_resolved"@,
        "debug_i18n"@ != "locale"@ && "i18n_debug"@ != "i18n_resolved"@,
        "i18n_debug"@ != "locale"@ && "i18n_resolved"@ != "locale"@,
{
    reveal_strlit("debug_i18n");
    reveal_strlit("i18n_debug");
    reveal_strlit("i18n_resolved");
    reveal_strlit("locale");
    assert("debug_i18n"@[0] == 'd' && "i18n_debug"@[0] == 'i');
    assert("i18n_debug"@.len() == 10 && "i18n_resolved"@.len() == 13 && "locale"@.len() == 6);
}

/// A run's context holds its locale and its resolved texts where it has any, and asks
/// for the keys of texts, by both names, where it is to show them.
pub proof fn law_run_context(config: I18nConfig)
    ensures
        ({
            let ctx = run_context(config);
            &&& json::member(ctx, "locale"@) == match config.locale {
                Some(locale) => Some(JsonView::String(locale@)),
                None => None,
            }
            &&& json::member(ctx, "i18n_resolved"@) == match config.resolved {
                Some(map) => Some(responses::text_map_json(entries::text_entries(map@))),
                None => None,
            }
            &&& json::member(ctx, "debug_i18n"@) == if config.debug {
                Some(JsonView::Bool(true))
            } else {
                None
            }
            &&& json::member(ctx, "i18n_debug"@) == if config.debug {
                Some(JsonView::Bool(true))
            } else {
                None
            }
        }),
{
    lemma_context_keys_differ();
    let first = responses::member_if(config.debug, "debug_i18n"@, JsonView::Bool(true));
    let second = responses::member_if(config.debug, "i18n_debug"@, JsonView::Bool(true));
    let texts = match config.resolved {
        Some(map) => responses::text_map_json(entries::text_entries(map@)),
        None => JsonView::Null,
    };
    let resolved = match config.resolved {
        Some(map) => seq![
            ("i18n_resolved"@, responses::text_map_json(entries::text_entries(map@))),
        ],
        None => Seq::empty(),
    };
    let locale = answers::opt_member("locale"@, text::opt_text(config.locale));
    assert forall|key: Seq<char>| true implies #[trigger] json::member(run_context(config), key)
        == (if config.debug && (key == "debug_i18n"@ || key == "i18n_debug"@) {
        Some(JsonView::Bool(true))
    } else if config.resolved is Some && key == "i18n_resolved"@ {
        Some(texts)
    } else if config.locale is Some && key == "locale"@ {
        Some(JsonView::String(config.locale->0@))
    } else {
        None
    }) by {
        entries::law_lookup_in_parts(first, second, key);
        entries::law_lookup_in_parts(first + second, resolved, key);
        entries::law_lookup_in_parts(first + second + resolved, locale, key);
        entries::law_lookup_in_one(("debug_i18n"@, JsonView::Bool(true)), key);
        entries::law_lookup_in_one(("i18n_debug"@, JsonView::Bool(true)), key);
        entries::law_lookup_in_one(("i18n_resolved"@, texts), key);
        entries::law_lookup_in_one(
            ("locale"@, JsonView::String(text::opt_text(config.locale)->0)),
            key,
        );
    }
}

/// A component's reply is its value, unless it is no JSON or tells an error.
pub proof fn law_component_result(raw: Seq<char>)
    ensures
        ({
            let told = component_result(raw);
            match json_text::json_of_text(raw) {
                Err(details) => told == Err::<JsonView, LibFault>(LibFault::Json(details)),
                Ok(value) => match json::member(value, "error"@) {
                    Some(JsonView::String(error)) => told == Err::<JsonView, LibFault>(
                        LibFault::Component(error),
                    ),
                    _ => told == Ok::<JsonView, LibFault>(value),
                },
            }
        }),
{
}

/// A run starts from a form that is JSON and has an id, from the answers that it was
/// given, and with its files in place. It keeps the form's id and version.
pub proof fn law_start(config: WizardRunConfig, assets: Result<Seq<char>, Seq<char>>)
    ensures
        ({
            let told = started(config, assets);
            let form = json_text::json_of_text(config.spec_json@);
            let id = json::member(form->Ok_0, "id"@);
            let named = id is Some && id->0 is String;
            let given = config.initial_answers_json;
            let readable = given is None || json_text::json_of_text(given->0@) is Ok;
            &&& told is Ok <==> form is Ok && named && readable && assets is Ok
            &&& form matches Err(details) ==> told == Err::<DriverView, LibFault>(
                LibFault::Json(details),
            )
            &&& form is Ok && !named ==> told == Err::<DriverView, LibFault>(
                LibFault::MissingField("id"@),
            )
            &&& form is Ok && named && readable ==> (assets matches Err(details) ==> told == Err::<
                DriverView,
                LibFault,
            >(LibFault::Component(details)))
            &&& told matches Ok(d) ==> {
                &&& id == Some(JsonView::String(d.form_id))
                &&& d.frontend == config.frontend
                &&& d.config_json == json_text::shown(asset_config(assets->Ok_0))
                &&& d.ctx_json == json_text::shown(run_context(config.i18n))
                &&& match json::member(form->Ok_0, "version"@) {
                    Some(JsonView::String(version)) => d.spec_version == version,
                    _ => d.spec_version == "0.0.0"@,
                }
                &&& given is None ==> d.answers == JsonView::Object(Seq::empty())
                &&& given is Some ==> {
                    let answers = json_text::json_of_text(given->0@)->Ok_0;
                    &&& answers is Object ==> d.answers == answers
                    &&& !(answers is Object) ==> d.answers == JsonView::Object(Seq::empty())
                }
            }
        }),
{
}

/// The configuration of a run gives the path of its form.
pub proof fn law_asset_config(path: Seq<char>)
    ensures
        json::member(asset_config(path), "qa_form_asset_path"@) == Some(JsonView::String(path)),
{
    entries::law_lookup_finds_the_first(asset_config(path)->Object_0, 0);
}

/// A text that is there stays; else it is put in.
pub proof fn law_first_text_stays(
    map: Seq<(Seq<char>, Seq<char>)>,
    question: JsonView,
    key_member: Seq<char>,
    text_member: Seq<char>,
    key: Seq<char>,
    other: Seq<char>,
)
    requires
        localize::text_key(question, key_member) == Some(key),
    ensures
        ({
            let more = with_text_default(map, question, key_member, text_member);
            &&& entries::lookup(map, key) is Some ==> more == map
            &&& entries::lookup(map, key) is None ==> entries::lookup(more, key) == Some(
                match json::member(question, text_member) {
                    Some(JsonView::String(text)) => text,
                    _ => key,
                },
            )
            &&& other != key ==> entries::lookup(more, other) == entries::lookup(map, other)
        }),
{
    let text = match json::member_string(question, text_member) {
        Some(text) => text,
        None => key,
    };
    entries::law_put_then_lookup(map, key, text);
    if other != key {
        entries::law_put_keeps_others(map, key, text, other);
    }
}

/// The first question with an id is the one that is found by it.
pub proof fn law_question_in_ui(ui: JsonView, id: Seq<char>)
    ensures
        ({
            let items = json::member_items(ui, "questions"@);
            match found_question(ui, id) {
                Ok(question) => exists|i: int|
                    0 <= i < items.len() && #[trigger] items[i] == question && json::member(
                        items[i],
                        "id"@,
                    ) == Some(JsonView::String(id)) && forall|j: int|
                        0 <= j < i ==> json::member(#[trigger] items[j], "id"@) != Some(
                            JsonView::String(id),
                        ),
                Err(fault) => fault == LibFault::MissingField("questions["@ + id + "]"@) && forall|
                    j: int,
                |
                    0 <= j < items.len() ==> json::member(#[trigger] items[j], "id"@) != Some(
                        JsonView::String(id),
                    ),
            }
        }),
{
    lemma_question_with(json::member_items(ui, "questions"@), id, 0);
}

proof fn lemma_question_with(items: Seq<JsonView>, id: Seq<char>, from: int)
    requires
        0 <= from <= items.len(),
    ensures
        match question_with(items, id, from) {
            Some(question) => exists|i: int|
                from <= i < items.len() && #[trigger] items[i] == question && json::member(
                    items[i],
                    "id"@,
                ) == Some(JsonView::String(id)) && forall|j: int|
                    from <= j < i ==> json::member(#[trigger] items[j], "id"@) != Some(
                        JsonView::String(id),
                    ),
            None => forall|j: int|
                from <= j < items.len() ==> json::member(#[trigger] items[j], "id"@) != Some(
                    JsonView::String(id),
                ),
        },
    decreases items.len() - from,
{
    if from < items.len() {
        if json::member(items[from], "id"@) == Some(JsonView::String(id)) {
            assert(items[from] == question_with(items, id, from)->0);
        } else {
            lemma_question_with(items, id, from + 1);
            if question_with(items, id, from) is Some {
                let i = choose|i: int|
                    from + 1 <= i < items.len() && #[trigger] items[i] == question_with(
                        items,
                        id,
                        from + 1,
                    )->0 && json::member(items[i], "id"@) == Some(JsonView::String(id)) && forall|
                        j: int,
                    |
                        from + 1 <= j < i ==> json::member(#[trigger] items[j], "id"@) != Some(
                            JsonView::String(id),
                        );
                assert(items[i] == question_with(items, id, from)->0);
                assert forall|j: int| from <= j < i implies json::member(
                    #[trigger] items[j],
                    "id"@,
                ) != Some(JsonView::String(id)) by {}
            }
        }
    }
}

/// After the component has told its questions, they are kept and the run is complete
/// if and only if they say so. Nothing else changes, and nothing at all where the
/// component told an error.
pub proof fn law_after_rendering(d: DriverView, ui_raw: Seq<char>, rendered: Seq<char>)
    ensures
        ({
            let (told, after) = after_rendering(d, ui_raw, rendered);
            let ui = component_result(ui_raw);
            &&& ui is Err ==> after == d && told == Err::<Seq<char>, LibFault>(ui->Err_0)
            &&& ui is Ok ==> {
                &&& after.last_ui == Some(ui_raw)
                &&& after.complete <==> json::member(ui->Ok_0, "status"@) == Some(
                    JsonView::String("complete"@),
                )
                &&& after.answers == d.answers
                &&& after.form_id == d.form_id
                &&& after.spec_version == d.spec_version
                &&& after.config_json == d.config_json
                &&& after.ctx_json == d.ctx_json
                &&& after.frontend == d.frontend
                &&& d.frontend is JsonUi ==> told == Ok::<Seq<char>, LibFault>(ui_raw)
                &&& d.frontend is Card && component_result(rendered) is Ok ==> told == Ok::<
                    Seq<char>,
                    LibFault,
                >(rendered)
                &&& d.frontend is Card && component_result(rendered) is Err ==> told == Err::<
                    Seq<char>,
                    LibFault,
                >(component_result(rendered)->Err_0)
                &&& d.frontend is Text ==> told == Ok::<Seq<char>, LibFault>(
                    json_text::shown(text_payload(ui->Ok_0, rendered)),
                )
            }
        }),
{
}

/// What a frontend of text is shown holds the rendered text, and what the questions
/// say comes next.
pub proof fn law_text_payload(ui: JsonView, rendered: Seq<char>)
    ensures
        ({
            let shown = text_payload(ui, rendered);
            &&& json::member(shown, "text"@) == Some(JsonView::String(rendered))
            &&& json::member(shown, "next_question_id"@) == match json::member(
                ui,
                "next_question_id"@,
            ) {
                Some(next) => Some(next),
                None => Some(JsonView::Null),
            }
            &&& json::member(shown, "status"@) == match json::member(ui, "status"@) {
                Some(status) => Some(status),
                None => Some(JsonView::String("need_input"@)),
            }
            &&& json::member(shown, "progress"@) == match json::member(ui, "progress"@) {
                Some(progress) => Some(progress),
                None => Some(requests::progress_json(0, 0)),
            }
        }),
{
    reveal_strlit("next_question_id");
    reveal_strlit("progress");
    reveal_strlit("status");
    reveal_strlit("text");
    assert("next_question_id"@.len() == 16 && "progress"@.len() == 8);
    assert("status"@.len() == 6 && "text"@.len() == 4);
    let members = text_payload(ui, rendered)->Object_0;
    entries::law_lookup_finds_the_first(members, 0);
    entries::law_lookup_finds_the_first(members, 1);
    entries::law_lookup_finds_the_first(members, 2);
    entries::law_lookup_finds_the_first(members, 3);
}

/// After a reply the answers are those that it gives, where it gives any, and the run
/// is complete where it was or the reply says so. A reply that tells an error changes
/// nothing.
pub proof fn law_after_reply(d: DriverView, raw: Seq<char>)
    ensures
        ({
            let (told, after) = after_reply(d, raw);
            let value = component_result(raw);
            &&& told == value
            &&& value is Err ==> after == d
            &&& value is Ok ==> {
                &&& after.complete <==> d.complete || json::member(value->Ok_0, "status"@) == Some(
                    JsonView::String("complete"@),
                )
                &&& match json::member(value->Ok_0, "answers"@) {
                    Some(answers) => if answers is Object {
                        after.answers == answers
                    } else {
                        after.answers == JsonView::Object(Seq::empty())
                    },
                    None => after.answers == d.answers,
                }
                &&& after.form_id == d.form_id
                &&& after.last_ui == d.last_ui
                &&& after.spec_version == d.spec_version
            }
        }),
{
}

/// Replies are taken one after the other: one more is taken after those before it,
/// unless one of them told an error.
pub proof fn law_one_more_reply(
    d: DriverView,
    replies: Seq<Seq<char>>,
    raw: Seq<char>,
    last: JsonView,
)
    ensures
        ({
            let (told, after) = after_replies(d, replies, 0, last);
            let (more, then_after) = after_replies(d, replies.push(raw), 0, last);
            &&& told is Err ==> more == told && then_after == after
            &&& told is Ok ==> more == after_reply(after, raw).0 && then_after == after_reply(
                after,
                raw,
            ).1
        }),
        after_replies(d, seq![], 0, last) == (Ok::<JsonView, LibFault>(last), d),
{
    lemma_one_more_reply(d, replies, raw, 0, last);
}

proof fn lemma_one_more_reply(
    d: DriverView,
    replies: Seq<Seq<char>>,
    raw: Seq<char>,
    i: int,
    last: JsonView,
)
    requires
        0 <= i <= replies.len(),
    ensures
        after_replies(d, replies.push(raw), i, last) == match after_replies(d, replies, i, last) {
            (Ok(_), after) => after_reply(after, raw),
            (Err(fault), after) => (Err(fault), after),
        },
    decreases replies.len() - i,
{
    reveal_with_fuel(after_replies, 2);
    let more = replies.push(raw);
    if i < replies.len() {
        assert(more[i] == replies[i]);
        match after_reply(d, replies[i]) {
            (Ok(value), next) => lemma_one_more_reply(next, replies, raw, i + 1, value),
            (Err(_), _) => {},
        }
    } else {
        assert(more[i] == raw);
    }
}

/// A patch is a JSON object with at least one answer.
pub proof fn law_patches(patch_json: Seq<char>)
    ensures
        ({
            let told = patch_entries(patch_json);
            match json_text::json_of_text(patch_json) {
                Err(details) => told == Err::<Seq<(Seq<char>, JsonView)>, LibFault>(
                    LibFault::Json(details),
                ),
                Ok(value) => {
                    &&& value is Object && value->Object_0.len() > 0 ==> told == Ok::<
                        Seq<(Seq<char>, JsonView)>,
                        LibFault,
                    >(value->Object_0)
                    &&& value is Object && value->Object_0.len() == 0 ==> told == Err::<
                        Seq<(Seq<char>, JsonView)>,
                        LibFault,
                    >(LibFault::InvalidPatch("patch_json cannot be empty"@))
                    &&& !(value is Object) ==> (told matches Err(LibFault::InvalidPatch(_)))
                },
            }
        }),
{
}

/// A patch is told the status of the last reply and that reply itself.
pub proof fn law_after_patch(d: DriverView, patch_json: Seq<char>, replies: Seq<Seq<char>>)
    requires
        patch_entries(patch_json) is Ok,
    ensures
        ({
            let (told, after) = after_patch(d, patch_json, replies);
            let (last, there) = after_replies(d, replies, 0, JsonView::Null);
            &&& after == there
            &&& last matches Err(fault) ==> told == Err::<(Seq<char>, Seq<char>), LibFault>(fault)
            &&& last matches Ok(value) ==> told == Ok::<(Seq<char>, Seq<char>), LibFault>(
                (
                    match json::member(value, "status"@) {
                        Some(JsonView::String(status)) => status,
                        _ => "need_input"@,
                    },
                    json_text::shown(value),
                ),
            )
        }),
{
}

/// The final answers of a run are told with its form's id and version.
pub proof fn law_final_answers(d: DriverView)
    ensures
        json::member(final_answers_json(d), "answers"@) == Some(d.answers),
        json::member(final_answers_json(d), "form_id"@) == Some(JsonView::String(d.form_id)),
        json::member(final_answers_json(d), "spec_version"@) == Some(
            JsonView::String(d.spec_version),
        ),
        d.complete ==> finished(d) == Ok::<Seq<char>, LibFault>(
            text::hex(
                cbor::cbor_of_value(cbor::canonical(json_text::clean(final_answers_json(d)))),
            ),
        ),
{
    reveal_strlit("answers");
    reveal_strlit("form_id");
    reveal_strlit("spec_version");
    assert("answers"@[0] == 'a' && "form_id"@[0] == 'f' && "spec_version"@[0] == 's');
    let members = final_answers_json(d)->Object_0;
    entries::law_lookup_finds_the_first(members, 0);
    entries::law_lookup_finds_the_first(members, 1);
    entries::law_lookup_finds_the_first(members, 2);
}

/// A run that is complete finishes. Else it asks the question that the component said
/// comes next, with what the component told of it.
pub proof fn law_next_step(d: DriverView)
    ensures
        ({
            let step = step_after(d);
            let ui = json_text::json_of_text(d.last_ui->0);
            let next = json::member(ui->Ok_0, "next_question_id"@);
            &&& d.complete ==> step == Ok::<RunStepView, LibFault>(RunStepView::Finish)
            &&& !d.complete && d.last_ui is None ==> step == Err::<RunStepView, LibFault>(
                LibFault::MissingField("last_ui_json"@),
            )
            &&& !d.complete && d.last_ui is Some ==> (ui matches Err(details) ==> step == Err::<
                RunStepView,
                LibFault,
            >(LibFault::Json(details)))
            &&& !d.complete && d.last_ui is Some && ui is Ok ==> match next {
                Some(JsonView::String(id)) => match found_question(ui->Ok_0, id) {
                    Ok(question) => step == Ok::<RunStepView, LibFault>(
                        RunStepView::Ask { question_id: id, question },
                    ),
                    Err(fault) => step == Err::<RunStepView, LibFault>(fault),
                },
                _ => step == Err::<RunStepView, LibFault>(
                    LibFault::MissingField("next_question_id"@),
                ),
            }
        }),
{
}

/// The message of a fault ends with its details.
pub proof fn law_fault_messages(details: Seq<char>)
    ensures
        lib_fault_message(LibFault::Json(details)) == "json parse error: "@ + details,
        lib_fault_message(LibFault::Component(details)) == "component error: "@ + details,
        lib_fault_message(LibFault::InvalidPatch(details)) == "invalid patch: "@ + details,
        lib_fault_message(LibFault::Validation(details)) == "validation failed: "@ + details,
        lib_fault_message(LibFault::MissingField(details)) == "wizard payload missing field '"@
            + details + "'"@,
{
}

/// Answers to start from that are no JSON are told what is wrong with them.
pub proof fn law_start_from_wrong_answers(
    config: WizardRunConfig,
    assets: Result<Seq<char>, Seq<char>>,
)
    requires
        json_text::json_of_text(config.spec_json@) is Ok,
        json::member_string(json_text::json_of_text(config.spec_json@)->Ok_0, "id"@) is Some,
        config.initial_answers_json is Some,
        json_text::json_of_text(config.initial_answers_json->0@) is Err,
    ensures
        started(config, assets) == Err::<DriverView, LibFault>(
            LibFault::Json(json_text::json_of_text(config.initial_answers_json->0@)->Err_0),
        ),
{
}

/// Faults are told apart by their messages: one of what was asked too early says so,
/// and no other has its message.
pub proof fn law_early_finish_is_told(fault: LibFault)
    ensures
        lib_fault_message(fault) == "wizard needs interaction"@ <==> fault is NeedsInteraction,
{
    reveal_strlit("wizard needs interaction");
    reveal_strlit("json parse error: ");
    reveal_strlit("component error: ");
    reveal_strlit("invalid patch: ");
    reveal_strlit("wizard payload missing field '");
    reveal_strlit("validation failed: ");
    assert("wizard needs interaction"@[0] == 'w' && "wizard needs interaction"@[7] == 'n');
    let told = lib_fault_message(fault);
    match fault {
        LibFault::Json(details) => {
            assert(told[0] == 'j');
        },
        LibFault::Component(details) => {
            assert(told[0] == 'c');
        },
        LibFault::InvalidPatch(details) => {
            assert(told[0] == 'i');
        },
        LibFault::MissingField(field) => {
            assert(told[7] == 'p');
        },
        LibFault::Validation(details) => {
            assert(told[0] == 'v');
        },
        LibFault::NeedsInteraction => {},
    }
}

} // verus!
