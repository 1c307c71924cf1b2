//! Translated texts in rendered forms.
use crate::context::{self, parse_resolved_i18n};
use crate::entries::{self, find, text_at};
use crate::json::{self, entry, Json, JsonView};
use crate::text::{self, cat3, copy_opt};
use crate::wizard::RenderProgress;
use vstd::prelude::*;

verus! {

/// What a rendering shows of a question.
#[derive(Debug, PartialEq)]
pub struct RenderQuestion {
    pub id: String,
    pub title: String,
    pub description: Option<String>,
}

/// A form to be rendered: where it stands, and its questions.
#[derive(Debug, PartialEq)]
pub struct RenderPayload {
    pub next_question_id: Option<String>,
    pub progress: RenderProgress,
    pub questions: Vec<RenderQuestion>,
}

#[verifier::ext_equal]
pub struct RenderQuestionView {
    pub id: Seq<char>,
    pub title: Seq<char>,
    pub description: Option<Seq<char>>,
}

#[verifier::ext_equal]
pub struct RenderPayloadView {
    pub next_question_id: Option<Seq<char>>,
    pub progress: RenderProgress,
    pub questions: Seq<RenderQuestionView>,
}

impl View for RenderQuestion {
    type V = RenderQuestionView;

    open spec fn view(&self) -> RenderQuestionView {
        RenderQuestionView {
            id: self.id@,
            title: self.title@,
            description: text::opt_text(self.description),
        }
    }
}

/// A list of rendered questions, viewed.
pub open spec fn render_questions_view(list: Seq<RenderQuestion>) -> Seq<RenderQuestionView> {
    Seq::new(list.len(), |i: int| list[i]@)
}

impl View for RenderPayload {
    type V = RenderPayloadView;

    open spec fn view(&self) -> RenderPayloadView {
        RenderPayloadView {
            next_question_id: text::opt_text(self.next_question_id),
            progress: self.progress,
            questions: render_questions_view(self.questions@),
        }
    }
}

/// The translation key of one of a question's texts.
pub open spec fn text_key(question: JsonView, member: Seq<char>) -> Option<Seq<char>> {
    match json::member(question, member) {
        Some(text) => json::member_string(text, "key"@),
        None => None,
    }
}

/// The translation keys of the first `n` questions, by question id: of several
/// questions with one id, those of the last.
pub open spec fn key_map(questions: Seq<JsonView>, n: int) -> Seq<
    (Seq<char>, (Option<Seq<char>>, Option<Seq<char>>)),
>
    decreases n,
{
    if n <= 0 || n > questions.len() {
        Seq::empty()
    } else {
        let question = questions[n - 1];
        match json::member_string(question, "id"@) {
            Some(id) => entries::put(
                key_map(questions, n - 1),
                id,
                (text_key(question, "title_i18n"@), text_key(question, "description_i18n"@)),
            ),
            None => key_map(questions, n - 1),
        }
    }
}

/// The translation keys of a form's questions, by question id.
pub open spec fn form_key_map(spec_value: JsonView) -> Seq<
    (Seq<char>, (Option<Seq<char>>, Option<Seq<char>>)),
> {
    let questions = json::member_items(spec_value, "questions"@);
    key_map(questions, questions.len() as int)
}

/// Translation keys by question id, viewed.
pub open spec fn key_map_view(map: Seq<(String, (Option<String>, Option<String>))>) -> Seq<
    (Seq<char>, (Option<Seq<char>>, Option<Seq<char>>)),
> {
    map.map_values(
        |e: (String, (Option<String>, Option<String>))|
            (e.0@, (text::opt_text(e.1.0), text::opt_text(e.1.1))),
    )
}

/// The translation key of one of a question's texts.
fn read_text_key(question: &Json, member: &str) -> (r: Option<String>)
    ensures
        text::opt_text(r) == text_key(question@, member@),
{
    match question.get(member) {
        Some(text) => match text.get_str("key") {
            Some(key) => Some(key.to_owned()),
            None => None,
        },
        None => None,
    }
}

/// The translation keys of a form's questions, by question id.
pub fn build_question_i18n_key_map(spec_value: &Json) -> (r: Vec<
    (String, (Option<String>, Option<String>)),
>)
    ensures
        key_map_view(r@) == form_key_map(spec_value@),
{
    let mut map: Vec<(String, (Option<String>, Option<String>))> = Vec::new();
    assert(key_map_view(map@) =~= Seq::empty());
    let items = match spec_value.get("questions") {
        Some(questions) => match questions.as_array() {
            Some(items) => items,
            None => {
                return map;
            },
        },
        None => {
            return map;
        },
    };
    let ghost views = json::items_view(items@);
    let mut i: usize = 0;
    while i < items.len()
        invariant
            i <= items@.len(),
            views == json::items_view(items@),
            key_map_view(map@) == key_map(views, i as int),
        decreases items.len() - i,
    {
        assert(views[i as int] == items@[i as int]@);
        if let Some(id) = items[i].get_str("id") {
            let title_key = read_text_key(&items[i], "title_i18n");
            let description_key = read_text_key(&items[i], "description_i18n");
            let ghost before = map@;
            proof {
                assert(entries::view_keys(key_map_view(before)) =~= entries::keys_of(before));
                entries::lemma_slot(entries::keys_of(before), id@);
            }
            entries::insert(&mut map, id.to_owned(), (title_key, description_key));
            assert(key_map_view(map@) =~= entries::put(
                key_map_view(before),
                id@,
                (text::opt_text(title_key), text::opt_text(description_key)),
            ));
        }
        i += 1;
    }
    map
}

/// The text of a key in one locale: under the locale, a colon and the key, or
/// under the locale, a slash and the key.
pub open spec fn text_in_locale(
    resolved: Seq<(Seq<char>, Seq<char>)>,
    locale: Option<Seq<char>>,
    key: Seq<char>,
) -> Option<Seq<char>> {
    match locale {
        Some(locale) => match entries::lookup(resolved, locale + ":"@ + key) {
            Some(text) => Some(text),
            None => entries::lookup(resolved, locale + "/"@ + key),
        },
        None => None,
    }
}

/// The text of a key: in the locale that is asked for, else in the form's own,
/// else under the key alone.
pub open spec fn resolved_text(
    resolved: Seq<(Seq<char>, Seq<char>)>,
    key: Seq<char>,
    requested: Option<Seq<char>>,
    default: Option<Seq<char>>,
) -> Option<Seq<char>> {
    match text_in_locale(resolved, requested, key) {
        Some(text) => Some(text),
        None => match text_in_locale(resolved, default, key) {
            Some(text) => Some(text),
            None => entries::lookup(resolved, key),
        },
    }
}

/// A locale, viewed.
pub open spec fn opt_str(locale: Option<&str>) -> Option<Seq<char>> {
    match locale {
        Some(locale) => Some(locale@),
        None => None,
    }
}

fn find_in_locale(resolved: &Vec<(String, String)>, locale: Option<&str>, key: &str) -> (r: Option<
    String,
>)
    ensures
        text::opt_text(r) == text_in_locale(
            entries::text_entries(resolved@),
            opt_str(locale),
            key@,
        ),
{
    match locale {
        Some(locale) => match text_at(resolved, cat3(locale, ":", key).as_str()) {
            Some(text) => Some(text),
            None => text_at(resolved, cat3(locale, "/", key).as_str()),
        },
        None => None,
    }
}

/// The text of a key.
pub fn resolve_i18n_value(
    resolved: &Vec<(String, String)>,
    key: &str,
    requested_locale: Option<&str>,
    default_locale: Option<&str>,
) -> (r: Option<String>)
    ensures
        text::opt_text(r) == resolved_text(
            entries::text_entries(resolved@),
            key@,
            opt_str(requested_locale),
            opt_str(default_locale),
        ),
{
    if let Some(text) = find_in_locale(resolved, requested_locale, key) {
        return Some(text);
    }
    if let Some(text) = find_in_locale(resolved, default_locale, key) {
        return Some(text);
    }
    text_at(resolved, key)
}

/// The locale that a form is written in.
pub open spec fn form_locale(spec_value: JsonView) -> Option<Seq<char>> {
    match json::member(spec_value, "presentation"@) {
        Some(presentation) => json::member_string(presentation, "default_locale"@),
        None => None,
    }
}

/// The text of a key that may be absent.
pub open spec fn key_text(
    resolved: Seq<(Seq<char>, Seq<char>)>,
    key: Option<Seq<char>>,
    requested: Option<Seq<char>>,
    default: Option<Seq<char>>,
) -> Option<Seq<char>> {
    match key {
        Some(key) => resolved_text(resolved, key, requested, default),
        None => None,
    }
}

/// A rendered question with its texts translated.
pub open spec fn localized_question(
    question: RenderQuestionView,
    keys: Seq<(Seq<char>, (Option<Seq<char>>, Option<Seq<char>>))>,
    resolved: Seq<(Seq<char>, Seq<char>)>,
    requested: Option<Seq<char>>,
    default: Option<Seq<char>>,
) -> RenderQuestionView {
    match entries::lookup(keys, question.id) {
        Some((title_key, description_key)) => RenderQuestionView {
            id: question.id,
            title: match key_text(resolved, title_key, requested, default) {
                Some(text) => text,
                None => question.title,
            },
            description: match key_text(resolved, description_key, requested, default) {
                Some(text) => Some(text),
                None => question.description,
            },
        },
        None => question,
    }
}

/// A rendered form with its texts translated.
pub open spec fn localized(payload: RenderPayloadView, spec_value: JsonView, ctx: JsonView)
    -> RenderPayloadView {
    let resolved = context::resolved_texts(ctx);
    RenderPayloadView {
        questions: if resolved.len() == 0 {
            payload.questions
        } else {
            payload.questions.map_values(
                |q: RenderQuestionView|
                    localized_question(
                        q,
                        form_key_map(spec_value),
                        resolved,
                        json::member_string(ctx, "locale"@),
                        form_locale(spec_value),
                    ),
            )
        },
        ..payload
    }
}

fn find_key_text(
    resolved: &Vec<(String, String)>,
    key: &Option<String>,
    requested: Option<&str>,
    default: Option<&str>,
) -> (r: Option<String>)
    ensures
        text::opt_text(r) == key_text(
            entries::text_entries(resolved@),
            text::opt_text(*key),
            opt_str(requested),
            opt_str(default),
        ),
{
    match key {
        Some(key) => resolve_i18n_value(resolved, key.as_str(), requested, default),
        None => None,
    }
}

/// Translates the texts of a rendered form by the texts that the context carries.
pub fn apply_i18n_to_payload(payload: &mut RenderPayload, spec_value: &Json, ctx: &Json)
    ensures
        final(payload)@ == localized(old(payload)@, spec_value@, ctx@),
{
    let resolved = parse_resolved_i18n(ctx);
    let ghost texts = entries::text_entries(resolved@);
    assert(texts.len() == resolved@.len());
    if resolved.len() == 0 {
        return;
    }
    let requested = ctx.get_str("locale");
    let default = match spec_value.get("presentation") {
        Some(presentation) => presentation.get_str("default_locale"),
        None => None,
    };
    let keys = build_question_i18n_key_map(spec_value);
    let ghost key_view = key_map_view(keys@);
    let ghost start = payload@.questions;
    let ghost wanted = localized(payload@, spec_value@, ctx@).questions;
    assert(entries::view_keys(key_view) =~= entries::keys_of(keys@));
    let mut out: Vec<RenderQuestion> = Vec::new();
    let mut i: usize = 0;
    while i < payload.questions.len()
        invariant
            i <= payload.questions@.len(),
            start == render_questions_view(payload.questions@),
            texts == entries::text_entries(resolved@),
            key_view == key_map_view(keys@),
            entries::view_keys(key_view) == entries::keys_of(keys@),
            wanted.len() == start.len(),
            forall|k: int|
                0 <= k < start.len() ==> #[trigger] wanted[k] == localized_question(
                    start[k],
                    key_view,
                    texts,
                    opt_str(requested),
                    opt_str(default),
                ),
            out@.len() == i,
            forall|k: int| 0 <= k < i ==> (#[trigger] out@[k])@ == wanted[k],
        decreases payload.questions.len() - i,
    {
        let question = &payload.questions[i];
        assert(start[i as int] == question@);
        let mut title = question.title.clone();
        let mut description = copy_opt(&question.description);
        match find(&keys, question.id.as_str()) {
            Some(at) => {
                let found = &keys[at].1;
                assert(key_view[at as int].1 == (text::opt_text(found.0), text::opt_text(found.1)));
                if let Some(text) = find_key_text(&resolved, &found.0, requested, default) {
                    title = text;
                }
                if let Some(text) = find_key_text(&resolved, &found.1, requested, default) {
                    description = Some(text);
                }
            },
            None => {},
        }
        out.push(RenderQuestion { id: question.id.clone(), title, description });
        assert(out@[i as int]@ == wanted[i as int]);
        i += 1;
    }
    assert(render_questions_view(out@) =~= wanted);
    payload.questions = out;
}

/// What is told of a question's translation keys, where it has any.
pub open spec fn key_note(
    question: RenderQuestionView,
    keys: Seq<(Seq<char>, (Option<Seq<char>>, Option<Seq<char>>))>,
) -> Option<JsonView> {
    match entries::lookup(keys, question.id) {
        Some((title_key, description_key)) => if title_key is None && description_key is None {
            None
        } else {
            Some(
                JsonView::Object(
                    seq![
                        ("description_key"@, json::opt_string(description_key)),
                        ("id"@, JsonView::String(question.id)),
                        ("title_key"@, json::opt_string(title_key)),
                    ],
                ),
            )
        },
        None => None,
    }
}

/// What is told of the translation keys of several questions.
pub open spec fn key_notes(
    questions: Seq<RenderQuestionView>,
    keys: Seq<(Seq<char>, (Option<Seq<char>>, Option<Seq<char>>))>,
) -> Seq<JsonView>
    decreases questions.len(),
{
    if questions.len() == 0 {
        Seq::empty()
    } else {
        let before = key_notes(questions.drop_last(), keys);
        match key_note(questions.last(), keys) {
            Some(note) => before.push(note),
            None => before,
        }
    }
}

/// A card with a note on the translation keys, where there are any.
pub open spec fn with_key_notes(card: JsonView, payload: RenderPayloadView, spec_value: JsonView)
    -> JsonView {
    let notes = key_notes(payload.questions, form_key_map(spec_value));
    match card {
        JsonView::Object(members) => if notes.len() == 0 {
            card
        } else {
            JsonView::Object(
                entries::put(
                    members,
                    "metadata"@,
                    JsonView::Object(
                        seq![
                            (
                                "qa"@,
                                JsonView::Object(
                                    seq![
                                        ("i18n_debug"@, JsonView::Bool(true)),
                                        ("questions"@, JsonView::Array(notes)),
                                    ],
                                ),
                            ),
                        ],
                    ),
                ),
            )
        },
        _ => card,
    }
}

/// Adds a note on the translation keys to a card.
pub fn attach_i18n_debug_metadata(card: &mut Json, payload: &RenderPayload, spec_value: &Json)
    ensures
        final(card)@ == with_key_notes(old(card)@, payload@, spec_value@),
{
    broadcast use json::lemma_object;

    let keys = build_question_i18n_key_map(spec_value);
    let ghost key_view = key_map_view(keys@);
    let ghost views = payload@.questions;
    assert(entries::view_keys(key_view) =~= entries::keys_of(keys@));
    let mut notes: Vec<Json> = Vec::new();
    let mut i: usize = 0;
    assert(views.take(0) =~= Seq::empty());
    assert(json::items_view(notes@) =~= Seq::empty());
    while i < payload.questions.len()
        invariant
            i <= payload.questions@.len(),
            views == render_questions_view(payload.questions@),
            key_view == key_map_view(keys@),
            entries::view_keys(key_view) == entries::keys_of(keys@),
            json::items_view(notes@) == key_notes(views.take(i as int), key_view),
        decreases payload.questions.len() - i,
    {
        assert(views.take(i + 1).drop_last() =~= views.take(i as int));
        assert(views.take(i + 1).last() == payload.questions@[i as int]@);
        let question = &payload.questions[i];
        match find(&keys, question.id.as_str()) {
            Some(at) => {
                let found = &keys[at].1;
                assert(key_view[at as int].1 == (text::opt_text(found.0), text::opt_text(found.1)));
                if found.0.is_some() || found.1.is_some() {
                    let members = vec![
                        entry("description_key", Json::opt_text(&found.1)),
                        entry("id", Json::String(question.id.clone())),
                        entry("title_key", Json::opt_text(&found.0)),
                    ];
                    assert(json::entries_view(members@) =~= key_note(
                        question@,
                        key_view,
                    )->0->Object_0);
                    let ghost before = json::items_view(notes@);
                    let note = Json::object(members);
                    notes.push(note);
                    assert(json::items_view(notes@) =~= before.push(note@));
                }
            },
            None => {},
        }
        i += 1;
    }
    assert(views.take(i as int) =~= views);
    assert(json::items_view(notes@).len() == notes@.len());
    if notes.len() == 0 {
        return;
    }
    let mut members = match card.as_object() {
        Some(members) => json::copy_entries(members),
        None => {
            return;
        },
    };
    let ghost told = json::items_view(notes@);
    let inner = vec![entry("i18n_debug", Json::Bool(true)), entry("questions", Json::array(notes))];
    assert(json::entries_view(inner@) =~= seq![
        ("i18n_debug"@, JsonView::Bool(true)),
        ("questions"@, JsonView::Array(told)),
    ]);
    let qa = Json::object(inner);
    let ghost qa_view = qa@;
    let outer = vec![entry("qa", qa)];
    assert(json::entries_view(outer@) =~= seq![("qa"@, qa_view)]);
    json::put_member(&mut members, "metadata".to_owned(), Json::object(outer));
    *card = Json::object(members);
}

/// Where the context carries no translated texts, a rendered form stays as it is.
pub proof fn law_untranslated_stays(
    payload: RenderPayloadView,
    spec_value: JsonView,
    ctx: JsonView,
)
    requires
        context::resolved_texts(ctx).len() == 0,
    ensures
        localized(payload, spec_value, ctx) == payload,
{
}

/// Translating changes no id, and neither the progress nor the next question.
pub proof fn law_translation_keeps_ids(
    payload: RenderPayloadView,
    spec_value: JsonView,
    ctx: JsonView,
)
    ensures
        localized(payload, spec_value, ctx).progress == payload.progress,
        localized(payload, spec_value, ctx).next_question_id == payload.next_question_id,
        localized(payload, spec_value, ctx).questions.len() == payload.questions.len(),
        forall|i: int|
            0 <= i < payload.questions.len() ==> (#[trigger] localized(
                payload,
                spec_value,
                ctx,
            ).questions[i]).id == payload.questions[i].id,
{
}

/// The locale that is asked for comes before the form's own, and that before
/// the text under the key alone.
pub proof fn law_requested_locale_first(
    resolved: Seq<(Seq<char>, Seq<char>)>,
    key: Seq<char>,
    requested: Seq<char>,
    default: Option<Seq<char>>,
)
    ensures
        entries::lookup(resolved, requested + ":"@ + key) is Some ==> resolved_text(
            resolved,
            key,
            Some(requested),
            default,
        ) == entries::lookup(resolved, requested + ":"@ + key),
        text_in_locale(resolved, Some(requested), key) is None && text_in_locale(
            resolved,
            default,
            key,
        ) is None ==> resolved_text(resolved, key, Some(requested), default) == entries::lookup(
            resolved,
            key,
        ),
{
}

/// A text is looked for in the requested locale, then in the form's, and then without
/// a locale. In a locale it stands behind a colon, or else behind a slash.
pub proof fn law_resolved_text(
    resolved: Seq<(Seq<char>, Seq<char>)>,
    key: Seq<char>,
    requested: Option<Seq<char>>,
    default: Option<Seq<char>>,
    found: Seq<char>,
)
    ensures
        ({
            let asked = requested is Some && (entries::lookup(resolved, requested->0 + ":"@ + key)
                is Some || entries::lookup(resolved, requested->0 + "/"@ + key) is Some);
            let fallen = default is Some && (entries::lookup(resolved, default->0 + ":"@ + key)
                is Some || entries::lookup(resolved, default->0 + "/"@ + key) is Some);
            let text = resolved_text(resolved, key, requested, default);
            &&& requested is Some && entries::lookup(resolved, requested->0 + ":"@ + key) == Some(
                found,
            ) ==> text == Some(found)
            &&& requested is Some && entries::lookup(resolved, requested->0 + ":"@ + key) is None
                && entries::lookup(resolved, requested->0 + "/"@ + key) == Some(found) ==> text
                == Some(found)
            &&& !asked && default is Some && entries::lookup(resolved, default->0 + ":"@ + key)
                == Some(found) ==> text == Some(found)
            &&& !asked && default is Some && entries::lookup(resolved, default->0 + ":"@ + key)
                is None && entries::lookup(resolved, default->0 + "/"@ + key) == Some(found)
                ==> text == Some(found)
            &&& !asked && !fallen ==> text == entries::lookup(resolved, key)
        }),
{
}

/// The title of a question is the text under its key, where it has a key and there is
/// a text, and else the title that it had. So it is with its description.
pub proof fn law_localized_question(
    question: RenderQuestionView,
    keys: Seq<(Seq<char>, (Option<Seq<char>>, Option<Seq<char>>))>,
    resolved: Seq<(Seq<char>, Seq<char>)>,
    requested: Option<Seq<char>>,
    default: Option<Seq<char>>,
)
    ensures
        ({
            let shown = localized_question(question, keys, resolved, requested, default);
            &&& shown.id == question.id
            &&& entries::lookup(keys, question.id) is None ==> shown == question
            &&& entries::lookup(keys, question.id) matches Some((title_key, description_key)) ==> {
                &&& title_key is None ==> shown.title == question.title
                &&& description_key is None ==> shown.description == question.description
                &&& title_key matches Some(key) ==> match resolved_text(
                    resolved,
                    key,
                    requested,
                    default,
                ) {
                    Some(text) => shown.title == text,
                    None => shown.title == question.title,
                }
                &&& description_key matches Some(key) ==> match resolved_text(
                    resolved,
                    key,
                    requested,
                    default,
                ) {
                    Some(text) => shown.description == Some(text),
                    None => shown.description == question.description,
                }
            }
        }),
{
}

/// Each question is shown in the locale that the context asks for, or else in the
/// form's.
pub proof fn law_localized(
    payload: RenderPayloadView,
    form: JsonView,
    ctx: JsonView,
    i: int,
)
    requires
        0 <= i < payload.questions.len(),
        context::resolved_texts(ctx).len() > 0,
    ensures
        localized(payload, form, ctx).questions[i] == localized_question(
            payload.questions[i],
            form_key_map(form),
            context::resolved_texts(ctx),
            match json::member(ctx, "locale"@) {
                Some(JsonView::String(locale)) => Some(locale),
                _ => None,
            },
            match json::member(form, "presentation"@) {
                Some(presentation) => match json::member(presentation, "default_locale"@) {
                    Some(JsonView::String(locale)) => Some(locale),
                    _ => None,
                },
                None => None,
            },
        ),
{
}

/// The keys of a question's title and description are found under its id. The later
/// of two questions with one id is found, and questions without an id are passed
/// over.
pub proof fn law_keys_of_questions(
    questions: Seq<JsonView>,
    question: JsonView,
    other: Seq<char>,
)
    ensures
        ({
            let n = questions.len() as int;
            let more = key_map(questions.push(question), n + 1);
            match json::member(question, "id"@) {
                Some(JsonView::String(id)) => {
                    &&& entries::lookup(more, id) == Some(
                        (text_key(question, "title_i18n"@), text_key(question, "description_i18n"@)),
                    )
                    &&& other != id ==> entries::lookup(more, other) == entries::lookup(
                        key_map(questions, n),
                        other,
                    )
                },
                _ => more == key_map(questions, n),
            }
        }),
        key_map(questions, 0).len() == 0,
{
    let n = questions.len() as int;
    let longer = questions.push(question);
    lemma_key_map_of_prefix(questions, question, n);
    let keys = (text_key(question, "title_i18n"@), text_key(question, "description_i18n"@));
    if json::member_string(question, "id"@) is Some {
        let id = json::member_string(question, "id"@)->0;
        entries::law_put_then_lookup(key_map(questions, n), id, keys);
        if other != id {
            entries::law_put_keeps_others(key_map(questions, n), id, keys, other);
        }
    }
}

proof fn lemma_key_map_of_prefix(questions: Seq<JsonView>, question: JsonView, n: int)
    requires
        0 <= n <= questions.len(),
    ensures
        key_map(questions.push(question), n) == key_map(questions, n),
    decreases n,
{
    if n > 0 {
        lemma_key_map_of_prefix(questions, question, n - 1);
    }
}

/// The key of a text is the one that its member holds.
pub proof fn law_text_key(question: JsonView, member: Seq<char>, key: Seq<char>)
    ensures
        text_key(question, member) == Some(key) <==> (json::member(question, member) matches Some(
            text,
        ) && json::member(text, "key"@) == Some(JsonView::String(key))),
{
}

/// The keys of a question are noted with its id where it has any, and a key that it
/// lacks is noted as nothing.
pub proof fn law_key_note(
    question: RenderQuestionView,
    keys: Seq<(Seq<char>, (Option<Seq<char>>, Option<Seq<char>>))>,
)
    ensures
        ({
            let note = key_note(question, keys);
            let known = entries::lookup(keys, question.id);
            &&& note is Some <==> (known matches Some((title_key, description_key)) && (title_key
                is Some || description_key is Some))
            &&& note is Some ==> (known matches Some((title_key, description_key))
                && json::member(note->0, "id"@) == Some(JsonView::String(question.id))
                && json::member(note->0, "title_key"@) == Some(json::opt_string(title_key))
                && json::member(note->0, "description_key"@) == Some(
                json::opt_string(description_key),
            ))
        }),
{
    if key_note(question, keys) is Some {
        let members = key_note(question, keys)->0->Object_0;
        reveal_strlit("description_key");
        reveal_strlit("id");
        reveal_strlit("title_key");
        assert("description_key"@.len() == 15 && "id"@.len() == 2 && "title_key"@.len() == 9);
        entries::law_lookup_finds_the_first(members, 0);
        entries::law_lookup_finds_the_first(members, 1);
        entries::law_lookup_finds_the_first(members, 2);
    }
}

/// The notes come in the order of the questions.
pub proof fn law_key_notes(
    questions: Seq<RenderQuestionView>,
    question: RenderQuestionView,
    keys: Seq<(Seq<char>, (Option<Seq<char>>, Option<Seq<char>>))>,
)
    ensures
        key_note(question, keys) matches Some(note) ==> key_notes(questions.push(question), keys)
            == key_notes(questions, keys).push(note),
        key_note(question, keys) is None ==> key_notes(questions.push(question), keys) == key_notes(
            questions,
            keys,
        ),
        key_notes(seq![], keys).len() == 0,
{
    assert(questions.push(question).drop_last() =~= questions);
}

/// A card has the notes among its metadata, where there are any, and is otherwise
/// what it was.
pub proof fn law_noted_keys(
    members: Seq<(Seq<char>, JsonView)>,
    payload: RenderPayloadView,
    form: JsonView,
    other: Seq<char>,
)
    ensures
        ({
            let notes = key_notes(payload.questions, form_key_map(form));
            let card = with_key_notes(JsonView::Object(members), payload, form);
            let qa = json::member(json::member(card, "metadata"@)->0, "qa"@);
            &&& notes.len() == 0 ==> card == JsonView::Object(members)
            &&& other != "metadata"@ ==> json::member(card, other) == entries::lookup(
                members,
                other,
            )
            &&& notes.len() > 0 ==> json::member(card, "metadata"@) is Some && qa is Some
                && json::member(qa->0, "questions"@) == Some(JsonView::Array(notes))
                && json::member(qa->0, "i18n_debug"@) == Some(JsonView::Bool(true))
        }),
{
    let notes = key_notes(payload.questions, form_key_map(form));
    let inner = seq![
        ("i18n_debug"@, JsonView::Bool(true)),
        ("questions"@, JsonView::Array(notes)),
    ];
    let outer = seq![("qa"@, JsonView::Object(inner))];
    reveal_strlit("i18n_debug");
    reveal_strlit("questions");
    assert("i18n_debug"@.len() == 10 && "questions"@.len() == 9);
    entries::law_put_then_lookup(members, "metadata"@, JsonView::Object(outer));
    if other != "metadata"@ {
        entries::law_put_keeps_others(members, "metadata"@, JsonView::Object(outer), other);
    }
    entries::law_lookup_finds_the_first(outer, 0);
    entries::law_lookup_finds_the_first(inner, 0);
    entries::law_lookup_finds_the_first(inner, 1);
}

} // verus!
