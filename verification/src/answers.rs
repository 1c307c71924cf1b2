//! Answers to a form and the outcome of checking them.
use crate::entries;
use crate::json::{self, entry, Json, JsonView};
use crate::cbor::{self, render_cbor};
use crate::json_text;
use crate::text;
use vstd::prelude::*;

verus! {

/// When an answer set was made and last changed.
#[derive(Debug, PartialEq)]
pub struct Meta {
    pub created_at: Option<String>,
    pub updated_at: Option<String>,
}

/// Answers in progress for one version of a form.
#[derive(Debug, PartialEq)]
pub struct AnswerSet {
    pub form_id: String,
    pub spec_version: String,
    pub answers: Json,
    pub meta: Option<Meta>,
}

/// How far a flow has come.
#[derive(Debug, PartialEq)]
pub struct ProgressState {
    pub current_step: Option<String>,
    pub completed: bool,
    pub history: Vec<String>,
}

/// A fault found in an answer. The parameters stand in the order of their names.
#[derive(Debug, PartialEq)]
pub struct ValidationError {
    pub question_id: Option<String>,
    pub path: Option<String>,
    pub message: String,
    pub code: Option<String>,
    pub params: Vec<(String, String)>,
}

/// The outcome of checking answers against a form.
#[derive(Debug, PartialEq)]
pub struct ValidationResult {
    pub valid: bool,
    pub errors: Vec<ValidationError>,
    pub missing_required: Vec<String>,
    pub unknown_fields: Vec<String>,
}

#[verifier::ext_equal]
pub struct ErrorView {
    pub question_id: Option<Seq<char>>,
    pub path: Option<Seq<char>>,
    pub message: Seq<char>,
    pub code: Option<Seq<char>>,
    pub params: Seq<(Seq<char>, Seq<char>)>,
}

#[verifier::ext_equal]
pub struct ResultView {
    pub valid: bool,
    pub errors: Seq<ErrorView>,
    pub missing_required: Seq<Seq<char>>,
    pub unknown_fields: Seq<Seq<char>>,
}

impl View for ValidationError {
    type V = ErrorView;

    open spec fn view(&self) -> ErrorView {
        ErrorView {
            question_id: text::opt_text(self.question_id),
            path: text::opt_text(self.path),
            message: self.message@,
            code: text::opt_text(self.code),
            params: entries::text_entries(self.params@),
        }
    }
}

/// A list of faults, viewed.
pub open spec fn errors_view(list: Seq<ValidationError>) -> Seq<ErrorView> {
    Seq::new(list.len(), |i: int| list[i]@)
}

/// The fault that a check found, viewed.
pub open spec fn opt_error(error: Option<ValidationError>) -> Option<ErrorView> {
    match error {
        Some(e) => Some(e@),
        None => None,
    }
}

impl View for ValidationResult {
    type V = ResultView;

    open spec fn view(&self) -> ResultView {
        ResultView {
            valid: self.valid,
            errors: errors_view(self.errors@),
            missing_required: text::texts(self.missing_required@),
            unknown_fields: text::texts(self.unknown_fields@),
        }
    }
}

/// A member with a text, where there is one.
pub open spec fn opt_member(key: Seq<char>, text: Option<Seq<char>>) -> Seq<
    (Seq<char>, JsonView),
> {
    match text {
        Some(text) => seq![(key, JsonView::String(text))],
        None => Seq::empty(),
    }
}

/// Adds a member with a text, where there is one.
pub fn push_opt(members: &mut Vec<(String, Json)>, key: &str, text: &Option<String>)
    ensures
        json::entries_view(final(members)@) == json::entries_view(old(members)@) + opt_member(
            key@,
            text::opt_text(*text),
        ),
{
    match text {
        Some(text) => {
            members.push(entry(key, Json::String(text.clone())));
        },
        None => {},
    }
    assert(json::entries_view(members@) =~= json::entries_view(old(members)@) + opt_member(
        key@,
        text::opt_text(*text),
    ));
}

/// The metadata of an answer set as JSON.
pub open spec fn meta_json(meta: Meta) -> JsonView {
    JsonView::Object(
        opt_member("created_at"@, text::opt_text(meta.created_at)) + opt_member(
            "updated_at"@,
            text::opt_text(meta.updated_at),
        ),
    )
}

/// The metadata of an answer set as JSON, where it has some.
pub open spec fn opt_meta_json(meta: Option<Meta>) -> Option<JsonView> {
    match meta {
        Some(meta) => Some(meta_json(meta)),
        None => None,
    }
}

/// An answer set as JSON.
pub open spec fn answer_set_json(set: AnswerSet) -> JsonView {
    let head = seq![("answers"@, set.answers@), ("form_id"@, JsonView::String(set.form_id@))];
    let tail = seq![("spec_version"@, JsonView::String(set.spec_version@))];
    JsonView::Object(
        match opt_meta_json(set.meta) {
            Some(meta) => head + seq![("meta"@, meta)] + tail,
            None => head + tail,
        },
    )
}

/// The canonical CBOR of an answer set.
pub open spec fn answer_set_cbor(set: AnswerSet) -> Seq<u8> {
    cbor::cbor_of_value(cbor::canonical(json_text::clean(answer_set_json(set))))
}

impl Meta {
    /// The metadata as JSON.
    pub fn to_json(&self) -> (r: Json)
        ensures
            r@ == meta_json(*self),
    {
        let mut members: Vec<(String, Json)> = Vec::new();
        push_opt(&mut members, "created_at", &self.created_at);
        push_opt(&mut members, "updated_at", &self.updated_at);
        assert(json::entries_view(members@) =~= meta_json(*self)->Object_0);
        Json::object(members)
    }
}

impl AnswerSet {
    /// A fresh answer set without answers.
    pub fn new(form_id: String, spec_version: String) -> (r: AnswerSet)
        ensures
            r.form_id == form_id,
            r.spec_version == spec_version,
            r.answers@ == json::empty_object(),
            r.meta is None,
    {
        AnswerSet { form_id, spec_version, answers: Json::empty(), meta: None }
    }

    /// The answer set as JSON.
    pub fn to_json(&self) -> (r: Json)
        ensures
            r@ == answer_set_json(*self),
    {
        let mut members: Vec<(String, Json)> = Vec::new();
        members.push(entry("answers", self.answers.copy()));
        members.push(entry("form_id", Json::String(self.form_id.clone())));
        if let Some(meta) = &self.meta {
            members.push(entry("meta", meta.to_json()));
        }
        members.push(entry("spec_version", Json::String(self.spec_version.clone())));
        assert(json::entries_view(members@) =~= answer_set_json(*self)->Object_0);
        Json::object(members)
    }

    /// The answer set as canonical CBOR. There are bytes for every answer set.
    pub fn to_cbor(&self) -> (r: Result<Vec<u8>, String>)
        ensures
            r matches Ok(bytes) && bytes@ == answer_set_cbor(*self) && cbor::carries(
                bytes@,
                json_text::clean(answer_set_json(*self)),
            ),
    {
        render_cbor(&self.to_json())
    }
}

/// Equal answer sets have the same bytes, in whatever order their answers were
/// given.
pub proof fn law_equal_sets_have_equal_bytes(
    a: AnswerSet,
    b: AnswerSet,
    given: Seq<(Seq<char>, JsonView)>,
    other: Seq<(Seq<char>, JsonView)>,
)
    requires
        a.form_id@ == b.form_id@,
        a.spec_version@ == b.spec_version@,
        opt_meta_json(a.meta) == opt_meta_json(b.meta),
        a.answers@ == JsonView::Object(given),
        b.answers@ == JsonView::Object(other),
        forall|key: Seq<char>| #[trigger]
            json_text::last_under(given, key) == json_text::last_under(other, key),
    ensures
        answer_set_cbor(a) == answer_set_cbor(b),
{
    json_text::law_member_order_does_not_show(given, other);
    let (x, y) = (answer_set_json(a)->Object_0, answer_set_json(b)->Object_0);
    json_text::lemma_clean_members_alike(x, y, x.len() as int);
}

/// What the bytes of an answer set are read as holds all of the set.
pub proof fn law_json_holds_the_set(set: AnswerSet)
    ensures
        ({
            let read = json_text::clean(answer_set_json(set));
            &&& json::member(read, "answers"@) == Some(json_text::clean(set.answers@))
            &&& json::member(read, "form_id"@) == Some(JsonView::String(set.form_id@))
            &&& json::member(read, "spec_version"@) == Some(JsonView::String(set.spec_version@))
            &&& json::member(read, "meta"@) == match opt_meta_json(set.meta) {
                Some(meta) => Some(json_text::clean(meta)),
                None => None,
            }
        }),
{
    reveal_strlit("answers");
    reveal_strlit("form_id");
    reveal_strlit("meta");
    reveal_strlit("spec_version");
    reveal_with_fuel(json_text::last_under, 5);
    let members = answer_set_json(set)->Object_0;
    let n = members.len() as int;
    assert(members.take(n) =~= members);
    assert("answers"@[0] == 'a' && "form_id"@[0] == 'f');
    assert("meta"@[0] == 'm' && "spec_version"@[0] == 's');
    json_text::lemma_clean_lookup(members, n, "answers"@);
    json_text::lemma_clean_lookup(members, n, "form_id"@);
    json_text::lemma_clean_lookup(members, n, "spec_version"@);
    json_text::lemma_clean_lookup(members, n, "meta"@);
}

/// The bytes of an answer set hold the keys of every map in order, the shorter
/// ones first.
pub proof fn law_keys_of_sets_are_in_order(set: AnswerSet)
    ensures
        cbor::in_canonical_order(cbor::canonical(json_text::clean(answer_set_json(set)))),
{
    json_text::lemma_clean_is_well_formed(answer_set_json(set));
    cbor::law_keys_in_canonical_order(json_text::clean(answer_set_json(set)));
}

/// An answer set is told with its form, the version of the form, its answers, and
/// when it was made and changed where that is known.
pub proof fn law_answer_set_is_told(set: AnswerSet)
    ensures
        ({
            let told = answer_set_json(set);
            &&& json::member(told, "form_id"@) == Some(JsonView::String(set.form_id@))
            &&& json::member(told, "spec_version"@) == Some(JsonView::String(set.spec_version@))
            &&& json::member(told, "answers"@) == Some(set.answers@)
            &&& json::member(told, "meta"@) is Some <==> set.meta is Some
            &&& set.meta matches Some(meta) ==> {
                let shown = json::member(told, "meta"@)->0;
                &&& json::member(shown, "created_at"@) == match meta.created_at {
                    Some(at) => Some(JsonView::String(at@)),
                    None => None,
                }
                &&& json::member(shown, "updated_at"@) == match meta.updated_at {
                    Some(at) => Some(JsonView::String(at@)),
                    None => None,
                }
            }
        }),
{
    reveal_strlit("answers");
    reveal_strlit("form_id");
    reveal_strlit("meta");
    reveal_strlit("spec_version");
    reveal_strlit("created_at");
    reveal_strlit("updated_at");
    assert("answers"@[0] == 'a' && "form_id"@[0] == 'f' && "meta"@[0] == 'm');
    assert("spec_version"@[0] == 's' && "created_at"@[0] == 'c' && "updated_at"@[0] == 'u');
    let members = answer_set_json(set)->Object_0;
    entries::law_lookup_finds_the_first(members, 0);
    entries::law_lookup_finds_the_first(members, 1);
    entries::law_lookup_finds_the_first(members, 2);
    match set.meta {
        Some(meta) => {
            assert(members[2].0 == "meta"@ && members[3].0 == "spec_version"@);
            entries::law_lookup_finds_the_first(members, 3);
            let created = opt_member("created_at"@, text::opt_text(meta.created_at));
            let updated = opt_member("updated_at"@, text::opt_text(meta.updated_at));
            entries::law_lookup_in_parts(created, updated, "created_at"@);
            entries::law_lookup_in_parts(created, updated, "updated_at"@);
            let at = JsonView::String(text::opt_text(meta.created_at)->0);
            let later = JsonView::String(text::opt_text(meta.updated_at)->0);
            entries::law_lookup_in_one(("created_at"@, at), "created_at"@);
            entries::law_lookup_in_one(("created_at"@, at), "updated_at"@);
            entries::law_lookup_in_one(("updated_at"@, later), "created_at"@);
            entries::law_lookup_in_one(("updated_at"@, later), "updated_at"@);
        },
        None => {
            assert(members[2].0 == "spec_version"@);
            entries::law_lookup_finds_nothing_else(members, "meta"@);
        },
    }
}

/// What is said of the outcome of a check is said of the outcome that is there.
pub proof fn law_outcome_is_seen_whole(result: ValidationResult)
    ensures
        result@.valid == result.valid,
        result@.errors.len() == result.errors@.len(),
        forall|i: int|
            0 <= i < result.errors@.len() ==> #[trigger] result@.errors[i] == result.errors@[i]@,
        result@.missing_required.len() == result.missing_required@.len(),
        forall|i: int|
            0 <= i < result.missing_required@.len() ==> #[trigger] result@.missing_required[i]
                == result.missing_required@[i]@,
        result@.unknown_fields.len() == result.unknown_fields@.len(),
        forall|i: int|
            0 <= i < result.unknown_fields@.len() ==> #[trigger] result@.unknown_fields[i]
                == result.unknown_fields@[i]@,
{
}

/// What is said of an error is said of the error that is there.
pub proof fn law_error_is_seen_whole(error: ValidationError)
    ensures
        error@.message == error.message@,
        error@.question_id is Some <==> error.question_id is Some,
        error.question_id is Some ==> error@.question_id->0 == error.question_id->0@,
        error@.path is Some <==> error.path is Some,
        error.path is Some ==> error@.path->0 == error.path->0@,
        error@.code is Some <==> error.code is Some,
        error.code is Some ==> error@.code->0 == error.code->0@,
        error@.params.len() == error.params@.len(),
        forall|i: int|
            0 <= i < error.params@.len() ==> #[trigger] error@.params[i] == (
                error.params@[i].0@,
                error.params@[i].1@,
            ),
{
}

} // verus!
