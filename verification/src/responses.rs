//! Replies to requests, as JSON.
use crate::answers::{self, push_opt, ErrorView, ResultView, ValidationError, ValidationResult};
use crate::entries;
use crate::faults::{self, ComponentError, FaultView};
use crate::json::{self, entry, string_array, Json, JsonView};
use crate::json_text::{self, render_json};
use crate::text;
use vstd::prelude::*;

verus! {

/// A member, where a condition holds.
pub open spec fn member_if(condition: bool, key: Seq<char>, value: JsonView) -> Seq<
    (Seq<char>, JsonView),
> {
    if condition {
        seq![(key, value)]
    } else {
        Seq::empty()
    }
}

/// A map from text to text as JSON.
pub open spec fn text_map_json(map: Seq<(Seq<char>, Seq<char>)>) -> JsonView {
    JsonView::Object(json_text::text_members(map))
}

/// A map from text to text as JSON.
pub fn text_map_value(map: &Vec<(String, String)>) -> (r: Json)
    ensures
        r@ == text_map_json(entries::text_entries(map@)),
{
    let mut members: Vec<(String, Json)> = Vec::new();
    let mut i: usize = 0;
    while i < map.len()
        invariant
            i <= map@.len(),
            members@.len() == i,
            forall|k: int|
                0 <= k < i ==> (#[trigger] members@[k]).0@ == map@[k].0@ && members@[k].1@
                    == JsonView::String(map@[k].1@),
        decreases map.len() - i,
    {
        members.push((map[i].0.clone(), Json::String(map[i].1.clone())));
        i += 1;
    }
    assert(json::entries_view(members@) =~= text_map_json(
        entries::text_entries(map@),
    )->Object_0);
    Json::object(members)
}

/// A fault of an answer as JSON.
pub open spec fn error_json(error: ErrorView) -> JsonView {
    JsonView::Object(
        answers::opt_member("code"@, error.code) + seq![
            ("message"@, JsonView::String(error.message)),
        ] + member_if(error.params.len() > 0, "params"@, text_map_json(error.params))
            + answers::opt_member("path"@, error.path) + answers::opt_member(
            "question_id"@,
            error.question_id,
        ),
    )
}

/// Several faults as JSON.
pub open spec fn errors_json(errors: Seq<ErrorView>) -> JsonView {
    JsonView::Array(errors.map_values(|e: ErrorView| error_json(e)))
}

/// The outcome of checking answers as JSON.
pub open spec fn result_json(result: ResultView) -> JsonView {
    JsonView::Object(
        member_if(result.errors.len() > 0, "errors"@, errors_json(result.errors)) + member_if(
            result.missing_required.len() > 0,
            "missing_required"@,
            json::strings(result.missing_required),
        ) + member_if(
            result.unknown_fields.len() > 0,
            "unknown_fields"@,
            json::strings(result.unknown_fields),
        ) + seq![("valid"@, JsonView::Bool(result.valid))],
    )
}

/// A fault of an answer as JSON.
pub fn error_value(error: &ValidationError) -> (r: Json)
    ensures
        r@ == error_json(error@),
{
    let mut members: Vec<(String, Json)> = Vec::new();
    push_opt(&mut members, "code", &error.code);
    members.push(entry("message", Json::String(error.message.clone())));
    assert(entries::text_entries(error.params@).len() == error.params@.len());
    if error.params.len() > 0 {
        members.push(entry("params", text_map_value(&error.params)));
    }
    push_opt(&mut members, "path", &error.path);
    push_opt(&mut members, "question_id", &error.question_id);
    assert(json::entries_view(members@) =~= error_json(error@)->Object_0);
    Json::object(members)
}

/// Several faults as JSON.
pub fn errors_value(errors: &Vec<ValidationError>) -> (r: Json)
    ensures
        r@ == errors_json(answers::errors_view(errors@)),
{
    let mut items: Vec<Json> = Vec::new();
    let mut i: usize = 0;
    while i < errors.len()
        invariant
            i <= errors@.len(),
            items@.len() == i,
            forall|k: int| 0 <= k < i ==> (#[trigger] items@[k])@ == error_json(errors@[k]@),
        decreases errors.len() - i,
    {
        items.push(error_value(&errors[i]));
        i += 1;
    }
    assert(json::items_view(items@) =~= errors_json(answers::errors_view(errors@))->Array_0);
    Json::array(items)
}

/// The outcome of checking answers as JSON.
pub fn result_value(result: &ValidationResult) -> (r: Json)
    ensures
        r@ == result_json(result@),
{
    let mut members: Vec<(String, Json)> = Vec::new();
    assert(answers::errors_view(result.errors@).len() == result.errors@.len());
    assert(text::texts(result.missing_required@).len() == result.missing_required@.len());
    assert(text::texts(result.unknown_fields@).len() == result.unknown_fields@.len());
    if result.errors.len() > 0 {
        members.push(entry("errors", errors_value(&result.errors)));
    }
    if result.missing_required.len() > 0 {
        members.push(entry("missing_required", string_array(&result.missing_required)));
    }
    if result.unknown_fields.len() > 0 {
        members.push(entry("unknown_fields", string_array(&result.unknown_fields)));
    }
    members.push(entry("valid", Json::Bool(result.valid)));
    assert(json::entries_view(members@) =~= result_json(result@)->Object_0);
    Json::object(members)
}

/// The reply to a request: its value, or an object that says what went wrong.
pub open spec fn reply(result: Result<JsonView, FaultView>) -> JsonView {
    match result {
        Ok(value) => value,
        Err(fault) => JsonView::Object(
            seq![("error"@, JsonView::String(faults::fault_message(fault)))],
        ),
    }
}

/// What a request came to, viewed.
pub open spec fn result_view(result: Result<Json, ComponentError>) -> Result<JsonView, FaultView> {
    match result {
        Ok(value) => Ok(value@),
        Err(fault) => Err(fault@),
    }
}

/// The object that says what went wrong.
pub fn error_reply(fault: &ComponentError) -> (r: Json)
    ensures
        r@ == reply(Err(fault@)),
{
    let members = vec![entry("error", Json::String(fault.message()))];
    assert(json::entries_view(members@) =~= reply(Err(fault@))->Object_0);
    Json::object(members)
}

/// Whether a text is the one that is written for a value, and reads back as it.
pub open spec fn says(text: Seq<char>, value: JsonView) -> bool {
    &&& text == json_text::shown(value)
    &&& json_text::reads_back(text, json_text::clean(value))
}

/// The text of the reply to a request.
pub fn respond(result: Result<Json, ComponentError>) -> (r: String)
    ensures
        says(r@, reply(result_view(result))),
{
    match result {
        Ok(value) => render_json(&value),
        Err(fault) => render_json(&error_reply(&fault)),
    }
}

/// The text of the reply to a request that comes to a text.
pub fn respond_string(result: Result<String, ComponentError>) -> (r: String)
    ensures
        match result {
            Ok(value) => r@ == value@,
            Err(fault) => says(r@, reply(Err(fault@))),
        },
{
    match result {
        Ok(value) => value,
        Err(fault) => render_json(&error_reply(&fault)),
    }
}

proof fn lemma_member_if(condition: bool, key: Seq<char>, value: JsonView, asked: Seq<char>)
    ensures
        crate::entries::lookup(member_if(condition, key, value), asked) == if condition && key
            == asked {
            Some(value)
        } else {
            None
        },
{
    crate::entries::law_lookup_in_one((key, value), asked);
}

proof fn lemma_opt_member(key: Seq<char>, text: Option<Seq<char>>, asked: Seq<char>)
    ensures
        crate::entries::lookup(answers::opt_member(key, text), asked) == if text is Some && key
            == asked {
            Some(JsonView::String(text->0))
        } else {
            None
        },
{
    crate::entries::law_lookup_in_one((key, JsonView::String(text->0)), asked);
}

/// An error is told with its message, and with its code, its path, its question and
/// its parameters where it has any.
pub proof fn law_error_is_told(error: ErrorView)
    ensures
        ({
            let told = error_json(error);
            &&& json::member(told, "message"@) == Some(JsonView::String(error.message))
            &&& json::member(told, "code"@) == match error.code {
                Some(code) => Some(JsonView::String(code)),
                None => None,
            }
            &&& json::member(told, "path"@) == match error.path {
                Some(path) => Some(JsonView::String(path)),
                None => None,
            }
            &&& json::member(told, "question_id"@) == match error.question_id {
                Some(id) => Some(JsonView::String(id)),
                None => None,
            }
            &&& error.params.len() == 0 ==> json::member(told, "params"@) is None
            &&& error.params.len() > 0 ==> (json::member(told, "params"@) matches Some(
                JsonView::Object(params),
            ) && params.len() == error.params.len() && forall|i: int|
                0 <= i < params.len() ==> (#[trigger] params[i]) == (
                    error.params[i].0,
                    JsonView::String(error.params[i].1),
                ))
        }),
{
    reveal_strlit("code");
    reveal_strlit("message");
    reveal_strlit("params");
    reveal_strlit("path");
    reveal_strlit("question_id");
    assert("code"@.len() == 4 && "message"@.len() == 7 && "params"@.len() == 6);
    assert("path"@.len() == 4 && "question_id"@.len() == 11);
    assert("code"@[0] == 'c' && "path"@[0] == 'p');
    let code = answers::opt_member("code"@, error.code);
    let message = seq![("message"@, JsonView::String(error.message))];
    let params = member_if(error.params.len() > 0, "params"@, text_map_json(error.params));
    let path = answers::opt_member("path"@, error.path);
    let id = answers::opt_member("question_id"@, error.question_id);
    assert forall|key: Seq<char>| true implies #[trigger] json::member(error_json(error), key)
        == match crate::entries::lookup(code, key) {
        Some(value) => Some(value),
        None => match crate::entries::lookup(message, key) {
            Some(value) => Some(value),
            None => match crate::entries::lookup(params, key) {
                Some(value) => Some(value),
                None => match crate::entries::lookup(path, key) {
                    Some(value) => Some(value),
                    None => crate::entries::lookup(id, key),
                },
            },
        },
    } by {
        crate::entries::law_lookup_in_parts(code, message, key);
        crate::entries::law_lookup_in_parts(code + message, params, key);
        crate::entries::law_lookup_in_parts(code + message + params, path, key);
        crate::entries::law_lookup_in_parts(code + message + params + path, id, key);
    }
    assert forall|key: Seq<char>| true implies #[trigger] crate::entries::lookup(code, key) == (
    if error.code is Some && "code"@ == key {
        Some(JsonView::String(error.code->0))
    } else {
        None
    }) by {
        lemma_opt_member("code"@, error.code, key);
    }
    assert forall|key: Seq<char>| true implies #[trigger] crate::entries::lookup(message, key) == (
    if "message"@ == key {
        Some(JsonView::String(error.message))
    } else {
        None
    }) by {
        crate::entries::law_lookup_in_one(("message"@, JsonView::String(error.message)), key);
    }
    assert forall|key: Seq<char>| true implies #[trigger] crate::entries::lookup(params, key) == (
    if error.params.len() > 0 && "params"@ == key {
        Some(text_map_json(error.params))
    } else {
        None
    }) by {
        lemma_member_if(error.params.len() > 0, "params"@, text_map_json(error.params), key);
    }
    assert forall|key: Seq<char>| true implies #[trigger] crate::entries::lookup(path, key) == (
    if error.path is Some && "path"@ == key {
        Some(JsonView::String(error.path->0))
    } else {
        None
    }) by {
        lemma_opt_member("path"@, error.path, key);
    }
    assert forall|key: Seq<char>| true implies #[trigger] crate::entries::lookup(id, key) == (
    if error.question_id is Some && "question_id"@ == key {
        Some(JsonView::String(error.question_id->0))
    } else {
        None
    }) by {
        lemma_opt_member("question_id"@, error.question_id, key);
    }
}

/// The errors are told each in its place.
pub proof fn law_errors_are_told(errors: Seq<ErrorView>)
    ensures
        errors_json(errors) is Array,
        errors_json(errors)->Array_0.len() == errors.len(),
        forall|i: int|
            0 <= i < errors.len() ==> #[trigger] errors_json(errors)->Array_0[i] == error_json(
                errors[i],
            ),
{
}

/// The outcome of a check is told with whether the answers are valid, and with what
/// was found where anything was.
pub proof fn law_result_is_told(result: ResultView)
    ensures
        ({
            let told = result_json(result);
            &&& json::member(told, "valid"@) == Some(JsonView::Bool(result.valid))
            &&& json::member(told, "errors"@) == if result.errors.len() > 0 {
                Some(errors_json(result.errors))
            } else {
                None
            }
            &&& json::member(told, "missing_required"@) == if result.missing_required.len() > 0 {
                Some(json::strings(result.missing_required))
            } else {
                None
            }
            &&& json::member(told, "unknown_fields"@) == if result.unknown_fields.len() > 0 {
                Some(json::strings(result.unknown_fields))
            } else {
                None
            }
        }),
{
    reveal_strlit("errors");
    reveal_strlit("missing_required");
    reveal_strlit("unknown_fields");
    reveal_strlit("valid");
    assert("errors"@.len() == 6 && "missing_required"@.len() == 16);
    assert("unknown_fields"@.len() == 14 && "valid"@.len() == 5);
    let errors = member_if(result.errors.len() > 0, "errors"@, errors_json(result.errors));
    let missing = member_if(
        result.missing_required.len() > 0,
        "missing_required"@,
        json::strings(result.missing_required),
    );
    let unknown = member_if(
        result.unknown_fields.len() > 0,
        "unknown_fields"@,
        json::strings(result.unknown_fields),
    );
    let valid = seq![("valid"@, JsonView::Bool(result.valid))];
    assert forall|key: Seq<char>| true implies #[trigger] json::member(result_json(result), key)
        == match crate::entries::lookup(errors, key) {
        Some(value) => Some(value),
        None => match crate::entries::lookup(missing, key) {
            Some(value) => Some(value),
            None => match crate::entries::lookup(unknown, key) {
                Some(value) => Some(value),
                None => crate::entries::lookup(valid, key),
            },
        },
    } by {
        crate::entries::law_lookup_in_parts(errors, missing, key);
        crate::entries::law_lookup_in_parts(errors + missing, unknown, key);
        crate::entries::law_lookup_in_parts(errors + missing + unknown, valid, key);
    }
    assert forall|key: Seq<char>| true implies #[trigger] crate::entries::lookup(errors, key) == (
    if result.errors.len() > 0 && "errors"@ == key {
        Some(errors_json(result.errors))
    } else {
        None
    }) by {
        lemma_member_if(result.errors.len() > 0, "errors"@, errors_json(result.errors), key);
    }
    assert forall|key: Seq<char>| true implies #[trigger] crate::entries::lookup(missing, key) == (
    if result.missing_required.len() > 0 && "missing_required"@ == key {
        Some(json::strings(result.missing_required))
    } else {
        None
    }) by {
        lemma_member_if(
            result.missing_required.len() > 0,
            "missing_required"@,
            json::strings(result.missing_required),
            key,
        );
    }
    assert forall|key: Seq<char>| true implies #[trigger] crate::entries::lookup(unknown, key) == (
    if result.unknown_fields.len() > 0 && "unknown_fields"@ == key {
        Some(json::strings(result.unknown_fields))
    } else {
        None
    }) by {
        lemma_member_if(
            result.unknown_fields.len() > 0,
            "unknown_fields"@,
            json::strings(result.unknown_fields),
            key,
        );
    }
    crate::entries::law_lookup_in_one(("valid"@, JsonView::Bool(result.valid)), "valid"@);
    crate::entries::law_lookup_in_one(("valid"@, JsonView::Bool(result.valid)), "errors"@);
    crate::entries::law_lookup_in_one(
        ("valid"@, JsonView::Bool(result.valid)),
        "missing_required"@,
    );
    crate::entries::law_lookup_in_one(("valid"@, JsonView::Bool(result.valid)), "unknown_fields"@);
}

/// A result is replied as it is, and a fault as its message.
pub proof fn law_replies(result: Result<JsonView, FaultView>)
    ensures
        result matches Ok(value) ==> reply(result) == value,
        result matches Err(fault) ==> json::member(reply(result), "error"@) == Some(
            JsonView::String(faults::fault_message(fault)),
        ),
{
    if result is Err {
        crate::entries::law_lookup_finds_the_first(reply(result)->Object_0, 0);
    }
}

} // verus!
