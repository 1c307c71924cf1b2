//! Contexts, answers and payloads as requests carry them.
use crate::catalog::{self, collect_string_members};
use crate::json::{self, Json, JsonView};
use crate::json_text::{self, parse_json, render_json};
use crate::text;
use vstd::prelude::*;

verus! {

/// What a text reads as, or an empty object where it is no JSON.
pub open spec fn lenient(text: Seq<char>) -> JsonView {
    match json_text::json_of_text(text) {
        Ok(value) => value,
        Err(_) => json::empty_object(),
    }
}

/// The part of a context that the form's expressions see.
pub open spec fn runtime_part(context: JsonView) -> JsonView {
    match json::member(context, "ctx"@) {
        Some(JsonView::Object(members)) => JsonView::Object(members),
        _ => context,
    }
}

/// The part of a context text that the form's expressions see.
pub open spec fn runtime_context(text: Seq<char>) -> JsonView {
    runtime_part(lenient(text))
}

/// The answers that a context carries.
pub open spec fn context_answers(context: JsonView) -> JsonView {
    match json::member(context, "answers"@) {
        Some(answers) => answers,
        None => json::empty_object(),
    }
}

/// Whether a context says that the host can keep secrets: it itself, or else its
/// configuration.
pub open spec fn host_keeps_secrets(context: JsonView) -> bool {
    match json::member_bool(context, "secrets_host_available"@) {
        Some(available) => available,
        None => match json::member(context, "config"@) {
            Some(config) => json::member_bool(config, "secrets_host_available"@) == Some(true),
            None => false,
        },
    }
}

/// The translated texts that a context carries.
pub open spec fn resolved_texts(context: JsonView) -> Seq<(Seq<char>, Seq<char>)> {
    match json::member(context, "i18n_resolved"@) {
        Some(JsonView::Object(members)) => catalog::string_members(members),
        _ => Seq::empty(),
    }
}

/// Whether a context asks for translation keys beside the texts.
pub open spec fn wants_i18n_debug(context: JsonView) -> bool {
    match json::member_bool(context, "debug_i18n"@) {
        Some(wanted) => wanted,
        None => json::member_bool(context, "i18n_debug"@) == Some(true),
    }
}

/// Reads a context.
pub fn parse_context(ctx_json: &str) -> (r: Json)
    ensures
        r@ == lenient(ctx_json@),
{
    match parse_json(ctx_json) {
        Ok(value) => value,
        Err(_) => Json::empty(),
    }
}

/// Reads the part of a context that the form's expressions see.
pub fn parse_runtime_context(ctx_json: &str) -> (r: Json)
    ensures
        r@ == runtime_context(ctx_json@),
{
    broadcast use json::lemma_object;

    let parsed = parse_context(ctx_json);
    match parsed.get("ctx") {
        Some(ctx) => match ctx {
            Json::Object(_) => {
                return ctx.copy();
            },
            _ => {},
        },
        None => {},
    }
    parsed
}

/// The answers that a context carries.
pub fn resolve_context_answers(ctx: &Json) -> (r: Json)
    ensures
        r@ == context_answers(ctx@),
{
    match ctx.get("answers") {
        Some(answers) => answers.copy(),
        None => Json::empty(),
    }
}

/// Reads answers.
pub fn parse_answers(answers_json: &str) -> (r: Json)
    ensures
        r@ == lenient(answers_json@),
{
    parse_context(answers_json)
}

/// Whether a context says that the host can keep secrets.
pub fn secrets_host_available(ctx: &Json) -> (r: bool)
    ensures
        r == host_keeps_secrets(ctx@),
{
    match ctx.get_bool("secrets_host_available") {
        Some(available) => available,
        None => match ctx.get("config") {
            Some(config) => match config.get_bool("secrets_host_available") {
                Some(available) => available,
                None => false,
            },
            None => false,
        },
    }
}

/// The translated texts that a context carries.
pub fn parse_resolved_i18n(ctx: &Json) -> (r: Vec<(String, String)>)
    ensures
        crate::entries::text_entries(r@) == resolved_texts(ctx@),
{
    broadcast use json::lemma_object;

    match ctx.get("i18n_resolved") {
        Some(value) => match value {
            Json::Object(members) => {
                return collect_string_members(members);
            },
            _ => {},
        },
        None => {},
    }
    let none: Vec<(String, String)> = Vec::new();
    assert(crate::entries::text_entries(none@) =~= Seq::empty());
    none
}

/// Whether a context asks for translation keys beside the texts.
pub fn i18n_debug_enabled(ctx: &Json) -> (r: bool)
    ensures
        r == wants_i18n_debug(ctx@),
{
    match ctx.get_bool("debug_i18n") {
        Some(wanted) => wanted,
        None => match ctx.get_bool("i18n_debug") {
            Some(wanted) => wanted,
            None => false,
        },
    }
}

/// The form that a payload names.
pub open spec fn form_id_in(payload: JsonView) -> Seq<char> {
    match json::member_string(payload, "form_id"@) {
        Some(id) => id,
        None => "example-form"@,
    }
}

/// The configuration that a payload carries in its own members.
pub open spec fn inline_config(payload: JsonView) -> JsonView {
    let with_path = match json::member(payload, "qa_form_asset_path"@) {
        Some(path) => crate::entries::put(Seq::empty(), "qa_form_asset_path"@, path),
        None => Seq::empty(),
    };
    JsonView::Object(
        match json::member(payload, "include_registry"@) {
            Some(registry) => crate::entries::put(with_path, "include_registry"@, registry),
            None => with_path,
        },
    )
}

/// The configuration text of a payload: the text that it carries, else its
/// configuration value written out, else the members that stand for one.
pub open spec fn config_text_in(payload: JsonView) -> Seq<char> {
    match json::member_string(payload, "config_json"@) {
        Some(config) => config,
        None => match json::member(payload, "config"@) {
            Some(config) => json_text::shown(config),
            None => if inline_config(payload) == json::empty_object() {
                "{}"@
            } else {
                json_text::shown(inline_config(payload))
            },
        },
    }
}

/// The answers of a payload: a value, or a text that is read.
pub open spec fn answers_in(payload: JsonView) -> JsonView {
    match json::member(payload, "answers"@) {
        Some(JsonView::String(raw)) => lenient(raw),
        Some(answers) => answers,
        None => json::empty_object(),
    }
}

/// The context text of a payload: the text that it carries, or its context
/// value written out.
pub open spec fn ctx_text_in(payload: JsonView) -> Seq<char> {
    match json::member_string(payload, "ctx_json"@) {
        Some(ctx) => ctx,
        None => match json::member(payload, "ctx"@) {
            Some(ctx) => json_text::shown(ctx),
            None => json_text::shown(json::empty_object()),
        },
    }
}

/// The form that a payload names.
pub fn payload_form_id(payload: &Json) -> (r: String)
    ensures
        r@ == form_id_in(payload@),
{
    match payload.get_str("form_id") {
        Some(id) => id.to_owned(),
        None => "example-form".to_owned(),
    }
}

/// The configuration text of a payload.
pub fn payload_config_json(payload: &Json) -> (r: String)
    ensures
        r@ == config_text_in(payload@),
        json::member_string(payload@, "config_json"@) is None && json::member(
            payload@,
            "config"@,
        ) is Some ==> json_text::reads_back(
            r@,
            json_text::clean(json::member(payload@, "config"@)->0),
        ),
{
    if let Some(config) = payload.get_str("config_json") {
        return config.to_owned();
    }
    if let Some(config) = payload.get("config") {
        return render_json(config);
    }
    let mut config: Vec<(String, Json)> = Vec::new();
    assert(json::entries_view(config@) =~= Seq::empty());
    if let Some(path) = payload.get("qa_form_asset_path") {
        json::put_member(&mut config, "qa_form_asset_path".to_owned(), path.copy());
    }
    if let Some(registry) = payload.get("include_registry") {
        json::put_member(&mut config, "include_registry".to_owned(), registry.copy());
    }
    assert(json::entries_view(config@).len() == config@.len());
    if config.len() == 0 {
        assert(json::entries_view(config@) =~= Seq::empty());
        "{}".to_owned()
    } else {
        assert(inline_config(payload@)->Object_0.len() > 0);
        render_json(&Json::object(config))
    }
}

/// The answers of a payload.
pub fn payload_answers(payload: &Json) -> (r: Json)
    ensures
        r@ == answers_in(payload@),
{
    match payload.get("answers") {
        Some(answers) => match answers.as_str() {
            Some(raw) => parse_answers(raw),
            None => answers.copy(),
        },
        None => Json::empty(),
    }
}

/// The context text of a payload.
pub fn payload_ctx_json(payload: &Json) -> (r: String)
    ensures
        r@ == ctx_text_in(payload@),
        json::member_string(payload@, "ctx_json"@) is None && json::member(payload@, "ctx"@)
            is Some ==> json_text::reads_back(
            r@,
            json_text::clean(json::member(payload@, "ctx"@)->0),
        ),
{
    if let Some(ctx) = payload.get_str("ctx_json") {
        return ctx.to_owned();
    }
    match payload.get("ctx") {
        Some(ctx) => render_json(ctx),
        None => render_json(&Json::empty()),
    }
}

/// A text that is JSON is what it is read as; anything else is an empty object.
pub proof fn law_lenient(text: Seq<char>)
    ensures
        json_text::json_of_text(text) matches Ok(value) ==> lenient(text) == value,
        json_text::json_of_text(text) is Err ==> lenient(text) == JsonView::Object(Seq::empty()),
{
}

/// The context of a run is the object under its name in the given one, where there is
/// such an object, and else the given one itself.
pub proof fn law_runtime_part(context: JsonView)
    ensures
        json::member(context, "ctx"@) matches Some(inner) ==> inner is Object ==> runtime_part(
            context,
        ) == inner,
        !(json::member(context, "ctx"@) is Some && json::member(context, "ctx"@)->0 is Object)
            ==> runtime_part(context) == context,
{
}

/// The answers of a context are those under their name, or none.
pub proof fn law_context_answers(context: JsonView)
    ensures
        json::member(context, "answers"@) matches Some(answers) ==> context_answers(context)
            == answers,
        json::member(context, "answers"@) is None ==> context_answers(context) == JsonView::Object(
            Seq::empty(),
        ),
{
}

/// A host keeps secrets where its context says so, or where the context does not say
/// and its configuration does.
pub proof fn law_host_keeps_secrets(context: JsonView)
    ensures
        ({
            let said = json::member(context, "secrets_host_available"@);
            let config = json::member(context, "config"@);
            &&& said == Some(JsonView::Bool(true)) ==> host_keeps_secrets(context)
            &&& said == Some(JsonView::Bool(false)) ==> !host_keeps_secrets(context)
            &&& !(said is Some && said->0 is Bool) ==> (host_keeps_secrets(context) <==> config
                is Some && json::member(config->0, "secrets_host_available"@) == Some(
                JsonView::Bool(true),
            ))
        }),
{
}

/// The keys of texts are noted where the context asks for it, by either name; the
/// first name decides where it is given.
pub proof fn law_wants_i18n_debug(context: JsonView)
    ensures
        ({
            let first = json::member(context, "debug_i18n"@);
            &&& first == Some(JsonView::Bool(true)) ==> wants_i18n_debug(context)
            &&& first == Some(JsonView::Bool(false)) ==> !wants_i18n_debug(context)
            &&& !(first is Some && first->0 is Bool) ==> (wants_i18n_debug(context)
                <==> json::member(context, "i18n_debug"@) == Some(JsonView::Bool(true)))
        }),
{
}

/// A payload names its form, or asks for the example.
pub proof fn law_form_id_in(payload: JsonView)
    ensures
        json::member(payload, "form_id"@) matches Some(JsonView::String(id)) ==> form_id_in(payload)
            == id,
        !(json::member(payload, "form_id"@) is Some && json::member(payload, "form_id"@)->0
            is String) ==> form_id_in(payload) == "example-form"@,
{
}

/// The answers of a payload are those that it gives, read from their text where they
/// are given as one.
pub proof fn law_answers_in(payload: JsonView)
    ensures
        json::member(payload, "answers"@) matches Some(given) ==> {
            &&& !(given is String) ==> answers_in(payload) == given
            &&& given is String ==> answers_in(payload) == lenient(given->String_0)
        },
        json::member(payload, "answers"@) is None ==> answers_in(payload) == JsonView::Object(
            Seq::empty(),
        ),
{
}

/// The configuration of a payload is the text that it gives, or what it gives as a
/// value, written out.
pub proof fn law_config_text_in(payload: JsonView)
    ensures
        json::member(payload, "config_json"@) matches Some(JsonView::String(config))
            ==> config_text_in(payload) == config,
        !(json::member(payload, "config_json"@) is Some && json::member(
            payload,
            "config_json"@,
        )->0 is String) && json::member(payload, "config"@) is Some ==> config_text_in(payload)
            == json_text::shown(json::member(payload, "config"@)->0),
{
}

/// A payload without a configuration gives one by the path of its form and by the
/// forms it registers, each where it is there, and nothing else.
pub proof fn law_inline_config(payload: JsonView, key: Seq<char>)
    ensures
        inline_config(payload) is Object,
        json::member(inline_config(payload), "qa_form_asset_path"@) == json::member(
            payload,
            "qa_form_asset_path"@,
        ),
        json::member(inline_config(payload), "include_registry"@) == json::member(
            payload,
            "include_registry"@,
        ),
        key != "qa_form_asset_path"@ && key != "include_registry"@ ==> json::member(
            inline_config(payload),
            key,
        ) is None,
{
    let none: Seq<(Seq<char>, JsonView)> = Seq::empty();
    let path = json::member(payload, "qa_form_asset_path"@);
    let registry = json::member(payload, "include_registry"@);
    reveal_strlit("qa_form_asset_path");
    reveal_strlit("include_registry");
    assert("qa_form_asset_path"@.len() == 18 && "include_registry"@.len() == 16);
    crate::entries::law_lookup_finds_nothing_else(none, "qa_form_asset_path"@);
    crate::entries::law_lookup_finds_nothing_else(none, "include_registry"@);
    crate::entries::law_lookup_finds_nothing_else(none, key);
    let with_path = match path {
        Some(path) => crate::entries::put(none, "qa_form_asset_path"@, path),
        None => none,
    };
    if path is Some {
        crate::entries::law_put_then_lookup(none, "qa_form_asset_path"@, path->0);
        crate::entries::law_put_keeps_others(
            none,
            "qa_form_asset_path"@,
            path->0,
            "include_registry"@,
        );
        if key != "qa_form_asset_path"@ {
            crate::entries::law_put_keeps_others(none, "qa_form_asset_path"@, path->0, key);
        }
    }
    if registry is Some {
        crate::entries::law_put_then_lookup(with_path, "include_registry"@, registry->0);
        crate::entries::law_put_keeps_others(
            with_path,
            "include_registry"@,
            registry->0,
            "qa_form_asset_path"@,
        );
        if key != "include_registry"@ {
            crate::entries::law_put_keeps_others(
                with_path,
                "include_registry"@,
                registry->0,
                key,
            );
        }
    }
}

/// The context of a payload is the text that it gives, or what it gives as a value,
/// written out; an empty object where it gives neither.
pub proof fn law_ctx_text_in(payload: JsonView)
    ensures
        json::member(payload, "ctx_json"@) matches Some(JsonView::String(ctx)) ==> ctx_text_in(
            payload,
        ) == ctx,
        !(json::member(payload, "ctx_json"@) is Some && json::member(payload, "ctx_json"@)->0
            is String) ==> ctx_text_in(payload) == json_text::shown(
            match json::member(payload, "ctx"@) {
                Some(ctx) => ctx,
                None => JsonView::Object(Seq::empty()),
            },
        ),
{
}

/// The resolved texts of a context are the texts among the members of the object
/// under their name.
pub proof fn law_resolved_texts(context: JsonView)
    ensures
        json::member(context, "i18n_resolved"@) matches Some(JsonView::Object(members))
            ==> resolved_texts(context) == catalog::string_members(members),
        !(json::member(context, "i18n_resolved"@) is Some && json::member(
            context,
            "i18n_resolved"@,
        )->0 is Object) ==> resolved_texts(context).len() == 0,
{
}

/// A payload that gives no configuration at all has an empty one, and one that gives
/// it in parts has those parts written out.
pub proof fn law_config_in_parts(payload: JsonView)
    requires
        !(json::member(payload, "config_json"@) is Some && json::member(
            payload,
            "config_json"@,
        )->0 is String),
        json::member(payload, "config"@) is None,
    ensures
        json::member(payload, "qa_form_asset_path"@) is None && json::member(
            payload,
            "include_registry"@,
        ) is None ==> config_text_in(payload) == "{}"@,
        json::member(payload, "qa_form_asset_path"@) is Some || json::member(
            payload,
            "include_registry"@,
        ) is Some ==> config_text_in(payload) == json_text::shown(inline_config(payload)),
{
    law_inline_config(payload, "config"@);
    crate::entries::law_lookup_finds_nothing_else(
        Seq::<(Seq<char>, JsonView)>::empty(),
        "qa_form_asset_path"@,
    );
    crate::entries::law_lookup_finds_nothing_else(
        Seq::<(Seq<char>, JsonView)>::empty(),
        "include_registry"@,
    );
}

} // verus!
