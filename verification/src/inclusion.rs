//! Forms made of other forms: prefixing ids and paths, and expanding inclusions.
use crate::entries::{self, find};
use crate::json::{self, copy_entries, copy_items, put_member, Json, JsonView};
use crate::text::{self, cat3, chars_of, contains_text, same};
use vstd::prelude::*;

verus! {

/// How `Debug` shows a list of strings.
pub uninterp spec fn debug_text(list: Seq<Seq<char>>) -> Seq<char>;

/// `Debug` on a vector of strings, through `format!`.
#[verifier::external_body]
pub(crate) fn show_list(list: &Vec<String>) -> (r: String)
    ensures
        r@ == debug_text(text::texts(list@)),
{
    format!("{:?}", list)
}

/// The prefix of a form included under `child` by a form with the prefix `parent`.
pub open spec fn combined(parent: Seq<char>, child: Option<Seq<char>>) -> Seq<char> {
    let own = match child {
        Some(c) => c,
        None => Seq::empty(),
    };
    if parent.len() == 0 {
        own
    } else if own.len() == 0 {
        parent
    } else {
        parent + "."@ + own
    }
}

/// A key under a prefix.
pub open spec fn prefixed_key(prefix: Seq<char>, key: Seq<char>) -> Seq<char> {
    if prefix.len() == 0 {
        key
    } else {
        prefix + "."@ + key
    }
}

/// An answer path under a prefix. An empty or absolute path stays as it is.
pub open spec fn prefixed_path(prefix: Seq<char>, path: Seq<char>) -> Seq<char> {
    if path.len() == 0 || path[0] == '/' || prefix.len() == 0 {
        path
    } else {
        prefix + "."@ + path
    }
}

/// Whether an expression names an answer.
pub open spec fn names_answer(expr: JsonView) -> bool {
    json::member_string(expr, "op"@) == Some("answer"@) || json::member_string(expr, "op"@) == Some(
        "is_set"@,
    )
}

/// An expression with its answer paths under a prefix.
pub open spec fn prefixed_expr(expr: JsonView, prefix: Seq<char>) -> JsonView
    decreases expr, 0int,
{
    match expr {
        JsonView::Object(entries) => JsonView::Object(
            Seq::new(
                entries.len(),
                |i: int|
                    if 0 <= i < entries.len() {
                        (
                            entries[i].0,
                            prefixed_part(names_answer(expr), entries[i].0, entries[i].1, prefix),
                        )
                    } else {
                        (Seq::empty(), JsonView::Null)
                    },
            ),
        ),
        _ => expr,
    }
}

/// A member of an expression with its answer paths under a prefix.
pub open spec fn prefixed_part(
    answer: bool,
    key: Seq<char>,
    value: JsonView,
    prefix: Seq<char>,
) -> JsonView
    decreases value, 1int,
{
    if key == "path"@ {
        match value {
            JsonView::String(s) => if answer {
                JsonView::String(prefixed_path(prefix, s))
            } else {
                value
            },
            _ => value,
        }
    } else if key == "expression"@ || key == "left"@ || key == "right"@ {
        prefixed_expr(value, prefix)
    } else if key == "expressions"@ {
        match value {
            JsonView::Array(items) => JsonView::Array(
                Seq::new(
                    items.len(),
                    |i: int|
                        if 0 <= i < items.len() {
                            prefixed_expr(items[i], prefix)
                        } else {
                            JsonView::Null
                        },
                ),
            ),
            _ => value,
        }
    } else {
        value
    }
}

/// The prefix of a form included by another.
pub fn combine_prefix(parent: &str, child: Option<&str>) -> (r: String)
    ensures
        r@ == combined(
            parent@,
            match child {
                Some(c) => Some(c@),
                None => None,
            },
        ),
{
    match child {
        Some(own) => {
            if parent.is_empty() {
                own.to_owned()
            } else if own.is_empty() {
                parent.to_owned()
            } else {
                cat3(parent, ".", own)
            }
        },
        None => parent.to_owned(),
    }
}

/// A key under a prefix.
pub fn prefix_key(prefix: &str, key: &str) -> (r: String)
    ensures
        r@ == prefixed_key(prefix@, key@),
{
    if prefix.is_empty() {
        key.to_owned()
    } else {
        cat3(prefix, ".", key)
    }
}

/// An answer path under a prefix.
pub fn prefix_path(prefix: &str, path: &str) -> (r: String)
    ensures
        r@ == prefixed_path(prefix@, path@),
{
    let chars = chars_of(path);
    if chars.len() == 0 || chars[0] == '/' || prefix.is_empty() {
        path.to_owned()
    } else {
        cat3(prefix, ".", path)
    }
}

/// An expression with its answer paths under a prefix.
pub fn prefix_expr_value(expr: &Json, prefix: &str) -> (r: Json)
    ensures
        r@ == prefixed_expr(expr@, prefix@),
    decreases expr, 0int,
{
    match expr {
        Json::Object(entries) => {
            let answer = match expr.get_str("op") {
                Some(op) => same(op, "answer") || same(op, "is_set"),
                None => false,
            };
            proof {
                json::lemma_object(*entries);
            }
            let mut out: Vec<(String, Json)> = Vec::new();
            let mut i: usize = 0;
            while i < entries.len()
                invariant
                    i <= entries@.len(),
                    expr == Json::Object(*entries),
                    out@.len() == i,
                    answer == names_answer(expr@),
                    forall|k: int|
                        0 <= k < i ==> (#[trigger] out@[k]).0@ == entries@[k].0@ && out@[k].1@
                            == prefixed_part(answer, entries@[k].0@, entries@[k].1@, prefix@),
                decreases entries.len() - i,
            {
                let key = entries[i].0.clone();
                proof {
                    json::lemma_member_smaller(*expr, i as int);
                }
                let value = prefix_expr_part(answer, key.as_str(), &entries[i].1, prefix);
                out.push((key, value));
                i += 1;
            }
            assert(json::entries_view(out@) =~= prefixed_expr(expr@, prefix@)->Object_0);
            Json::object(out)
        },
        _ => expr.copy(),
    }
}

/// A member of an expression with its answer paths under a prefix.
fn prefix_expr_part(answer: bool, key: &str, value: &Json, prefix: &str) -> (r: Json)
    ensures
        r@ == prefixed_part(answer, key@, value@, prefix@),
    decreases value, 1int,
{
    if same(key, "path") {
        match value {
            Json::String(s) => if answer {
                Json::String(prefix_path(prefix, s.as_str()))
            } else {
                value.copy()
            },
            _ => value.copy(),
        }
    } else if same(key, "expression") || same(key, "left") || same(key, "right") {
        prefix_expr_value(value, prefix)
    } else if same(key, "expressions") {
        match value {
            Json::Array(items) => {
                proof {
                    json::lemma_array(*items);
                }
                let mut out: Vec<Json> = Vec::new();
                let mut i: usize = 0;
                while i < items.len()
                    invariant
                        i <= items@.len(),
                        value == Json::Array(*items),
                        out@.len() == i,
                        forall|k: int|
                            0 <= k < i ==> #[trigger] out@[k]@ == prefixed_expr(items@[k]@, prefix@),
                    decreases items.len() - i,
                {
                    proof {
                        json::lemma_item_smaller(*value, i as int);
                    }
                    let item = prefix_expr_value(&items[i], prefix);
                    out.push(item);
                    i += 1;
                }
                assert(json::items_view(out@) =~= prefixed_part(
                    answer,
                    key@,
                    value@,
                    prefix@,
                )->Array_0);
                Json::array(out)
            },
            _ => value.copy(),
        }
    } else {
        value.copy()
    }
}

/// A cross-field rule with its fields and its condition under a prefix.
pub open spec fn prefixed_rule(rule: JsonView, prefix: Seq<char>) -> JsonView {
    match rule {
        JsonView::Object(entries) => if prefix.len() == 0 {
            rule
        } else {
            JsonView::Object(
                Seq::new(
                    entries.len(),
                    |i: int| (entries[i].0, prefixed_rule_part(entries[i].0, entries[i].1, prefix)),
                ),
            )
        },
        _ => rule,
    }
}

/// A string under a prefix. Any other value stays as it is.
pub open spec fn prefixed_string(value: JsonView, prefix: Seq<char>) -> JsonView {
    match value {
        JsonView::String(s) => JsonView::String(prefixed_key(prefix, s)),
        _ => value,
    }
}

/// A member of a cross-field rule with its fields and its condition under a prefix.
pub open spec fn prefixed_rule_part(key: Seq<char>, value: JsonView, prefix: Seq<char>) -> JsonView {
    if key == "fields"@ {
        match value {
            JsonView::Array(items) => JsonView::Array(
                Seq::new(items.len(), |i: int| prefixed_string(items[i], prefix)),
            ),
            _ => value,
        }
    } else if key == "condition"@ {
        prefixed_expr(value, prefix)
    } else {
        value
    }
}

/// A question with its id, its expressions and its list fields under a prefix.
pub open spec fn prefixed_question(question: JsonView, prefix: Seq<char>) -> JsonView
    decreases question, 0int,
{
    match question {
        JsonView::Object(entries) => if prefix.len() == 0 {
            question
        } else {
            JsonView::Object(
                Seq::new(
                    entries.len(),
                    |i: int|
                        if 0 <= i < entries.len() {
                            (
                                entries[i].0,
                                prefixed_question_part(entries[i].0, entries[i].1, prefix),
                            )
                        } else {
                            (Seq::empty(), JsonView::Null)
                        },
                ),
            )
        },
        _ => question,
    }
}

/// A member of a question with its ids and expressions under a prefix.
pub open spec fn prefixed_question_part(
    key: Seq<char>,
    value: JsonView,
    prefix: Seq<char>,
) -> JsonView
    decreases value, 1int,
{
    if key == "id"@ {
        prefixed_string(value, prefix)
    } else if key == "visible_if"@ || key == "computed"@ {
        prefixed_expr(value, prefix)
    } else if key == "list"@ {
        match value {
            JsonView::Object(entries) => JsonView::Object(
                Seq::new(
                    entries.len(),
                    |i: int|
                        if 0 <= i < entries.len() {
                            (
                                entries[i].0,
                                prefixed_fields(entries[i].0, entries[i].1, prefix),
                            )
                        } else {
                            (Seq::empty(), JsonView::Null)
                        },
                ),
            ),
            _ => value,
        }
    } else {
        value
    }
}

/// A member of a list definition: its fields are questions under the prefix.
pub open spec fn prefixed_fields(key: Seq<char>, value: JsonView, prefix: Seq<char>) -> JsonView
    decreases value, 1int,
{
    match value {
        JsonView::Array(items) => if key == "fields"@ {
            JsonView::Array(
                Seq::new(
                    items.len(),
                    |i: int|
                        if 0 <= i < items.len() {
                            prefixed_question(items[i], prefix)
                        } else {
                            JsonView::Null
                        },
                ),
            )
        } else {
            value
        },
        _ => value,
    }
}

/// A string under a prefix. Any other value stays as it is.
fn prefix_string(value: &Json, prefix: &str) -> (r: Json)
    ensures
        r@ == prefixed_string(value@, prefix@),
{
    match value {
        Json::String(s) => Json::String(prefix_key(prefix, s.as_str())),
        _ => value.copy(),
    }
}

/// A cross-field rule with its fields and its condition under a prefix.
pub fn prefix_validation_value(validation: &Json, prefix: &str) -> (r: Json)
    ensures
        r@ == prefixed_rule(validation@, prefix@),
{
    if prefix.is_empty() {
        return validation.copy();
    }
    match validation {
        Json::Object(entries) => {
            proof {
                json::lemma_object(*entries);
            }
            let mut out: Vec<(String, Json)> = Vec::new();
            let mut i: usize = 0;
            while i < entries.len()
                invariant
                    i <= entries@.len(),
                    out@.len() == i,
                    forall|k: int|
                        0 <= k < i ==> (#[trigger] out@[k]).0@ == entries@[k].0@ && out@[k].1@
                            == prefixed_rule_part(entries@[k].0@, entries@[k].1@, prefix@),
                decreases entries.len() - i,
            {
                let key = entries[i].0.clone();
                let value = prefix_validation_part(key.as_str(), &entries[i].1, prefix);
                out.push((key, value));
                i += 1;
            }
            assert(json::entries_view(out@) =~= prefixed_rule(validation@, prefix@)->Object_0);
            Json::object(out)
        },
        _ => validation.copy(),
    }
}

/// A member of a cross-field rule with its fields and its condition under a prefix.
fn prefix_validation_part(key: &str, value: &Json, prefix: &str) -> (r: Json)
    ensures
        r@ == prefixed_rule_part(key@, value@, prefix@),
{
    if same(key, "fields") {
        match value {
            Json::Array(items) => {
                proof {
                    json::lemma_array(*items);
                }
                let mut out: Vec<Json> = Vec::new();
                let mut i: usize = 0;
                while i < items.len()
                    invariant
                        i <= items@.len(),
                        out@.len() == i,
                        forall|k: int|
                            0 <= k < i ==> #[trigger] out@[k]@ == prefixed_string(
                                items@[k]@,
                                prefix@,
                            ),
                    decreases items.len() - i,
                {
                    let item = prefix_string(&items[i], prefix);
                    out.push(item);
                    i += 1;
                }
                assert(json::items_view(out@) =~= prefixed_rule_part(
                    key@,
                    value@,
                    prefix@,
                )->Array_0);
                Json::array(out)
            },
            _ => value.copy(),
        }
    } else if same(key, "condition") {
        prefix_expr_value(value, prefix)
    } else {
        value.copy()
    }
}

/// A question with its id, its expressions and its list fields under a prefix.
pub fn prefix_question_value(question: &Json, prefix: &str) -> (r: Json)
    ensures
        r@ == prefixed_question(question@, prefix@),
    decreases question, 0int,
{
    if prefix.is_empty() {
        return question.copy();
    }
    match question {
        Json::Object(entries) => {
            proof {
                json::lemma_object(*entries);
            }
            let mut out: Vec<(String, Json)> = Vec::new();
            let mut i: usize = 0;
            while i < entries.len()
                invariant
                    i <= entries@.len(),
                    question == Json::Object(*entries),
                    out@.len() == i,
                    forall|k: int|
                        0 <= k < i ==> (#[trigger] out@[k]).0@ == entries@[k].0@ && out@[k].1@
                            == prefixed_question_part(entries@[k].0@, entries@[k].1@, prefix@),
                decreases entries.len() - i,
            {
                let key = entries[i].0.clone();
                proof {
                    json::lemma_member_smaller(*question, i as int);
                }
                let value = prefix_question_part(key.as_str(), &entries[i].1, prefix);
                out.push((key, value));
                i += 1;
            }
            assert(json::entries_view(out@) =~= prefixed_question(question@, prefix@)->Object_0);
            Json::object(out)
        },
        _ => question.copy(),
    }
}

/// A member of a question with its ids and expressions under a prefix.
fn prefix_question_part(key: &str, value: &Json, prefix: &str) -> (r: Json)
    ensures
        r@ == prefixed_question_part(key@, value@, prefix@),
    decreases value, 1int,
{
    if same(key, "id") {
        prefix_string(value, prefix)
    } else if same(key, "visible_if") || same(key, "computed") {
        prefix_expr_value(value, prefix)
    } else if same(key, "list") {
        match value {
            Json::Object(entries) => {
                proof {
                    json::lemma_object(*entries);
                }
                let mut out: Vec<(String, Json)> = Vec::new();
                let mut i: usize = 0;
                while i < entries.len()
                    invariant
                        i <= entries@.len(),
                        value == Json::Object(*entries),
                        out@.len() == i,
                        forall|k: int|
                            0 <= k < i ==> (#[trigger] out@[k]).0@ == entries@[k].0@ && out@[k].1@
                                == prefixed_fields(entries@[k].0@, entries@[k].1@, prefix@),
                    decreases entries.len() - i,
                {
                    let name = entries[i].0.clone();
                    proof {
                        json::lemma_member_smaller(*value, i as int);
                    }
                    let part = prefix_list_fields(name.as_str(), &entries[i].1, prefix);
                    out.push((name, part));
                    i += 1;
                }
                assert(json::entries_view(out@) =~= prefixed_question_part(
                    key@,
                    value@,
                    prefix@,
                )->Object_0);
                Json::object(out)
            },
            _ => value.copy(),
        }
    } else {
        value.copy()
    }
}

/// A member of a list definition: its fields are questions under the prefix.
fn prefix_list_fields(key: &str, value: &Json, prefix: &str) -> (r: Json)
    ensures
        r@ == prefixed_fields(key@, value@, prefix@),
    decreases value, 1int,
{
    match value {
        Json::Array(items) => if same(key, "fields") {
            proof {
                json::lemma_array(*items);
            }
            let mut out: Vec<Json> = Vec::new();
            let mut i: usize = 0;
            while i < items.len()
                invariant
                    i <= items@.len(),
                    value == Json::Array(*items),
                    out@.len() == i,
                    forall|k: int|
                        0 <= k < i ==> #[trigger] out@[k]@ == prefixed_question(items@[k]@, prefix@),
                decreases items.len() - i,
            {
                proof {
                    json::lemma_item_smaller(*value, i as int);
                }
                let item = prefix_question_value(&items[i], prefix);
                out.push(item);
                i += 1;
            }
            assert(json::items_view(out@) =~= prefixed_fields(key@, value@, prefix@)->Array_0);
            Json::array(out)
        } else {
            value.copy()
        },
        _ => value.copy(),
    }
}

/// The id of a form, or a stand-in where it has none.
pub open spec fn form_id_of(form: JsonView) -> Seq<char> {
    match json::member_string(form, "id"@) {
        Some(id) => id,
        None => "<unknown>"@,
    }
}

/// A list of rules under a prefix.
pub open spec fn prefixed_rules(items: Seq<JsonView>, prefix: Seq<char>) -> Seq<JsonView> {
    Seq::new(items.len(), |i: int| prefixed_rule(items[i], prefix))
}

/// The questions and rules gathered so far, and the question ids seen.
#[verifier::ext_equal]
pub struct Gathered {
    pub questions: Seq<JsonView>,
    pub rules: Seq<JsonView>,
    pub seen: Seq<Seq<char>>,
}

/// Gathers the questions from `i` on under a prefix, or stops at the first
/// whose id was seen before.
pub open spec fn gather_questions(
    items: Seq<JsonView>,
    i: int,
    prefix: Seq<char>,
    sofar: Gathered,
) -> Result<Gathered, Seq<char>>
    decreases items.len() - i,
{
    if i < 0 || i >= items.len() {
        Ok(sofar)
    } else {
        let question = prefixed_question(items[i], prefix);
        match json::member_string(question, "id"@) {
            Some(id) => if sofar.seen.contains(id) {
                Err("duplicate question id after include expansion: '"@ + id + "'"@)
            } else {
                gather_questions(
                    items,
                    i + 1,
                    prefix,
                    Gathered {
                        questions: sofar.questions.push(question),
                        seen: sofar.seen.push(id),
                        ..sofar
                    },
                )
            },
            None => gather_questions(
                items,
                i + 1,
                prefix,
                Gathered { questions: sofar.questions.push(question), ..sofar },
            ),
        }
    }
}

/// The ids from the first occurrence of `id` in the chain on, closed by `id`.
pub open spec fn cycle(chain: Seq<Seq<char>>, id: Seq<char>) -> Seq<Seq<char>> {
    match entries::position(chain, id) {
        Some(at) => chain.skip(at).push(id),
        None => chain.push(id),
    }
}

/// A form whose inclusions are replaced by the questions and rules of the forms
/// that they name. `chain` holds the ids of the forms being expanded.
///
/// A chain holds no id twice, and all but its first are ids of registered
/// forms. So it never grows longer than the registry by more than one.
pub open spec fn expansion(
    form: JsonView,
    prefix: Seq<char>,
    registry: Seq<(Seq<char>, JsonView)>,
    chain: Seq<Seq<char>>,
    seen: Seq<Seq<char>>,
) -> Result<(JsonView, Seq<Seq<char>>), Seq<char>>
    decreases registry.len() + 1 - chain.len(), 0int,
{
    if !(form is Object) {
        Err("form spec must be a JSON object"@)
    } else if chain.contains(form_id_of(form)) {
        Err("include cycle detected: "@ + debug_text(cycle(chain, form_id_of(form))))
    } else if chain.len() > registry.len() {
        Err(Seq::empty())
    } else {
        let start = Gathered { questions: Seq::empty(), rules: Seq::empty(), seen };
        match gather_questions(json::member_items(form, "questions"@), 0, prefix, start) {
            Err(message) => Err(message),
            Ok(own) => {
                let rules = prefixed_rules(json::member_items(form, "validations"@), prefix);
                match gather_included(
                    json::member_items(form, "includes"@),
                    0,
                    prefix,
                    registry,
                    chain.push(form_id_of(form)),
                    Gathered { rules, ..own },
                ) {
                    Err(message) => Err(message),
                    Ok(all) => Ok((merged(form, all), all.seen)),
                }
            },
        }
    }
}

/// A form with the gathered questions and rules, and without inclusions.
pub open spec fn merged(form: JsonView, all: Gathered) -> JsonView {
    JsonView::Object(
        entries::put(
            entries::put(
                entries::put(form->Object_0, "includes"@, JsonView::Array(Seq::empty())),
                "questions"@,
                JsonView::Array(all.questions),
            ),
            "validations"@,
            JsonView::Array(all.rules),
        ),
    )
}

/// Gathers the questions and rules of the forms that the inclusions from `i` on name.
pub open spec fn gather_included(
    items: Seq<JsonView>,
    i: int,
    prefix: Seq<char>,
    registry: Seq<(Seq<char>, JsonView)>,
    chain: Seq<Seq<char>>,
    sofar: Gathered,
) -> Result<Gathered, Seq<char>>
    decreases registry.len() + 1 - chain.len(), 1 + items.len() - i,
{
    if i < 0 || i >= items.len() {
        Ok(sofar)
    } else {
        match json::member_string(items[i], "form_ref"@) {
            None => Err("include missing form_ref"@),
            Some(form_ref) => match entries::lookup(registry, form_ref) {
                None => Err("missing include target '"@ + form_ref + "'"@),
                Some(target) => match expansion(
                    target,
                    combined(prefix, json::member_string(items[i], "prefix"@)),
                    registry,
                    chain,
                    sofar.seen,
                ) {
                    Err(message) => Err(message),
                    Ok((form, seen)) => gather_included(
                        items,
                        i + 1,
                        prefix,
                        registry,
                        chain,
                        Gathered {
                            questions: sofar.questions + json::member_items(form, "questions"@),
                            rules: sofar.rules + json::member_items(form, "validations"@),
                            seen,
                        },
                    ),
                },
            },
        }
    }
}

/// The ids of the registered forms.
pub open spec fn registry_ids(registry: Seq<(Seq<char>, JsonView)>) -> Seq<Seq<char>> {
    registry.map_values(|e: (Seq<char>, JsonView)| form_id_of(e.1))
}

/// A chain that expansion can reach: no id twice, and all but the first are
/// ids of registered forms.
pub open spec fn reachable(chain: Seq<Seq<char>>, registry: Seq<(Seq<char>, JsonView)>) -> bool {
    chain.no_duplicates() && forall|i: int|
        1 <= i < chain.len() ==> registry_ids(registry).contains(#[trigger] chain[i])
}

/// A reachable chain is longer than the registry by at most one.
proof fn lemma_chain_bound(chain: Seq<Seq<char>>, registry: Seq<(Seq<char>, JsonView)>)
    requires
        reachable(chain, registry),
    ensures
        chain.len() <= registry.len() + 1,
{
    if chain.len() > 1 {
        let rest = chain.skip(1);
        let ids = registry_ids(registry);
        assert(rest.no_duplicates());
        rest.unique_seq_to_set();
        ids.lemma_cardinality_of_set();
        assert forall|x: Seq<char>| rest.to_set().contains(x) implies ids.to_set().contains(x) by {
            let k = choose|k: int| 0 <= k < rest.len() && rest[k] == x;
            assert(chain[k + 1] == x);
        }
        vstd::set_lib::lemma_len_subset(rest.to_set(), ids.to_set());
    }
}

/// The items of a member that is an array, or no items.
fn items_of<'a>(form: &'a Json, key: &str) -> (r: Option<&'a Vec<Json>>)
    ensures
        match r {
            Some(items) => json::member_items(form@, key@) == json::items_view(items@),
            None => json::member_items(form@, key@) == Seq::<JsonView>::empty(),
        },
{
    match form.get(key) {
        Some(value) => value.as_array(),
        None => None,
    }
}

/// Appends copies of the items of a member that is an array.
fn append_items(list: &mut Vec<Json>, form: &Json, key: &str)
    ensures
        json::items_view(final(list)@) == json::items_view(old(list)@) + json::member_items(
            form@,
            key@,
        ),
{
    let ghost before = json::items_view(list@);
    if let Some(items) = items_of(form, key) {
        let mut copies = copy_items(items);
        let ghost more = json::items_view(copies@);
        list.append(&mut copies);
        assert(json::items_view(list@) =~= before + more);
    } else {
        assert(before + Seq::<JsonView>::empty() =~= before);
    }
}

/// Gathers the questions of a form under a prefix.
fn gather_own_questions(
    form: &Json,
    prefix: &str,
    seen: &mut Vec<String>,
) -> (r: Result<Vec<Json>, String>)
    ensures
        ({
            let start = Gathered {
                questions: Seq::empty(),
                rules: Seq::empty(),
                seen: text::texts(old(seen)@),
            };
            match gather_questions(json::member_items(form@, "questions"@), 0, prefix@, start) {
                Ok(own) => r is Ok && json::items_view(r->Ok_0@) == own.questions && text::texts(
                    final(seen)@,
                ) == own.seen && own.rules == Seq::<JsonView>::empty(),
                Err(message) => r is Err && r->Err_0@ == message,
            }
        }),
{
    let ghost views = json::member_items(form@, "questions"@);
    let ghost start = Gathered {
        questions: Seq::empty(),
        rules: Seq::empty(),
        seen: text::texts(seen@),
    };
    let mut out: Vec<Json> = Vec::new();
    assert(json::items_view(out@) =~= Seq::empty());
    if let Some(items) = items_of(form, "questions") {
        let mut i: usize = 0;
        while i < items.len()
            invariant
                i <= items@.len(),
                views == json::items_view(items@),
                views == json::member_items(form@, "questions"@),
                start.questions == Seq::<JsonView>::empty(),
                start.rules == Seq::<JsonView>::empty(),
                start.seen == text::texts(old(seen)@),
                gather_questions(views, 0, prefix@, start) == gather_questions(
                    views,
                    i as int,
                    prefix@,
                    (Gathered {
                        questions: json::items_view(out@),
                        rules: Seq::empty(),
                        seen: text::texts(seen@),
                    }),
                ),
            decreases items.len() - i,
        {
            let question = prefix_question_value(&items[i], prefix);
            let ghost q = question@;
            let ghost before = json::items_view(out@);
            assert(views[i as int] == items@[i as int]@);
            if let Some(id) = question.get_str("id") {
                if contains_text(seen, id) {
                    return Err(
                        cat3("duplicate question id after include expansion: '", id, "'"),
                    );
                }
                let ghost seen_before = text::texts(seen@);
                seen.push(id.to_owned());
                assert(text::texts(seen@) =~= seen_before.push(id@));
            }
            out.push(question);
            assert(json::items_view(out@) =~= before.push(q));
            i += 1;
        }
    }
    Ok(out)
}

/// The rules of a form under a prefix.
fn gather_own_rules(form: &Json, prefix: &str) -> (r: Vec<Json>)
    ensures
        json::items_view(r@) == prefixed_rules(json::member_items(form@, "validations"@), prefix@),
{
    let mut out: Vec<Json> = Vec::new();
    if let Some(items) = items_of(form, "validations") {
        let mut i: usize = 0;
        while i < items.len()
            invariant
                i <= items@.len(),
                out@.len() == i,
                forall|k: int|
                    0 <= k < i ==> #[trigger] out@[k]@ == prefixed_rule(items@[k]@, prefix@),
            decreases items.len() - i,
        {
            let rule = prefix_validation_value(&items[i], prefix);
            out.push(rule);
            i += 1;
        }
    }
    assert(json::items_view(out@) =~= prefixed_rules(
        json::member_items(form@, "validations"@),
        prefix@,
    ));
    out
}

/// The ids from the first occurrence of `id` in the chain on, closed by `id`.
fn cycle_ids(chain: &Vec<String>, id: &str) -> (r: Vec<String>)
    requires
        text::texts(chain@).contains(id@),
    ensures
        text::texts(r@) == cycle(text::texts(chain@), id@),
{
    let ghost ids = text::texts(chain@);
    proof {
        entries::lemma_position(ids, id@);
    }
    let ghost at = entries::position(ids, id@)->0;
    let mut out: Vec<String> = Vec::new();
    let mut i: usize = 0;
    assert(text::texts(out@) =~= Seq::empty());
    while i < chain.len()
        invariant
            i <= chain@.len(),
            ids == text::texts(chain@),
            0 <= at < ids.len(),
            ids[at] == id@,
            forall|j: int| 0 <= j < at ==> ids[j] != id@,
            text::texts(out@) == if i <= at {
                Seq::empty()
            } else {
                ids.subrange(at, i as int)
            },
        decreases chain.len() - i,
    {
        let ghost before = text::texts(out@);
        assert(ids[i as int] == chain@[i as int]@);
        if out.len() > 0 || same(chain[i].as_str(), id) {
            assert(i >= at) by {
                if i < at {
                    assert(before.len() == out@.len());
                }
            }
            out.push(chain[i].clone());
            assert(text::texts(out@) =~= before.push(ids[i as int]));
            assert(ids.subrange(at, i + 1) =~= (if i <= at {
                Seq::empty()
            } else {
                ids.subrange(at, i as int)
            }).push(ids[i as int]));
        } else {
            assert(before.len() == out@.len());
        }
        i += 1;
    }
    let ghost before = text::texts(out@);
    assert(before =~= ids.skip(at));
    out.push(id.to_owned());
    assert(text::texts(out@) =~= before.push(id@));
    out
}

/// Expands the inclusions of a form, within the expansion of the forms whose
/// ids are in the chain.
fn expand_form_value(
    form: &Json,
    prefix: &str,
    registry: &Vec<(String, Json)>,
    chain: &mut Vec<String>,
    seen: &mut Vec<String>,
) -> (r: Result<Json, String>)
    requires
        reachable(text::texts(old(chain)@), json::entries_view(registry@)),
        old(chain)@.len() > 0 ==> registry_ids(json::entries_view(registry@)).contains(
            form_id_of(form@),
        ),
    ensures
        match expansion(
            form@,
            prefix@,
            json::entries_view(registry@),
            text::texts(old(chain)@),
            text::texts(old(seen)@),
        ) {
            Ok((expanded, ids)) => r is Ok && r->Ok_0@ == expanded && text::texts(final(seen)@)
                == ids && final(chain)@ == old(chain)@,
            Err(message) => r is Err && r->Err_0@ == message,
        },
    decreases registry@.len() + 1 - old(chain)@.len(),
{
    let ghost reg = json::entries_view(registry@);
    let ghost ids0 = text::texts(chain@);
    let ghost seen0 = text::texts(seen@);
    let form_entries = match form.as_object() {
        Some(form_entries) => form_entries,
        None => {
            return Err("form spec must be a JSON object".to_owned());
        },
    };
    let form_id = match form.get_str("id") {
        Some(id) => id.to_owned(),
        None => "<unknown>".to_owned(),
    };
    if contains_text(chain, form_id.as_str()) {
        let ids = cycle_ids(chain, form_id.as_str());
        return Err(text::cat("include cycle detected: ", show_list(&ids).as_str()));
    }
    let ghost start_chain = chain@;
    chain.push(form_id);
    let ghost ids1 = text::texts(chain@);
    assert(ids1 =~= ids0.push(form_id_of(form@)));
    proof {
        assert forall|i: int| 1 <= i < ids1.len() implies registry_ids(reg).contains(
            #[trigger] ids1[i],
        ) by {
            if i < ids0.len() {
                assert(ids1[i] == ids0[i]);
            }
        }
        assert(ids1.no_duplicates()) by {
            assert forall|i: int, j: int| 0 <= i < j < ids1.len() implies ids1[i] != ids1[j] by {
                if j == ids0.len() {
                    assert(ids0.contains(ids0[i]));
                }
            }
        }
        lemma_chain_bound(ids1, reg);
    }
    let mut out_questions = match gather_own_questions(form, prefix, seen) {
        Ok(list) => list,
        Err(message) => {
            return Err(message);
        },
    };
    let mut out_rules = gather_own_rules(form, prefix);
    let ghost views = json::member_items(form@, "includes"@);
    let ghost begun = Gathered {
        questions: json::items_view(out_questions@),
        rules: json::items_view(out_rules@),
        seen: text::texts(seen@),
    };
    if let Some(items) = items_of(form, "includes") {
        let mut i: usize = 0;
        while i < items.len()
            invariant
                i <= items@.len(),
                views == json::items_view(items@),
                reg == json::entries_view(registry@),
                ids1 == text::texts(chain@),
                chain@ == start_chain.push(chain@.last()),
                chain@.len() == start_chain.len() + 1,
                start_chain == old(chain)@,
                chain@.len() <= registry@.len() + 1,
                reachable(ids1, reg),
                gather_included(views, 0, prefix@, reg, ids1, begun) == gather_included(
                    views,
                    i as int,
                    prefix@,
                    reg,
                    ids1,
                    (Gathered {
                        questions: json::items_view(out_questions@),
                        rules: json::items_view(out_rules@),
                        seen: text::texts(seen@),
                    }),
                ),
                expansion(form@, prefix@, reg, ids0, seen0) == match gather_included(
                    views,
                    0,
                    prefix@,
                    reg,
                    ids1,
                    begun,
                ) {
                    Err(message) => Err(message),
                    Ok(all) => Ok((merged(form@, all), all.seen)),
                },
                ids0 == text::texts(old(chain)@),
                seen0 == text::texts(old(seen)@),
            decreases items.len() - i,
        {
            let item = &items[i];
            assert(views[i as int] == item@);
            let form_ref = match item.get_str("form_ref") {
                Some(form_ref) => form_ref,
                None => {
                    return Err("include missing form_ref".to_owned());
                },
            };
            let child_prefix = combine_prefix(prefix, item.get_str("prefix"));
            proof {
                assert(entries::view_keys(reg) =~= entries::keys_of(registry@));
            }
            let target = match find(registry, form_ref) {
                Some(at) => {
                    assert(registry_ids(reg)[at as int] == form_id_of(registry@[at as int].1@));
                    &registry[at].1
                },
                None => {
                    return Err(cat3("missing include target '", form_ref, "'"));
                },
            };
            match expand_form_value(target, child_prefix.as_str(), registry, chain, seen) {
                Ok(expanded) => {
                    append_items(&mut out_questions, &expanded, "questions");
                    append_items(&mut out_rules, &expanded, "validations");
                },
                Err(message) => {
                    return Err(message);
                },
            }
            i += 1;
        }
    }
    let mut out = copy_entries(form_entries);
    let none: Vec<Json> = Vec::new();
    assert(json::items_view(none@) =~= Seq::empty());
    put_member(&mut out, "includes".to_owned(), Json::array(none));
    put_member(&mut out, "questions".to_owned(), Json::array(out_questions));
    put_member(&mut out, "validations".to_owned(), Json::array(out_rules));
    chain.pop();
    assert(chain@ =~= start_chain);
    Ok(Json::object(out))
}

/// A form with the inclusions expanded by the registered forms, or why that fails.
pub open spec fn expanded(root: JsonView, registry: Seq<(Seq<char>, JsonView)>) -> Result<
    JsonView,
    Seq<char>,
> {
    match expansion(root, Seq::empty(), registry, Seq::empty(), Seq::empty()) {
        Ok((form, _)) => Ok(form),
        Err(message) => Err(message),
    }
}

/// Expands the inclusions of a form by the registered forms.
pub fn expand_includes_value(root: &Json, registry: &Vec<(String, Json)>) -> (r: Result<
    Json,
    String,
>)
    ensures
        match expanded(root@, json::entries_view(registry@)) {
            Ok(form) => r is Ok && r->Ok_0@ == form,
            Err(message) => r is Err && r->Err_0@ == message,
        },
{
    let mut chain: Vec<String> = Vec::new();
    let mut seen: Vec<String> = Vec::new();
    let prefix = String::new();
    assert(text::texts(chain@) =~= Seq::empty());
    assert(text::texts(seen@) =~= Seq::empty());
    expand_form_value(root, prefix.as_str(), registry, &mut chain, &mut seen)
}

/// The ids of those questions that have one, in order.
pub open spec fn question_ids(items: Seq<JsonView>) -> Seq<Seq<char>>
    decreases items.len(),
{
    if items.len() == 0 {
        Seq::empty()
    } else {
        let before = question_ids(items.drop_last());
        match json::member_string(items.last(), "id"@) {
            Some(id) => before.push(id),
            None => before,
        }
    }
}

proof fn lemma_question_ids_append(a: Seq<JsonView>, b: Seq<JsonView>)
    ensures
        question_ids(a + b) == question_ids(a) + question_ids(b),
    decreases b.len(),
{
    if b.len() == 0 {
        assert(a + b =~= a);
        assert(question_ids(a) + question_ids(b) =~= question_ids(a));
    } else {
        assert((a + b).drop_last() =~= a + b.drop_last());
        lemma_question_ids_append(a, b.drop_last());
        assert(question_ids(a + b) =~= question_ids(a) + question_ids(b));
    }
}

proof fn lemma_gathered_questions(
    items: Seq<JsonView>,
    i: int,
    prefix: Seq<char>,
    sofar: Gathered,
    base: Seq<Seq<char>>,
)
    requires
        sofar.seen == base + question_ids(sofar.questions),
    ensures
        match gather_questions(items, i, prefix, sofar) {
            Ok(all) => all.seen == base + question_ids(all.questions) && (
            sofar.seen.no_duplicates() ==> all.seen.no_duplicates()),
            Err(_) => true,
        },
    decreases items.len() - i,
{
    if 0 <= i < items.len() {
        let question = prefixed_question(items[i], prefix);
        let questions = sofar.questions.push(question);
        assert(questions.drop_last() =~= sofar.questions);
        match json::member_string(question, "id"@) {
            Some(id) => {
                if !sofar.seen.contains(id) {
                    let seen = sofar.seen.push(id);
                    assert(seen =~= base + question_ids(questions));
                    lemma_push_distinct(sofar.seen, id);
                    lemma_gathered_questions(
                        items,
                        i + 1,
                        prefix,
                        Gathered { questions, seen, ..sofar },
                        base,
                    );
                }
            },
            None => {
                lemma_gathered_questions(
                    items,
                    i + 1,
                    prefix,
                    Gathered { questions, ..sofar },
                    base,
                );
            },
        }
    }
}

proof fn lemma_push_distinct(list: Seq<Seq<char>>, id: Seq<char>)
    requires
        !list.contains(id),
    ensures
        list.no_duplicates() ==> list.push(id).no_duplicates(),
{
    assert forall|i: int, j: int|
        list.no_duplicates() && 0 <= i < j < list.len() + 1 implies list.push(id)[i] != list.push(
        id,
    )[j] by {
        assert(list.contains(list[i]));
    }
}

proof fn lemma_gathered_included(
    items: Seq<JsonView>,
    i: int,
    prefix: Seq<char>,
    registry: Seq<(Seq<char>, JsonView)>,
    chain: Seq<Seq<char>>,
    sofar: Gathered,
    base: Seq<Seq<char>>,
)
    requires
        sofar.seen == base + question_ids(sofar.questions),
    ensures
        match gather_included(items, i, prefix, registry, chain, sofar) {
            Ok(all) => all.seen == base + question_ids(all.questions) && (
            sofar.seen.no_duplicates() ==> all.seen.no_duplicates()),
            Err(_) => true,
        },
    decreases registry.len() + 1 - chain.len(), 1 + items.len() - i,
{
    if 0 <= i < items.len() {
        match json::member_string(items[i], "form_ref"@) {
            None => {},
            Some(form_ref) => match entries::lookup(registry, form_ref) {
                None => {},
                Some(target) => {
                    let child = combined(prefix, json::member_string(items[i], "prefix"@));
                    law_expanded_ids(target, child, registry, chain, sofar.seen);
                    match expansion(target, child, registry, chain, sofar.seen) {
                        Err(_) => {},
                        Ok((form, seen)) => {
                            let more = json::member_items(form, "questions"@);
                            let next = Gathered {
                                questions: sofar.questions + more,
                                rules: sofar.rules + json::member_items(form, "validations"@),
                                seen,
                            };
                            lemma_question_ids_append(sofar.questions, more);
                            assert(next.seen =~= base + question_ids(next.questions));
                            lemma_gathered_included(
                                items,
                                i + 1,
                                prefix,
                                registry,
                                chain,
                                next,
                                base,
                            );
                        },
                    }
                },
            },
        }
    }
}

/// The members of a merged form.
proof fn lemma_merged(form: JsonView, all: Gathered)
    requires
        form is Object,
    ensures
        json::member(merged(form, all), "includes"@) == Some(JsonView::Array(Seq::empty())),
        json::member(merged(form, all), "questions"@) == Some(JsonView::Array(all.questions)),
        json::member(merged(form, all), "validations"@) == Some(JsonView::Array(all.rules)),
        forall|key: Seq<char>|
            key != "includes"@ && key != "questions"@ && key != "validations"@ ==> #[trigger] json::member(
                merged(form, all),
                key,
            ) == json::member(form, key),
{
    reveal_strlit("includes");
    reveal_strlit("questions");
    reveal_strlit("validations");
    assert("includes"@ != "questions"@) by {
        assert("includes"@.len() != "questions"@.len());
    }
    assert("includes"@ != "validations"@) by {
        assert("includes"@.len() != "validations"@.len());
    }
    assert("questions"@ != "validations"@) by {
        assert("questions"@.len() != "validations"@.len());
    }
    let none = JsonView::Array(Seq::empty());
    let questions = JsonView::Array(all.questions);
    let rules = JsonView::Array(all.rules);
    let e0 = form->Object_0;
    let e1 = entries::put(e0, "includes"@, none);
    let e2 = entries::put(e1, "questions"@, questions);
    entries::law_put_then_lookup(e0, "includes"@, none);
    entries::law_put_then_lookup(e1, "questions"@, questions);
    entries::law_put_then_lookup(e2, "validations"@, rules);
    entries::law_put_keeps_others(e1, "questions"@, questions, "includes"@);
    entries::law_put_keeps_others(e2, "validations"@, rules, "includes"@);
    entries::law_put_keeps_others(e2, "validations"@, rules, "questions"@);
    assert forall|key: Seq<char>|
        key != "includes"@ && key != "questions"@ && key
            != "validations"@ implies #[trigger] json::member(merged(form, all), key)
        == json::member(form, key) by {
        entries::law_put_keeps_others(e0, "includes"@, none, key);
        entries::law_put_keeps_others(e1, "questions"@, questions, key);
        entries::law_put_keeps_others(e2, "validations"@, rules, key);
    }
}

/// An expanded form includes nothing any more and keeps its other members. The
/// ids it adds to those seen are the ids of its questions, and none of them
/// was seen before or occurs twice.
pub proof fn law_expanded_ids(
    form: JsonView,
    prefix: Seq<char>,
    registry: Seq<(Seq<char>, JsonView)>,
    chain: Seq<Seq<char>>,
    seen: Seq<Seq<char>>,
)
    ensures
        match expansion(form, prefix, registry, chain, seen) {
            Ok((expanded, ids)) => {
                &&& json::member(expanded, "includes"@) == Some(JsonView::Array(Seq::empty()))
                &&& ids == seen + question_ids(json::member_items(expanded, "questions"@))
                &&& seen.no_duplicates() ==> ids.no_duplicates()
                &&& forall|key: Seq<char>|
                    key != "includes"@ && key != "questions"@ && key
                        != "validations"@ ==> #[trigger] json::member(expanded, key)
                        == json::member(form, key)
            },
            Err(_) => true,
        },
    decreases registry.len() + 1 - chain.len(), 0int,
{
    if form is Object && !chain.contains(form_id_of(form)) && chain.len() <= registry.len() {
        let start = Gathered { questions: Seq::empty(), rules: Seq::empty(), seen };
        let items = json::member_items(form, "questions"@);
        assert(start.seen =~= seen + question_ids(start.questions));
        lemma_gathered_questions(items, 0, prefix, start, seen);
        match gather_questions(items, 0, prefix, start) {
            Err(_) => {},
            Ok(own) => {
                let rules = prefixed_rules(json::member_items(form, "validations"@), prefix);
                let begun = Gathered { rules, ..own };
                let inner = chain.push(form_id_of(form));
                let named = json::member_items(form, "includes"@);
                lemma_gathered_included(named, 0, prefix, registry, inner, begun, seen);
                match gather_included(named, 0, prefix, registry, inner, begun) {
                    Err(_) => {},
                    Ok(all) => {
                        lemma_merged(form, all);
                    },
                }
            },
        }
    }
}

/// No two questions of an expanded form have the same id.
pub proof fn law_expanded_questions_distinct(
    form: JsonView,
    registry: Seq<(Seq<char>, JsonView)>,
)
    ensures
        match expansion(form, Seq::empty(), registry, Seq::empty(), Seq::empty()) {
            Ok((expanded, _)) => question_ids(
                json::member_items(expanded, "questions"@),
            ).no_duplicates(),
            Err(_) => true,
        },
{
    law_expanded_ids(form, Seq::empty(), registry, Seq::empty(), Seq::empty());
    match expansion(form, Seq::empty(), registry, Seq::empty(), Seq::empty()) {
        Ok((expanded, ids)) => {
            let found = question_ids(json::member_items(expanded, "questions"@));
            assert(Seq::<Seq<char>>::empty() + found =~= found);
        },
        Err(_) => {},
    }
}

/// A form is never expanded within its own expansion: that is a refusal.
pub proof fn law_cycle_refused(
    form: JsonView,
    prefix: Seq<char>,
    registry: Seq<(Seq<char>, JsonView)>,
    chain: Seq<Seq<char>>,
    seen: Seq<Seq<char>>,
)
    requires
        form is Object,
        chain.contains(form_id_of(form)),
    ensures
        expansion(form, prefix, registry, chain, seen) == Err::<(JsonView, Seq<Seq<char>>), Seq<char>>(
            "include cycle detected: "@ + debug_text(cycle(chain, form_id_of(form))),
        ),
{
}

/// An expansion that fails says why, and one that is reached from a form goes on
/// as long as there are inclusions: no chain outgrows the registry.
proof fn lemma_expansion_says_why(
    form: JsonView,
    prefix: Seq<char>,
    registry: Seq<(Seq<char>, JsonView)>,
    chain: Seq<Seq<char>>,
    seen: Seq<Seq<char>>,
)
    requires
        reachable(chain, registry),
        chain.len() > 0 ==> registry_ids(registry).contains(form_id_of(form)),
    ensures
        expansion(form, prefix, registry, chain, seen) matches Err(message) ==> message.len() > 0,
    decreases registry.len() + 1 - chain.len(), 0int,
{
    reveal_strlit("form spec must be a JSON object");
    reveal_strlit("include cycle detected: ");
    if form is Object && !chain.contains(form_id_of(form)) {
        let longer = chain.push(form_id_of(form));
        assert(reachable(longer, registry)) by {
            assert forall|i: int, j: int| 0 <= i < j < longer.len() implies longer[i]
                != longer[j] by {
                if j == chain.len() {
                    assert(chain.contains(chain[i]));
                }
            }
        }
        lemma_chain_bound(longer, registry);
        let start = Gathered { questions: Seq::empty(), rules: Seq::empty(), seen };
        let questions = json::member_items(form, "questions"@);
        lemma_gathering_says_why(questions, 0, prefix, start);
        match gather_questions(questions, 0, prefix, start) {
            Ok(own) => {
                let rules = prefixed_rules(json::member_items(form, "validations"@), prefix);
                lemma_including_says_why(
                    json::member_items(form, "includes"@),
                    0,
                    prefix,
                    registry,
                    longer,
                    Gathered { rules, ..own },
                );
            },
            Err(_) => {},
        }
    }
}

proof fn lemma_gathering_says_why(
    items: Seq<JsonView>,
    i: int,
    prefix: Seq<char>,
    sofar: Gathered,
)
    ensures
        gather_questions(items, i, prefix, sofar) matches Err(message) ==> message.len() > 0,
    decreases items.len() - i,
{
    if 0 <= i < items.len() {
        reveal_strlit("duplicate question id after include expansion: '");
        let question = prefixed_question(items[i], prefix);
        let questions = sofar.questions.push(question);
        match json::member_string(question, "id"@) {
            Some(id) => {
                if !sofar.seen.contains(id) {
                    let next = Gathered { questions, seen: sofar.seen.push(id), ..sofar };
                    lemma_gathering_says_why(items, i + 1, prefix, next);
                }
            },
            None => {
                lemma_gathering_says_why(items, i + 1, prefix, Gathered { questions, ..sofar });
            },
        }
    }
}

proof fn lemma_including_says_why(
    items: Seq<JsonView>,
    i: int,
    prefix: Seq<char>,
    registry: Seq<(Seq<char>, JsonView)>,
    chain: Seq<Seq<char>>,
    sofar: Gathered,
)
    requires
        reachable(chain, registry),
        0 < chain.len() <= registry.len() + 1,
    ensures
        gather_included(items, i, prefix, registry, chain, sofar) matches Err(message)
            ==> message.len() > 0,
    decreases registry.len() + 1 - chain.len(), 1 + items.len() - i,
{
    if 0 <= i < items.len() {
        reveal_strlit("include missing form_ref");
        reveal_strlit("missing include target '");
        if json::member_string(items[i], "form_ref"@) is Some {
            let form_ref = json::member_string(items[i], "form_ref"@)->0;
            let keys = entries::view_keys(registry);
            entries::lemma_position(keys, form_ref);
            if entries::lookup(registry, form_ref) is Some {
                let at = entries::position(keys, form_ref)->0;
                let target = registry[at].1;
                assert(registry_ids(registry)[at] == form_id_of(target));
                let inner = combined(prefix, json::member_string(items[i], "prefix"@));
                lemma_expansion_says_why(target, inner, registry, chain, sofar.seen);
                match expansion(target, inner, registry, chain, sofar.seen) {
                    Ok((form, seen)) => {
                        lemma_including_says_why(
                            items,
                            i + 1,
                            prefix,
                            registry,
                            chain,
                            Gathered {
                                questions: sofar.questions + json::member_items(form, "questions"@),
                                rules: sofar.rules + json::member_items(form, "validations"@),
                                seen,
                            },
                        );
                    },
                    Err(_) => {},
                }
            }
        }
    }
}

/// A form whose expansion fails is told why: what stops it is never that a chain
/// of inclusions has grown too long.
pub proof fn law_failed_expansion_says_why(
    root: JsonView,
    registry: Seq<(Seq<char>, JsonView)>,
)
    ensures
        expanded(root, registry) matches Err(message) ==> message.len() > 0,
{
    lemma_expansion_says_why(root, Seq::empty(), registry, Seq::empty(), Seq::empty());
}

/// A key under two prefixes, one inside the other, is the key under their combination.
pub proof fn law_prefixes_compose(outer: Seq<char>, inner: Seq<char>, key: Seq<char>)
    ensures
        prefixed_key(combined(outer, Some(inner)), key) == prefixed_key(
            outer,
            prefixed_key(inner, key),
        ),
{
    let both = combined(outer, Some(inner));
    if outer.len() > 0 && inner.len() > 0 {
        assert(both + "."@ + key =~= outer + "."@ + (inner + "."@ + key));
    }
}

/// Without a prefix an expression stays as it is.
pub proof fn law_no_prefix_no_change(expr: JsonView)
    ensures
        prefixed_expr(expr, Seq::empty()) == expr,
    decreases expr, 0int,
{
    match expr {
        JsonView::Object(entries) => {
            let after = prefixed_expr(expr, Seq::empty())->Object_0;
            assert forall|i: int| 0 <= i < entries.len() implies after[i] == entries[i] by {
                lemma_part_unchanged(names_answer(expr), entries[i].0, entries[i].1);
            }
            assert(after =~= entries);
        },
        _ => {},
    }
}

proof fn lemma_part_unchanged(answer: bool, key: Seq<char>, value: JsonView)
    ensures
        prefixed_part(answer, key, value, Seq::empty()) == value,
    decreases value, 1int,
{
    if key == "path"@ {
    } else if key == "expression"@ || key == "left"@ || key == "right"@ {
        law_no_prefix_no_change(value);
    } else if key == "expressions"@ {
        match value {
            JsonView::Array(items) => {
                let after = prefixed_part(answer, key, value, Seq::empty())->Array_0;
                assert forall|i: int| 0 <= i < items.len() implies after[i] == items[i] by {
                    law_no_prefix_no_change(items[i]);
                }
                assert(after =~= items);
            },
            _ => {},
        }
    }
}

/// What stands under a key of an object whose values were changed one by one.
proof fn lemma_changed_member(
    before: Seq<(Seq<char>, JsonView)>,
    after: Seq<(Seq<char>, JsonView)>,
    key: Seq<char>,
)
    requires
        after.len() == before.len(),
        forall|i: int| #![trigger after[i]] 0 <= i < after.len() ==> after[i].0 == before[i].0,
    ensures
        entries::position(entries::view_keys(after), key) == entries::position(
            entries::view_keys(before),
            key,
        ),
        entries::position(entries::view_keys(before), key) matches Some(i) ==> 0 <= i
            < before.len() && before[i].0 == key,
{
    assert(entries::view_keys(after) =~= entries::view_keys(before));
    entries::lemma_position(entries::view_keys(before), key);
}

/// Under a prefix an expression looks at the answers of the included form wherever
/// it looked at answers: in its own path, and in each expression within it. All
/// else stays as it is.
pub proof fn law_expression_is_prefixed_throughout(
    expr: JsonView,
    prefix: Seq<char>,
    key: Seq<char>,
)
    requires
        prefix.len() > 0,
    ensures
        json::member(prefixed_expr(expr, prefix), key) == match json::member(expr, key) {
            None => None,
            Some(value) => if key == "left"@ || key == "right"@ || key == "expression"@ {
                Some(prefixed_expr(value, prefix))
            } else if key == "expressions"@ && value is Array {
                Some(
                    JsonView::Array(
                        value->Array_0.map_values(|item: JsonView| prefixed_expr(item, prefix)),
                    ),
                )
            } else if key == "path"@ && value is String && (json::member(expr, "op"@) == Some(
                JsonView::String("answer"@),
            ) || json::member(expr, "op"@) == Some(JsonView::String("is_set"@)))
                && value->String_0.len() > 0 && value->String_0[0] != '/' {
                Some(JsonView::String(prefix + "."@ + value->String_0))
            } else {
                Some(value)
            },
        },
        !(expr is Object) ==> prefixed_expr(expr, prefix) == expr,
{
    if let JsonView::Object(members) = expr {
        let after = prefixed_expr(expr, prefix)->Object_0;
        lemma_changed_member(members, after, key);
        lemma_expression_keys_differ();
        if json::member(expr, key) is Some {
            let value = json::member(expr, key)->0;
            if key == "expressions"@ && value is Array {
                assert(prefixed_part(names_answer(expr), key, value, prefix)->Array_0
                    =~= value->Array_0.map_values(|item: JsonView| prefixed_expr(item, prefix)));
            }
        }
    }
}

proof fn lemma_expression_keys_differ()
    ensures
        "path"@ != "left"@,
        "path"@ != "right"@,
        "path"@ != "expression"@,
        "path"@ != "expressions"@,
        "left"@ != "expressions"@,
        "right"@ != "expressions"@,
        "expression"@ != "expressions"@,
{
    reveal_strlit("path");
    reveal_strlit("left");
    reveal_strlit("right");
    reveal_strlit("expression");
    reveal_strlit("expressions");
    assert("path"@[0] == 'p' && "left"@[0] == 'l' && "right"@[0] == 'r');
    assert("expression"@.len() == 10 && "expressions"@.len() == 11 && "expression"@[0] == 'e');
    assert("expressions"@[0] == 'e');
}

/// The answer paths that an expression looks at, its own before those of the
/// expressions within it, as far as `depth` levels down.
pub open spec fn looks_at(expr: JsonView, depth: nat, path: Seq<char>) -> bool
    decreases depth,
{
    ||| (json::member(expr, "op"@) == Some(JsonView::String("answer"@)) || json::member(
        expr,
        "op"@,
    ) == Some(JsonView::String("is_set"@))) && json::member(expr, "path"@) == Some(
        JsonView::String(path),
    )
    ||| depth > 0 && exists|key: Seq<char>, inner: JsonView|
        (key == "left"@ || key == "right"@ || key == "expression"@) && json::member(expr, key)
            == Some(inner) && #[trigger] within_member(expr, key, inner) && looks_at(
            inner,
            (depth - 1) as nat,
            path,
        )
    ||| depth > 0 && exists|i: int|
        0 <= i < json::member_items(expr, "expressions"@).len() && looks_at(
            #[trigger] json::member_items(expr, "expressions"@)[i],
            (depth - 1) as nat,
            path,
        )
}

/// Whether a value stands under a key of an expression.
pub open spec fn within_member(expr: JsonView, key: Seq<char>, inner: JsonView) -> bool {
    json::member(expr, key) == Some(inner)
}

/// Every answer that a prefixed expression looks at, at whatever depth, is one of
/// the included form: its path is absolute or empty, or starts with the prefix.
pub proof fn law_prefixed_expression_stays_inside(
    expr: JsonView,
    prefix: Seq<char>,
    depth: nat,
    path: Seq<char>,
)
    requires
        prefix.len() > 0,
        looks_at(prefixed_expr(expr, prefix), depth, path),
    ensures
        path.len() == 0 || path[0] == '/' || text::begins_with(path, prefix + "."@),
    decreases depth,
{
    let after = prefixed_expr(expr, prefix);
    law_expression_is_prefixed_throughout(expr, prefix, "op"@);
    law_expression_is_prefixed_throughout(expr, prefix, "path"@);
    law_expression_is_prefixed_throughout(expr, prefix, "expressions"@);
    lemma_expression_keys_differ();
    reveal_strlit("op");
    assert("op"@.len() == 2);
    reveal_strlit("path");
    reveal_strlit("left");
    reveal_strlit("right");
    reveal_strlit("expression");
    reveal_strlit("expressions");
    assert("path"@.len() == 4 && "left"@.len() == 4 && "right"@.len() == 5);
    assert("expression"@.len() == 10 && "expressions"@.len() == 11);
    if (json::member(after, "op"@) == Some(JsonView::String("answer"@)) || json::member(
        after,
        "op"@,
    ) == Some(JsonView::String("is_set"@))) && json::member(after, "path"@) == Some(
        JsonView::String(path),
    ) {
        let own = json::member(expr, "path"@)->0->String_0;
        if own.len() > 0 && own[0] != '/' {
            assert(path == prefix + "."@ + own);
            assert(path.take((prefix + "."@).len() as int) =~= prefix + "."@);
        }
    } else if exists|key: Seq<char>, inner: JsonView|
        (key == "left"@ || key == "right"@ || key == "expression"@) && json::member(after, key)
            == Some(inner) && #[trigger] within_member(after, key, inner) && looks_at(
            inner,
            (depth - 1) as nat,
            path,
        ) {
        let (key, inner) = choose|key: Seq<char>, inner: JsonView|
            (key == "left"@ || key == "right"@ || key == "expression"@) && json::member(after, key)
                == Some(inner) && #[trigger] within_member(after, key, inner) && looks_at(
                inner,
                (depth - 1) as nat,
                path,
            );
        law_expression_is_prefixed_throughout(expr, prefix, key);
        law_prefixed_expression_stays_inside(
            json::member(expr, key)->0,
            prefix,
            (depth - 1) as nat,
            path,
        );
    } else {
        let items = json::member_items(after, "expressions"@);
        let i = choose|i: int|
            0 <= i < items.len() && looks_at(#[trigger] items[i], (depth - 1) as nat, path);
        let own = json::member_items(expr, "expressions"@);
        assert(items[i] == prefixed_expr(own[i], prefix));
        law_prefixed_expression_stays_inside(own[i], prefix, (depth - 1) as nat, path);
    }
}

/// Under a prefix a question has its id, its conditions and the fields of its list
/// under the prefix, and keeps all else.
pub proof fn law_question_is_prefixed(question: JsonView, prefix: Seq<char>, key: Seq<char>)
    requires
        prefix.len() > 0,
    ensures
        json::member(prefixed_question(question, prefix), key) == match json::member(
            question,
            key,
        ) {
            None => None,
            Some(value) => if key == "id"@ && value is String {
                Some(JsonView::String(prefix + "."@ + value->String_0))
            } else if key == "visible_if"@ || key == "computed"@ {
                Some(prefixed_expr(value, prefix))
            } else if key == "list"@ && value is Object {
                json::member(prefixed_question(question, prefix), key)
            } else {
                Some(value)
            },
        },
{
    if let JsonView::Object(members) = question {
        lemma_changed_member(members, prefixed_question(question, prefix)->Object_0, key);
        reveal_strlit("id");
        reveal_strlit("visible_if");
        reveal_strlit("computed");
        reveal_strlit("list");
        assert("id"@.len() == 2 && "visible_if"@.len() == 10);
        assert("computed"@.len() == 8 && "list"@.len() == 4);
    }
}

/// The fields of a list question are questions of the included form too, and the
/// rest of the list's definition stays as it is.
pub proof fn law_list_fields_are_prefixed(question: JsonView, prefix: Seq<char>, key: Seq<char>)
    requires
        prefix.len() > 0,
        json::member(question, "list"@) is Some,
        json::member(question, "list"@)->0 is Object,
    ensures
        ({
            let list = json::member(question, "list"@)->0;
            let after = json::member(prefixed_question(question, prefix), "list"@);
            &&& after is Some
            &&& json::member(after->0, key) == match json::member(list, key) {
                None => None,
                Some(value) => if key == "fields"@ && value is Array {
                    Some(
                        JsonView::Array(
                            value->Array_0.map_values(
                                |field: JsonView| prefixed_question(field, prefix),
                            ),
                        ),
                    )
                } else {
                    Some(value)
                },
            }
        }),
{
    let members = question->Object_0;
    lemma_changed_member(members, prefixed_question(question, prefix)->Object_0, "list"@);
    reveal_strlit("id");
    reveal_strlit("visible_if");
    reveal_strlit("computed");
    reveal_strlit("list");
    assert("id"@.len() == 2 && "visible_if"@.len() == 10);
    assert("computed"@.len() == 8 && "list"@.len() == 4);
    let list = json::member(question, "list"@)->0;
    let after = prefixed_question_part("list"@, list, prefix);
    lemma_changed_member(list->Object_0, after->Object_0, key);
    if json::member(list, key) is Some {
        let value = json::member(list, key)->0;
        if key == "fields"@ && value is Array {
            assert(prefixed_fields(key, value, prefix)->Array_0 =~= value->Array_0.map_values(
                |field: JsonView| prefixed_question(field, prefix),
            ));
        }
    }
}

/// Under a prefix a rule speaks of the fields of the included form and looks at its
/// answers, and keeps all else.
pub proof fn law_rule_is_prefixed(rule: JsonView, prefix: Seq<char>, key: Seq<char>)
    requires
        prefix.len() > 0,
    ensures
        json::member(prefixed_rule(rule, prefix), key) == match json::member(rule, key) {
            None => None,
            Some(value) => if key == "fields"@ && value is Array {
                Some(
                    JsonView::Array(
                        value->Array_0.map_values(
                            |field: JsonView|
                                match field {
                                    JsonView::String(id) => JsonView::String(
                                        prefix + "."@ + id,
                                    ),
                                    _ => field,
                                },
                        ),
                    ),
                )
            } else if key == "condition"@ {
                Some(prefixed_expr(value, prefix))
            } else {
                Some(value)
            },
        },
{
    if let JsonView::Object(members) = rule {
        lemma_changed_member(members, prefixed_rule(rule, prefix)->Object_0, key);
        reveal_strlit("fields");
        reveal_strlit("condition");
        assert("fields"@.len() == 6 && "condition"@.len() == 9);
        if json::member(rule, key) is Some {
            let value = json::member(rule, key)->0;
            if key == "fields"@ && value is Array {
                assert(prefixed_rule_part(key, value, prefix)->Array_0
                    =~= value->Array_0.map_values(
                    |field: JsonView|
                        match field {
                            JsonView::String(id) => JsonView::String(prefix + "."@ + id),
                            _ => field,
                        },
                ));
            }
        }
    }
}

/// The questions from `i` on that are gathered are all of them, in order, and they
/// are refused only where an id comes twice.
proof fn lemma_gathered_in_order(
    items: Seq<JsonView>,
    i: int,
    prefix: Seq<char>,
    sofar: Gathered,
)
    requires
        0 <= i <= items.len(),
    ensures
        ({
            let rest = items.skip(i).map_values(|q: JsonView| prefixed_question(q, prefix));
            match gather_questions(items, i, prefix, sofar) {
                Ok(all) => all.questions == sofar.questions + rest && all.rules == sofar.rules,
                Err(_) => !(sofar.seen + question_ids(rest)).no_duplicates(),
            }
        }),
    decreases items.len() - i,
{
    let rest = items.skip(i).map_values(|q: JsonView| prefixed_question(q, prefix));
    if i < items.len() {
        let question = prefixed_question(items[i], prefix);
        let questions = sofar.questions.push(question);
        let behind = items.skip(i + 1).map_values(|q: JsonView| prefixed_question(q, prefix));
        assert(rest =~= seq![question] + behind);
        lemma_question_ids_append(seq![question], behind);
        assert(seq![question].drop_last() =~= Seq::<JsonView>::empty());
        assert(seq![question].last() == question);
        reveal_with_fuel(question_ids, 2);
        assert(questions + behind =~= sofar.questions + rest);
        match json::member_string(question, "id"@) {
            Some(id) => {
                assert(question_ids(seq![question]) =~= seq![id]);
                if sofar.seen.contains(id) {
                    let k = choose|k: int| 0 <= k < sofar.seen.len() && sofar.seen[k] == id;
                    let all = sofar.seen + question_ids(rest);
                    assert(all[k] == id && all[sofar.seen.len() as int] == id);
                } else {
                    let next = Gathered { questions, seen: sofar.seen.push(id), ..sofar };
                    lemma_gathered_in_order(items, i + 1, prefix, next);
                    assert(next.seen + question_ids(behind) =~= sofar.seen + question_ids(rest));
                }
            },
            None => {
                assert(question_ids(seq![question]) =~= Seq::empty());
                assert(question_ids(rest) =~= question_ids(behind));
                lemma_gathered_in_order(items, i + 1, prefix, Gathered { questions, ..sofar });
            },
        }
    } else {
        assert(rest =~= Seq::empty());
        assert(sofar.questions + rest =~= sofar.questions);
    }
}

/// A form that includes no others is expanded to its own questions and rules, all of
/// them and in their order, each under the prefix. It is refused only where an id
/// would come twice.
pub proof fn law_form_without_inclusions(
    form: JsonView,
    prefix: Seq<char>,
    registry: Seq<(Seq<char>, JsonView)>,
    chain: Seq<Seq<char>>,
    seen: Seq<Seq<char>>,
)
    requires
        form is Object,
        json::member_items(form, "includes"@).len() == 0,
        !chain.contains(form_id_of(form)),
        chain.len() <= registry.len(),
    ensures
        ({
            let questions = json::member_items(form, "questions"@).map_values(
                |q: JsonView| prefixed_question(q, prefix),
            );
            match expansion(form, prefix, registry, chain, seen) {
                Ok((expanded, _)) => {
                    &&& json::member_items(expanded, "questions"@) == questions
                    &&& json::member_items(expanded, "validations"@) == json::member_items(
                        form,
                        "validations"@,
                    ).map_values(|rule: JsonView| prefixed_rule(rule, prefix))
                },
                Err(_) => !(seen + question_ids(questions)).no_duplicates(),
            }
        }),
{
    let start = Gathered { questions: Seq::empty(), rules: Seq::empty(), seen };
    let items = json::member_items(form, "questions"@);
    lemma_gathered_in_order(items, 0, prefix, start);
    assert(items.skip(0) =~= items);
    match gather_questions(items, 0, prefix, start) {
        Ok(own) => {
            let rules = prefixed_rules(json::member_items(form, "validations"@), prefix);
            assert(rules =~= json::member_items(form, "validations"@).map_values(
                |rule: JsonView| prefixed_rule(rule, prefix),
            ));
            lemma_merged(form, Gathered { rules, ..own });
            assert(own.questions =~= items.map_values(|q: JsonView| prefixed_question(q, prefix)));
        },
        Err(_) => {},
    }
}

proof fn lemma_one_more_gathered(
    items: Seq<JsonView>,
    extra: JsonView,
    i: int,
    prefix: Seq<char>,
    registry: Seq<(Seq<char>, JsonView)>,
    chain: Seq<Seq<char>>,
    sofar: Gathered,
)
    requires
        0 <= i <= items.len(),
    ensures
        gather_included(items.push(extra), i, prefix, registry, chain, sofar)
            == match gather_included(items, i, prefix, registry, chain, sofar) {
            Err(message) => Err(message),
            Ok(all) => match json::member_string(extra, "form_ref"@) {
                None => Err("include missing form_ref"@),
                Some(form_ref) => match entries::lookup(registry, form_ref) {
                    None => Err("missing include target '"@ + form_ref + "'"@),
                    Some(target) => match expansion(
                        target,
                        combined(prefix, json::member_string(extra, "prefix"@)),
                        registry,
                        chain,
                        all.seen,
                    ) {
                        Err(message) => Err(message),
                        Ok((form, seen)) => Ok(
                            Gathered {
                                questions: all.questions + json::member_items(form, "questions"@),
                                rules: all.rules + json::member_items(form, "validations"@),
                                seen,
                            },
                        ),
                    },
                },
            },
        },
    decreases items.len() - i,
{
    let longer = items.push(extra);
    reveal_with_fuel(gather_included, 2);
    if i < items.len() {
        assert(longer[i] == items[i]);
        if json::member_string(items[i], "form_ref"@) is Some {
            let form_ref = json::member_string(items[i], "form_ref"@)->0;
            if entries::lookup(registry, form_ref) is Some {
                let target = entries::lookup(registry, form_ref)->0;
                let inner = combined(prefix, json::member_string(items[i], "prefix"@));
                match expansion(target, inner, registry, chain, sofar.seen) {
                    Ok((form, seen)) => {
                        let next = Gathered {
                            questions: sofar.questions + json::member_items(form, "questions"@),
                            rules: sofar.rules + json::member_items(form, "validations"@),
                            seen,
                        };
                        lemma_one_more_gathered(
                            items,
                            extra,
                            i + 1,
                            prefix,
                            registry,
                            chain,
                            next,
                        );
                    },
                    Err(_) => {},
                }
            }
        }
    } else {
        assert(longer[i] == extra);
    }
}

/// A form that includes these forms.
pub open spec fn including(members: Seq<(Seq<char>, JsonView)>, items: Seq<JsonView>) -> JsonView {
    JsonView::Object(entries::put(members, "includes"@, JsonView::Array(items)))
}

proof fn lemma_including(members: Seq<(Seq<char>, JsonView)>, items: Seq<JsonView>)
    ensures
        json::member_items(including(members, items), "includes"@) == items,
        forall|key: Seq<char>|
            key != "includes"@ ==> #[trigger] json::member(including(members, items), key)
                == entries::lookup(members, key),
{
    entries::law_put_then_lookup(members, "includes"@, JsonView::Array(items));
    assert forall|key: Seq<char>| key != "includes"@ implies #[trigger] json::member(
        including(members, items),
        key,
    ) == entries::lookup(members, key) by {
        entries::law_put_keeps_others(members, "includes"@, JsonView::Array(items), key);
    }
}

/// One more inclusion adds the questions and the rules of the form that it names,
/// expanded under the prefix that it gives below the form's own, behind those that
/// were there. One that names no form, or a form that is not registered, is refused
/// with what is missing.
pub proof fn law_one_more_inclusion(
    members: Seq<(Seq<char>, JsonView)>,
    items: Seq<JsonView>,
    extra: JsonView,
    prefix: Seq<char>,
    registry: Seq<(Seq<char>, JsonView)>,
    chain: Seq<Seq<char>>,
    seen: Seq<Seq<char>>,
)
    ensures
        ({
            let form = including(members, items);
            let more = expansion(including(members, items.push(extra)), prefix, registry, chain, seen);
            match expansion(form, prefix, registry, chain, seen) {
                Err(message) => more is Err,
                Ok((expanded, ids)) => match json::member_string(extra, "form_ref"@) {
                    None => more == Err::<(JsonView, Seq<Seq<char>>), Seq<char>>(
                        "include missing form_ref"@,
                    ),
                    Some(form_ref) => match entries::lookup(registry, form_ref) {
                        None => more == Err::<(JsonView, Seq<Seq<char>>), Seq<char>>(
                            "missing include target '"@ + form_ref + "'"@,
                        ),
                        Some(target) => match expansion(
                            target,
                            combined(prefix, json::member_string(extra, "prefix"@)),
                            registry,
                            chain.push(form_id_of(form)),
                            ids,
                        ) {
                            Err(message) => more == Err::<(JsonView, Seq<Seq<char>>), Seq<char>>(
                                message,
                            ),
                            Ok((part, all_ids)) => {
                                &&& more is Ok
                                &&& more->Ok_0.1 == all_ids
                                &&& json::member_items(more->Ok_0.0, "questions"@)
                                    == json::member_items(expanded, "questions"@)
                                    + json::member_items(part, "questions"@)
                                &&& json::member_items(more->Ok_0.0, "validations"@)
                                    == json::member_items(expanded, "validations"@)
                                    + json::member_items(part, "validations"@)
                            },
                        },
                    },
                },
            }
        }),
{
    let form = including(members, items);
    let longer = including(members, items.push(extra));
    lemma_including(members, items);
    lemma_including(members, items.push(extra));
    reveal_strlit("includes");
    reveal_strlit("id");
    reveal_strlit("questions");
    reveal_strlit("validations");
    assert("includes"@.len() == 8 && "id"@.len() == 2);
    assert("questions"@.len() == 9 && "validations"@.len() == 11);
    assert(json::member(form, "id"@) == json::member(longer, "id"@));
    assert(json::member(form, "questions"@) == json::member(longer, "questions"@));
    assert(json::member(form, "validations"@) == json::member(longer, "validations"@));
    assert(form_id_of(form) == form_id_of(longer));
    let start = Gathered { questions: Seq::empty(), rules: Seq::empty(), seen };
    let inner = chain.push(form_id_of(form));
    match gather_questions(json::member_items(form, "questions"@), 0, prefix, start) {
        Ok(own) => {
            let rules = prefixed_rules(json::member_items(form, "validations"@), prefix);
            let begun = Gathered { rules, ..own };
            lemma_one_more_gathered(items, extra, 0, prefix, registry, inner, begun);
            match gather_included(items, 0, prefix, registry, inner, begun) {
                Ok(all) => {
                    lemma_merged(form, all);
                    match gather_included(items.push(extra), 0, prefix, registry, inner, begun) {
                        Ok(every) => lemma_merged(longer, every),
                        Err(_) => {},
                    }
                },
                Err(_) => {},
            }
        },
        Err(_) => {},
    }
}

/// The prefix of an included form is the one that it is given, below that of the
/// form that includes it. What has no prefix of its own keeps the other's.
pub proof fn law_prefix_below_prefix(outer: Seq<char>, inner: Seq<char>)
    ensures
        combined(outer, None) == outer,
        combined(outer, Some(Seq::empty())) == outer,
        combined(Seq::empty(), Some(inner)) == inner,
        outer.len() > 0 && inner.len() > 0 ==> combined(outer, Some(inner)) == outer + "."@ + inner,
        outer.len() > 0 ==> prefixed_key(outer, inner) == outer + "."@ + inner,
        prefixed_key(Seq::empty(), inner) == inner,
{
}

/// Without a prefix questions and rules stay as they are.
pub proof fn law_no_prefix_keeps_questions(value: JsonView)
    ensures
        prefixed_question(value, Seq::empty()) == value,
        prefixed_rule(value, Seq::empty()) == value,
{
}

/// What is no object is no form.
pub proof fn law_forms_are_objects(
    form: JsonView,
    prefix: Seq<char>,
    registry: Seq<(Seq<char>, JsonView)>,
    chain: Seq<Seq<char>>,
    seen: Seq<Seq<char>>,
)
    ensures
        !(form is Object) ==> expansion(form, prefix, registry, chain, seen) == Err::<
            (JsonView, Seq<Seq<char>>),
            Seq<char>,
        >("form spec must be a JSON object"@),
        form_id_of(form) == match json::member(form, "id"@) {
            Some(JsonView::String(id)) => id,
            _ => "<unknown>"@,
        },
{
}

} // verus!
