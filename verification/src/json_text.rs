//! Reading and writing JSON texts.
use crate::cbor::double_value;
use crate::entries::{self, insert};
use crate::json::{self, Json, JsonView, Number};
use crate::text;
use vstd::prelude::*;

verus! {

/// The values of the `serde_json` crate.
#[verifier::external_type_specification]
#[verifier::external_body]
pub struct ExValue(serde_json::Value);

/// What a value of `serde_json` holds.
pub uninterp spec fn value_view(value: serde_json::Value) -> JsonView;

/// What `serde_json` reads from a text: the value, or what it reports.
pub uninterp spec fn json_of_text(text: Seq<char>) -> Result<JsonView, Seq<char>>;

/// Whether arrays and objects nest at most `limit` deep in a value.
pub open spec fn nests_within(value: JsonView, limit: nat) -> bool
    decreases limit,
{
    match value {
        JsonView::Array(items) => limit > 0 && forall|i: int|
            0 <= i < items.len() ==> nests_within(#[trigger] items[i], (limit - 1) as nat),
        JsonView::Object(entries) => limit > 0 && forall|i: int|
            0 <= i < entries.len() ==> nests_within((#[trigger] entries[i]).1, (limit - 1) as nat),
        _ => true,
    }
}

/// The items of an array nest less deep than the array.
proof fn lemma_item_nests(items: Seq<JsonView>, i: int, limit: nat)
    requires
        nests_within(JsonView::Array(items), limit),
        0 <= i < items.len(),
    ensures
        limit > 0,
        nests_within(items[i], (limit - 1) as nat),
{
    assert(JsonView::Array(items)->Array_0 == items);
}

/// The members of an object nest less deep than the object.
proof fn lemma_member_nests(entries: Seq<(Seq<char>, JsonView)>, i: int, limit: nat)
    requires
        nests_within(JsonView::Object(entries), limit),
        0 <= i < entries.len(),
    ensures
        limit > 0,
        nests_within(entries[i].1, (limit - 1) as nat),
{
    assert(JsonView::Object(entries)->Object_0 == entries);
}

/// A value of `serde_json`, opened by one level.
enum Opened<'a> {
    Null,
    Bool(bool),
    Number(Number),
    String(String),
    Array(&'a Vec<serde_json::Value>),
    Object(Vec<(String, &'a serde_json::Value)>),
}

/// `serde_json::from_str` into a `serde_json::Value`. Arrays and objects that
/// nest deeper than the reader's limit are reported as a fault, and the maps of
/// the crate keep their keys in order.
#[verifier::external_body]
fn read_value(text: &str) -> (r: Result<serde_json::Value, String>)
    ensures
        match r {
            Ok(value) => json_of_text(text@) == Ok::<JsonView, Seq<char>>(value_view(value))
                && nests_within(value_view(value), 128) && json::well_formed(value_view(value)),
            Err(message) => json_of_text(text@) == Err::<JsonView, Seq<char>>(message@),
        },
{
    match serde_json::from_str(text) {
        Ok(value) => Ok(value),
        Err(error) => Err(error.to_string()),
    }
}

/// Tells the variants of a `serde_json::Value` apart. A number is one that is
/// not negative, one that is negative, or else a double by its bits.
#[verifier::external_body]
fn open_value<'a>(value: &'a serde_json::Value) -> (r: Opened<'a>)
    ensures
        value_view(*value) == match r {
            Opened::Null => JsonView::Null,
            Opened::Bool(b) => JsonView::Bool(b),
            Opened::Number(n) => JsonView::Number(n),
            Opened::String(s) => JsonView::String(s@),
            Opened::Array(items) => JsonView::Array(
                items@.map_values(|v: serde_json::Value| value_view(v)),
            ),
            Opened::Object(entries) => JsonView::Object(
                entries@.map_values(|e: (String, &serde_json::Value)| (e.0@, value_view(*e.1))),
            ),
        },
{
    match value {
        serde_json::Value::Null => Opened::Null,
        serde_json::Value::Bool(b) => Opened::Bool(*b),
        serde_json::Value::Number(n) => Opened::Number(match (n.as_u64(), n.as_i64()) {
            (Some(v), _) => Number::PosInt(v),
            (None, Some(v)) => Number::NegInt(v),
            (None, None) => Number::Float(n.as_f64().unwrap_or_default().to_bits()),
        }),
        serde_json::Value::String(s) => Opened::String(s.clone()),
        serde_json::Value::Array(items) => Opened::Array(items),
        serde_json::Value::Object(map) => Opened::Object(
            map.iter().map(|e| (e.0.clone(), e.1)).collect(),
        ),
    }
}

/// Copies what a value of `serde_json` holds.
pub(crate) fn from_value(value: &serde_json::Value, limit: u32) -> (r: Json)
    requires
        nests_within(value_view(*value), limit as nat),
    ensures
        r@ == value_view(*value),
    decreases limit,
{
    match open_value(value) {
        Opened::Null => Json::Null,
        Opened::Bool(b) => Json::Bool(b),
        Opened::Number(n) => Json::Number(n),
        Opened::String(s) => Json::String(s),
        Opened::Array(items) => {
            let ghost views = value_view(*value)->Array_0;
            let mut out: Vec<Json> = Vec::new();
            let mut i: usize = 0;
            while i < items.len()
                invariant
                    i <= items@.len(),
                    limit > 0,
                    nests_within(JsonView::Array(views), limit as nat),
                    views == items@.map_values(|v: serde_json::Value| value_view(v)),
                    out@.len() == i,
                    forall|k: int| 0 <= k < i ==> #[trigger] out@[k]@ == views[k],
                decreases items.len() - i,
            {
                assert(views[i as int] == value_view(items@[i as int]));
                proof {
                    lemma_item_nests(views, i as int, limit as nat);
                }
                let item = from_value(&items[i], limit - 1);
                out.push(item);
                i += 1;
            }
            assert(json::items_view(out@) =~= views);
            Json::array(out)
        },
        Opened::Object(entries) => {
            let ghost views = value_view(*value)->Object_0;
            let mut out: Vec<(String, Json)> = Vec::new();
            let mut i: usize = 0;
            while i < entries.len()
                invariant
                    i <= entries@.len(),
                    limit > 0,
                    nests_within(JsonView::Object(views), limit as nat),
                    views == entries@.map_values(
                        |e: (String, &serde_json::Value)| (e.0@, value_view(*e.1)),
                    ),
                    out@.len() == i,
                    forall|k: int|
                        0 <= k < i ==> (#[trigger] out@[k]).0@ == views[k].0 && out@[k].1@
                            == views[k].1,
                decreases entries.len() - i,
            {
                assert(views[i as int].1 == value_view(*entries@[i as int].1));
                proof {
                    lemma_member_nests(views, i as int, limit as nat);
                }
                let key = entries[i].0.clone();
                let item = from_value(entries[i].1, limit - 1);
                out.push((key, item));
                i += 1;
            }
            assert(json::entries_view(out@) =~= views);
            Json::object(out)
        },
    }
}

/// Reads a JSON text.
pub fn parse_json(text: &str) -> (r: Result<Json, String>)
    ensures
        match r {
            Ok(value) => json_of_text(text@) == Ok::<JsonView, Seq<char>>(value@)
                && json::well_formed(value@),
            Err(message) => json_of_text(text@) == Err::<JsonView, Seq<char>>(message@),
        },
{
    match read_value(text) {
        Ok(value) => Ok(from_value(&value, 128)),
        Err(message) => Err(message),
    }
}

/// What `serde_json` reads from a text as a map from text to text: its entries
/// in the order of their keys, or what it reports.
pub uninterp spec fn text_map_of(text: Seq<char>) -> Result<
    Seq<(Seq<char>, Seq<char>)>,
    Seq<char>,
>;

/// `serde_json::from_str` into a `BTreeMap` of strings, whose iteration is in
/// the order of the keys.
#[verifier::external_body]
fn read_text_map(text: &str) -> (r: Result<Vec<(String, String)>, String>)
    ensures
        match r {
            Ok(map) => text_map_of(text@) == Ok::<Seq<(Seq<char>, Seq<char>)>, Seq<char>>(
                entries::text_entries(map@),
            ) && entries::increasing(entries::keys_of(map@)),
            Err(message) => text_map_of(text@) == Err::<Seq<(Seq<char>, Seq<char>)>, Seq<char>>(
                message@,
            ),
        },
{
    match serde_json::from_str::<std::collections::BTreeMap<String, String>>(text) {
        Ok(map) => Ok(map.into_iter().collect()),
        Err(error) => Err(error.to_string()),
    }
}

/// Reads a JSON text as a map from text to text.
pub fn parse_text_map(text: &str) -> (r: Result<Vec<(String, String)>, String>)
    ensures
        match r {
            Ok(map) => text_map_of(text@) == Ok::<Seq<(Seq<char>, Seq<char>)>, Seq<char>>(
                entries::text_entries(map@),
            ) && entries::increasing(entries::keys_of(map@)),
            Err(message) => text_map_of(text@) == Err::<Seq<(Seq<char>, Seq<char>)>, Seq<char>>(
                message@,
            ),
        },
{
    read_text_map(text)
}

/// The text that `serde_json` writes for a value.
pub uninterp spec fn text_of_value(value: JsonView) -> Seq<char>;

/// Whether a double is neither infinite nor not a number.
pub open spec fn is_finite(bits: u64) -> bool {
    json::magnitude(bits) < 0x7ff0_0000_0000_0000
}

/// Whether a double is neither infinite nor not a number.
pub fn finite(bits: u64) -> (r: bool)
    ensures
        r == is_finite(bits),
{
    bits % 0x8000_0000_0000_0000 < 0x7ff0_0000_0000_0000
}

/// A number as JSON has it: null where it is not finite.
pub open spec fn clean_number(n: Number) -> JsonView {
    match n {
        Number::NegInt(v) => JsonView::Number(json::number_of_int(v)),
        Number::Float(bits) => if is_finite(bits) {
            JsonView::Number(n)
        } else {
            JsonView::Null
        },
        _ => JsonView::Number(n),
    }
}

/// A value as JSON has it: the members of each object in order, the last of
/// several under one key, and only finite numbers.
pub open spec fn clean(value: JsonView) -> JsonView
    decreases value, 0int,
{
    match value {
        JsonView::Number(n) => clean_number(n),
        JsonView::Array(items) => JsonView::Array(
            Seq::new(
                items.len(),
                |i: int|
                    if 0 <= i < items.len() {
                        clean(items[i])
                    } else {
                        JsonView::Null
                    },
            ),
        ),
        JsonView::Object(members) => JsonView::Object(
            clean_members(members, members.len() as int),
        ),
        _ => value,
    }
}

/// The first `n` members of an object, cleaned and put in order.
pub open spec fn clean_members(members: Seq<(Seq<char>, JsonView)>, n: int) -> Seq<
    (Seq<char>, JsonView),
>
    decreases members, n,
{
    if n <= 0 || n > members.len() {
        Seq::empty()
    } else {
        entries::put(clean_members(members, n - 1), members[n - 1].0, clean(members[n - 1].1))
    }
}

/// The text that is written for a value.
pub open spec fn shown(value: JsonView) -> Seq<char> {
    text_of_value(clean(value))
}

/// Whether a value holds no doubles.
pub open spec fn without_doubles(value: JsonView) -> bool
    decreases value,
{
    match value {
        JsonView::Number(Number::Float(_)) => false,
        JsonView::Array(items) => forall|i: int|
            0 <= i < items.len() ==> without_doubles(#[trigger] items[i]),
        JsonView::Object(members) => forall|i: int|
            0 <= i < members.len() ==> without_doubles((#[trigger] members[i]).1),
        _ => true,
    }
}

/// Whether a text reads back as the value that it was written for, where that
/// holds no doubles, which the reader may round, and nests no deeper than the
/// reader goes.
pub open spec fn reads_back(text: Seq<char>, value: JsonView) -> bool {
    without_doubles(value) && nests_within(value, 127) ==> json_of_text(text) == Ok::<
        JsonView,
        Seq<char>,
    >(value)
}

/// A value of `serde_json` that may be absent, viewed.
pub open spec fn opt_value(value: Option<serde_json::Value>) -> Option<JsonView> {
    match value {
        Some(value) => Some(value_view(value)),
        None => None,
    }
}

/// A value to be, by one level.
enum Closed {
    Null,
    Bool(bool),
    Unsigned(u64),
    Signed(i64),
    String(String),
    Array(Vec<serde_json::Value>),
    Object(Vec<(String, serde_json::Value)>),
}

/// The members of an object to be, viewed.
spec fn values_view(members: Seq<(String, serde_json::Value)>) -> Seq<(Seq<char>, JsonView)> {
    members.map_values(|e: (String, serde_json::Value)| (e.0@, value_view(e.1)))
}

/// Makes a `serde_json::Value` of the variant that is given. Its maps keep
/// their keys in order, so that members in order stay as they are.
#[verifier::external_body]
fn close_value(parts: Closed) -> (r: serde_json::Value)
    requires
        parts matches Closed::Object(members) ==> entries::increasing(
            entries::keys_of(members@),
        ),
    ensures
        value_view(r) == match parts {
            Closed::Null => JsonView::Null,
            Closed::Bool(b) => JsonView::Bool(b),
            Closed::Unsigned(v) => JsonView::Number(Number::PosInt(v)),
            Closed::Signed(v) => JsonView::Number(json::number_of_int(v)),
            Closed::String(s) => JsonView::String(s@),
            Closed::Array(items) => JsonView::Array(
                items@.map_values(|v: serde_json::Value| value_view(v)),
            ),
            Closed::Object(members) => JsonView::Object(values_view(members@)),
        },
{
    match parts {
        Closed::Null => serde_json::Value::Null,
        Closed::Bool(b) => serde_json::Value::Bool(b),
        Closed::Unsigned(v) => serde_json::Value::from(v),
        Closed::Signed(v) => serde_json::Value::from(v),
        Closed::String(s) => serde_json::Value::String(s),
        Closed::Array(items) => serde_json::Value::Array(items),
        Closed::Object(members) => serde_json::Value::Object(members.into_iter().collect()),
    }
}

/// `serde_json::Value`'s text, as its `Display` writes it, and what
/// `serde_json::from_str` reads from that text.
#[verifier::external_body]
fn write_value(value: &serde_json::Value) -> (r: String)
    ensures
        r@ == text_of_value(value_view(*value)),
        reads_back(r@, value_view(*value)),
{
    value.to_string()
}

proof fn lemma_clean_members_ordered(members: Seq<(Seq<char>, JsonView)>, n: int)
    requires
        0 <= n <= members.len(),
    ensures
        entries::increasing(entries::view_keys(clean_members(members, n))),
    decreases n,
{
    if n > 0 {
        lemma_clean_members_ordered(members, n - 1);
        entries::law_put_keeps_order(
            clean_members(members, n - 1),
            members[n - 1].0,
            clean(members[n - 1].1),
        );
    }
}

/// Makes a value of `serde_json` of a value.
pub(crate) fn to_value(value: &Json) -> (r: serde_json::Value)
    ensures
        value_view(r) == clean(value@),
    decreases value,
{
    broadcast use {json::lemma_array, json::lemma_object};

    match value {
        Json::Null => close_value(Closed::Null),
        Json::Bool(b) => close_value(Closed::Bool(*b)),
        Json::Number(Number::PosInt(v)) => close_value(Closed::Unsigned(*v)),
        Json::Number(Number::NegInt(v)) => close_value(Closed::Signed(*v)),
        Json::Number(Number::Float(bits)) => match double_value(*bits) {
            Some(double) => double,
            None => close_value(Closed::Null),
        },
        Json::String(s) => close_value(Closed::String(s.clone())),
        Json::Array(items) => {
            let ghost views = json::items_view(items@);
            let mut out: Vec<serde_json::Value> = Vec::new();
            let mut i: usize = 0;
            while i < items.len()
                invariant
                    i <= items@.len(),
                    *value == Json::Array(*items),
                    views == json::items_view(items@),
                    out@.len() == i,
                    forall|k: int| 0 <= k < i ==> value_view(#[trigger] out@[k]) == clean(views[k]),
                decreases items.len() - i,
            {
                proof {
                    json::lemma_item_smaller(*value, i as int);
                }
                let item = to_value(&items[i]);
                out.push(item);
                i += 1;
            }
            assert(out@.map_values(|v: serde_json::Value| value_view(v)) =~= clean(
                JsonView::Array(views),
            )->Array_0);
            close_value(Closed::Array(out))
        },
        Json::Object(members) => {
            let ghost views = json::entries_view(members@);
            let mut out: Vec<(String, serde_json::Value)> = Vec::new();
            let mut i: usize = 0;
            assert(values_view(out@) =~= clean_members(views, 0));
            while i < members.len()
                invariant
                    i <= members@.len(),
                    *value == Json::Object(*members),
                    views == json::entries_view(members@),
                    values_view(out@) == clean_members(views, i as int),
                decreases members.len() - i,
            {
                proof {
                    json::lemma_member_smaller(*value, i as int);
                }
                let item = to_value(&members[i].1);
                let key = members[i].0.clone();
                let ghost before = out@;
                proof {
                    assert(entries::view_keys(values_view(before)) =~= entries::keys_of(before));
                    entries::lemma_slot(entries::keys_of(before), key@);
                }
                insert(&mut out, key, item);
                assert(values_view(out@) =~= entries::put(
                    values_view(before),
                    key@,
                    value_view(item),
                ));
                i += 1;
            }
            proof {
                lemma_clean_members_ordered(views, views.len() as int);
                assert(entries::view_keys(values_view(out@)) =~= entries::keys_of(out@));
            }
            close_value(Closed::Object(out))
        },
    }
}

/// Writes a value as JSON. What was written reads back as the value, unless it
/// holds doubles or nests too deep for the reader.
pub fn render_json(value: &Json) -> (r: String)
    ensures
        r@ == shown(value@),
        reads_back(r@, clean(value@)),
{
    write_value(&to_value(value))
}

/// The indented text that `serde_json` writes for a value.
pub uninterp spec fn pretty_of_value(value: JsonView) -> Seq<char>;

/// The indented text that is written for a value.
pub open spec fn pretty_shown(value: JsonView) -> Seq<char> {
    pretty_of_value(clean(value))
}

/// Whether a text reads as the map from text to text that it was written for,
/// where it was written for one.
pub open spec fn reads_as_map(text: Seq<char>, value: JsonView) -> bool {
    forall|map: Seq<(Seq<char>, Seq<char>)>|
        value == JsonView::Object(#[trigger] text_members(map)) ==> text_map_of(text) == Ok::<
            Seq<(Seq<char>, Seq<char>)>,
            Seq<char>,
        >(map)
}

/// The entries of a map from text to text as members of an object.
pub open spec fn text_members(map: Seq<(Seq<char>, Seq<char>)>) -> Seq<(Seq<char>, JsonView)> {
    map.map_values(|e: (Seq<char>, Seq<char>)| (e.0, JsonView::String(e.1)))
}

/// `serde_json::to_string_pretty` on a `serde_json::Value`, which has a text for
/// each of them, and what `serde_json::from_str` reads from that text: the value,
/// and where all of its members are texts, the map of them.
#[verifier::external_body]
fn write_pretty(value: &serde_json::Value) -> (r: String)
    ensures
        r@ == pretty_of_value(value_view(*value)),
        reads_back(r@, value_view(*value)),
        reads_as_map(r@, value_view(*value)),
{
    serde_json::to_string_pretty(value).unwrap_or_default()
}

/// Writes a value as indented JSON. What was written reads back as the value,
/// unless it holds doubles or nests too deep for the reader.
pub fn render_pretty(value: &Json) -> (r: String)
    ensures
        r@ == pretty_shown(value@),
        reads_back(r@, clean(value@)),
        reads_as_map(r@, clean(value@)),
{
    write_pretty(&to_value(value))
}

/// What is written is in order.
pub proof fn lemma_clean_is_well_formed(value: JsonView)
    ensures
        json::well_formed(clean(value)),
    decreases value, 0int,
{
    match value {
        JsonView::Array(items) => {
            assert forall|i: int| 0 <= i < items.len() implies json::well_formed(
                #[trigger] clean(value)->Array_0[i],
            ) by {
                lemma_clean_is_well_formed(items[i]);
            }
        },
        JsonView::Object(members) => {
            lemma_clean_members_ordered(members, members.len() as int);
            lemma_clean_members_well_formed(members, members.len() as int);
        },
        _ => {},
    }
}

proof fn lemma_clean_members_well_formed(members: Seq<(Seq<char>, JsonView)>, n: int)
    requires
        0 <= n <= members.len(),
    ensures
        forall|k: int|
            0 <= k < clean_members(members, n).len() ==> json::well_formed(
                (#[trigger] clean_members(members, n)[k]).1,
            ),
    decreases members, n,
{
    if n > 0 {
        lemma_clean_members_well_formed(members, n - 1);
        lemma_clean_is_well_formed(members[n - 1].1);
        let before = clean_members(members, n - 1);
        let at = entries::slot(entries::view_keys(before), members[n - 1].0);
        entries::lemma_slot(entries::view_keys(before), members[n - 1].0);
        let after = clean_members(members, n);
        assert forall|k: int| 0 <= k < after.len() implies json::well_formed(
            (#[trigger] after[k]).1,
        ) by {
            if k != at {
                let o = if after.len() == before.len() || k < at {
                    k
                } else {
                    k - 1
                };
                assert(after[k] == before[o]);
            }
        }
    }
}

/// Members under the same keys that are cleaned alike give the same members.
pub proof fn lemma_clean_members_alike(
    a: Seq<(Seq<char>, JsonView)>,
    b: Seq<(Seq<char>, JsonView)>,
    n: int,
)
    requires
        a.len() == b.len(),
        0 <= n <= a.len(),
        forall|i: int|
            #![trigger a[i]]
            0 <= i < a.len() ==> a[i].0 == b[i].0 && clean(a[i].1) == clean(b[i].1),
    ensures
        clean_members(a, n) == clean_members(b, n),
    decreases n,
{
    if n > 0 {
        lemma_clean_members_alike(a, b, n - 1);
        assert(a[n - 1].0 == b[n - 1].0);
    }
}

/// The last value under a key.
pub open spec fn last_under(members: Seq<(Seq<char>, JsonView)>, key: Seq<char>) -> Option<JsonView>
    decreases members.len(),
{
    if members.len() == 0 {
        None
    } else if members.last().0 == key {
        Some(members.last().1)
    } else {
        last_under(members.drop_last(), key)
    }
}

/// What stands under a key of a cleaned object is the last value under it.
pub proof fn lemma_clean_lookup(members: Seq<(Seq<char>, JsonView)>, n: int, key: Seq<char>)
    requires
        0 <= n <= members.len(),
    ensures
        entries::lookup(clean_members(members, n), key) == match last_under(members.take(n), key) {
            Some(value) => Some(clean(value)),
            None => None,
        },
    decreases n,
{
    if n == 0 {
        entries::lemma_position(entries::view_keys(clean_members(members, 0)), key);
    } else {
        lemma_clean_lookup(members, n - 1, key);
        assert(members.take(n).drop_last() =~= members.take(n - 1));
        let before = clean_members(members, n - 1);
        let value = clean(members[n - 1].1);
        if members[n - 1].0 == key {
            entries::law_put_then_lookup(before, key, value);
        } else {
            entries::law_put_keeps_others(before, members[n - 1].0, value, key);
        }
    }
}

/// In what order the members of an object came does not show in what is written:
/// objects with the same values under the same keys are written alike.
pub proof fn law_member_order_does_not_show(
    a: Seq<(Seq<char>, JsonView)>,
    b: Seq<(Seq<char>, JsonView)>,
)
    requires
        forall|key: Seq<char>| #[trigger] last_under(a, key) == last_under(b, key),
    ensures
        clean(JsonView::Object(a)) == clean(JsonView::Object(b)),
{
    let x = clean_members(a, a.len() as int);
    let y = clean_members(b, b.len() as int);
    lemma_clean_members_ordered(a, a.len() as int);
    lemma_clean_members_ordered(b, b.len() as int);
    assert forall|key: Seq<char>| #[trigger] entries::lookup(x, key) == entries::lookup(y, key) by {
        lemma_clean_lookup(a, a.len() as int, key);
        lemma_clean_lookup(b, b.len() as int, key);
        assert(a.take(a.len() as int) =~= a);
        assert(b.take(b.len() as int) =~= b);
        assert(last_under(a, key) == last_under(b, key));
    }
    entries::law_entries_in_order_are_a_map(x, y);
}

/// Whether a number is as JSON has it: a negative integer is below zero, and a
/// double is finite.
pub open spec fn proper_number(n: Number) -> bool {
    match n {
        Number::PosInt(_) => true,
        Number::NegInt(v) => v < 0,
        Number::Float(bits) => is_finite(bits),
    }
}

/// Whether all numbers in a value are as JSON has them.
pub open spec fn proper(value: JsonView) -> bool
    decreases value,
{
    match value {
        JsonView::Number(n) => proper_number(n),
        JsonView::Array(items) => forall|i: int| 0 <= i < items.len() ==> proper(#[trigger] items[i]),
        JsonView::Object(members) => forall|i: int|
            0 <= i < members.len() ==> proper((#[trigger] members[i]).1),
        _ => true,
    }
}

/// A value whose members are in order and whose numbers are as JSON has them is
/// written as it is.
pub proof fn law_proper_value_is_clean(value: JsonView)
    requires
        json::well_formed(value),
        proper(value),
    ensures
        clean(value) == value,
    decreases value, 0int,
{
    match value {
        JsonView::Array(items) => {
            assert forall|i: int| 0 <= i < items.len() implies clean(#[trigger] items[i])
                == items[i] by {
                law_proper_value_is_clean(items[i]);
            }
            assert(clean(value)->Array_0 =~= items);
        },
        JsonView::Object(members) => {
            lemma_members_clean(members, members.len() as int);
            assert(members.take(members.len() as int) =~= members);
        },
        _ => {},
    }
}

proof fn lemma_members_clean(members: Seq<(Seq<char>, JsonView)>, n: int)
    requires
        0 <= n <= members.len(),
        entries::increasing(entries::view_keys(members)),
        forall|i: int|
            0 <= i < members.len() ==> json::well_formed((#[trigger] members[i]).1) && proper(
                members[i].1,
            ),
    ensures
        clean_members(members, n) == members.take(n),
    decreases members, n,
{
    if n == 0 {
        assert(clean_members(members, 0) =~= members.take(0));
    } else {
        lemma_members_clean(members, n - 1);
        law_proper_value_is_clean(members[n - 1].1);
        let front = members.take(n - 1);
        let keys = entries::view_keys(front);
        let key = members[n - 1].0;
        let all = entries::view_keys(members);
        entries::lemma_slot(keys, key);
        let at = entries::slot(keys, key);
        if at < keys.len() {
            assert(keys[at] == all[at]);
            assert(text::precedes(all[at], all[n - 1]));
        }
        assert(clean_members(members, n) =~= members.take(n));
    }
}

/// What is written of a number is the number, but for one that is not finite, of
/// which nothing is written.
pub proof fn law_written_numbers(n: Number)
    ensures
        n matches Number::Float(bits) ==> {
            let finite = bits < 0x7ff0_0000_0000_0000 || 0x8000_0000_0000_0000 <= bits
                < 0xfff0_0000_0000_0000;
            &&& is_finite(bits) <==> finite
            &&& finite ==> clean(JsonView::Number(n)) == JsonView::Number(n)
            &&& !finite ==> clean(JsonView::Number(n)) == JsonView::Null
        },
        n is PosInt ==> clean(JsonView::Number(n)) == JsonView::Number(n),
        n matches Number::NegInt(v) ==> v < 0 ==> clean(JsonView::Number(n)) == JsonView::Number(n),
{
}

/// What is written of an object has each member under its key, the last one where a
/// key comes twice, and lists keep their entries in their places.
pub proof fn law_written_members(
    members: Seq<(Seq<char>, JsonView)>,
    items: Seq<JsonView>,
    key: Seq<char>,
)
    ensures
        json::member(clean(JsonView::Object(members)), key) == match last_under(members, key) {
            Some(value) => Some(clean(value)),
            None => None,
        },
        clean(JsonView::Array(items)) is Array,
        clean(JsonView::Array(items))->Array_0.len() == items.len(),
        forall|i: int|
            0 <= i < items.len() ==> #[trigger] clean(JsonView::Array(items))->Array_0[i] == clean(
                items[i],
            ),
{
    lemma_clean_lookup(members, members.len() as int, key);
    assert(members.take(members.len() as int) =~= members);
}

} // verus!
