//! JSON values.
use crate::entries::{self, find, insert};
use crate::text;
use vstd::prelude::*;

verus! {

/// A JSON number: an integer that is not negative, a negative integer, or a
/// double by its bit pattern.
#[derive(Debug, Clone, Copy, PartialEq, Eq, Structural)]
pub enum Number {
    PosInt(u64),
    NegInt(i64),
    Float(u64),
}

/// A JSON value. The entries of an object stand in the order of their keys.
#[derive(Debug, PartialEq)]
pub enum Json {
    Null,
    Bool(bool),
    Number(Number),
    String(String),
    Array(Vec<Json>),
    Object(Vec<(String, Json)>),
}

/// What a JSON value denotes.
#[verifier::ext_equal]
pub enum JsonView {
    Null,
    Bool(bool),
    Number(Number),
    String(Seq<char>),
    Array(Seq<JsonView>),
    Object(Seq<(Seq<char>, JsonView)>),
}

pub open spec fn json_view(value: Json) -> JsonView
    decreases value,
{
    match value {
        Json::Null => JsonView::Null,
        Json::Bool(b) => JsonView::Bool(b),
        Json::Number(n) => JsonView::Number(n),
        Json::String(s) => JsonView::String(s@),
        Json::Array(items) => JsonView::Array(
            Seq::new(
                items@.len(),
                |i: int|
                    if 0 <= i < items@.len() {
                        json_view(items@[i])
                    } else {
                        JsonView::Null
                    },
            ),
        ),
        Json::Object(entries) => JsonView::Object(
            Seq::new(
                entries@.len(),
                |i: int|
                    if 0 <= i < entries@.len() {
                        (entries@[i].0@, json_view(entries@[i].1))
                    } else {
                        (Seq::empty(), JsonView::Null)
                    },
            ),
        ),
    }
}

impl View for Json {
    type V = JsonView;

    open spec fn view(&self) -> JsonView {
        json_view(*self)
    }
}

/// A list of JSON values, viewed.
pub open spec fn items_view(items: Seq<Json>) -> Seq<JsonView> {
    Seq::new(items.len(), |i: int| items[i]@)
}

/// The entries of an object, viewed.
pub open spec fn entries_view(entries: Seq<(String, Json)>) -> Seq<(Seq<char>, JsonView)> {
    Seq::new(entries.len(), |i: int| (entries[i].0@, entries[i].1@))
}

pub broadcast proof fn lemma_array(items: Vec<Json>)
    ensures
        #[trigger] Json::Array(items)@ == JsonView::Array(items_view(items@)),
{
    assert(Json::Array(items)@->Array_0 =~= items_view(items@));
}

pub broadcast proof fn lemma_object(entries: Vec<(String, Json)>)
    ensures
        #[trigger] Json::Object(entries)@ == JsonView::Object(entries_view(entries@)),
{
    assert(Json::Object(entries)@->Object_0 =~= entries_view(entries@));
}

/// The value of a member of an object.
pub open spec fn member(value: JsonView, key: Seq<char>) -> Option<JsonView> {
    match value {
        JsonView::Object(entries) => entries::lookup(entries, key),
        _ => None,
    }
}

/// The text of a string.
pub open spec fn string_of(value: JsonView) -> Option<Seq<char>> {
    match value {
        JsonView::String(s) => Some(s),
        _ => None,
    }
}

/// The truth value of a boolean.
pub open spec fn bool_of(value: JsonView) -> Option<bool> {
    match value {
        JsonView::Bool(b) => Some(b),
        _ => None,
    }
}

/// The items of an array.
pub open spec fn array_of(value: JsonView) -> Option<Seq<JsonView>> {
    match value {
        JsonView::Array(items) => Some(items),
        _ => None,
    }
}

/// The entries of an object.
pub open spec fn object_of(value: JsonView) -> Option<Seq<(Seq<char>, JsonView)>> {
    match value {
        JsonView::Object(entries) => Some(entries),
        _ => None,
    }
}

/// The text of a member that is a string.
pub open spec fn member_string(value: JsonView, key: Seq<char>) -> Option<Seq<char>> {
    match member(value, key) {
        Some(v) => string_of(v),
        None => None,
    }
}

/// The truth value of a member that is a boolean.
pub open spec fn member_bool(value: JsonView, key: Seq<char>) -> Option<bool> {
    match member(value, key) {
        Some(v) => bool_of(v),
        None => None,
    }
}

/// The items of a member that is an array.
pub open spec fn member_array(value: JsonView, key: Seq<char>) -> Option<Seq<JsonView>> {
    match member(value, key) {
        Some(v) => array_of(v),
        None => None,
    }
}

/// The items of a member that is an array, or no items.
pub open spec fn member_items(value: JsonView, key: Seq<char>) -> Seq<JsonView> {
    match member_array(value, key) {
        Some(items) => items,
        None => Seq::empty(),
    }
}

/// Whether the members of every object in a value stand in strict key order.
pub open spec fn well_formed(value: JsonView) -> bool
    decreases value,
{
    match value {
        JsonView::Array(items) => forall|i: int| 0 <= i < items.len() ==> well_formed(#[trigger] items[i]),
        JsonView::Object(entries) => entries::increasing(entries::view_keys(entries)) && forall|i: int|
            0 <= i < entries.len() ==> well_formed((#[trigger] entries[i]).1),
        _ => true,
    }
}

/// An object without members.
pub open spec fn empty_object() -> JsonView {
    JsonView::Object(Seq::empty())
}

/// `serde_json`'s reading of an unsigned integer as a double, by its bit pattern.
pub uninterp spec fn unsigned_as_double(n: u64) -> Option<u64>;

/// `serde_json`'s reading of a signed integer as a double, by its bit pattern.
pub uninterp spec fn signed_as_double(n: i64) -> Option<u64>;

/// The double that a number is read as, by its bit pattern.
pub open spec fn double_of(n: Number) -> Option<u64> {
    match n {
        Number::PosInt(v) => unsigned_as_double(v),
        Number::NegInt(v) => signed_as_double(v),
        Number::Float(bits) => Some(bits),
    }
}

/// The magnitude bits of a double.
pub open spec fn magnitude(bits: u64) -> int {
    bits as int % 0x8000_0000_0000_0000
}

/// Whether a bit pattern is a double that is not a number: all exponent bits
/// set, and a fraction.
pub open spec fn is_nan(bits: u64) -> bool {
    magnitude(bits) > 0x7ff0_0000_0000_0000
}

/// An integer that orders the doubles as they are ordered.
pub open spec fn rank(bits: u64) -> int {
    if bits >= 0x8000_0000_0000_0000 {
        -magnitude(bits)
    } else {
        magnitude(bits)
    }
}

/// Whether one double is below another.
pub open spec fn double_less(a: u64, b: u64) -> bool {
    !is_nan(a) && !is_nan(b) && rank(a) < rank(b)
}

/// `serde_json::Number::from` on an unsigned integer, then
/// `serde_json::Number::as_f64`, which has a value on every such number.
#[verifier::external_body]
fn unsigned_to_double(n: u64) -> (r: Option<u64>)
    ensures
        r == unsigned_as_double(n),
        r is Some,
{
    match serde_json::Number::from(n).as_f64() {
        Some(double) => Some(double.to_bits()),
        None => None,
    }
}

/// `serde_json::Number::from` on a signed integer, then
/// `serde_json::Number::as_f64`, which has a value on every such number.
#[verifier::external_body]
fn signed_to_double(n: i64) -> (r: Option<u64>)
    ensures
        r == signed_as_double(n),
        r is Some,
{
    match serde_json::Number::from(n).as_f64() {
        Some(double) => Some(double.to_bits()),
        None => None,
    }
}

/// Whether one double, given by its bit pattern, is below another.
pub fn double_below(a: u64, b: u64) -> (r: bool)
    ensures
        r == double_less(a, b),
{
    let sign: u64 = 0x8000_0000_0000_0000;
    let x = a % sign;
    let y = b % sign;
    if x > 0x7ff0_0000_0000_0000 || y > 0x7ff0_0000_0000_0000 {
        return false;
    }
    if a >= sign {
        if b >= sign {
            y < x
        } else {
            x > 0 || y > 0
        }
    } else if b >= sign {
        false
    } else {
        x < y
    }
}

impl Number {
    /// Whether the number is an integer within the range of `i64`.
    pub fn is_i64(&self) -> (r: bool)
        ensures
            r == number_is_i64(*self),
    {
        match *self {
            Number::PosInt(v) => v <= i64::MAX as u64,
            Number::NegInt(_) => true,
            Number::Float(_) => false,
        }
    }

    /// The double that the number is read as.
    pub fn as_double(&self) -> (r: Option<u64>)
        ensures
            r == double_of(*self),
    {
        match *self {
            Number::PosInt(v) => unsigned_to_double(v),
            Number::NegInt(v) => signed_to_double(v),
            Number::Float(bits) => Some(bits),
        }
    }

    /// The number for a signed integer.
    pub fn from_i64(v: i64) -> (r: Number)
        ensures
            r == number_of_int(v),
    {
        if v >= 0 {
            Number::PosInt(v as u64)
        } else {
            Number::NegInt(v)
        }
    }
}

/// Whether a number is an integer within the range of `i64`.
pub open spec fn number_is_i64(n: Number) -> bool {
    match n {
        Number::PosInt(v) => v <= i64::MAX,
        Number::NegInt(_) => true,
        Number::Float(_) => false,
    }
}

/// The number for a signed integer.
pub open spec fn number_of_int(v: i64) -> Number {
    if v >= 0 {
        Number::PosInt(v as u64)
    } else {
        Number::NegInt(v)
    }
}

/// A copy of a list of values.
pub fn copy_items(items: &Vec<Json>) -> (r: Vec<Json>)
    ensures
        items_view(r@) == items_view(items@),
    decreases items, 0int,
{
    let mut out: Vec<Json> = Vec::new();
    let mut i: usize = 0;
    while i < items.len()
        invariant
            i <= items@.len(),
            out@.len() == i,
            forall|k: int| 0 <= k < i ==> #[trigger] out@[k]@ == items@[k]@,
        decreases items.len() - i,
    {
        let item = items[i].copy();
        out.push(item);
        i += 1;
    }
    assert(items_view(out@) =~= items_view(items@));
    out
}

/// A copy of the entries of an object.
pub fn copy_entries(entries: &Vec<(String, Json)>) -> (r: Vec<(String, Json)>)
    ensures
        entries_view(r@) == entries_view(entries@),
    decreases entries, 0int,
{
    let mut out: Vec<(String, Json)> = Vec::new();
    let mut i: usize = 0;
    while i < entries.len()
        invariant
            i <= entries@.len(),
            out@.len() == i,
            forall|k: int|
                0 <= k < i ==> (#[trigger] out@[k]).0@ == entries@[k].0@ && out@[k].1@ == entries@[k].1@,
        decreases entries.len() - i,
    {
        let key = entries[i].0.clone();
        let value = entries[i].1.copy();
        out.push((key, value));
        i += 1;
    }
    assert(entries_view(out@) =~= entries_view(entries@));
    out
}

impl Json {
    /// A copy of the value.
    pub fn copy(&self) -> (r: Json)
        ensures
            r@ == self@,
        decreases self, 1int,
    {
        broadcast use {lemma_array, lemma_object};

        match self {
            Json::Null => Json::Null,
            Json::Bool(b) => Json::Bool(*b),
            Json::Number(n) => Json::Number(*n),
            Json::String(s) => Json::String(s.clone()),
            Json::Array(items) => Json::Array(copy_items(items)),
            Json::Object(entries) => Json::Object(copy_entries(entries)),
        }
    }

    /// A string value.
    pub fn string(s: &str) -> (r: Json)
        ensures
            r@ == JsonView::String(s@),
    {
        Json::String(s.to_owned())
    }

    /// A string, or null where there is none.
    pub fn opt_text(s: &Option<String>) -> (r: Json)
        ensures
            r@ == opt_string(text::opt_text(*s)),
    {
        match s {
            Some(s) => Json::String(s.clone()),
            None => Json::Null,
        }
    }

    /// An integer that is not negative.
    pub fn count(n: usize) -> (r: Json)
        ensures
            r@ == JsonView::Number(Number::PosInt(n as u64)),
    {
        Json::Number(Number::PosInt(n as u64))
    }

    /// An array of values.
    pub fn array(items: Vec<Json>) -> (r: Json)
        ensures
            r@ == JsonView::Array(items_view(items@)),
    {
        broadcast use lemma_array;

        Json::Array(items)
    }

    /// An object with the given entries.
    pub fn object(entries: Vec<(String, Json)>) -> (r: Json)
        ensures
            r@ == JsonView::Object(entries_view(entries@)),
    {
        broadcast use lemma_object;

        Json::Object(entries)
    }

    /// An object without members.
    pub fn empty() -> (r: Json)
        ensures
            r@ == empty_object(),
    {
        let entries: Vec<(String, Json)> = Vec::new();
        assert(entries_view(entries@) =~= Seq::empty());
        Json::object(entries)
    }

    /// The member under a key, where the value is an object that has one.
    pub fn get(&self, key: &str) -> (r: Option<&Json>)
        ensures
            match r {
                Some(v) => member(self@, key@) == Some(v@) && (*self) is Object && exists|i: int|
                    0 <= i < self->Object_0@.len() && self->Object_0@[i].1 == *v,
                None => member(self@, key@) is None,
            },
    {
        broadcast use lemma_object;

        match self {
            Json::Object(entries) => {
                proof {
                    assert(entries::view_keys(entries_view(entries@)) =~= entries::keys_of(entries@));
                }
                match find(entries, key) {
                    Some(i) => {
                        assert(entries@[i as int].1 == entries[i as int].1);
                        Some(&entries[i].1)
                    },
                    None => None,
                }
            },
            _ => None,
        }
    }

    /// The text, where the value is a string.
    pub fn as_str(&self) -> (r: Option<&str>)
        ensures
            match r {
                Some(s) => string_of(self@) == Some(s@),
                None => string_of(self@) is None,
            },
    {
        match self {
            Json::String(s) => Some(s.as_str()),
            _ => None,
        }
    }

    /// The truth value, where the value is a boolean.
    pub fn as_bool(&self) -> (r: Option<bool>)
        ensures
            r == bool_of(self@),
    {
        match self {
            Json::Bool(b) => Some(*b),
            _ => None,
        }
    }

    /// The items, where the value is an array.
    pub fn as_array(&self) -> (r: Option<&Vec<Json>>)
        ensures
            match r {
                Some(items) => *self == Json::Array(*items) && array_of(self@) == Some(
                    items_view(items@),
                ),
                None => array_of(self@) is None,
            },
    {
        broadcast use lemma_array;

        match self {
            Json::Array(items) => Some(items),
            _ => None,
        }
    }

    /// The entries, where the value is an object.
    pub fn as_object(&self) -> (r: Option<&Vec<(String, Json)>>)
        ensures
            match r {
                Some(entries) => *self == Json::Object(*entries) && object_of(self@) == Some(
                    entries_view(entries@),
                ),
                None => object_of(self@) is None,
            },
    {
        broadcast use lemma_object;

        match self {
            Json::Object(entries) => Some(entries),
            _ => None,
        }
    }

    /// The integer, where the value is one that is not negative.
    pub fn as_u64(&self) -> (r: Option<u64>)
        ensures
            r == u64_of(self@),
    {
        match self {
            Json::Number(Number::PosInt(v)) => Some(*v),
            _ => None,
        }
    }

    /// The text of a member that is a string.
    pub fn get_str(&self, key: &str) -> (r: Option<&str>)
        ensures
            match r {
                Some(s) => member_string(self@, key@) == Some(s@),
                None => member_string(self@, key@) is None,
            },
    {
        match self.get(key) {
            Some(v) => v.as_str(),
            None => None,
        }
    }

    /// The truth value of a member that is a boolean.
    pub fn get_bool(&self, key: &str) -> (r: Option<bool>)
        ensures
            r == member_bool(self@, key@),
    {
        match self.get(key) {
            Some(v) => v.as_bool(),
            None => None,
        }
    }
}

/// The integer of a number that is not negative.
pub open spec fn u64_of(value: JsonView) -> Option<u64> {
    match value {
        JsonView::Number(Number::PosInt(v)) => Some(v),
        _ => None,
    }
}

/// A string, or null where there is none.
pub open spec fn opt_string(text: Option<Seq<char>>) -> JsonView {
    match text {
        Some(s) => JsonView::String(s),
        None => JsonView::Null,
    }
}

impl Clone for Json {
    fn clone(&self) -> (r: Json)
        ensures
            r@ == self@,
    {
        self.copy()
    }
}

/// An entry of an object.
pub fn entry(key: &str, value: Json) -> (r: (String, Json))
    ensures
        r.0@ == key@,
        r.1 == value,
{
    (key.to_owned(), value)
}

/// Puts a value under a key of an object, in place of what stood there.
pub fn put_member(entries: &mut Vec<(String, Json)>, key: String, value: Json)
    ensures
        entries_view(final(entries)@) == entries::put(entries_view(old(entries)@), key@, value@),
{
    proof {
        assert(entries::view_keys(entries_view(entries@)) =~= entries::keys_of(entries@));
        entries::lemma_slot(entries::keys_of(entries@), key@);
    }
    insert(entries, key, value);
    assert(entries_view(entries@) =~= entries::put(entries_view(old(entries)@), key@, value@));
}

/// An array of strings.
pub fn string_array(list: &Vec<String>) -> (r: Json)
    ensures
        r@ == strings(text::texts(list@)),
{
    let mut out: Vec<Json> = Vec::new();
    let mut i: usize = 0;
    while i < list.len()
        invariant
            i <= list@.len(),
            out@.len() == i,
            forall|k: int| 0 <= k < i ==> #[trigger] out@[k]@ == JsonView::String(list@[k]@),
        decreases list.len() - i,
    {
        out.push(Json::String(list[i].clone()));
        i += 1;
    }
    assert(items_view(out@) =~= text::texts(list@).map_values(|s: Seq<char>| JsonView::String(s)));
    Json::array(out)
}

/// An array of strings.
pub open spec fn strings(list: Seq<Seq<char>>) -> JsonView {
    JsonView::Array(list.map_values(|s: Seq<char>| JsonView::String(s)))
}

/// The texts of those items of a list that are strings.
pub open spec fn strings_in(items: Seq<JsonView>) -> Seq<Seq<char>>
    decreases items.len(),
{
    if items.len() == 0 {
        Seq::empty()
    } else {
        match string_of(items.last()) {
            Some(s) => strings_in(items.drop_last()).push(s),
            None => strings_in(items.drop_last()),
        }
    }
}

/// The texts of those items of a list that are strings.
pub fn collect_strings(items: &Vec<Json>) -> (r: Vec<String>)
    ensures
        text::texts(r@) == strings_in(items_view(items@)),
{
    let mut out: Vec<String> = Vec::new();
    let mut i: usize = 0;
    let ghost views = items_view(items@);
    assert(text::texts(out@) == strings_in(views.take(0)));
    while i < items.len()
        invariant
            i <= items@.len(),
            views == items_view(items@),
            text::texts(out@) == strings_in(views.take(i as int)),
        decreases items.len() - i,
    {
        assert(views.take(i + 1).drop_last() == views.take(i as int));
        assert(views.take(i + 1).last() == items@[i as int]@);
        if let Some(s) = items[i].as_str() {
            let ghost before = text::texts(out@);
            out.push(s.to_owned());
            assert(text::texts(out@) =~= before.push(s@));
        }
        i += 1;
    }
    assert(views.take(i as int) == views);
    out
}

/// The items of an array are smaller than the array.
pub proof fn lemma_item_smaller(value: Json, i: int)
    requires
        value is Array,
        0 <= i < value->Array_0@.len(),
    ensures
        decreases_to!(value => value->Array_0@[i]),
{
    assert(decreases_to!(value => value->Array_0));
    assert(decreases_to!(value->Array_0 => value->Array_0@));
    assert(decreases_to!(value->Array_0@ => value->Array_0@[i]));
}

/// The members of an object are smaller than the object.
pub proof fn lemma_member_smaller(value: Json, i: int)
    requires
        value is Object,
        0 <= i < value->Object_0@.len(),
    ensures
        decreases_to!(value => value->Object_0@[i].1),
{
    assert(decreases_to!(value => value->Object_0));
    assert(decreases_to!(value->Object_0 => value->Object_0@));
    assert(decreases_to!(value->Object_0@ => value->Object_0@[i]));
    assert(decreases_to!(value->Object_0@[i] => value->Object_0@[i].1));
}

/// Doubles are ordered as the numbers they are: those with the sign bit come before
/// those without and are ordered backwards, the two zeros are equal, and what is no
/// number is neither below nor above anything.
pub proof fn law_order_of_doubles(a: u64, b: u64)
    ensures
        a <= 0x7ff0_0000_0000_0000 && b <= 0x7ff0_0000_0000_0000 ==> (double_less(a, b) <==> a < b),
        0x8000_0000_0000_0000 <= a <= 0xfff0_0000_0000_0000 && 0x8000_0000_0000_0000 <= b
            <= 0xfff0_0000_0000_0000 ==> (double_less(a, b) <==> b < a),
        0x8000_0000_0000_0000 <= a <= 0xfff0_0000_0000_0000 && b <= 0x7ff0_0000_0000_0000 ==> (
        double_less(a, b) <==> !(a == 0x8000_0000_0000_0000 && b == 0)),
        a <= 0x7ff0_0000_0000_0000 && 0x8000_0000_0000_0000 <= b <= 0xfff0_0000_0000_0000
            ==> !double_less(a, b),
        0x7ff0_0000_0000_0000 < a < 0x8000_0000_0000_0000 || a > 0xfff0_0000_0000_0000
            ==> !double_less(a, b) && !double_less(b, a),
{
}

/// A number of an integer is that integer, and fits in 64 signed bits.
pub proof fn law_number_of_int(v: i64)
    ensures
        number_is_i64(number_of_int(v)),
        number_of_int(v) matches Number::PosInt(n) ==> n == v,
        number_of_int(v) matches Number::NegInt(n) ==> n == v && v < 0,
{
}

/// A member of an object is what stands under its key; nothing else has members.
pub proof fn law_members(value: JsonView, key: Seq<char>)
    ensures
        member(value, key) is Some ==> value is Object,
        value is Object ==> match member(value, key) {
            Some(found) => exists|i: int|
                0 <= i < value->Object_0.len() && #[trigger] value->Object_0[i] == (key, found),
            None => forall|i: int|
                0 <= i < value->Object_0.len() ==> (#[trigger] value->Object_0[i]).0 != key,
        },
        forall|s: Seq<char>| #[trigger]
            member_string(value, key) == Some(s) <==> member(value, key) == Some(
                JsonView::String(s),
            ),
        forall|b: bool| #[trigger]
            member_bool(value, key) == Some(b) <==> member(value, key) == Some(JsonView::Bool(b)),
        forall|items: Seq<JsonView>| #[trigger]
            member_array(value, key) == Some(items) <==> member(value, key) == Some(
                JsonView::Array(items),
            ),
        member_items(value, key) == match member(value, key) {
            Some(JsonView::Array(items)) => items,
            _ => Seq::empty(),
        },
{
    if value is Object {
        let entries = value->Object_0;
        let keys = entries::view_keys(entries);
        entries::lemma_position(keys, key);
        match entries::position(keys, key) {
            Some(i) => {
                assert(keys[i] == entries[i].0);
                assert(entries[i] == (key, member(value, key)->0));
            },
            None => {
                assert forall|i: int| 0 <= i < entries.len() implies (#[trigger] entries[i]).0
                    != key by {
                    assert(keys[i] == entries[i].0);
                    assert(keys.contains(keys[i]));
                }
            },
        }
    }
}

/// The texts in a list are those of its entries that are texts, in their order.
pub proof fn law_strings_in(first: Seq<JsonView>, behind: Seq<JsonView>)
    ensures
        strings_in(first + behind) == strings_in(first) + strings_in(behind),
        first.len() == 1 ==> strings_in(first) == match first[0] {
            JsonView::String(s) => seq![s],
            _ => Seq::empty(),
        },
    decreases behind.len(),
{
    reveal_with_fuel(strings_in, 2);
    if behind.len() == 0 {
        assert(first + behind =~= first);
        assert(strings_in(first) + strings_in(behind) =~= strings_in(first));
    } else {
        assert((first + behind).drop_last() =~= first + behind.drop_last());
        law_strings_in(first, behind.drop_last());
        assert(strings_in(first + behind) =~= strings_in(first) + strings_in(behind));
    }
    if first.len() == 1 {
        assert(first.drop_last() =~= Seq::empty());
        assert(strings_in(first) =~= match first[0] {
            JsonView::String(s) => seq![s],
            _ => Seq::empty(),
        });
    }
}

/// A list of texts has each text in its place, and reads back as those texts.
pub proof fn law_strings(list: Seq<Seq<char>>)
    ensures
        strings(list) is Array,
        strings(list)->Array_0.len() == list.len(),
        forall|i: int|
            0 <= i < list.len() ==> #[trigger] strings(list)->Array_0[i] == JsonView::String(
                list[i],
            ),
        strings_in(strings(list)->Array_0) == list,
    decreases list.len(),
{
    let items = strings(list)->Array_0;
    if list.len() > 0 {
        law_strings(list.drop_last());
        assert(items.drop_last() =~= strings(list.drop_last())->Array_0);
        assert(list =~= list.drop_last().push(list.last()));
    } else {
        assert(strings_in(items) =~= list);
    }
}

/// What is said of a value is said of the value that is there: it is of the same
/// kind, and has the same entries or members in the same order.
pub proof fn law_value_is_seen_whole(value: Json)
    ensures
        match value {
            Json::Null => value@ is Null,
            Json::Bool(b) => value@ == JsonView::Bool(b),
            Json::Number(n) => value@ == JsonView::Number(n),
            Json::String(s) => value@ == JsonView::String(s@),
            Json::Array(items) => value@ is Array && value@->Array_0.len() == items@.len()
                && forall|i: int|
                0 <= i < items@.len() ==> #[trigger] value@->Array_0[i] == items@[i]@,
            Json::Object(members) => value@ is Object && value@->Object_0.len() == members@.len()
                && forall|i: int|
                0 <= i < members@.len() ==> #[trigger] value@->Object_0[i] == (
                    members@[i].0@,
                    members@[i].1@,
                ),
        },
{
}

} // verus!
