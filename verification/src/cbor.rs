//! Canonical CBOR: the order in which the members of maps are written, and what
//! the bytes are read as.
use crate::entries;
use crate::json::{self, Json, JsonView, Number};
use crate::json_text::{self, to_value};
use crate::text;
use vstd::prelude::*;

verus! {

/// The order of keys in canonical CBOR: the one with fewer bytes first, and of
/// those with as many the one that comes first byte by byte, which is the order
/// of their characters.
pub open spec fn shorter_first(a: Seq<char>, b: Seq<char>) -> bool {
    let x = vstd::utf8::encode_utf8(a).len();
    let y = vstd::utf8::encode_utf8(b).len();
    x < y || x == y && text::precedes(a, b)
}

/// Whether keys stand in the order of canonical CBOR, none of them twice.
pub open spec fn canonical_keys(keys: Seq<Seq<char>>) -> bool {
    forall|i: int, j: int|
        0 <= i < j < keys.len() ==> shorter_first(#[trigger] keys[i], #[trigger] keys[j])
}

/// How many leading keys come before the given one in canonical CBOR.
pub open spec fn canonical_slot(keys: Seq<Seq<char>>, key: Seq<char>) -> int
    decreases keys.len(),
{
    if keys.len() > 0 && shorter_first(keys[0], key) {
        1 + canonical_slot(keys.skip(1), key)
    } else {
        0
    }
}

/// A value with the members of its objects in the order of canonical CBOR.
pub open spec fn canonical(value: JsonView) -> JsonView
    decreases value, 0int,
{
    match value {
        JsonView::Array(items) => JsonView::Array(
            Seq::new(
                items.len(),
                |i: int|
                    if 0 <= i < items.len() {
                        canonical(items[i])
                    } else {
                        JsonView::Null
                    },
            ),
        ),
        JsonView::Object(members) => JsonView::Object(
            canonical_members(members, members.len() as int),
        ),
        _ => value,
    }
}

/// The first `n` members of an object in the order of canonical CBOR.
pub open spec fn canonical_members(members: Seq<(Seq<char>, JsonView)>, n: int) -> Seq<
    (Seq<char>, JsonView),
>
    decreases members, n,
{
    if n <= 0 || n > members.len() {
        Seq::empty()
    } else {
        let before = canonical_members(members, n - 1);
        let key = members[n - 1].0;
        before.insert(
            canonical_slot(entries::view_keys(before), key),
            (key, canonical(members[n - 1].1)),
        )
    }
}

/// Whether the keys of all objects in a value stand in the order of canonical
/// CBOR.
pub open spec fn in_canonical_order(value: JsonView) -> bool
    decreases value,
{
    match value {
        JsonView::Array(items) => forall|i: int|
            0 <= i < items.len() ==> in_canonical_order(#[trigger] items[i]),
        JsonView::Object(members) => canonical_keys(entries::view_keys(members)) && forall|i: int|
            0 <= i < members.len() ==> in_canonical_order((#[trigger] members[i]).1),
        _ => true,
    }
}

/// The bytes that `serde_cbor` writes for a value whose members stand in the order
/// in which they are written.
pub uninterp spec fn cbor_of_value(value: JsonView) -> Seq<u8>;

/// The bytes of values, one behind the other.
pub open spec fn items_bytes(items: Seq<JsonView>) -> Seq<u8>
    decreases items.len(),
{
    if items.len() == 0 {
        Seq::empty()
    } else {
        items_bytes(items.drop_last()) + cbor_of_value(items.last())
    }
}

/// The bytes of members, one behind the other, each key before its value.
pub open spec fn members_bytes(members: Seq<(Seq<char>, JsonView)>) -> Seq<u8>
    decreases members.len(),
{
    if members.len() == 0 {
        Seq::empty()
    } else {
        members_bytes(members.drop_last()) + cbor_of_value(JsonView::String(members.last().0))
            + cbor_of_value(members.last().1)
    }
}

/// Whether bytes end in others.
pub open spec fn ends_in(bytes: Seq<u8>, tail: Seq<u8>) -> bool {
    tail.len() <= bytes.len() && bytes.skip(bytes.len() - tail.len()) == tail
}

/// Whether bytes are, behind a head, those of the items and members of a value in
/// their order, and so are the bytes of each of these.
pub open spec fn laid_out(bytes: Seq<u8>, value: JsonView) -> bool
    decreases value,
{
    match value {
        JsonView::Array(items) => ends_in(bytes, items_bytes(items)) && forall|i: int|
            0 <= i < items.len() ==> laid_out(cbor_of_value(#[trigger] items[i]), items[i]),
        JsonView::Object(members) => ends_in(bytes, members_bytes(members)) && forall|i: int|
            0 <= i < members.len() ==> laid_out(
                cbor_of_value((#[trigger] members[i]).1),
                members[i].1,
            ),
        _ => true,
    }
}

/// What `serde_cbor` reads from bytes as JSON, if anything.
pub uninterp spec fn value_in_cbor(bytes: Seq<u8>) -> Option<JsonView>;

/// The bytes of a double: a marker, and its bit pattern with the highest byte
/// first.
pub open spec fn double_bytes(bits: u64) -> Seq<u8> {
    seq![
        0xfb,
        (bits / 0x100_0000_0000_0000) as u8,
        (bits / 0x1_0000_0000_0000 % 256) as u8,
        (bits / 0x100_0000_0000 % 256) as u8,
        (bits / 0x1_0000_0000 % 256) as u8,
        (bits / 0x100_0000 % 256) as u8,
        (bits / 0x1_0000 % 256) as u8,
        (bits / 0x100 % 256) as u8,
        (bits % 256) as u8,
    ]
}

/// `serde_cbor::from_slice` into a `serde_json::Value`. A double that is not finite
/// becomes null there.
#[verifier::external_body]
fn read_cbor(bytes: &Vec<u8>) -> (r: Option<serde_json::Value>)
    ensures
        json_text::opt_value(r) == value_in_cbor(bytes@),
        forall|bits: u64|
            bytes@ == #[trigger] double_bytes(bits) ==> json_text::opt_value(r) == Some(
                json_text::clean_number(Number::Float(bits)),
            ),
{
    serde_cbor::from_slice(bytes).ok()
}

/// Makes a value of `serde_json` of a double.
pub(crate) fn double_value(bits: u64) -> (r: Option<serde_json::Value>)
    ensures
        json_text::opt_value(r) == Some(json_text::clean_number(Number::Float(bits))),
{
    let bytes: Vec<u8> = vec![
        0xfb,
        (bits / 0x100_0000_0000_0000) as u8,
        (bits / 0x1_0000_0000_0000 % 256) as u8,
        (bits / 0x100_0000_0000 % 256) as u8,
        (bits / 0x1_0000_0000 % 256) as u8,
        (bits / 0x100_0000 % 256) as u8,
        (bits / 0x1_0000 % 256) as u8,
        (bits / 0x100 % 256) as u8,
        (bits % 256) as u8,
    ];
    assert(bytes@ =~= double_bytes(bits));
    read_cbor(&bytes)
}

/// Whether bytes are read as a value, where that nests no deeper than the reader
/// goes.
pub open spec fn reads_back(bytes: Seq<u8>, value: JsonView) -> bool {
    json_text::nests_within(value, 127) ==> value_in_cbor(bytes) == Some(value)
}

/// `serde_cbor::value::to_value`, whose maps put their keys into canonical order,
/// then `serde_cbor::to_vec`, which writes maps and arrays behind their lengths,
/// and what `serde_cbor::from_slice` reads from the bytes: the value, unless it
/// nests too deep for the reader. Each number of JSON has an encoding, so that
/// there are bytes for every value.
#[verifier::external_body]
fn write_cbor(value: &serde_json::Value) -> (r: Result<Vec<u8>, String>)
    ensures
        match r {
            Ok(bytes) => bytes@ == cbor_of_value(canonical(json_text::value_view(*value)))
                && laid_out(bytes@, canonical(json_text::value_view(*value)))
                && reads_back(bytes@, json_text::value_view(*value)),
            Err(_) => false,
        },
{
    match serde_cbor::value::to_value(value).and_then(|canonical| serde_cbor::to_vec(&canonical)) {
        Ok(bytes) => Ok(bytes),
        Err(error) => Err(error.to_string()),
    }
}

/// Whether bytes are the canonical CBOR of a value: its objects have their keys in
/// canonical order, the bytes are laid out in that order, and they read back as the
/// value unless it nests too deep for the reader.
pub open spec fn carries(bytes: Seq<u8>, value: JsonView) -> bool {
    &&& bytes == cbor_of_value(canonical(value))
    &&& in_canonical_order(canonical(value))
    &&& laid_out(bytes, canonical(value))
    &&& reads_back(bytes, value)
}

/// Writes a value as canonical CBOR.
pub fn render_cbor(value: &Json) -> (r: Result<Vec<u8>, String>)
    ensures
        r matches Ok(bytes) && carries(bytes@, json_text::clean(value@)),
{
    proof {
        json_text::lemma_clean_is_well_formed(value@);
        law_keys_in_canonical_order(json_text::clean(value@));
    }
    write_cbor(&to_value(value))
}

proof fn lemma_shorter_first_transitive(a: Seq<char>, b: Seq<char>, c: Seq<char>)
    requires
        shorter_first(a, b),
        shorter_first(b, c),
    ensures
        shorter_first(a, c),
{
    if text::precedes(a, b) && text::precedes(b, c) {
        text::lemma_precedes_transitive(a, b, c);
    }
}

proof fn lemma_canonical_slot(keys: Seq<Seq<char>>, key: Seq<char>)
    ensures
        0 <= canonical_slot(keys, key) <= keys.len(),
        forall|i: int| 0 <= i < canonical_slot(keys, key) ==> shorter_first(#[trigger] keys[i], key),
        canonical_slot(keys, key) < keys.len() ==> !shorter_first(
            keys[canonical_slot(keys, key)],
            key,
        ),
    decreases keys.len(),
{
    if keys.len() > 0 && shorter_first(keys[0], key) {
        let rest = keys.skip(1);
        lemma_canonical_slot(rest, key);
        assert forall|i: int| 0 <= i < canonical_slot(keys, key) implies shorter_first(
            #[trigger] keys[i],
            key,
        ) by {
            if i > 0 {
                assert(keys[i] == rest[i - 1]);
            }
        }
    }
}

/// The first members in canonical order are the same members.
proof fn lemma_canonical_members(members: Seq<(Seq<char>, JsonView)>, n: int)
    requires
        0 <= n <= members.len(),
        entries::increasing(entries::view_keys(members)),
        forall|i: int| 0 <= i < members.len() ==> json::well_formed((#[trigger] members[i]).1),
    ensures
        canonical_keys(entries::view_keys(canonical_members(members, n))),
        forall|k: int|
            0 <= k < canonical_members(members, n).len() ==> in_canonical_order(
                (#[trigger] canonical_members(members, n)[k]).1,
            ) && exists|i: int|
                0 <= i < n && (#[trigger] members[i]).0 == canonical_members(members, n)[k].0,
    decreases members, n,
{
    if n > 0 {
        lemma_canonical_members(members, n - 1);
        law_keys_in_canonical_order(members[n - 1].1);
        let before = canonical_members(members, n - 1);
        let keys = entries::view_keys(before);
        let key = members[n - 1].0;
        let at = canonical_slot(keys, key);
        lemma_canonical_slot(keys, key);
        let after = canonical_members(members, n);
        let new_keys = entries::view_keys(after);
        assert(new_keys =~= keys.insert(at, key));
        let all = entries::view_keys(members);
        if at < keys.len() {
            assert(keys[at] != key) by {
                assert(before[at].0 == keys[at]);
                let i = choose|i: int| 0 <= i < n - 1 && (#[trigger] members[i]).0 == before[at].0;
                assert(all[i] == members[i].0 && all[n - 1] == key);
                assert(text::precedes(all[i], all[n - 1]));
                text::lemma_precedes_irreflexive(key);
            }
            text::lemma_precedes_total(key, keys[at]);
        }
        assert forall|i: int, j: int| 0 <= i < j < new_keys.len() implies shorter_first(
            #[trigger] new_keys[i],
            #[trigger] new_keys[j],
        ) by {
            if i < at && j > at {
                assert(shorter_first(keys[i], keys[j - 1]));
            } else if i == at && j > at + 1 {
                assert(shorter_first(keys[at], keys[j - 1]));
                lemma_shorter_first_transitive(key, keys[at], keys[j - 1]);
            } else if i > at {
                assert(shorter_first(keys[i - 1], keys[j - 1]));
            }
        }
        assert forall|k: int| 0 <= k < after.len() implies in_canonical_order(
            (#[trigger] after[k]).1,
        ) && exists|i: int| 0 <= i < n && (#[trigger] members[i]).0 == after[k].0 by {
            if k == at {
                assert(members[n - 1].0 == after[k].0);
            } else {
                let o = if k < at {
                    k
                } else {
                    k - 1
                };
                assert(after[k] == before[o]);
                let i = choose|i: int| 0 <= i < n - 1 && (#[trigger] members[i]).0 == before[o].0;
                assert(members[i].0 == after[k].0);
            }
        }
    }
}

/// In canonical form the keys of every object stand in order, the shorter ones
/// first.
pub proof fn law_keys_in_canonical_order(value: JsonView)
    requires
        json::well_formed(value),
    ensures
        in_canonical_order(canonical(value)),
    decreases value, 0int,
{
    match value {
        JsonView::Array(items) => {
            assert forall|i: int| 0 <= i < items.len() implies in_canonical_order(
                #[trigger] canonical(value)->Array_0[i],
            ) by {
                law_keys_in_canonical_order(items[i]);
            }
        },
        JsonView::Object(members) => {
            lemma_canonical_members(members, members.len() as int);
        },
        _ => {},
    }
}

/// Putting keys in order leaves nothing out and adds nothing: each member of an
/// object stays under its key with its value in order, and lists keep their entries
/// in their places.
pub proof fn law_order_keeps_members(
    members: Seq<(Seq<char>, JsonView)>,
    key: Seq<char>,
    value: JsonView,
)
    ensures
        canonical(JsonView::Object(members)) is Object,
        canonical(JsonView::Object(members))->Object_0.len() == members.len(),
        canonical(JsonView::Object(members))->Object_0.contains((key, value)) <==> exists|i: int|
            0 <= i < members.len() && (#[trigger] members[i]).0 == key && canonical(members[i].1)
                == value,
{
    lemma_members_kept(members, members.len() as int, key, value);
}

proof fn lemma_members_kept(
    members: Seq<(Seq<char>, JsonView)>,
    n: int,
    key: Seq<char>,
    value: JsonView,
)
    requires
        0 <= n <= members.len(),
    ensures
        canonical_members(members, n).len() == n,
        canonical_members(members, n).contains((key, value)) <==> exists|i: int|
            0 <= i < n && (#[trigger] members[i]).0 == key && canonical(members[i].1) == value,
    decreases n,
{
    if n > 0 {
        let before = canonical_members(members, n - 1);
        let all = canonical_members(members, n);
        let last = (members[n - 1].0, canonical(members[n - 1].1));
        let at = canonical_slot(entries::view_keys(before), last.0);
        lemma_members_kept(members, n - 1, key, value);
        lemma_canonical_slot(entries::view_keys(before), last.0);
        assert(all == before.insert(at, last));
        assert(all[at] == last);
        if before.contains((key, value)) {
            let k = choose|k: int| 0 <= k < before.len() && before[k] == (key, value);
            if k < at {
                assert(all[k] == before[k]);
            } else {
                assert(all[k + 1] == before[k]);
            }
        }
        if all.contains((key, value)) {
            let k = choose|k: int| 0 <= k < all.len() && all[k] == (key, value);
            if k < at {
                assert(before[k] == all[k]);
            } else if k > at {
                assert(before[k - 1] == all[k]);
            } else {
                assert(members[n - 1].0 == key && canonical(members[n - 1].1) == value);
            }
        }
        assert forall|i: int|
            0 <= i < n && (#[trigger] members[i]).0 == key && canonical(members[i].1)
                == value implies all.contains((key, value)) by {
            if i == n - 1 {
                assert(all[at] == (key, value));
            } else {
                assert(before.contains((key, value)));
            }
        }
    }
}

/// Lists keep their entries in their places, each in order, and what has no members
/// stays as it is.
pub proof fn law_order_keeps_entries(value: JsonView)
    ensures
        value matches JsonView::Array(items) ==> {
            &&& canonical(value) is Array
            &&& canonical(value)->Array_0.len() == items.len()
            &&& forall|i: int|
                0 <= i < items.len() ==> #[trigger] canonical(value)->Array_0[i] == canonical(
                    items[i],
                )
        },
        !(value is Array) && !(value is Object) ==> canonical(value) == value,
{
}

/// Shorter keys come first, and of keys of one length the one that comes first as a
/// text.
pub proof fn law_canonical_order(a: Seq<char>, b: Seq<char>)
    ensures
        vstd::utf8::encode_utf8(a).len() < vstd::utf8::encode_utf8(b).len() ==> shorter_first(a, b)
            && !shorter_first(b, a),
        vstd::utf8::encode_utf8(a).len() == vstd::utf8::encode_utf8(b).len() ==> (shorter_first(
            a,
            b,
        ) <==> text::precedes(a, b)),
{
}

} // verus!
