//! Maps from text to values, kept as entry lists in the order of their keys.
use crate::text::{self, less, same};
use vstd::prelude::*;

verus! {

/// The keys of an entry list.
pub open spec fn keys_of<V>(entries: Seq<(String, V)>) -> Seq<Seq<char>> {
    entries.map_values(|e: (String, V)| e.0@)
}

/// The keys of a list of viewed entries.
pub open spec fn view_keys<V>(entries: Seq<(Seq<char>, V)>) -> Seq<Seq<char>> {
    entries.map_values(|e: (Seq<char>, V)| e.0)
}

/// A list of text entries, viewed.
pub open spec fn text_entries(entries: Seq<(String, String)>) -> Seq<(Seq<char>, Seq<char>)> {
    entries.map_values(|e: (String, String)| (e.0@, e.1@))
}

/// Whether a key list is strictly increasing, so that no key occurs twice.
pub open spec fn increasing(keys: Seq<Seq<char>>) -> bool {
    forall|i: int, j: int|
        0 <= i < j < keys.len() ==> text::precedes(#[trigger] keys[i], #[trigger] keys[j])
}

/// Where a key stands first.
pub open spec fn position(keys: Seq<Seq<char>>, key: Seq<char>) -> Option<int>
    decreases keys.len(),
{
    if keys.len() == 0 {
        None
    } else if keys[0] == key {
        Some(0)
    } else {
        match position(keys.skip(1), key) {
            Some(i) => Some(i + 1),
            None => None,
        }
    }
}

/// How many leading keys come before the given one.
pub open spec fn slot(keys: Seq<Seq<char>>, key: Seq<char>) -> int
    decreases keys.len(),
{
    if keys.len() > 0 && text::precedes(keys[0], key) {
        1 + slot(keys.skip(1), key)
    } else {
        0
    }
}

/// The value under a key.
pub open spec fn lookup<V>(entries: Seq<(Seq<char>, V)>, key: Seq<char>) -> Option<V> {
    match position(view_keys(entries), key) {
        Some(i) => Some(entries[i].1),
        None => None,
    }
}

/// The entries with `value` under `key`, in place of what stood there.
pub open spec fn put<V>(entries: Seq<(Seq<char>, V)>, key: Seq<char>, value: V) -> Seq<
    (Seq<char>, V),
> {
    let at = slot(view_keys(entries), key);
    if at < entries.len() && entries[at].0 == key {
        entries.update(at, (key, value))
    } else {
        entries.insert(at, (key, value))
    }
}

/// A list of texts with one more, in order, unless it was there.
pub open spec fn with_member(set: Seq<Seq<char>>, text: Seq<char>) -> Seq<Seq<char>> {
    let at = slot(set, text);
    if at < set.len() && set[at] == text {
        set
    } else {
        set.insert(at, text)
    }
}

pub proof fn lemma_position(keys: Seq<Seq<char>>, key: Seq<char>)
    ensures
        match position(keys, key) {
            Some(i) => 0 <= i < keys.len() && keys[i] == key && forall|j: int|
                0 <= j < i ==> keys[j] != key,
            None => !keys.contains(key),
        },
    decreases keys.len(),
{
    if keys.len() > 0 && keys[0] != key {
        let rest = keys.skip(1);
        lemma_position(rest, key);
        match position(rest, key) {
            Some(i) => {
                assert(keys[i + 1] == rest[i]);
                assert forall|j: int| 0 <= j < i + 1 implies keys[j] != key by {
                    if j > 0 {
                        assert(keys[j] == rest[j - 1]);
                    }
                }
            },
            None => {
                assert forall|j: int| 0 <= j < keys.len() implies keys[j] != key by {
                    if j > 0 {
                        assert(keys[j] == rest[j - 1]);
                        assert(rest.contains(rest[j - 1]));
                    }
                }
            },
        }
    }
}

/// The first place at which a key stands is its position.
pub proof fn lemma_position_is(keys: Seq<Seq<char>>, key: Seq<char>, i: int)
    requires
        0 <= i < keys.len(),
        keys[i] == key,
        forall|j: int| 0 <= j < i ==> keys[j] != key,
    ensures
        position(keys, key) == Some(i),
{
    lemma_position(keys, key);
    match position(keys, key) {
        Some(k) => {
            if k < i {
                assert(keys[k] != key);
            }
        },
        None => {
            assert(keys.contains(keys[i]));
        },
    }
}

pub proof fn lemma_slot(keys: Seq<Seq<char>>, key: Seq<char>)
    ensures
        0 <= slot(keys, key) <= keys.len(),
        forall|i: int| 0 <= i < slot(keys, key) ==> text::precedes(#[trigger] keys[i], key),
        slot(keys, key) < keys.len() ==> !text::precedes(keys[slot(keys, key)], key),
    decreases keys.len(),
{
    if keys.len() > 0 && text::precedes(keys[0], key) {
        let rest = keys.skip(1);
        lemma_slot(rest, key);
        assert forall|i: int| 0 <= i < slot(keys, key) implies text::precedes(
            #[trigger] keys[i],
            key,
        ) by {
            if i > 0 {
                assert(keys[i] == rest[i - 1]);
            }
        }
    }
}

/// Finds the first entry with a key.
pub fn find<V>(entries: &Vec<(String, V)>, key: &str) -> (r: Option<usize>)
    ensures
        match r {
            Some(i) => i < entries@.len() && position(keys_of(entries@), key@) == Some(i as int),
            None => position(keys_of(entries@), key@) is None,
        },
{
    let ghost keys = keys_of(entries@);
    let mut i: usize = 0;
    while i < entries.len()
        invariant
            keys == keys_of(entries@),
            i <= entries@.len(),
            forall|j: int| 0 <= j < i ==> keys[j] != key@,
        decreases entries.len() - i,
    {
        if same(entries[i].0.as_str(), key) {
            proof {
                lemma_position_is(keys, key@, i as int);
            }
            return Some(i);
        }
        assert(keys[i as int] == entries@[i as int].0@);
        i += 1;
    }
    proof {
        lemma_position(keys, key@);
    }
    None
}

/// Counts the leading entries whose keys come before the given one.
pub fn slot_of<V>(entries: &Vec<(String, V)>, key: &str) -> (r: usize)
    ensures
        r == slot(keys_of(entries@), key@),
        r <= entries@.len(),
{
    let ghost keys = keys_of(entries@);
    let mut i: usize = 0;
    assert(keys.skip(0) == keys);
    while i < entries.len() && less(entries[i].0.as_str(), key)
        invariant
            keys == keys_of(entries@),
            i <= entries@.len(),
            slot(keys, key@) == i + slot(keys.skip(i as int), key@),
        ensures
            i <= entries@.len(),
            slot(keys, key@) == i,
        decreases entries.len() - i,
    {
        assert(keys[i as int] == entries@[i as int].0@);
        assert(keys.skip(i as int).skip(1) == keys.skip(i + 1));
        i += 1;
    }
    i
}

/// Puts a value under a key, in place of what stood there.
pub fn insert<V>(entries: &mut Vec<(String, V)>, key: String, value: V)
    ensures
        ({
            let at = slot(keys_of(old(entries)@), key@);
            &&& 0 <= at <= old(entries)@.len()
            &&& if at < old(entries)@.len() && old(entries)@[at].0@ == key@ {
                final(entries)@ == old(entries)@.update(at, (key, value))
            } else {
                final(entries)@ == old(entries)@.insert(at, (key, value))
            }
        }),
{
    let at = slot_of(entries, key.as_str());
    if at < entries.len() && entries[at].0 == key {
        entries.set(at, (key, value));
    } else {
        entries.insert(at, (key, value));
    }
}

/// The text under a key.
pub fn text_at(entries: &Vec<(String, String)>, key: &str) -> (r: Option<String>)
    ensures
        text::opt_text(r) == lookup(text_entries(entries@), key@),
{
    proof {
        assert(view_keys(text_entries(entries@)) =~= keys_of(entries@));
    }
    match find(entries, key) {
        Some(i) => Some(entries[i].1.clone()),
        None => None,
    }
}

/// Puts a text under a key, in place of what stood there.
pub fn put_text(entries: &mut Vec<(String, String)>, key: String, value: String)
    ensures
        text_entries(final(entries)@) == put(text_entries(old(entries)@), key@, value@),
{
    proof {
        assert(view_keys(text_entries(entries@)) =~= keys_of(entries@));
        lemma_slot(keys_of(entries@), key@);
    }
    insert(entries, key, value);
    assert(text_entries(entries@) =~= put(text_entries(old(entries)@), key@, value@));
}

/// Adds a text to an ordered list, unless it is there.
pub fn add_member(set: &mut Vec<String>, text: String)
    ensures
        text::texts(final(set)@) == with_member(text::texts(old(set)@), text@),
{
    let ghost keys = text::texts(set@);
    let ghost start = set@;
    let mut i: usize = 0;
    assert(keys.skip(0) == keys);
    while i < set.len() && less(set[i].as_str(), text.as_str())
        invariant
            set@ == start,
            keys == text::texts(set@),
            i <= set@.len(),
            slot(keys, text@) == i + slot(keys.skip(i as int), text@),
        ensures
            set@ == start,
            i <= set@.len(),
            slot(keys, text@) == i,
        decreases set.len() - i,
    {
        assert(keys[i as int] == set@[i as int]@);
        assert(keys.skip(i as int).skip(1) == keys.skip(i + 1));
        i += 1;
    }
    if i < set.len() && set[i] == text {
        return;
    }
    let ghost t = text@;
    set.insert(i, text);
    assert(text::texts(set@) =~= with_member(keys, t));
}

/// A key is found where it was put, and holds the value that was put there.
pub proof fn law_put_then_lookup<V>(entries: Seq<(Seq<char>, V)>, key: Seq<char>, value: V)
    ensures
        lookup(put(entries, key, value), key) == Some(value),
{
    let keys = view_keys(entries);
    let at = slot(keys, key);
    let after = put(entries, key, value);
    lemma_slot(keys, key);
    assert(view_keys(after)[at] == key);
    assert forall|j: int| 0 <= j < at implies view_keys(after)[j] != key by {
        assert(view_keys(after)[j] == keys[j]);
        text::lemma_precedes_irreflexive(key);
    }
    lemma_position_is(view_keys(after), key, at);
}

/// What stands under the other keys stays.
pub proof fn law_put_keeps_others<V>(
    entries: Seq<(Seq<char>, V)>,
    key: Seq<char>,
    value: V,
    other: Seq<char>,
)
    requires
        other != key,
    ensures
        lookup(put(entries, key, value), other) == lookup(entries, other),
{
    let keys = view_keys(entries);
    let at = slot(keys, key);
    let after = put(entries, key, value);
    let new_keys = view_keys(after);
    lemma_slot(keys, key);
    lemma_position(keys, other);
    let grown = !(at < entries.len() && entries[at].0 == key);
    match position(keys, other) {
        Some(i) => {
            let k = if grown && at <= i {
                i + 1
            } else {
                i
            };
            assert(new_keys[k] == other);
            assert forall|j: int| 0 <= j < k implies new_keys[j] != other by {
                if j < at {
                    assert(new_keys[j] == keys[j]);
                } else if j > at {
                    assert(new_keys[j] == if grown {
                        keys[j - 1]
                    } else {
                        keys[j]
                    });
                }
            }
            lemma_position_is(new_keys, other, k);
        },
        None => {
            assert forall|j: int| 0 <= j < new_keys.len() implies new_keys[j] != other by {
                if j < at {
                    assert(new_keys[j] == keys[j]);
                    assert(keys.contains(keys[j]));
                } else if j > at {
                    let o = if grown {
                        j - 1
                    } else {
                        j
                    };
                    assert(new_keys[j] == keys[o]);
                    assert(keys.contains(keys[o]));
                }
            }
            lemma_position(new_keys, other);
        },
    }
}

/// Putting a value keeps the keys in strict order.
pub proof fn law_put_keeps_order<V>(entries: Seq<(Seq<char>, V)>, key: Seq<char>, value: V)
    requires
        increasing(view_keys(entries)),
    ensures
        increasing(view_keys(put(entries, key, value))),
{
    let keys = view_keys(entries);
    let at = slot(keys, key);
    let after = put(entries, key, value);
    let new_keys = view_keys(after);
    lemma_slot(keys, key);
    let grown = !(at < entries.len() && entries[at].0 == key);
    if !grown {
        assert(new_keys =~= keys);
    } else {
        if at < keys.len() {
            assert(keys[at] == entries[at].0);
            text::lemma_precedes_total(key, keys[at]);
        }
        assert(new_keys =~= keys.insert(at, key));
        assert forall|i: int, j: int| 0 <= i < j < new_keys.len() implies text::precedes(
            #[trigger] new_keys[i],
            #[trigger] new_keys[j],
        ) by {
            if i < at && j > at {
                assert(text::precedes(keys[i], keys[j - 1]));
            } else if i == at && j > at + 1 {
                assert(text::precedes(keys[at], keys[j - 1]));
                text::lemma_precedes_transitive(key, keys[at], keys[j - 1]);
            } else if i > at {
                assert(text::precedes(keys[i - 1], keys[j - 1]));
            }
        }
    }
}

/// What stands behind the first entry, where the keys are in order.
proof fn lemma_lookup_behind<V>(entries: Seq<(Seq<char>, V)>, key: Seq<char>)
    requires
        entries.len() > 0,
        increasing(view_keys(entries)),
    ensures
        increasing(view_keys(entries.skip(1))),
        lookup(entries.skip(1), key) == if key == entries[0].0 {
            None
        } else {
            lookup(entries, key)
        },
{
    let keys = view_keys(entries);
    let rest = view_keys(entries.skip(1));
    assert(rest =~= keys.skip(1));
    lemma_position(rest, key);
    if key == keys[0] {
        assert forall|j: int| 0 <= j < rest.len() implies rest[j] != key by {
            assert(text::precedes(keys[0], keys[j + 1]));
            text::lemma_precedes_irreflexive(key);
        }
    }
}

/// Entries in order are told by what stands under their keys.
pub proof fn law_entries_in_order_are_a_map<V>(
    a: Seq<(Seq<char>, V)>,
    b: Seq<(Seq<char>, V)>,
)
    requires
        increasing(view_keys(a)),
        increasing(view_keys(b)),
        forall|key: Seq<char>| #[trigger] lookup(a, key) == lookup(b, key),
    ensures
        a == b,
    decreases a.len(),
{
    if a.len() > 0 {
        lemma_position_is(view_keys(a), a[0].0, 0);
        assert(lookup(a, a[0].0) is Some);
        lemma_position(view_keys(b), a[0].0);
    }
    if b.len() > 0 {
        lemma_position_is(view_keys(b), b[0].0, 0);
        assert(lookup(a, b[0].0) == lookup(b, b[0].0));
        lemma_position(view_keys(a), b[0].0);
    }
    if a.len() > 0 {
        let (x, y) = (view_keys(a), view_keys(b));
        if x[0] != y[0] {
            let i = position(y, x[0])->0;
            let j = position(x, y[0])->0;
            assert(text::precedes(y[0], y[i]));
            assert(text::precedes(x[0], x[j]));
            text::lemma_precedes_transitive(x[0], y[0], x[0]);
            text::lemma_precedes_irreflexive(x[0]);
        }
        assert forall|key: Seq<char>| #[trigger]
            lookup(a.skip(1), key) == lookup(b.skip(1), key) by {
            lemma_lookup_behind(a, key);
            lemma_lookup_behind(b, key);
            assert(lookup(a, key) == lookup(b, key));
        }
        lemma_lookup_behind(a, x[0]);
        lemma_lookup_behind(b, x[0]);
        law_entries_in_order_are_a_map(a.skip(1), b.skip(1));
        assert(lookup(a, x[0]) == lookup(b, x[0]));
        assert(a =~= seq![a[0]] + a.skip(1));
        assert(b =~= seq![b[0]] + b.skip(1));
    } else {
        assert(a =~= b);
    }
}

/// Adding a text keeps the order, and adds that text alone.
pub proof fn lemma_with_member(set: Seq<Seq<char>>, text: Seq<char>)
    requires
        increasing(set),
    ensures
        increasing(with_member(set, text)),
        forall|x: Seq<char>| #[trigger]
            with_member(set, text).contains(x) <==> (set.contains(x) || x == text),
{
    let marked = set.map_values(|x: Seq<char>| (x, ()));
    assert(view_keys(marked) =~= set);
    let after = put(marked, text, ());
    law_put_keeps_order(marked, text, ());
    let at = slot(set, text);
    lemma_slot(set, text);
    let result = with_member(set, text);
    assert(view_keys(after) =~= result);
    assert forall|x: Seq<char>| #[trigger] result.contains(x) <==> (set.contains(x) || x
        == text) by {
        if set.contains(x) {
            let k = choose|k: int| 0 <= k < set.len() && set[k] == x;
            if result.len() == set.len() {
                assert(result[k] == x);
            } else if k < at {
                assert(result[k] == x);
            } else {
                assert(result[k + 1] == x);
            }
        }
        assert(result[at] == text);
        if result.contains(x) && x != text {
            let k = choose|k: int| 0 <= k < result.len() && result[k] == x;
            if result.len() == set.len() {
                assert(set[k] == x);
            } else if k < at {
                assert(set[k] == x);
            } else {
                assert(set[k - 1] == x);
            }
        }
    }
}

/// What is found under a key is what stands at the first place with that key.
pub proof fn law_lookup_finds_the_first<V>(entries: Seq<(Seq<char>, V)>, i: int)
    requires
        0 <= i < entries.len(),
        forall|j: int| 0 <= j < i ==> (#[trigger] entries[j]).0 != entries[i].0,
    ensures
        lookup(entries, entries[i].0) == Some(entries[i].1),
{
    let keys = view_keys(entries);
    assert forall|j: int| 0 <= j < i implies keys[j] != entries[i].0 by {
        assert(keys[j] == entries[j].0);
    }
    lemma_position_is(keys, entries[i].0, i);
}

/// Nothing is found under a key that stands nowhere.
pub proof fn law_lookup_finds_nothing_else<V>(entries: Seq<(Seq<char>, V)>, key: Seq<char>)
    requires
        forall|j: int| 0 <= j < entries.len() ==> (#[trigger] entries[j]).0 != key,
    ensures
        lookup(entries, key) is None,
{
    let keys = view_keys(entries);
    lemma_position(keys, key);
    if position(keys, key) is Some {
        let i = position(keys, key)->0;
        assert(keys[i] == entries[i].0);
    }
}

/// What is found in two parts is found in the first, or else in the second.
pub proof fn law_lookup_in_parts<V>(
    first: Seq<(Seq<char>, V)>,
    behind: Seq<(Seq<char>, V)>,
    key: Seq<char>,
)
    ensures
        lookup(first + behind, key) == match lookup(first, key) {
            Some(value) => Some(value),
            None => lookup(behind, key),
        },
{
    let all = first + behind;
    let keys = view_keys(all);
    lemma_position(view_keys(first), key);
    lemma_position(view_keys(behind), key);
    match position(view_keys(first), key) {
        Some(i) => {
            assert(all[i] == first[i]);
            assert forall|j: int| 0 <= j < i implies keys[j] != key by {
                assert(keys[j] == view_keys(first)[j]);
            }
            lemma_position_is(keys, key, i);
        },
        None => {
            assert forall|j: int| 0 <= j < first.len() implies keys[j] != key by {
                assert(keys[j] == view_keys(first)[j]);
                assert(view_keys(first).contains(view_keys(first)[j]));
            }
            match position(view_keys(behind), key) {
                Some(i) => {
                    let at = first.len() + i;
                    assert(all[at] == behind[i]);
                    assert forall|j: int| 0 <= j < at implies keys[j] != key by {
                        if j >= first.len() {
                            assert(keys[j] == view_keys(behind)[j - first.len()]);
                        }
                    }
                    assert(keys[at] == view_keys(behind)[i]);
                    lemma_position_is(keys, key, at);
                },
                None => {
                    assert forall|j: int| 0 <= j < keys.len() implies keys[j] != key by {
                        if j >= first.len() {
                            assert(keys[j] == view_keys(behind)[j - first.len()]);
                            assert(view_keys(behind).contains(keys[j]));
                        }
                    }
                    lemma_position(keys, key);
                },
            }
        },
    }
}

/// In a list of one entry only that one is found, and in an empty list nothing.
pub proof fn law_lookup_in_one<V>(entry: (Seq<char>, V), key: Seq<char>)
    ensures
        lookup(seq![entry], key) == if entry.0 == key {
            Some(entry.1)
        } else {
            None
        },
        lookup(Seq::<(Seq<char>, V)>::empty(), key) is None,
{
    if entry.0 == key {
        law_lookup_finds_the_first(seq![entry], 0);
    } else {
        law_lookup_finds_nothing_else(seq![entry], key);
    }
    law_lookup_finds_nothing_else(Seq::<(Seq<char>, V)>::empty(), key);
}

} // verus!
