//! A JSON value model for the structured parts of responses.
//!
//! Objects are association lists read from the back: the last entry under a key is the
//! value of that key, which is what inserting into a JSON map in order leaves behind.
use vstd::prelude::*;

verus! {

#[derive(Debug)]
pub enum JsonValue {
    Null,
    Bool(bool),
    Int(i64),
    UInt(u64),
    Str(String),
    Array(Vec<JsonValue>),
    Object(Vec<(String, JsonValue)>),
}

/// The value an object holds under `key`: that of the last entry with that key.
pub open spec fn lookup(entries: Seq<(String, JsonValue)>, key: Seq<char>) -> Option<JsonValue>
    decreases entries.len(),
{
    if entries.len() == 0 {
        None
    } else if entries.last().0@ == key {
        Some(entries.last().1)
    } else {
        lookup(entries.drop_last(), key)
    }
}

/// Whether `v` is a JSON string holding the text `s`.
pub open spec fn is_str(v: JsonValue, s: Seq<char>) -> bool {
    v matches JsonValue::Str(t) && t@ == s
}

/// Whether the object `entries` holds the string `s` under `key`.
pub open spec fn reads_str(entries: Seq<(String, JsonValue)>, key: Seq<char>, s: Seq<char>) -> bool {
    lookup(entries, key) matches Some(v) && is_str(v, s)
}

/// The entries of `v` if it is an object, else none.
pub open spec fn object_entries(v: Option<JsonValue>) -> Seq<(String, JsonValue)> {
    match v {
        Some(JsonValue::Object(e)) => e@,
        _ => Seq::empty(),
    }
}

/// Adding an entry makes the key read as the new value and leaves every other key as it was.
pub proof fn lemma_lookup_push(entries: Seq<(String, JsonValue)>, k: String, v: JsonValue, key: Seq<char>)
    ensures
        lookup(entries.push((k, v)), key) == if k@ == key { Some(v) } else { lookup(entries, key) },
{
    assert(entries.push((k, v)).drop_last() =~= entries);
}

/// Removing an entry whose key is not `key` leaves `key` reading as before.
pub proof fn lemma_lookup_remove_other(entries: Seq<(String, JsonValue)>, i: int, key: Seq<char>)
    requires
        0 <= i < entries.len(),
        entries[i].0@ != key,
    ensures
        lookup(entries.remove(i), key) == lookup(entries, key),
    decreases entries.len(),
{
    let r = entries.remove(i);
    if i == entries.len() - 1 {
        assert(r =~= entries.drop_last());
    } else {
        assert(r.last() == entries.last());
        assert(r.drop_last() =~= entries.drop_last().remove(i));
        if entries.last().0@ != key {
            lemma_lookup_remove_other(entries.drop_last(), i, key);
        }
    }
}

/// Appending the entries of `b` to `a` reads, key by key, as `b` where `b` has the key, else as `a`.
pub proof fn lemma_lookup_concat(a: Seq<(String, JsonValue)>, b: Seq<(String, JsonValue)>, key: Seq<char>)
    ensures
        lookup(a + b, key) == match lookup(b, key) {
            Some(v) => Some(v),
            None => lookup(a, key),
        },
    decreases b.len(),
{
    if b.len() == 0 {
        assert(a + b =~= a);
    } else {
        assert((a + b).drop_last() =~= a + b.drop_last());
        assert((a + b).last() == b.last());
        lemma_lookup_concat(a, b.drop_last(), key);
    }
}

/// A JSON string holding `s`.
pub fn json_str(s: &str) -> (r: JsonValue)
    ensures
        is_str(r, s@),
{
    JsonValue::Str(String::from_str(s))
}

/// Index of the last entry under `key`, if any.
pub fn last_index_of(entries: &Vec<(String, JsonValue)>, key: &str) -> (r: Option<usize>)
    ensures
        match r {
            Some(i) => i < entries.len() && entries@[i as int].0@ == key@ && forall|j: int|
                i < j < entries.len() ==> (#[trigger] entries@[j]).0@ != key@,
            None => forall|j: int| 0 <= j < entries.len() ==> (#[trigger] entries@[j]).0@ != key@,
        },
{
    let mut i = entries.len();
    while i > 0
        invariant
            i <= entries.len(),
            forall|j: int| i <= j < entries.len() ==> (#[trigger] entries@[j]).0@ != key@,
        decreases i,
    {
        if crate::text::str_eq(entries[i - 1].0.as_str(), key) {
            return Some(i - 1);
        }
        i = i - 1;
    }
    None
}

/// Under the hypotheses of `last_index_of`'s hit, that entry is what `key` reads as.
pub proof fn lemma_lookup_last_index(entries: Seq<(String, JsonValue)>, i: int, key: Seq<char>)
    requires
        0 <= i < entries.len(),
        entries[i].0@ == key,
        forall|j: int| i < j < entries.len() ==> (#[trigger] entries[j]).0@ != key,
    ensures
        lookup(entries, key) == Some(entries[i].1),
    decreases entries.len(),
{
    if i < entries.len() - 1 {
        lemma_lookup_last_index(entries.drop_last(), i, key);
    }
}

/// With no entry under `key`, the key reads as absent.
pub proof fn lemma_lookup_absent(entries: Seq<(String, JsonValue)>, key: Seq<char>)
    requires
        forall|j: int| 0 <= j < entries.len() ==> (#[trigger] entries[j]).0@ != key,
    ensures
        lookup(entries, key) == None::<JsonValue>,
    decreases entries.len(),
{
    if entries.len() > 0 {
        lemma_lookup_absent(entries.drop_last(), key);
    }
}

/// Takes out the value that `key` reads as, leaving every other key as it was.
pub fn take_entry(entries: &mut Vec<(String, JsonValue)>, key: &str) -> (r: Option<JsonValue>)
    ensures
        r == lookup(old(entries)@, key@),
        forall|k: Seq<char>| k != key@ ==> lookup(final(entries)@, k) == lookup(old(entries)@, k),
{
    match last_index_of(entries, key) {
        Some(i) => {
            proof {
                lemma_lookup_last_index(old(entries)@, i as int, key@);
                assert forall|k: Seq<char>| k != key@ implies lookup(old(entries)@.remove(i as int), k)
                    == lookup(old(entries)@, k) by {
                    lemma_lookup_remove_other(old(entries)@, i as int, k);
                }
            }
            let (_, v) = entries.remove(i);
            Some(v)
        },
        None => {
            proof {
                lemma_lookup_absent(entries@, key@);
            }
            None
        },
    }
}

} // verus!
