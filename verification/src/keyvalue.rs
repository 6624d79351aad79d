//! The key-value notes that events carry.

use vstd::prelude::*;
use crate::text::{option_view, signed_decimal_string, spec_signed_decimal, str_eq};

verus! {

/// A list of notes, each a key and a value, in the order in which the keys
/// were first set. No key occurs twice where every entry was made by
/// `insert`.
#[derive(Debug)]
pub struct Metadata {
    pub entries: Vec<(String, String)>,
}

/// The position of the first entry of `m` with key `key`; the length of `m`
/// where there is none.
pub open spec fn position_of(m: Seq<(Seq<char>, Seq<char>)>, key: Seq<char>) -> int
    decreases m.len(),
{
    if m.len() == 0 {
        0
    } else if m[0].0 == key {
        0
    } else {
        1 + position_of(m.drop_first(), key)
    }
}

/// `m` after `key` is set to `value`: the first entry with that key gets the
/// value, or a new entry is added at the end.
pub open spec fn with_entry(m: Seq<(Seq<char>, Seq<char>)>, key: Seq<char>, value: Seq<char>) -> Seq<
    (Seq<char>, Seq<char>),
> {
    let i = position_of(m, key);
    if i < m.len() {
        m.update(i, (key, value))
    } else {
        m.push((key, value))
    }
}

/// The value of the first entry of `m` with key `key`.
pub open spec fn value_of(m: Seq<(Seq<char>, Seq<char>)>, key: Seq<char>) -> Option<Seq<char>> {
    let i = position_of(m, key);
    if i < m.len() {
        Some(m[i].1)
    } else {
        None
    }
}

/// A key whose first entry is at `i`, or that has none where `i` is the
/// number of notes, has position `i`.
pub proof fn lemma_position_of(m: Seq<(Seq<char>, Seq<char>)>, key: Seq<char>, i: int)
    requires
        0 <= i <= m.len(),
        forall|k: int| 0 <= k < i ==> m[k].0 != key,
        i == m.len() || m[i].0 == key,
    ensures
        position_of(m, key) == i,
    decreases i,
{
    if i > 0 {
        lemma_position_of(m.drop_first(), key, i - 1);
    }
}

impl View for Metadata {
    type V = Seq<(Seq<char>, Seq<char>)>;

    open spec fn view(&self) -> Seq<(Seq<char>, Seq<char>)> {
        Seq::new(self.entries@.len(), |i: int| (self.entries@[i].0@, self.entries@[i].1@))
    }
}

impl Clone for Metadata {
    fn clone(&self) -> (r: Self)
        ensures
            r@ == self@,
    {
        let mut entries: Vec<(String, String)> = Vec::new();
        let mut i: usize = 0;
        while i < self.entries.len()
            invariant
                i <= self.entries.len(),
                entries.len() == i,
                forall|k: int|
                    0 <= k < i ==> entries@[k].0@ == self.entries@[k].0@ && entries@[k].1@
                        == self.entries@[k].1@,
            decreases self.entries.len() - i,
        {
            entries.push((self.entries[i].0.clone(), self.entries[i].1.clone()));
            i += 1;
        }
        let r = Metadata { entries };
        assert(r@ =~= self@);
        r
    }
}

/// `notes` with one more note where there is a value for it.
pub open spec fn with_optional(notes: Seq<(Seq<char>, Seq<char>)>, key: Seq<char>, value: Option<
    Seq<char>,
>) -> Seq<(Seq<char>, Seq<char>)> {
    match value {
        Some(v) => notes.push((key, v)),
        None => notes,
    }
}

/// A number as a decimal text, where there is one.
pub open spec fn optional_decimal(v: Option<i32>) -> Option<Seq<char>> {
    match v {
        Some(n) => Some(spec_signed_decimal(n as int)),
        None => None,
    }
}

/// Whether no key occurs twice.
pub open spec fn distinct_keys(m: Seq<(Seq<char>, Seq<char>)>) -> bool {
    forall|i: int, j: int| 0 <= i < j < m.len() ==> m[i].0 != m[j].0
}

/// The notes with each key once: at the place where the key first occurs,
/// with the value that was set last.
pub open spec fn merged(m: Seq<(Seq<char>, Seq<char>)>) -> Seq<(Seq<char>, Seq<char>)>
    decreases m.len(),
{
    if m.len() == 0 {
        Seq::empty()
    } else {
        with_entry(merged(m.drop_last()), m.last().0, m.last().1)
    }
}

/// The position of a key is that of its first entry.
pub proof fn lemma_position_is_first(m: Seq<(Seq<char>, Seq<char>)>, key: Seq<char>)
    ensures
        0 <= position_of(m, key) <= m.len(),
        forall|k: int| 0 <= k < position_of(m, key) ==> m[k].0 != key,
        position_of(m, key) < m.len() ==> m[position_of(m, key)].0 == key,
    decreases m.len(),
{
    if m.len() > 0 && m[0].0 != key {
        let rest = m.drop_first();
        lemma_position_is_first(rest, key);
        assert forall|k: int| 0 <= k < position_of(m, key) implies m[k].0 != key by {
            if k > 0 {
                assert(m[k] == rest[k - 1]);
            }
        }
        if position_of(m, key) < m.len() {
            assert(m[position_of(m, key)] == rest[position_of(rest, key)]);
        }
    }
}

/// Setting a key keeps every key once.
pub proof fn lemma_with_entry_distinct(m: Seq<(Seq<char>, Seq<char>)>, key: Seq<char>, value: Seq<char>)
    requires
        distinct_keys(m),
    ensures
        distinct_keys(with_entry(m, key, value)),
{
    lemma_position_is_first(m, key);
    let p = position_of(m, key);
    let after = with_entry(m, key, value);
    assert forall|i: int, j: int| 0 <= i < j < after.len() implies after[i].0 != after[j].0 by {
        if p < m.len() {
            assert(after[i].0 == m[i].0);
            assert(after[j].0 == m[j].0);
        } else if j < m.len() {
            assert(after[i] == m[i] && after[j] == m[j]);
        } else {
            assert(after[i] == m[i]);
        }
    }
}

/// Merged notes have every key once.
pub proof fn lemma_merged_distinct(m: Seq<(Seq<char>, Seq<char>)>)
    ensures
        distinct_keys(merged(m)),
    decreases m.len(),
{
    if m.len() > 0 {
        lemma_merged_distinct(m.drop_last());
        lemma_with_entry_distinct(merged(m.drop_last()), m.last().0, m.last().1);
    }
}

/// The notes that pairs of strings stand for.
pub open spec fn pair_views(pairs: Seq<(String, String)>) -> Seq<(Seq<char>, Seq<char>)> {
    Seq::new(pairs.len(), |i: int| (pairs[i].0@, pairs[i].1@))
}

/// What `serde_json` writes for a mapping from texts to texts, given as
/// notes with every key once: a JSON object. It reports a failure only for
/// keys that are no texts, so there is always such an object.
pub uninterp spec fn json_of_notes(notes: Seq<(Seq<char>, Seq<char>)>) -> Option<Seq<char>>;

/// What `serde_json` reads from a text as a mapping from texts to texts,
/// in the order of the keys; `None` where the text is no JSON object with
/// texts as values.
pub uninterp spec fn notes_of_json(text: Seq<char>) -> Option<Seq<(Seq<char>, Seq<char>)>>;

/// `serde_json::to_string` on the mapping that the pairs are the entries
/// of. The text is a function of the mapping alone; a mapping from texts to
/// texts is always written.
#[verifier::external_body]
pub(crate) fn pairs_to_json(pairs: &Vec<(String, String)>) -> (r: Option<String>)
    requires
        distinct_keys(pair_views(pairs@)),
    ensures
        r is Some,
        option_view(r) == json_of_notes(pair_views(pairs@)),
{
    let map: std::collections::BTreeMap<&str, &str> =
        pairs.iter().map(|e| (e.0.as_str(), e.1.as_str())).collect();
    serde_json::to_string(&map).ok()
}

/// `serde_json::from_str` for a mapping from strings to strings, handed
/// out as its entries in the order of the keys. The entries are a function
/// of the text alone.
#[verifier::external_body]
pub(crate) fn pairs_from_json(text: &str) -> (r: Option<Vec<(String, String)>>)
    ensures
        match r {
            Some(pairs) => notes_of_json(text@) == Some(pair_views(pairs@)),
            None => notes_of_json(text@) is None,
        },
{
    serde_json::from_str::<std::collections::BTreeMap<String, String>>(text)
        .ok()
        .map(|map| map.into_iter().collect())
}

impl Metadata {
    /// No notes.
    pub fn new() -> (m: Metadata)
        ensures
            m@ == Seq::<(Seq<char>, Seq<char>)>::empty(),
    {
        let m = Metadata { entries: Vec::new() };
        assert(m@ =~= Seq::<(Seq<char>, Seq<char>)>::empty());
        m
    }

    /// The number of notes.
    pub fn len(&self) -> (n: usize)
        ensures
            n == self@.len(),
    {
        self.entries.len()
    }

    /// Adds a note at the end.
    pub fn add(&mut self, key: &str, value: String)
        ensures
            final(self)@ == old(self)@.push((key@, value@)),
    {
        self.entries.push((String::from_str(key), value));
        assert(self@ =~= old(self)@.push((key@, value@)));
    }

    /// The position of the first note with key `key`, or the number of notes.
    pub fn find(&self, key: &str) -> (i: usize)
        ensures
            i as int == position_of(self@, key@),
            i <= self@.len(),
    {
        let mut i: usize = 0;
        while i < self.entries.len()
            invariant
                i <= self.entries.len(),
                forall|k: int| 0 <= k < i ==> self@[k].0 != key@,
            decreases self.entries.len() - i,
        {
            if str_eq(self.entries[i].0.as_str(), key) {
                proof {
                    lemma_position_of(self@, key@, i as int);
                }
                return i;
            }
            i += 1;
        }
        proof {
            lemma_position_of(self@, key@, i as int);
        }
        i
    }

    /// Sets `key` to `value`.
    pub fn insert(&mut self, key: &str, value: String)
        ensures
            final(self)@ == with_entry(old(self)@, key@, value@),
    {
        let i = self.find(key);
        if i < self.entries.len() {
            self.entries.set(i, (String::from_str(key), value));
            assert(self@ =~= with_entry(old(self)@, key@, value@));
        } else {
            self.entries.push((String::from_str(key), value));
            assert(self@ =~= with_entry(old(self)@, key@, value@));
        }
    }

    /// The value that `key` is set to.
    pub fn get(&self, key: &str) -> (v: Option<&String>)
        ensures
            match v {
                Some(s) => value_of(self@, key@) == Some(s@),
                None => value_of(self@, key@) is None,
            },
    {
        let i = self.find(key);
        if i < self.entries.len() {
            Some(&self.entries[i].1)
        } else {
            None
        }
    }

    /// Adds a note where there is a value for it.
    pub fn add_optional(&mut self, key: &str, value: &Option<String>)
        ensures
            final(self)@ == with_optional(old(self)@, key@, option_view(*value)),
    {
        match value {
            Some(v) => {
                self.add(key, v.clone());
            },
            None => {},
        }
    }

    /// Adds a number as a note where there is one.
    pub fn add_optional_number(&mut self, key: &str, value: Option<i32>)
        ensures
            final(self)@ == with_optional(old(self)@, key@, optional_decimal(value)),
    {
        match value {
            Some(v) => {
                self.add(key, signed_decimal_string(v as i64));
            },
            None => {},
        }
    }

    /// The notes with each key once.
    pub fn without_repeats(&self) -> (r: Metadata)
        ensures
            r@ == merged(self@),
    {
        let mut r = Metadata::new();
        let mut i: usize = 0;
        assert(self@.take(0) =~= Seq::<(Seq<char>, Seq<char>)>::empty());
        while i < self.entries.len()
            invariant
                i <= self.entries.len(),
                r@ == merged(self@.take(i as int)),
            decreases self.entries.len() - i,
        {
            assert(self@.take(i + 1).drop_last() =~= self@.take(i as int));
            r.insert(self.entries[i].0.as_str(), self.entries[i].1.clone());
            i += 1;
        }
        assert(self@.take(self.entries.len() as int) =~= self@);
        r
    }

    /// The notes as a JSON object, each key once.
    pub fn to_json(&self) -> (r: Option<String>)
        ensures
            r is Some,
            option_view(r) == json_of_notes(merged(self@)),
    {
        let once = self.without_repeats();
        proof {
            lemma_merged_distinct(self@);
            assert(pair_views(once.entries@) =~= once@);
        }
        pairs_to_json(&once.entries)
    }

    /// The notes that a JSON object of texts holds, in the order of the keys.
    pub fn from_json(text: &str) -> (r: Option<Metadata>)
        ensures
            match r {
                Some(m) => notes_of_json(text@) == Some(m@),
                None => notes_of_json(text@) is None,
            },
    {
        match pairs_from_json(text) {
            Some(entries) => {
                let m = Metadata { entries };
                assert(m@ =~= pair_views(m.entries@));
                Some(m)
            },
            None => None,
        }
    }
}

} // verus!
