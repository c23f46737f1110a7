//! Key-value metadata attached to an event record.
use crate::base::value::Value;
use crate::seqs::{first_match, first_pos, is_first, lemma_first_pos_found, lemma_first_pos_none};
use vstd::prelude::*;

verus! {

/// Key-value metadata attached to a log record.
///
/// Entries are kept in insertion order; a key occurs at most once, and
/// inserting an existing key replaces its value in place.
#[derive(Debug)]
pub struct Fields {
    entries: Vec<(String, Value)>,
}

impl Fields {
    /// No key occurs twice among the entries.
    #[verifier::type_invariant]
    spec fn keys_are_distinct(self) -> bool {
        keys_distinct(self.entries@)
    }
}

impl View for Fields {
    type V = Seq<(String, Value)>;

    closed spec fn view(&self) -> Seq<(String, Value)> {
        self.entries@
    }
}

/// The entry predicate "has key `k`".
pub open spec fn key_is(k: Seq<char>) -> spec_fn((String, Value)) -> bool {
    |e: (String, Value)| e.0@ == k
}

/// No key occurs twice.
pub open spec fn keys_distinct(s: Seq<(String, Value)>) -> bool {
    forall|i: int, j: int| 0 <= i < j < s.len() ==> (#[trigger] s[i]).0@ != (#[trigger] s[j]).0@
}

/// The value stored under key `k`.
pub open spec fn field_lookup(s: Seq<(String, Value)>, k: Seq<char>) -> Option<Value> {
    match first_match(s, key_is(k)) {
        Some(e) => Some(e.1),
        None => None,
    }
}

/// The entries after inserting `value` under `key`: an existing entry with
/// that key gets the new value in place, otherwise the pair is appended.
pub open spec fn insert_field(s: Seq<(String, Value)>, key: String, value: Value) -> Seq<(String, Value)> {
    match first_pos(s, key_is(key@)) {
        Some(i) => s.update(i, (s[i].0, value)),
        None => s.push((key, value)),
    }
}

/// The entries built by inserting `pairs` one after another into empty fields.
pub open spec fn fields_from_pairs(pairs: Seq<(String, Value)>) -> Seq<(String, Value)>
    decreases pairs.len(),
{
    if pairs.len() == 0 {
        Seq::empty()
    } else {
        insert_field(fields_from_pairs(pairs.drop_last()), pairs.last().0, pairs.last().1)
    }
}

/// Clones a key-value pair.
pub fn clone_entry(e: &(String, Value)) -> (r: (String, Value))
    ensures
        r == *e,
{
    (e.0.clone(), e.1.clone())
}

impl Clone for Fields {
    fn clone(&self) -> (r: Self)
        ensures
            r@ == self@,
            keys_distinct(r@),
    {
        proof {
            use_type_invariant(self);
        }
        let mut entries: Vec<(String, Value)> = Vec::new();
        let mut i: usize = 0;
        while i < self.entries.len()
            invariant
                i <= self.entries@.len(),
                entries@ == self.entries@.take(i as int),
            decreases self.entries@.len() - i,
        {
            entries.push(clone_entry(&self.entries[i]));
            i = i + 1;
            assert(entries@ =~= self.entries@.take(i as int));
        }
        assert(self.entries@.take(i as int) =~= self.entries@);
        Fields { entries }
    }
}

impl Fields {
    /// Create an empty `Fields`.
    pub fn new() -> (f: Self)
        ensures
            f@ == Seq::<(String, Value)>::empty(),
            keys_distinct(f@),
    {
        Fields { entries: Vec::new() }
    }

    fn position(&self, key: &String) -> (r: Option<usize>)
        ensures
            match r {
                Some(i) => first_pos(self@, key_is(key@)) == Some(i as int),
                None => first_pos(self@, key_is(key@)) is None,
            },
    {
        let mut i: usize = 0;
        while i < self.entries.len()
            invariant
                i <= self.entries@.len(),
                forall|j: int| 0 <= j < i ==> !key_is(key@)(#[trigger] self.entries@[j]),
            decreases self.entries@.len() - i,
        {
            if self.entries[i].0 == *key {
                proof {
                    assert(is_first(self@, key_is(key@), i as int));
                    lemma_first_pos_found(self@, key_is(key@), i as int);
                }
                return Some(i);
            }
            i = i + 1;
        }
        proof {
            lemma_first_pos_none(self@, key_is(key@));
        }
        None
    }

    /// Insert a key-value pair, replacing the value of an existing key.
    pub fn insert(&mut self, key: String, value: Value)
        ensures
            final(self)@ == insert_field(old(self)@, key, value),
            keys_distinct(final(self)@),
    {
        proof {
            use_type_invariant(&*self);
            lemma_insert_keeps_keys_distinct(self@, key, value);
        }
        let pos = self.position(&key);
        let mut entries: Vec<(String, Value)> = Vec::new();
        std::mem::swap(&mut entries, &mut self.entries);
        match pos {
            Some(i) => {
                let k = entries[i].0.clone();
                entries.set(i, (k, value));
            },
            None => {
                entries.push((key, value));
            },
        }
        self.entries = entries;
    }

    /// The value stored under `key`.
    pub fn get(&self, key: &str) -> (r: Option<&Value>)
        ensures
            match field_lookup(self@, key@) {
                Some(v) => r is Some && *r.unwrap() == v,
                None => r is None,
            },
    {
        let k = key.to_owned();
        match self.position(&k) {
            Some(i) => Some(&self.entries[i].1),
            None => None,
        }
    }

    /// All key-value pairs, in insertion order.
    pub fn entries(&self) -> (r: &Vec<(String, Value)>)
        ensures
            r@ == self@,
            keys_distinct(r@),
    {
        proof {
            use_type_invariant(self);
        }
        &self.entries
    }

    /// The number of fields.
    pub fn len(&self) -> (n: usize)
        ensures
            n == self@.len(),
    {
        self.entries.len()
    }

    /// Whether there are no fields.
    pub fn is_empty(&self) -> (b: bool)
        ensures
            b == (self@.len() == 0),
    {
        self.entries.len() == 0
    }

    /// Fields built from pairs inserted in order; a later pair replaces the
    /// value of an earlier pair with the same key.
    pub fn from_pairs(pairs: Vec<(String, Value)>) -> (f: Self)
        ensures
            f@ == fields_from_pairs(pairs@),
            keys_distinct(f@),
    {
        let mut f = Fields::new();
        let mut i: usize = 0;
        while i < pairs.len()
            invariant
                i <= pairs@.len(),
                f@ == fields_from_pairs(pairs@.take(i as int)),
                keys_distinct(f@),
            decreases pairs@.len() - i,
        {
            let e = clone_entry(&pairs[i]);
            f.insert(e.0, e.1);
            proof {
                assert(pairs@.take(i + 1).drop_last() =~= pairs@.take(i as int));
            }
            i = i + 1;
        }
        assert(pairs@.take(i as int) =~= pairs@);
        f
    }
}

/// Inserting keeps keys distinct.
pub proof fn lemma_insert_keeps_keys_distinct(s: Seq<(String, Value)>, key: String, value: Value)
    requires
        keys_distinct(s),
    ensures
        keys_distinct(insert_field(s, key, value)),
{
    let t = insert_field(s, key, value);
    match first_pos(s, key_is(key@)) {
        Some(i) => {
            assert forall|a: int, b: int| 0 <= a < b < t.len() implies (#[trigger] t[a]).0@ != (#[trigger] t[b]).0@ by {
                assert(s[a].0@ != s[b].0@);
            }
        },
        None => {
            assert forall|a: int, b: int| 0 <= a < b < t.len() implies (#[trigger] t[a]).0@ != (#[trigger] t[b]).0@ by {
                if b == s.len() {
                    if t[a].0@ == key@ {
                        crate::seqs::lemma_some_first(s, key_is(key@), a);
                    }
                } else {
                    assert(s[a].0@ != s[b].0@);
                }
            }
        },
    }
}

/// Reading a key right after writing it gives back the written value, and
/// writing one key leaves every other key's value as it was.
pub proof fn lemma_get_after_insert(s: Seq<(String, Value)>, key: String, value: Value, other: Seq<char>)
    requires
        keys_distinct(s),
    ensures
        field_lookup(insert_field(s, key, value), key@) == Some(value),
        other != key@ ==> field_lookup(insert_field(s, key, value), other) == field_lookup(s, other),
{
    let t = insert_field(s, key, value);
    lemma_insert_keeps_keys_distinct(s, key, value);
    lemma_lookup_distinct(t, key@);
    lemma_lookup_distinct(s, other);
    lemma_lookup_distinct(t, other);
    match first_pos(s, key_is(key@)) {
        Some(i) => {
            assert(is_first(s, key_is(key@), i)) by {
                let k = choose|k: int| is_first(s, key_is(key@), k);
            }
            assert(t[i].0@ == key@);
            assert(t[i].1 == value);
            if other != key@ {
                if exists|j: int| 0 <= j < s.len() && (#[trigger] s[j]).0@ == other {
                    let j = choose|j: int| 0 <= j < s.len() && (#[trigger] s[j]).0@ == other;
                    assert(j != i);
                    assert(t[j] == s[j]);
                } else {
                    assert forall|j: int| 0 <= j < t.len() implies (#[trigger] t[j]).0@ != other by {
                        if j != i {
                            assert(t[j] == s[j]);
                        }
                    }
                }
            }
        },
        None => {
            assert(t[s.len() as int] == (key, value));
            if other != key@ {
                if exists|j: int| 0 <= j < s.len() && (#[trigger] s[j]).0@ == other {
                    let j = choose|j: int| 0 <= j < s.len() && (#[trigger] s[j]).0@ == other;
                    assert(t[j] == s[j]);
                } else {
                    assert forall|j: int| 0 <= j < t.len() implies (#[trigger] t[j]).0@ != other by {
                        if j < s.len() {
                            assert(t[j] == s[j]);
                        }
                    }
                }
            }
        },
    }
}

/// With distinct keys, the lookup of `k` is the value of the one entry with key `k`.
pub proof fn lemma_lookup_distinct(s: Seq<(String, Value)>, k: Seq<char>)
    requires
        keys_distinct(s),
    ensures
        forall|j: int| 0 <= j < s.len() && (#[trigger] s[j]).0@ == k ==> field_lookup(s, k) == Some(s[j].1),
        (forall|j: int| 0 <= j < s.len() ==> (#[trigger] s[j]).0@ != k) ==> field_lookup(s, k) is None,
{
    assert forall|j: int| 0 <= j < s.len() && (#[trigger] s[j]).0@ == k implies field_lookup(s, k) == Some(s[j].1) by {
        assert forall|m: int| 0 <= m < j implies !key_is(k)(#[trigger] s[m]) by {
            assert(s[m].0@ != s[j].0@);
        }
        assert(is_first(s, key_is(k), j));
        lemma_first_pos_found(s, key_is(k), j);
    }
    if forall|j: int| 0 <= j < s.len() ==> (#[trigger] s[j]).0@ != k {
        assert forall|j: int| 0 <= j < s.len() implies !key_is(k)(#[trigger] s[j]) by {}
        lemma_first_pos_none(s, key_is(k));
    }
}

} // verus!
