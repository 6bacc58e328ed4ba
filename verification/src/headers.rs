//! The header set of a response: name/value pairs with unique names, kept in
//! the order in which the names were first inserted.

use crate::text::str_eq;
use vstd::prelude::*;

verus! {

/// Whether some entry carries the name `key`.
pub open spec fn has_key(entries: Seq<(Seq<char>, Seq<char>)>, key: Seq<char>) -> bool {
    exists|i: int| 0 <= i < entries.len() && (#[trigger] entries[i]).0 == key
}

/// The position of an entry named `key`, where there is one.
pub open spec fn index_of(entries: Seq<(Seq<char>, Seq<char>)>, key: Seq<char>) -> int {
    choose|i: int| 0 <= i < entries.len() && (#[trigger] entries[i]).0 == key
}

/// No name occurs in two entries.
pub open spec fn keys_distinct(entries: Seq<(Seq<char>, Seq<char>)>) -> bool {
    forall|i: int, j: int|
        0 <= i < j < entries.len() ==> (#[trigger] entries[i]).0 != (#[trigger] entries[j]).0
}

/// The value stored under `key`, if any.
pub open spec fn lookup(entries: Seq<(Seq<char>, Seq<char>)>, key: Seq<char>) -> Option<
    Seq<char>,
> {
    if has_key(entries, key) {
        Some(entries[index_of(entries, key)].1)
    } else {
        None
    }
}

/// The entries after storing `value` under `key`: an entry of that name keeps
/// its place and takes the new value, a new name goes to the end.
pub open spec fn with_entry(
    entries: Seq<(Seq<char>, Seq<char>)>,
    key: Seq<char>,
    value: Seq<char>,
) -> Seq<(Seq<char>, Seq<char>)> {
    if has_key(entries, key) {
        entries.update(index_of(entries, key), (key, value))
    } else {
        entries.push((key, value))
    }
}

/// The entries read as a mapping from name to value.
pub open spec fn as_map(entries: Seq<(Seq<char>, Seq<char>)>) -> Map<Seq<char>, Seq<char>> {
    Map::new(
        |key: Seq<char>| has_key(entries, key),
        |key: Seq<char>| entries[index_of(entries, key)].1,
    )
}

/// With unique names, an entry is found under its own name.
pub proof fn lemma_index_of_entry(entries: Seq<(Seq<char>, Seq<char>)>, i: int)
    requires
        keys_distinct(entries),
        0 <= i < entries.len(),
    ensures
        has_key(entries, entries[i].0),
        index_of(entries, entries[i].0) == i,
        lookup(entries, entries[i].0) == Some(entries[i].1),
{
    let key = entries[i].0;
    let j = index_of(entries, key);
    assert(0 <= j < entries.len() && entries[j].0 == key);
    if j < i {
        assert(entries[j].0 != entries[i].0);
    } else if i < j {
        assert(entries[i].0 != entries[j].0);
    }
}

/// Storing an entry keeps the names unique, and on the mapping it is an
/// insertion: the name now leads to the new value, every other name to what
/// it led to before.
pub proof fn lemma_with_entry_is_map_insert(
    entries: Seq<(Seq<char>, Seq<char>)>,
    key: Seq<char>,
    value: Seq<char>,
)
    requires
        keys_distinct(entries),
    ensures
        keys_distinct(with_entry(entries, key, value)),
        as_map(with_entry(entries, key, value)) == as_map(entries).insert(key, value),
        with_entry(entries, key, value).len() == if has_key(entries, key) {
            entries.len()
        } else {
            entries.len() + 1
        },
{
    let after = with_entry(entries, key, value);
    let at: int = if has_key(entries, key) {
        index_of(entries, key)
    } else {
        entries.len() as int
    };
    assert(0 <= at < after.len() && after[at] == (key, value));
    assert forall|i: int| 0 <= i < after.len() && i != at implies after[i] == entries[i]
        && entries[i].0 != key by {
        if has_key(entries, key) {
            if i < at {
                assert(entries[i].0 != entries[at].0);
            } else {
                assert(entries[at].0 != entries[i].0);
            }
        }
    }
    assert(keys_distinct(after)) by {
        assert forall|i: int, j: int| 0 <= i < j < after.len() implies (#[trigger] after[i]).0 != (
        #[trigger] after[j]).0 by {
            if i != at && j != at {
                assert(entries[i].0 != entries[j].0);
            }
        }
    }
    assert forall|k: Seq<char>| has_key(after, k) <==> (k == key || has_key(entries, k)) by {
        if has_key(after, k) {
            let i = index_of(after, k);
            if i != at {
                assert(entries[i].0 == k);
            }
        }
        if k == key {
            assert(after[at].0 == k);
        } else if has_key(entries, k) {
            let i = index_of(entries, k);
            assert(after[i].0 == k);
        }
    }
    assert forall|k: Seq<char>| has_key(after, k) implies #[trigger] as_map(after)[k] == as_map(
        entries,
    ).insert(key, value)[k] by {
        let i = index_of(after, k);
        lemma_index_of_entry(after, i);
        if k == key {
            lemma_index_of_entry(after, at);
        } else {
            assert(i != at);
            lemma_index_of_entry(entries, i);
        }
    }
    assert(as_map(after).dom() =~= as_map(entries).insert(key, value).dom());
    assert(as_map(after) =~= as_map(entries).insert(key, value));
}

/// An ordered set of headers in which no name occurs twice. Two sets are equal
/// when they hold the same entries in the same order.
#[derive(Debug, PartialEq)]
pub struct Headers<'a> {
    entries: Vec<(&'a str, &'a str)>,
}

impl<'a> View for Headers<'a> {
    type V = Seq<(Seq<char>, Seq<char>)>;

    closed spec fn view(&self) -> Self::V {
        Seq::new(self.entries@.len(), |i: int| (self.entries@[i].0@, self.entries@[i].1@))
    }
}

impl<'a> Clone for Headers<'a> {
    fn clone(&self) -> (copy: Self)
        ensures
            copy@ == self@,
    {
        proof {
            use_type_invariant(self);
        }
        let mut entries: Vec<(&'a str, &'a str)> = Vec::new();
        let mut i: usize = 0;
        while i < self.entries.len()
            invariant
                i <= self.entries@.len(),
                entries@ == self.entries@.take(i as int),
            decreases self.entries@.len() - i,
        {
            entries.push(self.entries[i]);
            assert(entries@ =~= self.entries@.take(i + 1));
            i += 1;
        }
        assert(entries@ =~= self.entries@);
        Headers { entries }
    }
}

impl<'a> Headers<'a> {
    /// What holds of every header set: no name occurs twice.
    #[verifier::type_invariant]
    pub open spec fn names_unique(self) -> bool {
        keys_distinct(self@)
    }

    /// An empty header set.
    pub fn new() -> (headers: Self)
        ensures
            headers@ == Seq::<(Seq<char>, Seq<char>)>::empty(),
    {
        let headers = Headers { entries: Vec::new() };
        assert(headers@ =~= Seq::<(Seq<char>, Seq<char>)>::empty());
        headers
    }

    /// The number of entries.
    pub fn len(&self) -> (n: usize)
        ensures
            n == self@.len(),
    {
        self.entries.len()
    }

    /// The entry at position `i`, name first, or `None` past the end.
    pub fn entry(&self, i: usize) -> (found: Option<(&'a str, &'a str)>)
        ensures
            match found {
                Some(e) => i < self@.len() && (e.0@, e.1@) == self@[i as int],
                None => i >= self@.len(),
            },
    {
        if i < self.entries.len() {
            Some(self.entries[i])
        } else {
            None
        }
    }

    /// The position of the entry named `key`, or the number of entries where
    /// there is none.
    fn find(&self, key: &str) -> (at: usize)
        ensures
            at <= self@.len(),
            at < self@.len() ==> self@[at as int].0 == key@,
            at == self@.len() ==> !has_key(self@, key@),
    {
        let mut i: usize = 0;
        while i < self.entries.len()
            invariant
                i <= self.entries@.len(),
                self@.len() == self.entries@.len(),
                forall|j: int| 0 <= j < i ==> (#[trigger] self@[j]).0 != key@,
            decreases self.entries@.len() - i,
        {
            if str_eq(self.entries[i].0, key) {
                return i;
            }
            i += 1;
        }
        i
    }

    /// The value stored under `key`, if any.
    pub fn get(&self, key: &str) -> (value: Option<&'a str>)
        ensures
            match value {
                Some(v) => lookup(self@, key@) == Some(v@),
                None => lookup(self@, key@) is None,
            },
    {
        let at = self.find(key);
        if at < self.entries.len() {
            proof {
                use_type_invariant(self);
                lemma_index_of_entry(self@, at as int);
            }
            Some(self.entries[at].1)
        } else {
            None
        }
    }

    /// Stores `value` under `key` and returns the value that the name had
    /// before, if it had one.
    pub fn insert(&mut self, key: &'a str, value: &'a str) -> (previous: Option<&'a str>)
        ensures
            final(self)@ == with_entry(old(self)@, key@, value@),
            keys_distinct(final(self)@),
            match previous {
                Some(v) => lookup(old(self)@, key@) == Some(v@),
                None => lookup(old(self)@, key@) is None,
            },
    {
        proof {
            use_type_invariant(&*self);
            lemma_with_entry_is_map_insert(self@, key@, value@);
        }
        let at = self.find(key);
        let mut entries: Vec<(&'a str, &'a str)> = Vec::new();
        core::mem::swap(&mut self.entries, &mut entries);
        let previous = if at < entries.len() {
            proof {
                lemma_index_of_entry(old(self)@, at as int);
            }
            let previous = entries[at].1;
            entries.set(at, (key, value));
            Some(previous)
        } else {
            entries.push((key, value));
            None
        };
        let ghost after = Seq::new(entries@.len(), |i: int| (entries@[i].0@, entries@[i].1@));
        assert(after =~= with_entry(old(self)@, key@, value@));
        self.entries = entries;
        assert(self@ =~= after);
        previous
    }
}

} // verus!
