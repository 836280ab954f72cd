//! A map from attribute names to values that remembers insertion order.
//!
//! Requests number their placeholders by the position of an attribute, so
//! the order in which attributes were set is part of the value.

use crate::text::str_eq;
use vstd::prelude::*;

verus! {

/// Whether some entry of `e` is called `name`.
pub open spec fn has_name<T>(e: Seq<(Seq<char>, T)>, name: Seq<char>) -> bool {
    exists|i: int| 0 <= i < e.len() && (#[trigger] e[i]).0 == name
}

/// The position of an entry called `name`, if there is one.
pub open spec fn index_of<T>(e: Seq<(Seq<char>, T)>, name: Seq<char>) -> int {
    choose|i: int| 0 <= i < e.len() && (#[trigger] e[i]).0 == name
}

/// The value stored under `name`.
pub open spec fn lookup<T>(e: Seq<(Seq<char>, T)>, name: Seq<char>) -> Option<T> {
    if has_name(e, name) {
        Some(e[index_of(e, name)].1)
    } else {
        None
    }
}

/// The entries after storing `value` under `name`: an entry of that name
/// keeps its place and takes the new value, a new name goes to the end.
pub open spec fn put<T>(e: Seq<(Seq<char>, T)>, name: Seq<char>, value: T) -> Seq<(Seq<char>, T)> {
    if has_name(e, name) {
        e.update(index_of(e, name), (name, value))
    } else {
        e.push((name, value))
    }
}

/// Whether no two entries share a name.
pub open spec fn distinct_names<T>(e: Seq<(Seq<char>, T)>) -> bool {
    forall|i: int, j: int| 0 <= i < j < e.len() ==> (#[trigger] e[i]).0 != (#[trigger] e[j]).0
}

/// With distinct names, the entry of a given name is found at one place only.
pub proof fn lemma_index_of_unique<T>(e: Seq<(Seq<char>, T)>, i: int)
    requires
        distinct_names(e),
        0 <= i < e.len(),
    ensures
        has_name(e, e[i].0),
        index_of(e, e[i].0) == i,
        lookup(e, e[i].0) == Some(e[i].1),
{
    let j = index_of(e, e[i].0);
    assert(0 <= j < e.len() && e[j].0 == e[i].0);
    if j < i {
        assert(e[j].0 != e[i].0);
    } else if i < j {
        assert(e[i].0 != e[j].0);
    }
}

/// Storing a value keeps the names distinct.
pub proof fn lemma_put_distinct<T>(e: Seq<(Seq<char>, T)>, name: Seq<char>, value: T)
    requires
        distinct_names(e),
    ensures
        distinct_names(put(e, name, value)),
{
    let r = put(e, name, value);
    if has_name(e, name) {
        let k = index_of(e, name);
        assert forall|i: int, j: int| 0 <= i < j < r.len() implies (#[trigger] r[i]).0 != (
        #[trigger] r[j]).0 by {
            assert(e[i].0 != e[j].0);
        }
    } else {
        assert forall|i: int, j: int| 0 <= i < j < r.len() implies (#[trigger] r[i]).0 != (
        #[trigger] r[j]).0 by {
            if j < e.len() {
                assert(e[i].0 != e[j].0);
            } else {
                assert(e[i].0 != name);
            }
        }
    }
}

/// A value that was stored is the one looked up under its name.
pub proof fn lemma_put_then_lookup<T>(e: Seq<(Seq<char>, T)>, name: Seq<char>, value: T)
    requires
        distinct_names(e),
    ensures
        lookup(put(e, name, value), name) == Some(value),
{
    let r = put(e, name, value);
    lemma_put_distinct(e, name, value);
    let k = if has_name(e, name) {
        index_of(e, name)
    } else {
        e.len() as int
    };
    assert(r[k] == (name, value));
    lemma_index_of_unique(r, k);
}

/// Storing a value leaves every other name as it was.
pub proof fn lemma_put_keeps_others<T>(
    e: Seq<(Seq<char>, T)>,
    name: Seq<char>,
    value: T,
    other: Seq<char>,
)
    requires
        distinct_names(e),
        other != name,
    ensures
        lookup(put(e, name, value), other) == lookup(e, other),
{
    let r = put(e, name, value);
    lemma_put_distinct(e, name, value);
    if has_name(e, other) {
        let i = index_of(e, other);
        assert(r[i] == e[i]);
        lemma_index_of_unique(r, i);
    } else if has_name(r, other) {
        let i = index_of(r, other);
        if i < e.len() {
            assert(e[i].0 == other);
        }
    }
}

/// Storing under a known name keeps the number of entries; a new name adds one.
pub proof fn lemma_put_len<T>(e: Seq<(Seq<char>, T)>, name: Seq<char>, value: T)
    ensures
        put(e, name, value).len() == if has_name(e, name) {
            e.len()
        } else {
            e.len() + 1
        },
{
}

/// The entries of `e` after storing each entry of `more`, in order.
pub open spec fn extend_entries<T>(e: Seq<(Seq<char>, T)>, more: Seq<(Seq<char>, T)>) -> Seq<
    (Seq<char>, T),
>
    decreases more.len(),
{
    if more.len() == 0 {
        e
    } else {
        put(extend_entries(e, more.drop_last()), more.last().0, more.last().1)
    }
}

/// Storing more entries keeps the names distinct.
pub proof fn lemma_extend_distinct<T>(e: Seq<(Seq<char>, T)>, more: Seq<(Seq<char>, T)>)
    requires
        distinct_names(e),
    ensures
        distinct_names(extend_entries(e, more)),
    decreases more.len(),
{
    if more.len() > 0 {
        lemma_extend_distinct(e, more.drop_last());
        lemma_put_distinct(extend_entries(e, more.drop_last()), more.last().0, more.last().1);
    }
}

/// An insertion-ordered map from names to values in which no name occurs
/// twice.
#[derive(Debug)]
pub struct OrderedMap<V: View> {
    entries: Vec<(String, V)>,
}

/// The names and values that stored entries stand for.
pub closed spec fn view_of<V: View>(entries: Seq<(String, V)>) -> Seq<(Seq<char>, V::V)> {
    entries.map_values(|p: (String, V)| (p.0@, p.1@))
}

impl<V: View> View for OrderedMap<V> {
    type V = Seq<(Seq<char>, V::V)>;

    closed spec fn view(&self) -> Seq<(Seq<char>, V::V)> {
        view_of(self.entries@)
    }
}

/// A copy that stands for the same value as what it was copied from.
pub trait Duplicate: View + Sized {
    fn duplicate(&self) -> (copy: Self)
        ensures
            copy@ == self@,
    ;
}

impl Duplicate for String {
    fn duplicate(&self) -> (copy: Self) {
        self.clone()
    }
}

impl<V: Duplicate> Clone for OrderedMap<V> {
    fn clone(&self) -> (m: Self)
        ensures
            m@ == self@,
    {
        proof {
            use_type_invariant(self);
        }
        let mut entries: Vec<(String, V)> = Vec::new();
        let mut i: usize = 0;
        while i < self.entries.len()
            invariant
                i <= self.entries.len(),
                entries.len() == i,
                forall|j: int| 0 <= j < i ==> (#[trigger] entries@[j]).0@ == self.entries@[j].0@,
                forall|j: int| 0 <= j < i ==> (#[trigger] entries@[j]).1@ == self.entries@[j].1@,
            decreases self.entries.len() - i,
        {
            let name = self.entries[i].0.clone();
            let value = self.entries[i].1.duplicate();
            entries.push((name, value));
            i += 1;
        }
        assert(view_of(entries@) =~= self@);
        OrderedMap { entries }
    }
}

impl<V: View> OrderedMap<V> {
    #[verifier::type_invariant]
    closed spec fn inv(self) -> bool {
        distinct_names(self@)
    }

    /// An empty map.
    pub fn new() -> (m: Self)
        ensures
            m@ == Seq::<(Seq<char>, V::V)>::empty(),
    {
        let entries: Vec<(String, V)> = Vec::new();
        assert(view_of(entries@) =~= Seq::<(Seq<char>, V::V)>::empty());
        OrderedMap { entries }
    }

    /// The number of entries. No two of them share a name.
    pub fn len(&self) -> (n: usize)
        ensures
            n == self@.len(),
            distinct_names(self@),
    {
        proof {
            use_type_invariant(self);
        }
        self.entries.len()
    }

    /// Whether the map has no entry.
    pub fn is_empty(&self) -> (empty: bool)
        ensures
            empty == (self@.len() == 0),
    {
        self.entries.len() == 0
    }

    /// The position of the entry called `name`.
    pub fn find(&self, name: &str) -> (found: Option<usize>)
        ensures
            found is Some <==> has_name(self@, name@),
            found is Some ==> found->0 == index_of(self@, name@),
    {
        proof {
            use_type_invariant(self);
        }
        let mut i: usize = 0;
        while i < self.entries.len()
            invariant
                i <= self.entries.len(),
                distinct_names(self@),
                forall|j: int| 0 <= j < i ==> (#[trigger] self@[j]).0 != name@,
            decreases self.entries.len() - i,
        {
            if str_eq(self.entries[i].0.as_str(), name) {
                proof {
                    assert(self@[i as int].0 == name@);
                    lemma_index_of_unique(self@, i as int);
                }
                return Some(i);
            }
            i += 1;
        }
        None
    }

    /// Whether an entry is called `name`.
    pub fn contains_key(&self, name: &str) -> (found: bool)
        ensures
            found == has_name(self@, name@),
    {
        self.find(name).is_some()
    }

    /// The value stored under `name`.
    pub fn get(&self, name: &str) -> (value: Option<&V>)
        ensures
            match value {
                Some(v) => lookup(self@, name@) == Some(v@),
                None => lookup(self@, name@) is None,
            },
    {
        match self.find(name) {
            Some(i) => Some(&self.entries[i].1),
            None => None,
        }
    }

    /// The name of the entry at position `i`.
    pub fn name_at(&self, i: usize) -> (name: &str)
        requires
            i < self@.len(),
        ensures
            name@ == self@[i as int].0,
    {
        self.entries[i].0.as_str()
    }

    /// The value of the entry at position `i`.
    pub fn value_at(&self, i: usize) -> (value: &V)
        requires
            i < self@.len(),
        ensures
            value@ == self@[i as int].1,
    {
        &self.entries[i].1
    }

    /// Stores `value` under `name`. An entry of that name keeps its place
    /// and takes the new value; a new name goes to the end.
    pub fn insert(self, name: String, value: V) -> (m: Self)
        ensures
            m@ == put(self@, name@, value@),
            distinct_names(m@),
    {
        proof {
            use_type_invariant(&self);
            lemma_put_distinct(self@, name@, value@);
        }
        let found = self.find(name.as_str());
        let ghost before = self@;
        let mut entries = self.entries;
        match found {
            Some(i) => {
                entries.set(i, (name, value));
            },
            None => {
                entries.push((name, value));
            },
        }
        assert(view_of(entries@) =~= put(before, name@, value@));
        OrderedMap { entries }
    }
}

impl<V: Duplicate> OrderedMap<V> {
    /// Stores a copy of each entry of `more`, in order. Where both maps
    /// have a name, the value of `more` is the one that stays.
    pub fn extend(self, more: &OrderedMap<V>) -> (m: Self)
        ensures
            m@ == extend_entries(self@, more@),
            distinct_names(m@),
    {
        proof {
            use_type_invariant(&self);
        }
        let n = more.len();
        let mut m = self;
        let mut i: usize = 0;
        while i < n
            invariant
                i <= n,
                n == more@.len(),
                m@ == extend_entries(self@, more@.take(i as int)),
                distinct_names(m@),
            decreases n - i,
        {
            proof {
                assert(more@.take(i + 1).drop_last() =~= more@.take(i as int));
            }
            let name = more.name_at(i).to_owned();
            let value = more.value_at(i).duplicate();
            m = m.insert(name, value);
            i += 1;
        }
        proof {
            assert(more@.take(n as int) =~= more@);
        }
        m
    }
}

} // verus!
