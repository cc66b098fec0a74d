//! A map from names to values that keeps its keys in the order of their first
//! insertion, so that walking it gives the same order on every run.
//!
//! It stands where a hash map keyed by strings would: vstd's model of
//! `HashMap` needs the key type to obey its key model, which it grants to
//! integers and not to `String`, so nothing could be proved of such a map.
//! A lookup here walks the keys.

use vstd::prelude::*;

verus! {

/// The names of `s` in the order of their first occurrence, each once.
pub open spec fn distinct_names(s: Seq<Seq<char>>) -> Seq<Seq<char>>
    decreases s.len(),
{
    if s.len() == 0 {
        Seq::empty()
    } else {
        let d = distinct_names(s.drop_last());
        if d.contains(s.last()) {
            d
        } else {
            d.push(s.last())
        }
    }
}

/// `distinct_names` holds exactly the names of `s`, and none twice.
pub proof fn lemma_distinct_names(s: Seq<Seq<char>>)
    ensures
        distinct_names(s).no_duplicates(),
        forall|n: Seq<char>| distinct_names(s).contains(n) <==> s.contains(n),
    decreases s.len(),
{
    if s.len() > 0 {
        let d = distinct_names(s.drop_last());
        lemma_distinct_names(s.drop_last());
        assert forall|n: Seq<char>| distinct_names(s).contains(n) <==> s.contains(n) by {
            if s.contains(n) {
                let i = choose|i: int| 0 <= i < s.len() && s[i] == n;
                if i < s.len() - 1 {
                    assert(s.drop_last()[i] == n);
                    assert(s.drop_last().contains(n));
                    assert(d.contains(n));
                    if !d.contains(s.last()) {
                        let j = choose|j: int| 0 <= j < d.len() && d[j] == n;
                        assert(d.push(s.last())[j] == n);
                    }
                } else {
                    if !d.contains(s.last()) {
                        assert(d.push(s.last())[d.len() as int] == n);
                    }
                }
            }
            if distinct_names(s).contains(n) {
                let j = choose|j: int| 0 <= j < distinct_names(s).len() && distinct_names(s)[j] == n;
                if j < d.len() {
                    assert(d[j] == n);
                    assert(d.contains(n));
                    assert(s.drop_last().contains(n));
                    let i = choose|i: int| 0 <= i < s.drop_last().len() && s.drop_last()[i] == n;
                    assert(s[i] == n);
                } else {
                    assert(s[s.len() - 1] == n);
                }
            }
        }
    }
}

/// A map keyed by text. Its model is the sequence of its names, which are
/// distinct, and the sequence of the values that stand beside them.
#[derive(Debug)]
pub struct NameMap<V> {
    keys: Vec<String>,
    slots: Vec<V>,
}

impl<V> View for NameMap<V> {
    type V = Map<Seq<char>, V>;

    open spec fn view(&self) -> Map<Seq<char>, V> {
        Map::new(
            |n: Seq<char>| self.names().contains(n),
            |n: Seq<char>| self.values()[self.names().index_of(n)],
        )
    }
}

impl<V> NameMap<V> {
    /// The names in the order of their first insertion.
    pub closed spec fn names(&self) -> Seq<Seq<char>> {
        self.keys@.map_values(|k: String| k@)
    }

    /// The values, each at the position of its name.
    pub closed spec fn values(&self) -> Seq<V> {
        self.slots@
    }

    /// Every name has one value and no name occurs twice.
    pub open spec fn wf(&self) -> bool {
        &&& self.names().len() == self.values().len()
        &&& self.names().no_duplicates()
    }

    /// Whether the map has an entry for `name`.
    pub open spec fn has(&self, name: Seq<char>) -> bool {
        self.names().contains(name)
    }

    /// The value stored for `name`, if there is one.
    pub open spec fn value_of(&self, name: Seq<char>) -> Option<V> {
        if self.has(name) {
            Some(self.values()[self.names().index_of(name)])
        } else {
            None
        }
    }

    /// In a well-formed map the name at position `i` is found at position `i`.
    pub proof fn lemma_position(&self, i: int)
        requires
            self.wf(),
            0 <= i < self.names().len(),
        ensures
            self.has(self.names()[i]),
            self.names().index_of(self.names()[i]) == i,
            self.value_of(self.names()[i]) == Some(self.values()[i]),
            self@.dom().contains(self.names()[i]),
            self@[self.names()[i]] == self.values()[i],
    {
        let n = self.names()[i];
        assert(self.names().contains(n));
        let j = self.names().index_of(n);
        assert(0 <= j < self.names().len() && self.names()[j] == n);
    }

    /// An empty map.
    pub fn new() -> (m: Self)
        ensures
            m.wf(),
            m.names() == Seq::<Seq<char>>::empty(),
            m.values() == Seq::<V>::empty(),
    {
        let m = NameMap { keys: Vec::new(), slots: Vec::new() };
        assert(m.names() =~= Seq::<Seq<char>>::empty());
        m
    }

    /// The number of entries.
    pub fn len(&self) -> (n: usize)
        ensures
            n == self.names().len(),
    {
        self.keys.len()
    }

    /// The position of `name` among the names.
    pub fn position(&self, name: &str) -> (r: Option<usize>)
        requires
            self.wf(),
        ensures
            match r {
                Some(i) => i < self.names().len() && self.names()[i as int] == name@
                    && self.names().index_of(name@) == i,
                None => !self.has(name@),
            },
    {
        let key = String::from_str(name);
        let mut i: usize = 0;
        while i < self.keys.len()
            invariant
                i <= self.keys.len(),
                self.wf(),
                key@ == name@,
                forall|j: int| 0 <= j < i ==> self.names()[j] != name@,
            decreases self.keys.len() - i,
        {
            if self.keys[i] == key {
                proof {
                    self.lemma_position(i as int);
                }
                return Some(i);
            }
            i += 1;
        }
        None
    }

    /// Whether the map has an entry for `name`.
    pub fn contains_key(&self, name: &str) -> (r: bool)
        requires
            self.wf(),
        ensures
            r == self.has(name@),
            r == self@.dom().contains(name@),
    {
        self.position(name).is_some()
    }

    /// The value stored for `name`.
    pub fn get(&self, name: &str) -> (r: Option<&V>)
        requires
            self.wf(),
        ensures
            match r {
                Some(v) => self.value_of(name@) == Some(*v),
                None => self.value_of(name@) is None,
            },
            r is Some == self@.dom().contains(name@),
            r matches Some(v) ==> *v == self@[name@],
    {
        match self.position(name) {
            Some(i) => Some(&self.slots[i]),
            None => None,
        }
    }

    /// The name at position `i`.
    pub fn key_at(&self, i: usize) -> (k: &String)
        requires
            i < self.names().len(),
        ensures
            k@ == self.names()[i as int],
    {
        &self.keys[i]
    }

    /// The value at position `i`.
    pub fn value_at(&self, i: usize) -> (v: &V)
        requires
            i < self.values().len(),
        ensures
            *v == self.values()[i as int],
    {
        &self.slots[i]
    }

    /// Stores `value` for `name`. A value that stood there is replaced and the
    /// name keeps its position; a new name goes to the end.
    pub fn insert(&mut self, name: String, value: V)
        requires
            old(self).wf(),
        ensures
            final(self).wf(),
            final(self)@ == old(self)@.insert(name@, value),
            old(self).has(name@) ==> final(self).names() == old(self).names()
                && final(self).values() == old(self).values().update(
                old(self).names().index_of(name@),
                value,
            ),
            !old(self).has(name@) ==> final(self).names() == old(self).names().push(name@)
                && final(self).values() == old(self).values().push(value),
    {
        let ghost before = *self;
        match self.position(name.as_str()) {
            Some(i) => {
                self.slots[i] = value;
                assert(self.names() == before.names());
                assert forall|n: Seq<char>| self.has(n) implies #[trigger] self@[n] == before@.insert(
                    name@,
                    value,
                )[n] by {
                    let j = self.names().index_of(n);
                    assert(0 <= j < self.names().len() && self.names()[j] == n);
                }
                assert(self@ =~= before@.insert(name@, value));
            },
            None => {
                self.keys.push(name);
                self.slots.push(value);
                assert(self.names() =~= before.names().push(name@));
                assert forall|n: Seq<char>| self.has(n) implies #[trigger] self@[n] == before@.insert(
                    name@,
                    value,
                )[n] by {
                    let j = self.names().index_of(n);
                    assert(0 <= j < self.names().len() && self.names()[j] == n);
                    if n == name@ {
                        self.lemma_position(self.names().len() - 1);
                    } else {
                        assert(before.names()[j] == n);
                        before.lemma_position(j);
                    }
                }
                assert forall|n: Seq<char>| #[trigger]
                    self@.dom().contains(n) == before@.insert(name@, value).dom().contains(n) by {
                    if before.has(n) {
                        let j = before.names().index_of(n);
                        assert(0 <= j < before.names().len() && before.names()[j] == n);
                        assert(self.names()[j] == n);
                    }
                    if n == name@ {
                        assert(self.names()[self.names().len() - 1] == n);
                    }
                    if self.has(n) {
                        let j = self.names().index_of(n);
                        assert(0 <= j < self.names().len() && self.names()[j] == n);
                        if j < before.names().len() {
                            assert(before.names()[j] == n);
                        }
                    }
                }
                assert(self@.dom() =~= before@.insert(name@, value).dom());
                assert(self@ =~= before@.insert(name@, value));
            },
        }
    }
}

impl<T> NameMap<Vec<T>> {
    /// Appends `item` to the list stored for `name`. Returns whether the map
    /// has such a list; where it has none, nothing changes.
    pub fn push_to(&mut self, name: &str, item: T) -> (found: bool)
        requires
            old(self).wf(),
        ensures
            final(self).wf(),
            found == old(self).has(name@),
            final(self).names() == old(self).names(),
            !found ==> final(self).values() == old(self).values(),
            found ==> final(self).values().len() == old(self).values().len() && forall|j: int|
                0 <= j < old(self).values().len() ==> #[trigger] final(self).values()[j]@ == (if j
                    == old(self).names().index_of(name@) {
                    old(self).values()[j]@.push(item)
                } else {
                    old(self).values()[j]@
                }),
    {
        match self.position(name) {
            Some(i) => {
                self.slots[i].push(item);
                true
            },
            None => false,
        }
    }
}

} // verus!
