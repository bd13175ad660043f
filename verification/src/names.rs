//! Tables keyed by item names: a map from names to values and a set of names.
//! Both keep their entries in insertion order with no name twice, and are
//! viewed as a `Map` / `Set` over character sequences.
use vstd::prelude::*;

verus! {

/// `names` lists exactly the names of `set`, each once.
pub open spec fn lists_set(names: Seq<String>, set: Set<Seq<char>>) -> bool {
    &&& names.len() == set.len()
    &&& forall|j: int, k: int| 0 <= j < k < names.len() ==> names[j]@ != names[k]@
    &&& forall|j: int| 0 <= j < names.len() ==> set.contains(#[trigger] names[j]@)
    &&& forall|name: Seq<char>| #[trigger] set.contains(name) ==> exists|j: int|
        0 <= j < names.len() && names[j]@ == name
}

/// No name occurs twice among the entries.
pub open spec fn unique_keys<V>(s: Seq<(String, V)>) -> bool {
    forall|i: int, j: int| 0 <= i < j < s.len() ==> s[i].0@ != s[j].0@
}

/// The map that the entries spell out, later entries overriding earlier ones.
pub open spec fn map_of<V>(s: Seq<(String, V)>) -> Map<Seq<char>, V>
    decreases s.len(),
{
    if s.len() == 0 {
        Map::empty()
    } else {
        map_of(s.drop_last()).insert(s.last().0@, s.last().1)
    }
}

proof fn lemma_map_of_index<V>(s: Seq<(String, V)>, i: int)
    requires
        unique_keys(s),
        0 <= i < s.len(),
    ensures
        map_of(s).contains_key(s[i].0@),
        map_of(s)[s[i].0@] == s[i].1,
    decreases s.len(),
{
    if i < s.len() - 1 {
        assert(unique_keys(s.drop_last()));
        lemma_map_of_index(s.drop_last(), i);
        assert(s[i].0@ != s.last().0@);
    }
}

proof fn lemma_map_of_absent<V>(s: Seq<(String, V)>, k: Seq<char>)
    requires
        forall|i: int| 0 <= i < s.len() ==> s[i].0@ != k,
    ensures
        !map_of(s).contains_key(k),
    decreases s.len(),
{
    if s.len() > 0 {
        lemma_map_of_absent(s.drop_last(), k);
    }
}

proof fn lemma_map_of_keys<V>(s: Seq<(String, V)>, k: Seq<char>)
    requires
        map_of(s).contains_key(k),
    ensures
        exists|i: int| 0 <= i < s.len() && s[i].0@ == k,
    decreases s.len(),
{
    if s.len() > 0 && s.last().0@ != k {
        lemma_map_of_keys(s.drop_last(), k);
        let i = choose|i: int| 0 <= i < s.drop_last().len() && s.drop_last()[i].0@ == k;
        assert(s[i].0@ == k);
    } else if s.len() > 0 {
        assert(s[s.len() - 1].0@ == k);
    }
}

proof fn lemma_map_of_update<V>(s: Seq<(String, V)>, i: int, e: (String, V))
    requires
        unique_keys(s),
        0 <= i < s.len(),
        e.0@ == s[i].0@,
    ensures
        map_of(s.update(i, e)) =~= map_of(s).insert(e.0@, e.1),
    decreases s.len(),
{
    let t = s.update(i, e);
    if i == s.len() - 1 {
        assert(t.drop_last() =~= s.drop_last());
    } else {
        assert(unique_keys(s.drop_last()));
        lemma_map_of_update(s.drop_last(), i, e);
        assert(t.drop_last() =~= s.drop_last().update(i, e));
        assert(s.last().0@ != e.0@);
    }
}

proof fn lemma_map_of_remove<V>(s: Seq<(String, V)>, i: int)
    requires
        unique_keys(s),
        0 <= i < s.len(),
    ensures
        map_of(s.remove(i)) =~= map_of(s).remove(s[i].0@),
    decreases s.len(),
{
    let t = s.remove(i);
    if i == s.len() - 1 {
        assert(t =~= s.drop_last());
        assert forall|j: int| 0 <= j < t.len() implies t[j].0@ != s[i].0@ by {
            assert(s[j] == t[j]);
        }
        lemma_map_of_absent(t, s[i].0@);
    } else {
        assert(unique_keys(s.drop_last()));
        lemma_map_of_remove(s.drop_last(), i);
        assert(t.drop_last() =~= s.drop_last().remove(i));
        assert(t.last() == s.last());
        assert(s.last().0@ != s[i].0@);
    }
}

/// A table from item names to values, in insertion order.
#[derive(Debug)]
pub struct NameMap<V> {
    entries: Vec<(String, V)>,
}

impl<V> View for NameMap<V> {
    type V = Map<Seq<char>, V>;

    closed spec fn view(&self) -> Map<Seq<char>, V> {
        map_of(self.entries@)
    }
}

impl<V> NameMap<V> {
    #[verifier::type_invariant]
    closed spec fn inv(self) -> bool {
        unique_keys(self.entries@)
    }

    /// The entries, in the order in which their names were first inserted.
    pub closed spec fn entry_seq(&self) -> Seq<(String, V)> {
        self.entries@
    }

    /// An empty table.
    pub fn new() -> (r: Self)
        ensures
            r@ == Map::<Seq<char>, V>::empty(),
            r.entry_seq().len() == 0,
    {
        NameMap { entries: Vec::new() }
    }

    /// The number of names in the table.
    pub fn len(&self) -> (r: usize)
        ensures
            r == self.entry_seq().len(),
            r == self@.dom().len(),
    {
        proof {
            use_type_invariant(self);
            self.lemma_len();
        }
        self.entries.len()
    }

    proof fn lemma_len(&self)
        requires
            unique_keys(self.entries@),
        ensures
            self@.dom().finite(),
            self@.dom().len() == self.entries@.len(),
    {
        lemma_map_of_len(self.entries@);
    }

    /// The entries, in the order in which their names were first inserted.
    /// They spell out the table, and no name occurs twice.
    pub fn entries(&self) -> (r: &Vec<(String, V)>)
        ensures
            r@ == self.entry_seq(),
            unique_keys(r@),
            forall|i: int|
                0 <= i < r@.len() ==> #[trigger] self@.contains_key(r@[i].0@) && self@[r@[i].0@]
                    == r@[i].1,
            forall|k: Seq<char>|
                #[trigger] self@.contains_key(k) ==> exists|i: int|
                    0 <= i < r@.len() && r@[i].0@ == k,
    {
        proof {
            use_type_invariant(self);
            assert forall|i: int| 0 <= i < self.entries@.len() implies #[trigger] self@.contains_key(
                self.entries@[i].0@,
            ) && self@[self.entries@[i].0@] == self.entries@[i].1 by {
                lemma_map_of_index(self.entries@, i);
            }
            assert forall|k: Seq<char>| #[trigger] self@.contains_key(k) implies exists|i: int|
                0 <= i < self.entries@.len() && self.entries@[i].0@ == k by {
                lemma_map_of_keys(self.entries@, k);
            }
        }
        &self.entries
    }

    fn position(&self, key: &str) -> (r: Option<usize>)
        ensures
            match r {
                Some(i) => i < self.entries@.len() && self.entries@[i as int].0@ == key@,
                None => forall|j: int| 0 <= j < self.entries@.len() ==> self.entries@[j].0@ != key@,
            },
    {
        let k = String::from_str(key);
        let mut i: usize = 0;
        while i < self.entries.len()
            invariant
                k@ == key@,
                i <= self.entries@.len(),
                forall|j: int| 0 <= j < i ==> self.entries@[j].0@ != key@,
            decreases self.entries@.len() - i,
        {
            if self.entries[i].0 == k {
                return Some(i);
            }
            i = i + 1;
        }
        None
    }

    /// Whether the table holds a value for `key`.
    pub fn contains_key(&self, key: &str) -> (r: bool)
        ensures
            r == self@.contains_key(key@),
    {
        proof {
            use_type_invariant(self);
        }
        match self.position(key) {
            Some(i) => {
                proof {
                    lemma_map_of_index(self.entries@, i as int);
                }
                true
            },
            None => {
                proof {
                    lemma_map_of_absent(self.entries@, key@);
                }
                false
            },
        }
    }

    /// The value held for `key`, if any.
    pub fn get(&self, key: &str) -> (r: Option<&V>)
        ensures
            match r {
                Some(v) => self@.contains_key(key@) && *v == self@[key@],
                None => !self@.contains_key(key@),
            },
    {
        proof {
            use_type_invariant(self);
        }
        match self.position(key) {
            Some(i) => {
                proof {
                    lemma_map_of_index(self.entries@, i as int);
                }
                Some(&self.entries[i].1)
            },
            None => {
                proof {
                    lemma_map_of_absent(self.entries@, key@);
                }
                None
            },
        }
    }

    /// Sets the value for `key`, replacing any earlier one (std `HashMap::insert`).
    pub fn insert(&mut self, key: String, value: V)
        ensures
            final(self)@ == old(self)@.insert(key@, value),
    {
        proof {
            use_type_invariant(&*self);
        }
        let ghost k = key@;
        match self.position(key.as_str()) {
            Some(i) => {
                let mut entries = Vec::new();
                std::mem::swap(&mut entries, &mut self.entries);
                proof {
                    lemma_map_of_update(entries@, i as int, (key, value));
                }
                entries.set(i, (key, value));
                assert(unique_keys(entries@));
                self.entries = entries;
            },
            None => {
                let mut entries = Vec::new();
                std::mem::swap(&mut entries, &mut self.entries);
                let ghost before = entries@;
                entries.push((key, value));
                assert(entries@.drop_last() =~= before);
                assert(unique_keys(entries@));
                self.entries = entries;
            },
        }
    }

    /// Sets the value for `key` unless it already holds one
    /// (std `HashMap::entry(..).or_insert(..)`).
    pub fn insert_if_absent(&mut self, key: String, value: V)
        ensures
            final(self)@ == (if old(self)@.contains_key(key@) {
                old(self)@
            } else {
                old(self)@.insert(key@, value)
            }),
    {
        if !self.contains_key(key.as_str()) {
            self.insert(key, value);
        }
    }

    /// Removes the value for `key`, if any; says whether there was one.
    pub fn remove(&mut self, key: &str) -> (r: bool)
        ensures
            r == old(self)@.contains_key(key@),
            final(self)@ == old(self)@.remove(key@),
    {
        proof {
            use_type_invariant(&*self);
        }
        match self.position(key) {
            Some(i) => {
                let mut entries = Vec::new();
                std::mem::swap(&mut entries, &mut self.entries);
                proof {
                    lemma_map_of_index(entries@, i as int);
                    lemma_map_of_remove(entries@, i as int);
                }
                let ghost before = entries@;
                entries.remove(i);
                assert forall|a: int, b: int| 0 <= a < b < entries@.len() implies entries@[a].0@
                    != entries@[b].0@ by {
                    let oa = if a < i { a } else { a + 1 };
                    let ob = if b < i { b } else { b + 1 };
                    assert(entries@[a] == before[oa]);
                    assert(entries@[b] == before[ob]);
                }
                self.entries = entries;
                true
            },
            None => {
                proof {
                    lemma_map_of_absent(self.entries@, key@);
                    assert(self@.remove(key@) =~= self@);
                }
                false
            },
        }
    }
}

/// A read after a write gives back what was written, and a write leaves the
/// values of all other names as they were.
pub proof fn lemma_get_after_insert<V>(m: Map<Seq<char>, V>, key: Seq<char>, value: V, other: Seq<char>)
    ensures
        m.insert(key, value).contains_key(key),
        m.insert(key, value)[key] == value,
        other != key ==> (m.insert(key, value).contains_key(other) == m.contains_key(other)),
        other != key && m.contains_key(other) ==> m.insert(key, value)[other] == m[other],
{
}

/// Setting a value only where none is keeps the first value written.
pub proof fn lemma_insert_if_absent_keeps_first<V>(m: Map<Seq<char>, V>, key: Seq<char>, first: V, second: V)
    ensures
        ({
            let once = m.insert(key, first);
            let twice = if once.contains_key(key) { once } else { once.insert(key, second) };
            twice[key] == first
        }),
{
}

impl<V: Copy> Clone for NameMap<V> {
    /// A copy of the table, entries in the same order.
    fn clone(&self) -> (r: Self)
        ensures
            r@ == self@,
            r.entry_seq() == self.entry_seq(),
    {
        proof {
            use_type_invariant(self);
        }
        let mut entries: Vec<(String, V)> = Vec::new();
        let mut i: usize = 0;
        while i < self.entries.len()
            invariant
                i <= self.entries@.len(),
                entries@ == self.entries@.take(i as int),
            decreases self.entries@.len() - i,
        {
            let value: V = self.entries[i].1;
            entries.push((self.entries[i].0.clone(), value));
            i = i + 1;
            assert(entries@ =~= self.entries@.take(i as int));
        }
        assert(entries@ =~= self.entries@);
        NameMap { entries }
    }
}

impl Clone for NameSet {
    /// A copy of the set.
    fn clone(&self) -> (r: Self)
        ensures
            r@ == self@,
    {
        NameSet { names: self.names.clone() }
    }
}

proof fn lemma_map_of_len<V>(s: Seq<(String, V)>)
    requires
        unique_keys(s),
    ensures
        map_of(s).dom().finite(),
        map_of(s).dom().len() == s.len(),
    decreases s.len(),
{
    if s.len() > 0 {
        assert(unique_keys(s.drop_last()));
        lemma_map_of_len(s.drop_last());
        assert forall|i: int| 0 <= i < s.drop_last().len() implies s.drop_last()[i].0@
            != s.last().0@ by {
            assert(s[i].0@ != s[s.len() - 1].0@);
        }
        lemma_map_of_absent(s.drop_last(), s.last().0@);
    }
}

/// A set of item names, in insertion order.
#[derive(Debug)]
pub struct NameSet {
    names: NameMap<()>,
}

impl View for NameSet {
    type V = Set<Seq<char>>;

    closed spec fn view(&self) -> Set<Seq<char>> {
        self.names@.dom()
    }
}

impl NameSet {
    /// An empty set.
    pub fn new() -> (r: Self)
        ensures
            r@ == Set::<Seq<char>>::empty(),
    {
        let r = NameSet { names: NameMap::new() };
        assert(r@ =~= Set::<Seq<char>>::empty());
        r
    }

    /// The number of names in the set.
    pub fn len(&self) -> (r: usize)
        ensures
            r == self@.len(),
    {
        self.names.len()
    }

    /// Whether `name` is in the set.
    pub fn contains(&self, name: &str) -> (r: bool)
        ensures
            r == self@.contains(name@),
    {
        self.names.contains_key(name)
    }

    /// Adds `name`; says whether it was new (std `HashSet::insert`).
    pub fn insert(&mut self, name: String) -> (r: bool)
        ensures
            r == !old(self)@.contains(name@),
            final(self)@ == old(self)@.insert(name@),
    {
        let fresh = !self.names.contains_key(name.as_str());
        self.names.insert(name, ());
        assert(self@ =~= old(self)@.insert(name@));
        fresh
    }

    /// Removes `name`; says whether it was there (std `HashSet::remove`).
    pub fn remove(&mut self, name: &str) -> (r: bool)
        ensures
            r == old(self)@.contains(name@),
            final(self)@ == old(self)@.remove(name@),
    {
        let r = self.names.remove(name);
        assert(self@ =~= old(self)@.remove(name@));
        r
    }

    /// The names, in the order in which they were first inserted.
    pub fn names(&self) -> (r: Vec<String>)
        ensures
            lists_set(r@, self@),
    {
        let entries = self.names.entries();
        let n = self.names.len();
        let mut out: Vec<String> = Vec::new();
        let mut i: usize = 0;
        while i < entries.len()
            invariant
                entries@ == self.names.entry_seq(),
                n == entries@.len(),
                i <= entries@.len(),
                out@.len() == i,
                forall|j: int| 0 <= j < i ==> #[trigger] out@[j]@ == entries@[j].0@,
            decreases entries@.len() - i,
        {
            out.push(entries[i].0.clone());
            i = i + 1;
        }
        assert forall|k: Seq<char>| #[trigger] self@.contains(k) implies exists|j: int|
            0 <= j < out@.len() && out@[j]@ == k by {
            let j = choose|j: int| 0 <= j < entries@.len() && entries@[j].0@ == k;
            assert(out@[j]@ == k);
        }
        assert forall|j: int| 0 <= j < out@.len() implies self@.contains(#[trigger] out@[j]@) by {
            assert(out@[j]@ == entries@[j].0@);
        }
        assert forall|a: int, b: int| 0 <= a < b < out@.len() implies out@[a]@ != out@[b]@ by {
            assert(out@[a]@ == entries@[a].0@);
            assert(out@[b]@ == entries@[b].0@);
        }
        out
    }
}

} // verus!
