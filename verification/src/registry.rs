//! A registry of values keyed by name: the learners a tutor knows, or the
//! topics a learner has touched. Each name occurs at most once, and entries
//! keep the order in which their names were first registered.

use vstd::prelude::*;

verus! {

/// No name occurs twice among the entries.
pub open spec fn names_distinct<V>(entries: Seq<(Seq<char>, V)>) -> bool {
    forall|i: int, j: int|
        0 <= i < entries.len() && 0 <= j < entries.len() && i != j
            ==> #[trigger] entries[i].0 != #[trigger] entries[j].0
}

/// The name is registered among the entries.
pub open spec fn has_name<V>(entries: Seq<(Seq<char>, V)>, name: Seq<char>) -> bool {
    exists|i: int| 0 <= i < entries.len() && #[trigger] entries[i].0 == name
}

/// Where the name stands among the entries, or -1 where it is not registered.
pub open spec fn position_of<V>(entries: Seq<(Seq<char>, V)>, name: Seq<char>) -> int {
    if has_name(entries, name) {
        choose|i: int| 0 <= i < entries.len() && #[trigger] entries[i].0 == name
    } else {
        -1
    }
}

/// The value registered under the name, if any.
pub open spec fn lookup<V>(entries: Seq<(Seq<char>, V)>, name: Seq<char>) -> Option<V> {
    if has_name(entries, name) {
        Some(entries[position_of(entries, name)].1)
    } else {
        None
    }
}

/// The positions below `n` at which `keep` holds, in ascending order.
pub open spec fn positions_with(n: nat, keep: spec_fn(int) -> bool) -> Seq<usize>
    decreases n,
{
    if n == 0 {
        Seq::empty()
    } else {
        let before = positions_with((n - 1) as nat, keep);
        if keep(n - 1) {
            before.push((n - 1) as usize)
        } else {
            before
        }
    }
}

/// The entries after registering `value` under `name`: an entry that holds
/// the name gets the new value in place; otherwise a new entry goes last.
pub open spec fn registered<V>(entries: Seq<(Seq<char>, V)>, name: Seq<char>, value: V) -> Seq<(Seq<char>, V)> {
    if has_name(entries, name) {
        entries.update(position_of(entries, name), (name, value))
    } else {
        entries.push((name, value))
    }
}

/// With distinct names, an entry that holds a name stands where the name is
/// found.
pub proof fn lemma_position_unique<V>(entries: Seq<(Seq<char>, V)>, i: int)
    requires
        names_distinct(entries),
        0 <= i < entries.len(),
    ensures
        has_name(entries, entries[i].0),
        position_of(entries, entries[i].0) == i,
{
    assert(has_name(entries, entries[i].0));
}

/// Values keyed by name, in order of first registration.
#[derive(Debug)]
pub struct Registry<V> {
    entries: Vec<(String, V)>,
}

impl<V> View for Registry<V> {
    type V = Seq<(Seq<char>, V)>;

    closed spec fn view(&self) -> Seq<(Seq<char>, V)> {
        self.entries@.map_values(|e: (String, V)| (e.0@, e.1))
    }
}

impl<V> Registry<V> {
    #[verifier::type_invariant]
    closed spec fn inv(self) -> bool {
        names_distinct(self@)
    }

    /// An empty registry.
    pub fn new() -> (r: Self)
        ensures
            r@ == Seq::<(Seq<char>, V)>::empty(),
    {
        let r = Registry { entries: Vec::new() };
        proof {
            assert(r@ =~= Seq::<(Seq<char>, V)>::empty());
        }
        r
    }

    /// How many names are registered. Names never repeat in a registry.
    pub fn len(&self) -> (n: usize)
        ensures
            n == self@.len(),
            names_distinct(self@),
    {
        proof { use_type_invariant(self); }
        self.entries.len()
    }

    /// Whether no name is registered.
    pub fn is_empty(&self) -> (b: bool)
        ensures
            b == (self@.len() == 0),
    {
        self.entries.len() == 0
    }

    /// The name at a position.
    pub fn name_at(&self, i: usize) -> (name: &String)
        requires
            i < self@.len(),
        ensures
            name@ == self@[i as int].0,
    {
        &self.entries[i].0
    }

    /// The value at a position.
    pub fn value_at(&self, i: usize) -> (value: &V)
        requires
            i < self@.len(),
        ensures
            *value == self@[i as int].1,
    {
        &self.entries[i].1
    }

    /// Where the name stands, or `None` where it is not registered.
    pub fn find(&self, name: &str) -> (r: Option<usize>)
        ensures
            r is None <==> !has_name(self@, name@),
            r matches Some(i) ==> i < self@.len() && i == position_of(self@, name@)
                && self@[i as int].0 == name@,
    {
        proof { use_type_invariant(self); }
        let key = String::from_str(name);
        let n = self.entries.len();
        let mut i: usize = 0;
        while i < n
            invariant
                n == self@.len(),
                n == self.entries@.len(),
                i <= n,
                key@ == name@,
                names_distinct(self@),
                forall|j: int| 0 <= j < i ==> self@[j].0 != name@,
            decreases n - i,
        {
            proof { assert(self@[i as int].0 == self.entries@[i as int].0@); }
            if self.entries[i].0 == key {
                proof { lemma_position_unique(self@, i as int); }
                return Some(i);
            }
            i = i + 1;
        }
        None
    }

    /// Whether the name is registered.
    pub fn contains_key(&self, name: &str) -> (b: bool)
        ensures
            b == has_name(self@, name@),
    {
        self.find(name).is_some()
    }

    /// The value registered under the name, if any.
    pub fn get(&self, name: &str) -> (r: Option<&V>)
        ensures
            match r {
                Some(v) => lookup(self@, name@) == Some(*v),
                None => lookup(self@, name@) is None,
            },
    {
        match self.find(name) {
            Some(i) => Some(&self.entries[i].1),
            None => None,
        }
    }

    /// Registers `value` under `name`, and gives back the value it replaces.
    pub fn insert(&mut self, name: &str, value: V) -> (previous: Option<V>)
        ensures
            final(self)@ == registered(old(self)@, name@, value),
            previous == lookup(old(self)@, name@),
            names_distinct(final(self)@),
    {
        proof { use_type_invariant(&*self); }
        let key = String::from_str(name);
        match self.find(name) {
            Some(i) => {
                let ghost before = self@;
                let mut entries: Vec<(String, V)> = Vec::new();
                std::mem::swap(&mut entries, &mut self.entries);
                let (_, old_value) = entries.remove(i);
                entries.insert(i, (key, value));
                let ghost after = entries@.map_values(|e: (String, V)| (e.0@, e.1));
                proof {
                    assert(after =~= before.update(i as int, (name@, value)));
                    assert forall|a: int, b: int|
                        0 <= a < after.len() && 0 <= b < after.len() && a != b
                        implies #[trigger] after[a].0 != #[trigger] after[b].0 by {
                        assert(after[a].0 == before[a].0);
                        assert(after[b].0 == before[b].0);
                    }
                }
                self.entries = entries;
                Some(old_value)
            },
            None => {
                let ghost before = self@;
                let mut entries: Vec<(String, V)> = Vec::new();
                std::mem::swap(&mut entries, &mut self.entries);
                entries.push((key, value));
                let ghost after = entries@.map_values(|e: (String, V)| (e.0@, e.1));
                proof {
                    assert(after =~= before.push((name@, value)));
                    assert forall|a: int, b: int|
                        0 <= a < after.len() && 0 <= b < after.len() && a != b
                        implies #[trigger] after[a].0 != #[trigger] after[b].0 by {
                        if a < before.len() && b < before.len() {
                            assert(after[a].0 == before[a].0);
                            assert(after[b].0 == before[b].0);
                        } else if a < before.len() {
                            assert(after[a].0 == before[a].0);
                        } else {
                            assert(after[b].0 == before[b].0);
                        }
                    }
                }
                self.entries = entries;
                None
            },
        }
    }

    /// Puts `value` at a position in place of the value there, and gives
    /// back the value it replaces; the name stays.
    pub fn replace_at(&mut self, i: usize, value: V) -> (previous: V)
        requires
            i < old(self)@.len(),
        ensures
            final(self)@ == old(self)@.update(i as int, (old(self)@[i as int].0, value)),
            previous == old(self)@[i as int].1,
            names_distinct(final(self)@),
    {
        proof { use_type_invariant(&*self); }
        let ghost before = self@;
        let mut entries: Vec<(String, V)> = Vec::new();
        std::mem::swap(&mut entries, &mut self.entries);
        let (key, old_value) = entries.remove(i);
        entries.insert(i, (key, value));
        let ghost after = entries@.map_values(|e: (String, V)| (e.0@, e.1));
        proof {
            assert(after =~= before.update(i as int, (before[i as int].0, value)));
            assert forall|a: int, b: int|
                0 <= a < after.len() && 0 <= b < after.len() && a != b
                implies #[trigger] after[a].0 != #[trigger] after[b].0 by {
                assert(after[a].0 == before[a].0);
                assert(after[b].0 == before[b].0);
            }
        }
        self.entries = entries;
        old_value
    }

    /// Where the name stands, registering `default` under it first where it
    /// is not registered yet.
    pub fn get_or_insert(&mut self, name: &str, default: V) -> (i: usize)
        ensures
            has_name(old(self)@, name@) ==> final(self)@ == old(self)@,
            !has_name(old(self)@, name@) ==> final(self)@ == old(self)@.push((name@, default)),
            i < final(self)@.len(),
            i == position_of(final(self)@, name@),
            final(self)@[i as int].0 == name@,
            names_distinct(final(self)@),
    {
        proof { use_type_invariant(&*self); }
        match self.find(name) {
            Some(i) => i,
            None => {
                let ghost before = self@;
                self.insert(name, default);
                proof { use_type_invariant(&*self); }
                let i = self.entries.len() - 1;
                proof {
                    assert(self@[i as int].0 == name@);
                    lemma_position_unique(self@, i as int);
                }
                i
            },
        }
    }

    /// The positions of the entries whose name is not `name`, in order.
    pub fn positions_except(&self, name: &str) -> (r: Vec<usize>)
        ensures
            r@ == positions_with(self@.len(), |j: int| self@[j].0 != name@),
    {
        let key = String::from_str(name);
        let n = self.entries.len();
        let ghost keep = |j: int| self@[j].0 != name@;
        let mut r: Vec<usize> = Vec::new();
        let mut i: usize = 0;
        while i < n
            invariant
                n == self@.len(),
                n == self.entries@.len(),
                i <= n,
                key@ == name@,
                keep == (|j: int| self@[j].0 != name@),
                r@ == positions_with(i as nat, keep),
            decreases n - i,
        {
            proof { assert(self@[i as int].0 == self.entries@[i as int].0@); }
            if !(self.entries[i].0 == key) {
                r.push(i);
            }
            i = i + 1;
        }
        r
    }

    /// The positions of the entries whose name is registered in `other`
    /// too, in order.
    pub fn shared_positions<W>(&self, other: &Registry<W>) -> (r: Vec<usize>)
        ensures
            r@ == positions_with(self@.len(), |j: int| has_name(other@, self@[j].0)),
    {
        let n = self.entries.len();
        let ghost keep = |j: int| has_name(other@, self@[j].0);
        let mut r: Vec<usize> = Vec::new();
        let mut i: usize = 0;
        while i < n
            invariant
                n == self@.len(),
                n == self.entries@.len(),
                i <= n,
                keep == (|j: int| has_name(other@, self@[j].0)),
                r@ == positions_with(i as nat, keep),
            decreases n - i,
        {
            proof { assert(self@[i as int].0 == self.entries@[i as int].0@); }
            if other.contains_key(self.entries[i].0.as_str()) {
                r.push(i);
            }
            i = i + 1;
        }
        r
    }
}


impl<V: Clone> Clone for Registry<V> {
    /// A copy with the same names in the same order, each value cloned.
    fn clone(&self) -> (r: Self)
        ensures
            r@.len() == self@.len(),
            forall|i: int| 0 <= i < self@.len() ==> #[trigger] r@[i].0 == self@[i].0,
            forall|i: int| 0 <= i < self@.len() ==> cloned::<V>(self@[i].1, #[trigger] r@[i].1),
    {
        proof { use_type_invariant(self); }
        let n = self.entries.len();
        let mut entries: Vec<(String, V)> = Vec::new();
        let mut i: usize = 0;
        while i < n
            invariant
                n == self@.len(),
                n == self.entries@.len(),
                i <= n,
                names_distinct(self@),
                entries@.len() == i,
                forall|j: int| 0 <= j < i ==> #[trigger] entries@[j].0@ == self@[j].0,
                forall|j: int| 0 <= j < i ==> cloned::<V>(self@[j].1, #[trigger] entries@[j].1),
            decreases n - i,
        {
            let name = self.entries[i].0.clone();
            let value = self.entries[i].1.clone();
            proof { assert(self.entries@[i as int].1 == self@[i as int].1); }
            entries.push((name, value));
            i = i + 1;
        }
        let ghost copied = entries@.map_values(|e: (String, V)| (e.0@, e.1));
        proof {
            assert forall|a: int, b: int|
                0 <= a < copied.len() && 0 <= b < copied.len() && a != b
                implies #[trigger] copied[a].0 != #[trigger] copied[b].0 by {
                assert(copied[a].0 == self@[a].0);
                assert(copied[b].0 == self@[b].0);
            }
        }
        Registry { entries }
    }
}

/// Registering under a name: the name then reads the new value, every other
/// name reads what it read before, names stay distinct, and the registry
/// grows by one entry exactly when the name was new.
pub proof fn law_register<V>(entries: Seq<(Seq<char>, V)>, name: Seq<char>, value: V, other: Seq<char>)
    requires
        names_distinct(entries),
        other != name,
    ensures
        names_distinct(registered(entries, name, value)),
        lookup(registered(entries, name, value), name) == Some(value),
        lookup(registered(entries, name, value), other) == lookup(entries, other),
        registered(entries, name, value).len() == entries.len() + if has_name(entries, name) { 0int } else { 1int },
{
    let after = registered(entries, name, value);
    if has_name(entries, name) {
        let p = position_of(entries, name);
        assert forall|a: int, b: int|
            0 <= a < after.len() && 0 <= b < after.len() && a != b
            implies #[trigger] after[a].0 != #[trigger] after[b].0 by {
            assert(after[a].0 == entries[a].0);
            assert(after[b].0 == entries[b].0);
        }
        lemma_position_unique(after, p);
        assert(has_name(after, name));
    } else {
        assert forall|a: int, b: int|
            0 <= a < after.len() && 0 <= b < after.len() && a != b
            implies #[trigger] after[a].0 != #[trigger] after[b].0 by {
            if a < entries.len() {
                assert(after[a].0 == entries[a].0);
            }
            if b < entries.len() {
                assert(after[b].0 == entries[b].0);
            }
        }
        lemma_position_unique(after, entries.len() as int);
    }
    if has_name(entries, other) {
        let q = position_of(entries, other);
        lemma_position_unique(entries, q);
        assert(after[q] == entries[q]);
        lemma_position_unique(after, q);
    } else {
        if has_name(after, other) {
            let q = choose|i: int| 0 <= i < after.len() && #[trigger] after[i].0 == other;
            assert(entries[q].0 == other);
        }
    }
}

/// Registering the same value under the same name twice leaves the
/// registry as registering it once.
pub proof fn law_register_idempotent<V>(entries: Seq<(Seq<char>, V)>, name: Seq<char>, value: V)
    requires
        names_distinct(entries),
    ensures
        registered(registered(entries, name, value), name, value) == registered(entries, name, value),
{
    let once = registered(entries, name, value);
    assert(name.push('x').len() != name.len());
    law_register(entries, name, value, name.push('x'));
    assert(has_name(once, name)) by {
        if has_name(entries, name) {
            lemma_position_unique(entries, position_of(entries, name));
            assert(once[position_of(entries, name)].0 == name);
        } else {
            assert(once[entries.len() as int].0 == name);
        }
    }
    let p = position_of(once, name);
    lemma_position_unique(once, p);
    assert(once[p] == (name, value)) by {
        if has_name(entries, name) {
            let q = position_of(entries, name);
            lemma_position_unique(entries, q);
            lemma_position_unique(once, q);
        } else {
            lemma_position_unique(once, entries.len() as int);
        }
    }
    assert(registered(once, name, value) =~= once);
}
/// The positions kept are exactly those below `n` at which `keep` holds,
/// each once, in ascending order (for any `n` a position can reach).
pub proof fn law_positions_with(n: nat, keep: spec_fn(int) -> bool)
    requires
        n <= usize::MAX,
    ensures
        forall|k: usize| #![trigger positions_with(n, keep).contains(k)]
            positions_with(n, keep).contains(k) <==> k < n && keep(k as int),
        forall|a: int, b: int| 0 <= a < b < positions_with(n, keep).len()
            ==> #[trigger] positions_with(n, keep)[a] < #[trigger] positions_with(n, keep)[b],
        forall|a: int| 0 <= a < positions_with(n, keep).len() ==> #[trigger] positions_with(n, keep)[a] < n,
    decreases n,
{
    if n > 0 {
        law_positions_with((n - 1) as nat, keep);
        let before = positions_with((n - 1) as nat, keep);
        let all = positions_with(n, keep);
        let last = (n - 1) as usize;
        if keep(n - 1) {
            assert(all == before.push(last));
            assert forall|k: usize| #[trigger] all.contains(k) <==> k < n && keep(k as int) by {
                if all.contains(k) {
                    let w = choose|w: int| 0 <= w < all.len() && all[w] == k;
                    if w < before.len() {
                        assert(before[w] == k);
                        assert(before.contains(k));
                    }
                }
                if k < n && keep(k as int) {
                    if k == last {
                        assert(all[before.len() as int] == k);
                    } else {
                        assert(before.contains(k));
                        let w = choose|w: int| 0 <= w < before.len() && before[w] == k;
                        assert(all[w] == k);
                    }
                }
            }
            assert forall|a: int, b: int| 0 <= a < b < all.len() implies #[trigger] all[a] < #[trigger] all[b] by {
                assert(all[a] == before[a]);
                if b < before.len() {
                    assert(all[b] == before[b]);
                }
            }
            assert forall|a: int| 0 <= a < all.len() implies #[trigger] all[a] < n by {
                if a < before.len() {
                    assert(all[a] == before[a]);
                }
            }
        } else {
            assert(all == before);
            assert forall|k: usize| #[trigger] all.contains(k) <==> k < n && keep(k as int) by {
                assert(before.contains(k) <==> k < n - 1 && keep(k as int));
            }
        }
    }
}

/// Looking up a registered name gives the value of its entry, and looking
/// up a name that is not registered gives nothing.
pub proof fn law_lookup<V>(entries: Seq<(Seq<char>, V)>, i: int)
    requires
        names_distinct(entries),
        0 <= i < entries.len(),
    ensures
        lookup(entries, entries[i].0) == Some(entries[i].1),
        forall|name: Seq<char>| !has_name(entries, name) ==> #[trigger] lookup(entries, name) is None,
        forall|name: Seq<char>| #[trigger] has_name(entries, name)
            <==> exists|j: int| 0 <= j < entries.len() && entries[j].0 == name,
{
    lemma_position_unique(entries, i);
}

} // verus!
