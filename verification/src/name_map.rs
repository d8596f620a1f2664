//! A map from names to numeric ids, kept as a list of `(name, id)` entries.
use vstd::prelude::*;

verus! {

/// The index of the last entry for `name`, or `-1` when there is none.
pub open spec fn last_index(m: Seq<(Seq<char>, usize)>, name: Seq<char>) -> int
    decreases m.len(),
{
    if m.len() == 0 {
        -1
    } else if m.last().0 == name {
        m.len() - 1
    } else {
        last_index(m.drop_last(), name)
    }
}

/// The id stored for `name`.
pub open spec fn lookup(m: Seq<(Seq<char>, usize)>, name: Seq<char>) -> Option<usize> {
    let k = last_index(m, name);
    if 0 <= k < m.len() {
        Some(m[k].1)
    } else {
        None
    }
}

/// The id of `name`, inserting the next free id (the number of entries) when
/// the name is not yet known; returns the id and the new entries.
pub open spec fn id_for_spec(m: Seq<(Seq<char>, usize)>, name: Seq<char>) -> (usize, Seq<(Seq<char>, usize)>) {
    match lookup(m, name) {
        Some(id) => (id, m),
        None => (m.len() as usize, m.push((name, m.len() as usize))),
    }
}

/// Entries after `insert(name, id)`: the id of a known name is replaced, a new
/// name is appended.
pub open spec fn insert_spec(m: Seq<(Seq<char>, usize)>, name: Seq<char>, id: usize) -> Seq<(Seq<char>, usize)> {
    let k = last_index(m, name);
    if 0 <= k < m.len() {
        m.update(k, (name, id))
    } else {
        m.push((name, id))
    }
}

pub proof fn lemma_last_index(m: Seq<(Seq<char>, usize)>, name: Seq<char>)
    ensures
        -1 <= last_index(m, name) < m.len(),
        last_index(m, name) >= 0 ==> m[last_index(m, name)].0 == name,
        forall|j: int| last_index(m, name) < j < m.len() ==> (#[trigger] m[j]).0 != name,
    decreases m.len(),
{
    if m.len() > 0 {
        let d = m.drop_last();
        lemma_last_index(d, name);
        assert forall|j: int| last_index(m, name) < j < m.len() implies (#[trigger] m[j]).0 != name by {
            if j < m.len() - 1 {
                assert(d[j] == m[j]);
            }
        }
        if last_index(m, name) >= 0 && m.last().0 != name {
            assert(d[last_index(m, name)] == m[last_index(m, name)]);
        }
    }
}

/// A name with its id after it has been looked up or added: a map gains at
/// most one entry and keeps every id it held.
pub proof fn law_id_for(m: Seq<(Seq<char>, usize)>, name: Seq<char>)
    ensures
        lookup(id_for_spec(m, name).1, name) == Some(id_for_spec(m, name).0),
        forall|other: Seq<char>| other != name ==> lookup(id_for_spec(m, name).1, other) == lookup(m, other),
{
    lemma_last_index(m, name);
    let r = id_for_spec(m, name).1;
    if lookup(m, name) is None {
        lemma_last_index(r, name);
        assert(r.drop_last() =~= m);
        assert forall|other: Seq<char>| other != name implies lookup(r, other) == lookup(m, other) by {
            assert(r.drop_last() =~= m);
            assert(last_index(r, other) == last_index(m, other));
            lemma_last_index(m, other);
            if last_index(m, other) >= 0 {
                assert(r[last_index(m, other)] == m[last_index(m, other)]);
            }
        }
    }
}

/// What a lookup gives after an insert: the name just inserted has the id it
/// was given, and every other name keeps the id it had.
pub proof fn law_insert_get(m: Seq<(Seq<char>, usize)>, name: Seq<char>, id: usize)
    ensures
        lookup(insert_spec(m, name, id), name) == Some(id),
        forall|other: Seq<char>| other != name ==> lookup(insert_spec(m, name, id), other) == lookup(m, other),
{
    lemma_last_index(m, name);
    let r = insert_spec(m, name, id);
    let k = last_index(m, name);
    lemma_last_index(r, name);
    if 0 <= k < m.len() {
        assert(r == m.update(k, (name, id)));
        assert(r[k].0 == name);
        if last_index(r, name) > k {
            assert(r[last_index(r, name)] == m[last_index(r, name)]);
        }
        assert(last_index(r, name) == k);
        assert forall|other: Seq<char>| other != name implies lookup(r, other) == lookup(m, other) by {
            lemma_last_index(m, other);
            lemma_last_index(r, other);
            let a = last_index(m, other);
            let b = last_index(r, other);
            if a >= 0 {
                assert(r[a] == m[a]);
            }
            if b >= 0 {
                assert(r[b] == m[b]);
            }
            if a < b {
                assert(m[b].0 == other);
            }
            if b < a {
                assert(r[a].0 == other);
            }
            assert(a == b);
        }
    } else {
        assert(r == m.push((name, id)));
        assert forall|other: Seq<char>| other != name implies lookup(r, other) == lookup(m, other) by {
            assert(r.drop_last() =~= m);
            assert(last_index(r, other) == last_index(m, other));
            lemma_last_index(m, other);
            if last_index(m, other) >= 0 {
                assert(r[last_index(m, other)] == m[last_index(m, other)]);
            }
        }
    }
}

/// Entries with their ids.
pub struct NameMap {
    entries: Vec<(String, usize)>,
}

impl NameMap {
    /// The entries as `(name, id)` pairs, in insertion order.
    pub closed spec fn view(&self) -> Seq<(Seq<char>, usize)> {
        self.entries@.map_values(|e: (String, usize)| (e.0@, e.1))
    }

    /// An empty map.
    pub fn new() -> (r: Self)
        ensures
            r@ == Seq::<(Seq<char>, usize)>::empty(),
    {
        let r = NameMap { entries: Vec::new() };
        assert(r@ =~= Seq::<(Seq<char>, usize)>::empty());
        r
    }

    /// The number of entries.
    pub fn len(&self) -> (r: usize)
        ensures
            r == self@.len(),
    {
        self.entries.len()
    }

    fn find(&self, name: &String) -> (r: Option<usize>)
        ensures
            r matches Some(k) ==> k == last_index(self@, name@) && k < self@.len(),
            r is None ==> last_index(self@, name@) == -1,
    {
        proof { lemma_last_index(self@, name@); }
        let mut i: usize = self.entries.len();
        while i > 0
            invariant
                i <= self.entries@.len(),
                self@.len() == self.entries@.len(),
                -1 <= last_index(self@, name@) < self@.len(),
                last_index(self@, name@) >= 0 ==> self@[last_index(self@, name@)].0 == name@,
                forall|j: int| last_index(self@, name@) < j < self@.len() ==> (#[trigger] self@[j]).0 != name@,
                forall|j: int| i <= j < self@.len() ==> (#[trigger] self@[j]).0 != name@,
            decreases i,
        {
            i -= 1;
            assert(self@[i as int] == (self.entries@[i as int].0@, self.entries@[i as int].1));
            if self.entries[i].0 == *name {
                return Some(i);
            }
        }
        None
    }

    /// The id of `name`.
    pub fn get(&self, name: &String) -> (r: Option<usize>)
        ensures
            r == lookup(self@, name@),
    {
        match self.find(name) {
            Some(k) => {
                assert(self@[k as int] == (self.entries@[k as int].0@, self.entries@[k as int].1));
                Some(self.entries[k].1)
            },
            None => None,
        }
    }

    /// Whether `name` has an id.
    pub fn contains_key(&self, name: &String) -> (r: bool)
        ensures
            r == (lookup(self@, name@) is Some),
    {
        self.get(name).is_some()
    }

    /// Sets the id of `name`, returning the id it had before.
    pub fn insert(&mut self, name: String, id: usize) -> (r: Option<usize>)
        ensures
            r == lookup(old(self)@, name@),
            final(self)@ == insert_spec(old(self)@, name@, id),
    {
        let ghost m = self@;
        let ghost n = name@;
        let prev = self.get(&name);
        match self.find(&name) {
            Some(k) => {
                self.entries.set(k, (name, id));
                assert(self@ =~= m.update(k as int, (n, id)));
            },
            None => {
                self.entries.push((name, id));
                assert(self@ =~= m.push((n, id)));
            },
        }
        prev
    }

    /// The id of `name`; a name not yet known gets the next free id (the
    /// number of entries) and is added.
    pub fn id_for(&mut self, name: &String) -> (r: usize)
        ensures
            (r, final(self)@) == id_for_spec(old(self)@, name@),
    {
        match self.get(name) {
            Some(v) => v,
            None => {
                let v = self.entries.len();
                let ghost m = self@;
                self.entries.push((name.clone(), v));
                assert(self@ =~= m.push((name@, v)));
                v
            },
        }
    }

    /// The entries as `(name, id)` pairs, in insertion order.
    pub fn entries(&self) -> (r: &Vec<(String, usize)>)
        ensures
            r@.map_values(|e: (String, usize)| (e.0@, e.1)) == self@,
    {
        &self.entries
    }
}

} // verus!
