//! A table keyed by route name.

use vstd::prelude::*;

verus! {

/// Values by route name.
pub struct RouteMap<V> {
    entries: Vec<(String, V)>,
}

/// The table that a list of entries makes; of two with one name the first counts.
spec fn table_of<V>(entries: Seq<(String, V)>) -> Map<Seq<char>, V>
    decreases entries.len(),
{
    if entries.len() == 0 {
        Map::empty()
    } else {
        table_of(entries.drop_first()).insert(entries[0].0@, entries[0].1)
    }
}

/// `i` is the place of the first entry named `key`.
spec fn is_place<V>(entries: Seq<(String, V)>, key: Seq<char>, i: int) -> bool {
    &&& 0 <= i < entries.len()
    &&& entries[i].0@ == key
    &&& forall|j: int| 0 <= j < i ==> (#[trigger] entries[j]).0@ != key
}

proof fn lemma_found<V>(entries: Seq<(String, V)>, key: Seq<char>, i: int)
    requires
        is_place(entries, key, i),
    ensures
        table_of(entries).contains_key(key),
        table_of(entries)[key] == entries[i].1,
    decreases entries.len(),
{
    if i > 0 {
        let rest = entries.drop_first();
        assert(entries[0].0@ != key);
        assert forall|j: int| 0 <= j < i - 1 implies (#[trigger] rest[j]).0@ != key by {
            assert(entries[j + 1].0@ != key);
        }
        lemma_found(rest, key, i - 1);
    }
}

proof fn lemma_absent<V>(entries: Seq<(String, V)>, key: Seq<char>)
    requires
        forall|j: int| 0 <= j < entries.len() ==> (#[trigger] entries[j]).0@ != key,
    ensures
        !table_of(entries).contains_key(key),
    decreases entries.len(),
{
    if entries.len() > 0 {
        let rest = entries.drop_first();
        assert(entries[0].0@ != key);
        assert forall|j: int| 0 <= j < rest.len() implies (#[trigger] rest[j]).0@ != key by {
            assert(entries[j + 1].0@ != key);
        }
        lemma_absent(rest, key);
    }
}

proof fn lemma_replaced<V>(entries: Seq<(String, V)>, key: Seq<char>, i: int, name: String, value: V)
    requires
        is_place(entries, key, i),
        name@ == key,
    ensures
        table_of(entries.update(i, (name, value))) == table_of(entries).insert(key, value),
    decreases entries.len(),
{
    let new = entries.update(i, (name, value));
    let rest = entries.drop_first();
    if i == 0 {
        assert(new.drop_first() == rest);
        assert(table_of(new) =~= table_of(entries).insert(key, value));
    } else {
        assert(entries[0].0@ != key);
        assert forall|j: int| 0 <= j < i - 1 implies (#[trigger] rest[j]).0@ != key by {
            assert(entries[j + 1].0@ != key);
        }
        lemma_replaced(rest, key, i - 1, name, value);
        assert(new.drop_first() == rest.update(i - 1, (name, value)));
        assert(table_of(new) =~= table_of(entries).insert(key, value));
    }
}

proof fn lemma_added<V>(entries: Seq<(String, V)>, name: String, value: V)
    requires
        !table_of(entries).contains_key(name@),
    ensures
        table_of(entries.push((name, value))) == table_of(entries).insert(name@, value),
    decreases entries.len(),
{
    let new = entries.push((name, value));
    if entries.len() == 0 {
        reveal_with_fuel(table_of, 2);
        assert(new.drop_first() =~= Seq::<(String, V)>::empty());
        assert(table_of(new) =~= table_of(entries).insert(name@, value));
    } else {
        lemma_added(entries.drop_first(), name, value);
        assert(new.drop_first() == entries.drop_first().push((name, value)));
        assert(table_of(new) =~= table_of(entries).insert(name@, value));
    }
}

impl<V> View for RouteMap<V> {
    type V = Map<Seq<char>, V>;

    closed spec fn view(&self) -> Map<Seq<char>, V> {
        table_of(self.entries@)
    }
}

impl<V> RouteMap<V> {
    /// A table without entries.
    pub fn new() -> (m: RouteMap<V>)
        ensures
            m@ == Map::<Seq<char>, V>::empty(),
    {
        RouteMap { entries: Vec::new() }
    }

    fn place(&self, key: &String) -> (r: Option<usize>)
        ensures
            r matches Some(i) ==> is_place(self.entries@, key@, i as int),
            r is None ==> forall|j: int|
                0 <= j < self.entries@.len() ==> (#[trigger] self.entries@[j]).0@ != key@,
    {
        let mut i: usize = 0;
        while i < self.entries.len()
            invariant
                i <= self.entries@.len(),
                forall|j: int| 0 <= j < i ==> (#[trigger] self.entries@[j]).0@ != key@,
            decreases self.entries@.len() - i,
        {
            if self.entries[i].0 == *key {
                return Some(i);
            }
            i = i + 1;
        }
        None
    }

    /// The value of a route, if it has one.
    pub fn get(&self, route: &str) -> (r: Option<&V>)
        ensures
            r == (if self@.contains_key(route@) {
                Some(&self@[route@])
            } else {
                None
            }),
    {
        let key: String = route.to_owned();
        match self.place(&key) {
            Some(i) => {
                proof {
                    lemma_found(self.entries@, key@, i as int);
                }
                Some(&self.entries[i].1)
            },
            None => {
                proof {
                    lemma_absent(self.entries@, key@);
                }
                None
            },
        }
    }

    /// Whether a route has a value.
    pub fn contains(&self, route: &str) -> (b: bool)
        ensures
            b == self@.contains_key(route@),
    {
        self.get(route).is_some()
    }

    /// Gives a route a value, in place of any that it had.
    pub fn insert(&mut self, route: &str, value: V)
        ensures
            final(self)@ == old(self)@.insert(route@, value),
    {
        let key: String = route.to_owned();
        match self.place(&key) {
            Some(i) => {
                proof {
                    lemma_replaced(self.entries@, key@, i as int, key, value);
                }
                self.entries.set(i, (key, value));
            },
            None => {
                proof {
                    lemma_absent(self.entries@, key@);
                    lemma_added(self.entries@, key, value);
                }
                self.entries.push((key, value));
            },
        }
    }

    /// The value of a route, to change; a route without one is given `initial`.
    pub fn get_or_insert(&mut self, route: &str, initial: V) -> (value: &mut V)
        ensures
            *value == (if old(self)@.contains_key(route@) {
                old(self)@[route@]
            } else {
                initial
            }),
            final(self)@ == old(self)@.insert(route@, *final(value)),
    {
        let key: String = route.to_owned();
        let i: usize = match self.place(&key) {
            Some(i) => {
                proof {
                    lemma_found(self.entries@, key@, i as int);
                }
                i
            },
            None => {
                let i: usize = self.entries.len();
                proof {
                    lemma_absent(self.entries@, key@);
                    lemma_added(self.entries@, key, initial);
                }
                self.entries.push((key, initial));
                i
            },
        };
        let ghost before = self.entries@;
        assert(is_place(before, route@, i as int));
        proof {
            assert forall|v: V|
                #![trigger before.update(i as int, (before[i as int].0, v))]
                table_of(before.update(i as int, (before[i as int].0, v)))
                    == old(self)@.insert(route@, v) by {
                lemma_replaced(before, route@, i as int, before[i as int].0, v);
                assert(old(self)@.insert(route@, v) =~= table_of(before).insert(route@, v));
            }
        }
        &mut self.entries[i].1
    }
}

} // verus!
