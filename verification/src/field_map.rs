//! A string-keyed map that remembers insertion order: the shape of a scraped
//! HTML form (field name to value), of a JSON object, and of the device's
//! own NDI source list. Each key occurs once; inserting an existing key
//! replaces its value in place.

use vstd::prelude::*;

use crate::text::str_eq;

verus! {

/// The map that a sequence of `(key, value)` entries denotes: later entries
/// win over earlier ones with the same key.
pub open spec fn map_of<V: View>(entries: Seq<(String, V)>) -> Map<Seq<char>, V::V>
    decreases entries.len(),
{
    if entries.len() == 0 {
        Map::empty()
    } else {
        map_of(entries.drop_last()).insert(entries.last().0@, entries.last().1@)
    }
}

/// No key occurs twice.
pub open spec fn keys_unique<V>(entries: Seq<(String, V)>) -> bool {
    forall|i: int, j: int|
        0 <= i < entries.len() && 0 <= j < entries.len() && i != j ==> #[trigger] entries[i].0@
            != #[trigger] entries[j].0@
}

pub proof fn lemma_map_of_lookup<V: View>(entries: Seq<(String, V)>, i: int)
    requires
        keys_unique(entries),
        0 <= i < entries.len(),
    ensures
        map_of(entries).contains_key(entries[i].0@),
        map_of(entries)[entries[i].0@] == entries[i].1@,
    decreases entries.len(),
{
    if i < entries.len() - 1 {
        let t = entries.drop_last();
        assert forall|a: int, b: int|
            0 <= a < t.len() && 0 <= b < t.len() && a != b implies #[trigger] t[a].0@
            != #[trigger] t[b].0@ by {
            assert(t[a] == entries[a] && t[b] == entries[b]);
        }
        lemma_map_of_lookup(t, i);
        assert(entries[i] == t[i]);
        assert(entries.last().0@ != entries[i].0@);
    }
}

pub proof fn lemma_map_of_absent<V: View>(entries: Seq<(String, V)>, k: Seq<char>)
    requires
        forall|i: int| 0 <= i < entries.len() ==> (#[trigger] entries[i]).0@ != k,
    ensures
        !map_of(entries).contains_key(k),
    decreases entries.len(),
{
    if entries.len() > 0 {
        let t = entries.drop_last();
        assert forall|i: int| 0 <= i < t.len() implies (#[trigger] t[i]).0@ != k by {
            assert(t[i] == entries[i]);
        }
        lemma_map_of_absent(t, k);
        assert(entries.last() == entries[entries.len() - 1]);
    }
}

pub proof fn lemma_map_of_dom<V: View>(entries: Seq<(String, V)>, k: Seq<char>)
    ensures
        map_of(entries).contains_key(k) <==> exists|i: int|
            0 <= i < entries.len() && (#[trigger] entries[i]).0@ == k,
    decreases entries.len(),
{
    if entries.len() > 0 {
        let t = entries.drop_last();
        lemma_map_of_dom(t, k);
        if map_of(entries).contains_key(k) {
            if entries.last().0@ == k {
                assert(entries[entries.len() - 1].0@ == k);
            } else {
                let i = choose|i: int| 0 <= i < t.len() && (#[trigger] t[i]).0@ == k;
                assert(entries[i] == t[i]);
            }
        }
        if exists|i: int| 0 <= i < entries.len() && (#[trigger] entries[i]).0@ == k {
            let i = choose|i: int| 0 <= i < entries.len() && (#[trigger] entries[i]).0@ == k;
            if i < entries.len() - 1 {
                assert(t[i] == entries[i]);
            }
        }
    }
}

pub proof fn lemma_map_of_update<V: View>(entries: Seq<(String, V)>, i: int, key: String, value: V)
    requires
        keys_unique(entries),
        0 <= i < entries.len(),
        entries[i].0@ == key@,
    ensures
        map_of(entries.update(i, (key, value))) == map_of(entries).insert(key@, value@),
    decreases entries.len(),
{
    let u = entries.update(i, (key, value));
    if i == entries.len() - 1 {
        assert(u.drop_last() == entries.drop_last());
        assert(map_of(u) =~= map_of(entries).insert(key@, value@));
    } else {
        let t = entries.drop_last();
        assert forall|a: int, b: int|
            0 <= a < t.len() && 0 <= b < t.len() && a != b implies #[trigger] t[a].0@
            != #[trigger] t[b].0@ by {
            assert(t[a] == entries[a] && t[b] == entries[b]);
        }
        lemma_map_of_update(t, i, key, value);
        assert(u.drop_last() == t.update(i, (key, value)));
        assert(entries.last().0@ != key@);
        assert(map_of(u) =~= map_of(entries).insert(key@, value@));
    }
}

/// An insertion-ordered map from strings to values.
pub struct FieldMap<V: View> {
    entries: Vec<(String, V)>,
}

impl<V: View> View for FieldMap<V> {
    type V = Map<Seq<char>, V::V>;

    closed spec fn view(&self) -> Map<Seq<char>, V::V> {
        map_of(self.entries@)
    }
}

impl<V: View> FieldMap<V> {
    #[verifier::type_invariant]
    closed spec fn inv(&self) -> bool {
        keys_unique(self.entries@)
    }

    /// The entries in insertion order.
    pub closed spec fn entries_spec(&self) -> Seq<(String, V)> {
        self.entries@
    }

    /// An empty map.
    pub fn new() -> (m: Self)
        ensures
            m@ == Map::<Seq<char>, V::V>::empty(),
            m.entries_spec().len() == 0,
    {
        FieldMap { entries: Vec::new() }
    }

    /// Number of keys.
    pub fn len(&self) -> (n: usize)
        ensures
            n == self.entries_spec().len(),
    {
        self.entries.len()
    }

    fn position(&self, key: &str) -> (r: Option<usize>)
        ensures
            r matches Some(i) ==> i < self.entries@.len() && self.entries@[i as int].0@ == key@,
            r is None ==> forall|i: int|
                0 <= i < self.entries@.len() ==> (#[trigger] self.entries@[i]).0@ != key@,
    {
        let mut i: usize = 0;
        while i < self.entries.len()
            invariant
                i <= self.entries@.len(),
                forall|j: int| 0 <= j < i ==> (#[trigger] self.entries@[j]).0@ != key@,
            decreases self.entries.len() - i,
        {
            if str_eq(self.entries[i].0.as_str(), key) {
                return Some(i);
            }
            i = i + 1;
        }
        None
    }

    /// The value stored under `key`.
    pub fn get(&self, key: &str) -> (r: Option<&V>)
        ensures
            r is Some <==> self@.contains_key(key@),
            r matches Some(v) ==> v@ == self@[key@],
    {
        proof {
            use_type_invariant(self);
        }
        match self.position(key) {
            Some(i) => {
                proof {
                    lemma_map_of_lookup(self.entries@, i as int);
                }
                Some(&self.entries[i].1)
            },
            None => {
                proof {
                    lemma_map_of_absent(self.entries@, key@);
                }
                None
            },
        }
    }

    /// Whether `key` is present.
    pub fn contains_key(&self, key: &str) -> (r: bool)
        ensures
            r == self@.contains_key(key@),
    {
        self.get(key).is_some()
    }

    /// Stores `value` under `key`, replacing any earlier value for it.
    pub fn insert(&mut self, key: String, value: V)
        ensures
            final(self)@ == old(self)@.insert(key@, value@),
    {
        proof {
            use_type_invariant(&*self);
        }
        let pos = self.position(key.as_str());
        let mut es: Vec<(String, V)> = Vec::new();
        std::mem::swap(&mut es, &mut self.entries);
        let ghost old_entries = es@;
        match pos {
            Some(i) => {
                proof {
                    lemma_map_of_update(es@, i as int, key, value);
                }
                es.set(i, (key, value));
                proof {
                    assert(es@ == old_entries.update(i as int, (key, value)));
                    assert forall|a: int, b: int|
                        0 <= a < es@.len() && 0 <= b < es@.len() && a != b implies #[trigger] es@[a].0@
                        != #[trigger] es@[b].0@ by {
                        if a != i && b != i {
                            assert(es@[a] == old_entries[a]);
                            assert(es@[b] == old_entries[b]);
                        } else if a == i {
                            assert(es@[b] == old_entries[b]);
                            assert(old_entries[a].0@ != old_entries[b].0@);
                        } else {
                            assert(es@[a] == old_entries[a]);
                            assert(old_entries[a].0@ != old_entries[b].0@);
                        }
                    }
                }
            },
            None => {
                es.push((key, value));
                proof {
                    assert(es@.drop_last() == old_entries);
                    assert forall|a: int, b: int|
                        0 <= a < es@.len() && 0 <= b < es@.len() && a != b implies #[trigger] es@[a].0@
                        != #[trigger] es@[b].0@ by {
                        if a < old_entries.len() && b < old_entries.len() {
                            assert(es@[a] == old_entries[a]);
                            assert(es@[b] == old_entries[b]);
                        } else if a < old_entries.len() {
                            assert(es@[a] == old_entries[a]);
                        } else {
                            assert(es@[b] == old_entries[b]);
                        }
                    }
                }
            },
        }
        self.entries = es;
    }

    /// The entries in insertion order, consuming the map.
    pub fn into_entries(self) -> (v: Vec<(String, V)>)
        ensures
            v@ == self.entries_spec(),
            map_of(v@) == self@,
            keys_unique(v@),
    {
        proof {
            use_type_invariant(&self);
        }
        self.entries
    }

    /// Builds a map by inserting the given entries in order, so a later
    /// entry for a key replaces an earlier one.
    pub fn from_entries(entries: Vec<(String, V)>) -> (m: Self)
        ensures
            m@ == map_of(entries@),
    {
        let mut m = FieldMap::new();
        let mut rest = entries;
        let ghost all = rest@;
        let ghost n = all.len();
        while rest.len() > 0
            invariant
                rest@.len() <= n,
                all.len() == n,
                rest@ == all.skip(n - rest@.len()),
                m@ == map_of(all.take(n - rest@.len())),
            decreases rest.len(),
        {
            let ghost i = n - rest@.len();
            let (k, v) = rest.remove(0);
            proof {
                assert((k, v) == all[i]);
                assert(all.take(i + 1).drop_last() == all.take(i));
                assert(all.take(i + 1).last() == all[i]);
                assert(rest@ == all.skip(i + 1));
            }
            m.insert(k, v);
        }
        assert(all.take(n as int) == all);
        m
    }

    /// Shallow merge: every key of `patch` takes the patch's value, every
    /// other key keeps its own.
    pub fn merge(&mut self, patch: FieldMap<V>)
        ensures
            final(self)@ == old(self)@.union_prefer_right(patch@),
    {
        let ghost start = self@;
        let mut rest = patch.into_entries();
        let ghost all = rest@;
        let ghost n = all.len();
        assert(all.take(0) =~= Seq::<(String, V)>::empty());
        assert(start.union_prefer_right(map_of(all.take(0))) =~= start);
        while rest.len() > 0
            invariant
                rest@.len() <= n,
                all.len() == n,
                rest@ == all.skip(n - rest@.len()),
                self@ == start.union_prefer_right(map_of(all.take(n - rest@.len()))),
            decreases rest.len(),
        {
            let ghost i = n - rest@.len();
            let (k, v) = rest.remove(0);
            proof {
                assert((k, v) == all[i]);
                assert(all.take(i + 1).drop_last() == all.take(i));
                assert(all.take(i + 1).last() == all[i]);
                assert(rest@ == all.skip(i + 1));
            }
            self.insert(k, v);
            assert(self@ =~= start.union_prefer_right(map_of(all.take(i + 1))));
        }
        assert(all.take(n as int) == all);
    }
}

} // verus!
