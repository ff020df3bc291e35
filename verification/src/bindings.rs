//! A small name-keyed map used for context variables and for the function
//! registry.
//!
//! Entries are kept in a vector and looked up by comparing names; the view is
//! a [`Map`] from character sequences to values, where the first entry with a
//! given name wins.  `insert` overwrites the first entry with the same name,
//! so the map behaves like a dictionary with last-write-wins updates.

use vstd::prelude::*;

verus! {

/// What a name resolves to in a sequence of entries: the value of the first
/// entry carrying that name.
spec fn assoc_lookup<V>(s: Seq<(String, V)>, name: Seq<char>) -> Option<V>
    decreases s.len(),
{
    if s.len() == 0 {
        None
    } else if s[0].0@ == name {
        Some(s[0].1)
    } else {
        assoc_lookup(s.drop_first(), name)
    }
}

/// A mapping from string names to values.
pub struct Bindings<V> {
    entries: Vec<(String, V)>,
}

impl<V> Bindings<V> {
    /// The map this value represents.
    pub closed spec fn view(&self) -> Map<Seq<char>, V> {
        Map::new(
            |name: Seq<char>| assoc_lookup(self.entries@, name) is Some,
            |name: Seq<char>| assoc_lookup(self.entries@, name)->Some_0,
        )
    }

    /// An empty mapping.
    pub fn new() -> (r: Bindings<V>)
        ensures
            r@ == Map::<Seq<char>, V>::empty(),
    {
        let r = Bindings { entries: Vec::new() };
        proof {
            assert(r@ =~= Map::<Seq<char>, V>::empty());
        }
        r
    }

    /// Looks a name up and returns a reference to its value, if it is bound.
    pub fn get(&self, name: &str) -> (r: Option<&V>)
        ensures
            match r {
                Some(v) => self@.contains_key(name@) && *v == self@[name@],
                None => !self@.contains_key(name@),
            },
    {
        let n = self.entries.len();
        let mut i: usize = 0;
        proof {
            assert(self.entries@.skip(0) =~= self.entries@);
        }
        while i < n
            invariant
                n == self.entries@.len(),
                i <= n,
                assoc_lookup(self.entries@, name@) == assoc_lookup(
                    self.entries@.skip(i as int),
                    name@,
                ),
            decreases n - i,
        {
            let ghost rest = self.entries@.skip(i as int);
            if string_eq_str(&self.entries[i].0, name) {
                proof {
                    assert(rest[0] == self.entries@[i as int]);
                }
                return Some(&self.entries[i].1);
            }
            proof {
                assert(rest[0] == self.entries@[i as int]);
                assert(rest.drop_first() =~= self.entries@.skip(i as int + 1));
            }
            i = i + 1;
        }
        proof {
            assert(self.entries@.skip(n as int) =~= Seq::<(String, V)>::empty());
        }
        None
    }

    /// Whether a name is bound.
    pub fn contains_key(&self, name: &str) -> (r: bool)
        ensures
            r == self@.contains_key(name@),
    {
        self.get(name).is_some()
    }

    /// Binds a name to a value.  A later binding of the same name replaces an
    /// earlier one.
    pub fn insert(&mut self, name: String, value: V)
        ensures
            final(self)@ == old(self)@.insert(name@, value),
    {
        let ghost old_entries = self.entries@;
        let n = self.entries.len();
        let mut i: usize = 0;
        while i < n
            invariant
                n == self.entries@.len(),
                i <= n,
                self.entries@ == old_entries,
                old_entries == old(self).entries@,
                forall|j: int| 0 <= j < i ==> old_entries[j].0@ != name@,
            decreases n - i,
        {
            if string_eq_str(&self.entries[i].0, name.as_str()) {
                let ghost key = self.entries@[i as int].0@;
                self.entries[i] = (name, value);
                proof {
                    assert(self.entries@.len() == old_entries.len());
                    assert(forall|j: int|
                        0 <= j < old_entries.len() && j != i ==> self.entries@[j]
                            == old_entries[j]);
                    assert(self.entries@[i as int].0@ == key);
                    assert(self.entries@[i as int].1 == value);
                    lemma_assoc_update(old_entries, self.entries@, i as int, key, value);
                    assert(assoc_lookup(self.entries@, key) == Some(value));
                    assert(old(self).entries@ == old_entries);
                    assert(self@.contains_key(key));
                    assert(self@[key] == value);
                    assert forall|m: Seq<char>| m != key implies (self@.contains_key(m)
                        == old(self)@.contains_key(m) && (self@.contains_key(m) ==> self@[m]
                        == old(self)@[m])) by {
                        assert(assoc_lookup(self.entries@, m) == assoc_lookup(old_entries, m));
                    }
                    assert(self@ =~~= old(self)@.insert(key, value));
                }
                return ;
            }
            i = i + 1;
        }
        self.entries.push((name, value));
        proof {
            lemma_assoc_append(old_entries, self.entries@, name@, value);
            assert(self@ =~~= old(self)@.insert(name@, value));
        }
    }
}

/// Compares a `String` against a `&str` by their character sequences.
fn string_eq_str(a: &String, b: &str) -> (r: bool)
    ensures
        r == (a@ == b@),
{
    let owned = b.to_owned();
    *a == owned
}

/// Replacing the first entry that carries `key` (no earlier entry does)
/// changes the lookup of `key` alone.
proof fn lemma_assoc_update<V>(
    s0: Seq<(String, V)>,
    s1: Seq<(String, V)>,
    i: int,
    key: Seq<char>,
    value: V,
)
    requires
        0 <= i < s0.len(),
        s1.len() == s0.len(),
        forall|j: int| 0 <= j < s0.len() && j != i ==> s1[j] == s0[j],
        forall|j: int| 0 <= j < i ==> s0[j].0@ != key,
        s0[i].0@ == key,
        s1[i].0@ == key,
        s1[i].1 == value,
    ensures
        assoc_lookup(s1, key) == Some(value),
        forall|n: Seq<char>| n != key ==> assoc_lookup(s1, n) == assoc_lookup(s0, n),
    decreases s0.len(),
{
    if i == 0 {
        assert(assoc_lookup(s1, key) == Some(value));
        assert forall|n: Seq<char>| n != key implies assoc_lookup(s1, n) == assoc_lookup(
            s0,
            n,
        ) by {
            assert(s1.drop_first() =~= s0.drop_first());
            assert(assoc_lookup(s1, n) == assoc_lookup(s1.drop_first(), n));
            assert(assoc_lookup(s0, n) == assoc_lookup(s0.drop_first(), n));
        }
    } else {
        lemma_assoc_update(s0.drop_first(), s1.drop_first(), i - 1, key, value);
        assert(s1[0] == s0[0]);
        assert(s0[0].0@ != key);
        assert(assoc_lookup(s1, key) == assoc_lookup(s1.drop_first(), key));
        assert forall|n: Seq<char>| n != key implies assoc_lookup(s1, n) == assoc_lookup(
            s0,
            n,
        ) by {
            if s0[0].0@ == n {
                assert(assoc_lookup(s1, n) == Some(s1[0].1));
                assert(assoc_lookup(s0, n) == Some(s0[0].1));
            } else {
                assert(assoc_lookup(s1, n) == assoc_lookup(s1.drop_first(), n));
                assert(assoc_lookup(s0, n) == assoc_lookup(s0.drop_first(), n));
            }
        }
    }
}

/// Appending an entry whose name is not yet bound adds that binding and
/// changes nothing else.
proof fn lemma_assoc_append<V>(s0: Seq<(String, V)>, s1: Seq<(String, V)>, key: Seq<char>, value: V)
    requires
        s1.len() == s0.len() + 1,
        forall|j: int| 0 <= j < s0.len() ==> s1[j] == s0[j],
        forall|j: int| 0 <= j < s0.len() ==> s0[j].0@ != key,
        s1[s0.len() as int].0@ == key,
        s1[s0.len() as int].1 == value,
    ensures
        assoc_lookup(s1, key) == Some(value),
        forall|n: Seq<char>| n != key ==> assoc_lookup(s1, n) == assoc_lookup(s0, n),
    decreases s0.len(),
{
    if s0.len() == 0 {
        assert(s1[0].0@ == key);
        assert(assoc_lookup(s1, key) == Some(s1[0].1));
        assert forall|n: Seq<char>| n != key implies assoc_lookup(s1, n) == assoc_lookup(
            s0,
            n,
        ) by {
            assert(assoc_lookup(s0, n) is None);
            assert(s1.drop_first() =~= Seq::<(String, V)>::empty());
            assert(assoc_lookup(s1, n) == assoc_lookup(s1.drop_first(), n));
        }
    } else {
        assert(s1.drop_first().len() == s0.drop_first().len() + 1);
        assert forall|j: int| 0 <= j < s0.drop_first().len() implies s1.drop_first()[j]
            == s0.drop_first()[j] by {
            assert(s1.drop_first()[j] == s1[j + 1]);
            assert(s0.drop_first()[j] == s0[j + 1]);
        }
        assert(s1.drop_first()[s0.len() - 1] == s1[s0.len() as int]);
        lemma_assoc_append(s0.drop_first(), s1.drop_first(), key, value);
        assert(s1[0] == s0[0]);
        assert(s0[0].0@ != key);
        assert(assoc_lookup(s1, key) == assoc_lookup(s1.drop_first(), key));
        assert forall|n: Seq<char>| n != key implies assoc_lookup(s1, n) == assoc_lookup(
            s0,
            n,
        ) by {
            if s0[0].0@ == n {
                assert(assoc_lookup(s1, n) == Some(s1[0].1));
                assert(assoc_lookup(s0, n) == Some(s0[0].1));
            } else {
                assert(assoc_lookup(s1, n) == assoc_lookup(s1.drop_first(), n));
                assert(assoc_lookup(s0, n) == assoc_lookup(s0.drop_first(), n));
            }
        }
    }
}

} // verus!
