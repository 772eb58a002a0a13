//! A small string-keyed table. A later entry for a key shadows an earlier
//! one, so a lookup reads the most recent value stored under the key.
use vstd::prelude::*;
use crate::text::same_text;

verus! {

/// The value of the most recent entry of `entries` under `k`.
pub open spec fn find_in<V>(entries: Seq<(String, V)>, k: Seq<char>) -> Option<V>
    decreases entries.len(),
{
    if entries.len() == 0 {
        None
    } else if entries.last().0@ == k {
        Some(entries.last().1)
    } else {
        find_in(entries.drop_last(), k)
    }
}

/// The value behind an optional reference.
pub open spec fn owned<V>(o: Option<&V>) -> Option<V> {
    match o {
        Some(v) => Some(*v),
        None => None,
    }
}

proof fn lemma_find_push<V>(s: Seq<(String, V)>, e: (String, V), k: Seq<char>)
    ensures
        find_in(s.push(e), k) == if e.0@ == k { Some(e.1) } else { find_in(s, k) },
{
    assert(s.push(e).drop_last() =~= s);
}

proof fn lemma_find_remove<V>(s: Seq<(String, V)>, j: int, k: Seq<char>)
    requires
        0 <= j < s.len(),
        s[j].0@ != k,
    ensures
        find_in(s.remove(j), k) == find_in(s, k),
    decreases s.len(),
{
    if j == s.len() - 1 {
        assert(s.remove(j) =~= s.drop_last());
    } else {
        let t = s.remove(j);
        assert(t.last() == s.last());
        assert(t.drop_last() =~= s.drop_last().remove(j));
        lemma_find_remove(s.drop_last(), j, k);
    }
}

proof fn lemma_find_absent<V>(s: Seq<(String, V)>, k: Seq<char>)
    requires
        forall|j: int| 0 <= j < s.len() ==> s[j].0@ != k,
    ensures
        find_in(s, k) is None,
    decreases s.len(),
{
    if s.len() > 0 {
        lemma_find_absent(s.drop_last(), k);
    }
}

proof fn lemma_find_prefix_step<V>(s: Seq<(String, V)>, i: int, k: Seq<char>)
    requires
        0 < i <= s.len(),
    ensures
        find_in(s.take(i), k) == if s[i - 1].0@ == k {
            Some(s[i - 1].1)
        } else {
            find_in(s.take(i - 1), k)
        },
{
    assert(s.take(i).drop_last() =~= s.take(i - 1));
}

/// Entries keyed by text.
pub struct Table<V> {
    entries: Vec<(String, V)>,
}

impl<V> Table<V> {
    /// The value stored under `k`, if any.
    pub closed spec fn find(&self, k: Seq<char>) -> Option<V> {
        find_in(self.entries@, k)
    }

    /// A table with no entries.
    pub fn new() -> (r: Self)
        ensures
            forall|k: Seq<char>| r.find(k) is None,
    {
        Table { entries: Vec::new() }
    }

    /// Stores `value` under `key`, replacing what was stored there.
    pub fn insert(&mut self, key: String, value: V)
        ensures
            forall|k: Seq<char>|
                #[trigger] final(self).find(k) == if k == key@ {
                    Some(value)
                } else {
                    old(self).find(k)
                },
    {
        let ghost s = self.entries@;
        let ghost e = (key, value);
        self.entries.push((key, value));
        proof {
            assert forall|k: Seq<char>|
                #[trigger] find_in(self.entries@, k) == if k == e.0@ {
                    Some(e.1)
                } else {
                    find_in(s, k)
                } by {
                lemma_find_push(s, e, k);
            }
        }
    }

    /// The value stored under `key`, if any.
    pub fn get(&self, key: &str) -> (r: Option<&V>)
        ensures
            owned(r) == self.find(key@),
    {
        let ghost s = self.entries@;
        let mut i = self.entries.len();
        assert(s.take(i as int) =~= s);
        while i > 0
            invariant
                i <= s.len(),
                s == self.entries@,
                find_in(s, key@) == find_in(s.take(i as int), key@),
            decreases i,
        {
            proof {
                lemma_find_prefix_step(s, i as int, key@);
            }
            if same_text(self.entries[i - 1].0.as_str(), key) {
                return Some(&self.entries[i - 1].1);
            }
            i = i - 1;
        }
        assert(s.take(0) =~= Seq::<(String, V)>::empty());
        None
    }

    /// Whether something is stored under `key`.
    pub fn contains(&self, key: &str) -> (r: bool)
        ensures
            r == self.find(key@) is Some,
    {
        self.get(key).is_some()
    }

    /// Removes every entry under `key`, handing back the value that was
    /// stored there.
    pub fn take(&mut self, key: &str) -> (r: Option<V>)
        ensures
            r == old(self).find(key@),
            forall|k: Seq<char>|
                #[trigger] final(self).find(k) == if k == key@ {
                    None
                } else {
                    old(self).find(k)
                },
    {
        let ghost s = self.entries@;
        let mut found: Option<V> = None;
        let mut i = self.entries.len();
        assert(s.take(i as int) =~= s);
        while i > 0
            invariant
                i <= self.entries@.len(),
                i <= s.len(),
                self.entries@.take(i as int) == s.take(i as int),
                forall|j: int| i <= j < self.entries@.len() ==> self.entries@[j].0@ != key@,
                forall|k: Seq<char>|
                    k != key@ ==> #[trigger] find_in(self.entries@, k) == find_in(s, k),
                found is None ==> find_in(s, key@) == find_in(s.take(i as int), key@),
                found is Some ==> find_in(s, key@) == found,
            decreases i,
        {
            proof {
                lemma_find_prefix_step(s, i as int, key@);
                assert(self.entries@[i - 1] == self.entries@.take(i as int)[i - 1]);
            }
            if same_text(self.entries[i - 1].0.as_str(), key) {
                let ghost before = self.entries@;
                let (_, v) = self.entries.remove(i - 1);
                if found.is_none() {
                    found = Some(v);
                }
                proof {
                    assert forall|k: Seq<char>| k != key@ implies #[trigger] find_in(
                        self.entries@,
                        k,
                    ) == find_in(s, k) by {
                        lemma_find_remove(before, i - 1, k);
                    }
                    assert(self.entries@.take(i - 1) =~= s.take(i - 1));
                }
            } else {
                assert(self.entries@.take(i - 1) =~= s.take(i - 1));
            }
            i = i - 1;
        }
        proof {
            lemma_find_absent(self.entries@, key@);
            assert(s.take(0) =~= Seq::<(String, V)>::empty());
        }
        found
    }
}

} // verus!
