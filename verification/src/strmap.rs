//! A map with texts as keys.

use crate::text;
use vstd::prelude::*;

verus! {

/// Values under text keys, in the order in which the keys came. Where a key occurs twice the
/// first entry counts.
#[derive(Debug)]
pub struct StrMap<V> {
    pub entries: Vec<(String, V)>,
}

/// The value of the first entry under a key.
pub open spec fn lookup<V>(entries: Seq<(String, V)>, key: Seq<char>) -> Option<V>
    decreases entries.len(),
{
    if entries.len() == 0 {
        None
    } else if entries[0].0@ == key {
        Some(entries[0].1)
    } else {
        lookup(entries.drop_first(), key)
    }
}

proof fn lemma_lookup_add<V>(a: Seq<(String, V)>, b: Seq<(String, V)>, key: Seq<char>)
    ensures
        lookup(a + b, key) == (match lookup(a, key) {
            Some(v) => Some(v),
            None => lookup(b, key),
        }),
    decreases a.len(),
{
    if a.len() == 0 {
        assert(a + b =~= b);
    } else {
        assert((a + b).drop_first() =~= a.drop_first() + b);
        lemma_lookup_add(a.drop_first(), b, key);
    }
}

proof fn lemma_lookup_one<V>(e: (String, V), key: Seq<char>)
    ensures
        lookup(seq![e], key) == (if e.0@ == key {
            Some(e.1)
        } else {
            None
        }),
{
    reveal_with_fuel(lookup, 2);
}

proof fn lemma_lookup_absent<V>(a: Seq<(String, V)>, key: Seq<char>)
    requires
        forall|i: int| 0 <= i < a.len() ==> (#[trigger] a[i]).0@ != key,
    ensures
        lookup(a, key) is None,
    decreases a.len(),
{
    if a.len() > 0 {
        assert forall|i: int| 0 <= i < a.drop_first().len() implies (
        #[trigger] a.drop_first()[i]).0@ != key by {
            assert(a[i + 1].0@ != key);
        }
        lemma_lookup_absent(a.drop_first(), key);
    }
}

impl<V> View for StrMap<V> {
    type V = Map<Seq<char>, V>;

    open spec fn view(&self) -> Map<Seq<char>, V> {
        Map::new(
            |k: Seq<char>| lookup(self.entries@, k) is Some,
            |k: Seq<char>| lookup(self.entries@, k)->0,
        )
    }
}

impl<V> StrMap<V> {
    /// A map without an entry.
    pub fn new() -> (r: Self)
        ensures
            r@ == Map::<Seq<char>, V>::empty(),
            r.entries@.len() == 0,
    {
        let r = StrMap { entries: Vec::new() };
        proof {
            assert(r@ =~= Map::<Seq<char>, V>::empty());
        }
        r
    }

    fn index_of(&self, key: &str) -> (r: Option<usize>)
        ensures
            match r {
                Some(i) => i < self.entries@.len() && self.entries@[i as int].0@ == key@ && forall|
                    k: int,
                |
                    0 <= k < i ==> (#[trigger] self.entries@[k]).0@ != key@,
                None => forall|k: int|
                    0 <= k < self.entries@.len() ==> (#[trigger] self.entries@[k]).0@ != key@,
            },
    {
        let mut i: usize = 0;
        while i < self.entries.len()
            invariant
                i <= self.entries@.len(),
                forall|k: int| 0 <= k < i ==> (#[trigger] self.entries@[k]).0@ != key@,
            decreases self.entries@.len() - i,
        {
            if text::same_text(self.entries[i].0.as_str(), key) {
                return Some(i);
            }
            i = i + 1;
        }
        None
    }

    /// The value under a key.
    pub fn get(&self, key: &str) -> (r: Option<&V>)
        ensures
            r == (if self@.contains_key(key@) {
                Some(&self@[key@])
            } else {
                None
            }),
    {
        let ghost all = self.entries@;
        match self.index_of(key) {
            Some(i) => {
                proof {
                    let front = all.take(i as int);
                    let back = all.skip(i as int);
                    assert(all =~= front + back);
                    assert(back[0] == all[i as int]);
                    lemma_lookup_add(front, back, key@);
                    lemma_lookup_absent(front, key@);
                }
                Some(&self.entries[i].1)
            },
            None => {
                proof {
                    lemma_lookup_absent(all, key@);
                }
                None
            },
        }
    }

    /// Whether there is a value under a key.
    pub fn contains_key(&self, key: &str) -> (r: bool)
        ensures
            r == self@.contains_key(key@),
    {
        self.get(key).is_some()
    }

    /// Puts a value under a key, in place of the one before.
    pub fn insert(&mut self, key: String, value: V)
        ensures
            final(self)@ == old(self)@.insert(key@, value),
    {
        let ghost all = self.entries@;
        let ghost k = key@;
        match self.index_of(key.as_str()) {
            Some(i) => {
                self.entries.set(i, (key, value));
                proof {
                    let e = self.entries@[i as int];
                    let front = all.take(i as int);
                    let back = all.skip(i + 1);
                    assert(all =~= front + (seq![all[i as int]] + back));
                    assert(self.entries@ =~= front + (seq![e] + back));
                    lemma_lookup_absent(front, k);
                    assert forall|x: Seq<char>| #[trigger] lookup(self.entries@, x) == (if x == k {
                        Some(value)
                    } else {
                        lookup(all, x)
                    }) by {
                        lemma_lookup_add(front, seq![all[i as int]] + back, x);
                        lemma_lookup_add(front, seq![e] + back, x);
                        lemma_lookup_add(seq![all[i as int]], back, x);
                        lemma_lookup_add(seq![e], back, x);
                        lemma_lookup_one(e, x);
                        lemma_lookup_one(all[i as int], x);
                    }
                    assert(self@ =~= old(self)@.insert(k, value));
                }
            },
            None => {
                self.entries.push((key, value));
                proof {
                    let e = self.entries@.last();
                    assert(self.entries@ =~= all + seq![e]);
                    lemma_lookup_absent(all, k);
                    assert forall|x: Seq<char>| #[trigger] lookup(self.entries@, x) == (if x == k {
                        Some(value)
                    } else {
                        lookup(all, x)
                    }) by {
                        lemma_lookup_add(all, seq![e], x);
                        lemma_lookup_one(e, x);
                    }
                    assert(self@ =~= old(self)@.insert(k, value));
                }
            },
        }
    }

    /// Takes the value under a key away.
    pub fn remove(&mut self, key: &str)
        ensures
            final(self)@ == old(self)@.remove(key@),
    {
        let ghost all = self.entries@;
        let mut i: usize = 0;
        while i < self.entries.len()
            invariant
                i <= self.entries@.len(),
                forall|k: int| 0 <= k < i ==> (#[trigger] self.entries@[k]).0@ != key@,
                forall|x: Seq<char>|
                    x != key@ ==> #[trigger] lookup(self.entries@, x) == lookup(all, x),
            decreases self.entries@.len() - i,
        {
            if text::same_text(self.entries[i].0.as_str(), key) {
                let ghost before = self.entries@;
                self.entries.remove(i);
                proof {
                    let front = before.take(i as int);
                    let back = before.skip(i + 1);
                    assert(before =~= front + (seq![before[i as int]] + back));
                    assert(self.entries@ =~= front + back);
                    assert forall|x: Seq<char>| x != key@ implies #[trigger] lookup(
                        self.entries@,
                        x,
                    ) == lookup(all, x) by {
                        lemma_lookup_add(front, seq![before[i as int]] + back, x);
                        lemma_lookup_add(seq![before[i as int]], back, x);
                        lemma_lookup_one(before[i as int], x);
                        lemma_lookup_add(front, back, x);
                        assert(lookup(before, x) == lookup(all, x));
                    }
                    assert forall|k: int| 0 <= k < i implies (#[trigger] self.entries@[k]).0@
                        != key@ by {
                        assert(before[k].0@ != key@);
                    }
                }
            } else {
                i = i + 1;
            }
        }
        proof {
            lemma_lookup_absent(self.entries@, key@);
            assert(self@ =~= old(self)@.remove(key@));
        }
    }
}

} // verus!
