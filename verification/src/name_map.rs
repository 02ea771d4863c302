//! Maps from names to small values, kept as a list of entries.

use vstd::prelude::*;

verus! {

/// A map from names to values. A name occurs at most once; inserting a name
/// again replaces its value.
pub struct NameMap<T> {
    entries: Vec<(String, T)>,
}

impl<T> NameMap<T> {
    /// No name occurs twice.
    #[verifier::type_invariant]
    spec fn names_unique(&self) -> bool {
        forall|i: int, j: int|
            0 <= i < j < self.entries@.len() ==> self.entries@[i].0@ != self.entries@[j].0@
    }

    /// The map as a mathematical map.
    pub closed spec fn as_map(&self) -> Map<Seq<char>, T> {
        Map::new(
            |n: Seq<char>| exists|i: int| 0 <= i < self.entries@.len() && self.entries@[i].0@ == n,
            |n: Seq<char>|
                self.entries@[choose|i: int|
                    0 <= i < self.entries@.len() && self.entries@[i].0@ == n].1,
        )
    }

}

impl<T: Copy> NameMap<T> {
    /// An empty map.
    pub fn new() -> (t: Self)
        ensures
            t.as_map() == Map::<Seq<char>, T>::empty(),
    {
        let t = NameMap { entries: Vec::new() };
        assert(t.as_map() =~= Map::<Seq<char>, T>::empty());
        t
    }

    /// The index of `name`, if present.
    fn find(&self, name: &str) -> (r: Option<usize>)
        ensures
            match r {
                Some(i) => i < self.entries@.len() && self.entries@[i as int].0@ == name@,
                None => forall|i: int|
                    0 <= i < self.entries@.len() ==> self.entries@[i].0@ != name@,
            },
    {
        let mut i: usize = 0;
        while i < self.entries.len()
            invariant
                i <= self.entries@.len(),
                forall|k: int| 0 <= k < i ==> self.entries@[k].0@ != name@,
            decreases self.entries.len() - i,
        {
            if crate::text::str_eq(self.entries[i].0.as_str(), name) {
                return Some(i);
            }
            i = i + 1;
        }
        None
    }

    /// The value of `name`, if present.
    pub fn get(&self, name: &str) -> (r: Option<T>)
        ensures
            r == (if self.as_map().contains_key(name@) {
                Some(self.as_map()[name@])
            } else {
                None::<T>
            }),
    {
        proof {
            use_type_invariant(self);
        }
        match self.find(name) {
            Some(i) => {
                let ghost j = choose|j: int|
                    0 <= j < self.entries@.len() && self.entries@[j].0@ == name@;
                assert(j == i) by {
                    if j < i {
                        assert(self.entries@[j].0@ != self.entries@[i as int].0@);
                    } else if i < j {
                        assert(self.entries@[i as int].0@ != self.entries@[j].0@);
                    }
                }
                Some(self.entries[i].1)
            },
            None => None,
        }
    }

    /// Sets the value of `name`, replacing any value it had.
    pub fn insert(&mut self, name: &str, value: T)
        ensures
            final(self).as_map() == old(self).as_map().insert(name@, value),
    {
        proof {
            use_type_invariant(&*self);
        }
        let ghost before = self.entries@;
        match self.find(name) {
            Some(i) => {
                let mut entries: Vec<(String, T)> = Vec::new();
                std::mem::swap(&mut entries, &mut self.entries);
                entries.set(i, (name.to_owned(), value));
                let ghost after = entries@;
                assert forall|a: int, b: int| 0 <= a < b < after.len() implies after[a].0@
                    != after[b].0@ by {
                    if a != i as int && b != i as int {
                        assert(after[a] == before[a] && after[b] == before[b]);
                    } else if a == i as int {
                        assert(after[b] == before[b]);
                        assert(before[i as int].0@ != before[b].0@);
                    } else {
                        assert(after[a] == before[a]);
                        assert(before[a].0@ != before[i as int].0@);
                    }
                }
                self.entries = entries;
                proof {
                    let m = self.as_map();
                    let m0 = old(self).as_map().insert(name@, value);
                    assert forall|n: Seq<char>| m.contains_key(n) == m0.contains_key(n) by {
                        if m0.contains_key(n) && n != name@ {
                            let k = choose|k: int|
                                0 <= k < before.len() && before[k].0@ == n;
                            assert(after[k].0@ == n);
                        }
                        if m.contains_key(n) && n != name@ {
                            let k = choose|k: int| 0 <= k < after.len() && after[k].0@ == n;
                            assert(before[k].0@ == n);
                        }
                        if n == name@ {
                            assert(after[i as int].0@ == n);
                        }
                    }
                    assert forall|n: Seq<char>| #[trigger] m.contains_key(n) implies m[n] == m0[n] by {
                        let k = choose|k: int| 0 <= k < after.len() && after[k].0@ == n;
                        if n == name@ {
                            assert(k == i as int) by {
                                if k != i as int {
                                    if k < i as int {
                                        assert(after[k].0@ != after[i as int].0@);
                                    } else {
                                        assert(after[i as int].0@ != after[k].0@);
                                    }
                                }
                            }
                        } else {
                            let k0 = choose|k0: int| 0 <= k0 < before.len() && before[k0].0@ == n;
                            assert(k0 == k) by {
                                if k0 != k {
                                    if k0 < k {
                                        assert(before[k0].0@ != before[k].0@);
                                    } else {
                                        assert(before[k].0@ != before[k0].0@);
                                    }
                                }
                            }
                        }
                    }
                    assert(m =~= m0);
                }
            },
            None => {
                let mut entries: Vec<(String, T)> = Vec::new();
                std::mem::swap(&mut entries, &mut self.entries);
                entries.push((name.to_owned(), value));
                let ghost after = entries@;
                assert forall|a: int, b: int| 0 <= a < b < after.len() implies after[a].0@
                    != after[b].0@ by {
                    if b == before.len() {
                        assert(after[a] == before[a]);
                    } else {
                        assert(after[a] == before[a] && after[b] == before[b]);
                    }
                }
                self.entries = entries;
                proof {
                    let m = self.as_map();
                    let m0 = old(self).as_map().insert(name@, value);
                    let last = before.len() as int;
                    assert forall|n: Seq<char>| m.contains_key(n) == m0.contains_key(n) by {
                        if m0.contains_key(n) && n != name@ {
                            let k = choose|k: int|
                                0 <= k < before.len() && before[k].0@ == n;
                            assert(after[k].0@ == n);
                        }
                        if m.contains_key(n) && n != name@ {
                            let k = choose|k: int| 0 <= k < after.len() && after[k].0@ == n;
                            assert(k != last);
                            assert(before[k].0@ == n);
                        }
                        if n == name@ {
                            assert(after[last].0@ == n);
                        }
                    }
                    assert forall|n: Seq<char>| #[trigger] m.contains_key(n) implies m[n] == m0[n] by {
                        let k = choose|k: int| 0 <= k < after.len() && after[k].0@ == n;
                        if n == name@ {
                            assert(k == last);
                        } else {
                            assert(k != last);
                            let k0 = choose|k0: int| 0 <= k0 < before.len() && before[k0].0@ == n;
                            assert(k0 == k) by {
                                if k0 != k {
                                    if k0 < k {
                                        assert(after[k0].0@ != after[k].0@);
                                    } else {
                                        assert(after[k].0@ != after[k0].0@);
                                    }
                                }
                            }
                        }
                    }
                    assert(m =~= m0);
                }
            },
        }
    }
}

} // verus!
