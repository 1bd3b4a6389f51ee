//! A table of values under text keys, each with the moment it was stored, so
//! that what has grown old can be swept out.

use crate::text::same;
use vstd::prelude::*;

verus! {

/// One stored value.
pub struct Entry<V> {
    pub key: String,
    pub at: u64,
    pub value: V,
}

/// Values under text keys, at most one for each.
pub struct Table<V> {
    entries: Vec<Entry<V>>,
}

/// How long before `now` the moment `at` was; nothing where it was later.
pub open spec fn age(at: u64, now: u64) -> int {
    if now > at {
        now - at
    } else {
        0
    }
}

impl<V> Table<V> {
    spec fn stored_at(self, key: Seq<char>, i: int) -> bool {
        0 <= i < self.entries@.len() && self.entries@[i].key@ == key
    }

    spec fn place(self, key: Seq<char>) -> int {
        choose|i: int| self.stored_at(key, i)
    }

    /// No key is stored twice.
    pub closed spec fn wf(self) -> bool {
        forall|i: int, j: int|
            0 <= i < self.entries@.len() && 0 <= j < self.entries@.len() && i != j
                ==> (#[trigger] self.entries@[i]).key@ != (#[trigger] self.entries@[j]).key@
    }
}

impl<V> View for Table<V> {
    /// For each key the moment and the value.
    type V = Map<Seq<char>, (u64, V)>;

    closed spec fn view(&self) -> Map<Seq<char>, (u64, V)> {
        Map::new(
            |key: Seq<char>| exists|i: int| self.stored_at(key, i),
            |key: Seq<char>| (self.entries@[self.place(key)].at, self.entries@[self.place(key)].value),
        )
    }
}

impl<V> Table<V> {
    proof fn entry_is_stored(self, i: int)
        requires
            self.wf(),
            0 <= i < self.entries@.len(),
        ensures
            self@.contains_key(self.entries@[i].key@),
            self@[self.entries@[i].key@] == (self.entries@[i].at, self.entries@[i].value),
    {
        let key = self.entries@[i].key@;
        assert(self.stored_at(key, i));
        assert(self.stored_at(key, self.place(key)));
        assert(self.place(key) == i);
    }

    proof fn absent(self, key: Seq<char>)
        requires
            forall|i: int| 0 <= i < self.entries@.len() ==> self.entries@[i].key@ != key,
        ensures
            !self@.contains_key(key),
    {
        if self@.contains_key(key) {
            let i = choose|i: int| self.stored_at(key, i);
            assert(self.stored_at(key, i));
        }
    }

    /// A table with nothing in it.
    pub fn new() -> (r: Table<V>)
        ensures
            r.wf(),
            r@ == Map::<Seq<char>, (u64, V)>::empty(),
    {
        let r = Table { entries: Vec::new() };
        assert forall|key: Seq<char>| !r@.contains_key(key) by {
            r.absent(key);
        }
        assert(r@ =~= Map::<Seq<char>, (u64, V)>::empty());
        r
    }

    /// How many values the table holds.
    pub fn len(&self) -> (r: usize)
        ensures
            self.wf() ==> self@.dom().finite() && r == self@.len(),
    {
        proof {
            if self.wf() {
                self.keys_are_counted();
            }
        }
        self.entries.len()
    }

    proof fn keys_are_counted(self)
        requires
            self.wf(),
        ensures
            self@.dom().finite(),
            self@.len() == self.entries@.len(),
    {
        let keys = self.entries@.map_values(|entry: Entry<V>| entry.key@);
        assert(keys.no_duplicates());
        keys.unique_seq_to_set();
        vstd::seq_lib::seq_to_set_is_finite(keys);
        assert forall|key: Seq<char>| keys.to_set().contains(key) == self@.dom().contains(key) by {
            if self@.contains_key(key) {
                let i = choose|i: int| self.stored_at(key, i);
                assert(self.stored_at(key, i));
                assert(keys[i] == key);
            }
            if keys.contains(key) {
                let i = choose|i: int| 0 <= i < keys.len() && keys[i] == key;
                self.entry_is_stored(i);
            }
        }
        assert(keys.to_set() =~= self@.dom());
    }

    fn index_of(&self, key: &str) -> (r: Option<usize>)
        requires
            self.wf(),
        ensures
            match r {
                Some(i) => i < self.entries@.len() && self.entries@[i as int].key@ == key@
                    && self@.contains_key(key@) && self@[key@] == (
                    self.entries@[i as int].at,
                    self.entries@[i as int].value,
                ),
                None => !self@.contains_key(key@) && forall|i: int|
                    0 <= i < self.entries@.len() ==> (#[trigger] self.entries@[i]).key@ != key@,
            },
    {
        let n: usize = self.entries.len();
        for i in 0..n
            invariant
                n == self.entries@.len(),
                self.wf(),
                forall|k: int| 0 <= k < i ==> (#[trigger] self.entries@[k]).key@ != key@,
        {
            if same(self.entries[i].key.as_str(), key) {
                proof {
                    self.entry_is_stored(i as int);
                }
                return Some(i);
            }
        }
        proof {
            self.absent(key@);
        }
        None
    }

    /// The value under that key, and the moment it was stored.
    pub fn get(&self, key: &str) -> (r: Option<(u64, &V)>)
        requires
            self.wf(),
        ensures
            match r {
                Some(found) => self@.contains_key(key@) && self@[key@] == (found.0, *found.1),
                None => !self@.contains_key(key@),
            },
    {
        match self.index_of(key) {
            Some(i) => Some((self.entries[i].at, &self.entries[i].value)),
            None => None,
        }
    }

    /// Stores a value, in place of an earlier one under the same key.
    pub fn put(&mut self, key: &str, at: u64, value: V)
        requires
            old(self).wf(),
        ensures
            final(self).wf(),
            final(self)@ == old(self)@.insert(key@, (at, value)),
    {
        let ghost before = *self;
        let fresh = Entry { key: key.to_owned(), at, value };
        match self.index_of(key) {
            Some(i) => {
                self.entries.set(i, fresh);
                assert(self.entries@ == before.entries@.update(i as int, fresh));
            },
            None => {
                self.entries.push(fresh);
                assert(self.entries@ == before.entries@.push(fresh));
            },
        }
        proof {
            assert(self.wf());
            assert forall|k: Seq<char>| #[trigger] self@.contains_key(k) implies before@.insert(
                key@,
                (at, value),
            ).contains_key(k) && self@[k] == before@.insert(key@, (at, value))[k] by {
                let i = choose|i: int| self.stored_at(k, i);
                assert(self.stored_at(k, i));
                self.entry_is_stored(i);
                if k != key@ {
                    before.entry_is_stored(i);
                }
            }
            assert forall|k: Seq<char>| #[trigger]
                before@.insert(key@, (at, value)).contains_key(k) implies self@.contains_key(k) by {
                if k == key@ {
                    let i = if before@.contains_key(k) {
                        choose|i: int| before.stored_at(k, i)
                    } else {
                        before.entries@.len() as int
                    };
                    assert(before@.contains_key(k) ==> before.stored_at(k, i));
                    assert(self.stored_at(k, i));
                } else {
                    let i = choose|i: int| before.stored_at(k, i);
                    assert(before.stored_at(k, i));
                    assert(self.stored_at(k, i));
                }
            }
            assert(self@ =~= before@.insert(key@, (at, value)));
        }
    }

    /// Takes the value under that key out of the table.
    pub fn take(&mut self, key: &str) -> (r: Option<V>)
        requires
            old(self).wf(),
        ensures
            final(self).wf(),
            final(self)@ == old(self)@.remove(key@),
            match r {
                Some(v) => old(self)@.contains_key(key@) && old(self)@[key@].1 == v,
                None => !old(self)@.contains_key(key@),
            },
    {
        let ghost before = *self;
        match self.index_of(key) {
            Some(i) => {
                let gone = self.entries.remove(i);
                proof {
                    assert(self.entries@ == before.entries@.remove(i as int));
                    self.holds_all_but(before, i as int);
                }
                Some(gone.value)
            },
            None => {
                assert(before@.remove(key@) =~= before@);
                None
            },
        }
    }

    proof fn holds_all_but(self, before: Table<V>, gone: int)
        requires
            before.wf(),
            0 <= gone < before.entries@.len(),
            self.entries@ == before.entries@.remove(gone),
        ensures
            self.wf(),
            self@ == before@.remove(before.entries@[gone].key@),
    {
        let key = before.entries@[gone].key@;
        assert forall|i: int| 0 <= i < self.entries@.len() implies #[trigger] self.entries@[i]
            == before.entries@[if i < gone {
            i
        } else {
            i + 1
        }] by {}
        assert(self.wf());
        assert forall|k: Seq<char>| #[trigger] self@.contains_key(k) implies before@.remove(
            key,
        ).contains_key(k) && self@[k] == before@.remove(key)[k] by {
            let i = choose|i: int| self.stored_at(k, i);
            assert(self.stored_at(k, i));
            self.entry_is_stored(i);
            let old_place = if i < gone {
                i
            } else {
                i + 1
            };
            before.entry_is_stored(old_place);
        }
        assert forall|k: Seq<char>| #[trigger]
            before@.remove(key).contains_key(k) implies self@.contains_key(k) by {
            let j = choose|j: int| before.stored_at(k, j);
            assert(before.stored_at(k, j));
            assert(self.stored_at(
                k,
                if j < gone {
                    j
                } else {
                    j - 1
                },
            ));
        }
        assert(self@ =~= before@.remove(key));
    }

    /// Removes what was stored `keep_for` or longer before `now`.
    pub fn sweep(&mut self, now: u64, keep_for: u64)
        requires
            old(self).wf(),
        ensures
            final(self).wf(),
            final(self)@ == old(self)@.restrict(
                Set::new(
                    |key: Seq<char>|
                        old(self)@.contains_key(key) && age(old(self)@[key].0, now) < keep_for,
                ),
            ),
    {
        let ghost start = self@;
        let mut i: usize = 0;
        assert(swept(start, start, now, keep_for));
        while i < self.entries.len()
            invariant
                i <= self.entries@.len(),
                self.wf(),
                swept(start, self@, now, keep_for),
                forall|k: int|
                    0 <= k < i ==> age((#[trigger] self.entries@[k]).at, now) < keep_for,
            decreases self.entries@.len() - i,
        {
            let at: u64 = self.entries[i].at;
            let idle: u64 = if now > at {
                now - at
            } else {
                0
            };
            proof {
                self.entry_is_stored(i as int);
            }
            if idle < keep_for {
                i = i + 1;
            } else {
                let ghost before = *self;
                let _ = self.entries.remove(i);
                proof {
                    self.holds_all_but(before, i as int);
                    assert forall|k: int| 0 <= k < i implies age(
                        (#[trigger] self.entries@[k]).at,
                        now,
                    ) < keep_for by {
                        assert(self.entries@[k] == before.entries@[k]);
                    }
                }
            }
        }
        proof {
            let kept = start.restrict(
                Set::new(
                    |key: Seq<char>| start.contains_key(key) && age(start[key].0, now) < keep_for,
                ),
            );
            assert forall|key: Seq<char>| #[trigger] self@.contains_key(key) implies kept.contains_key(
                key,
            ) && kept[key] == self@[key] by {
                let k = choose|k: int| self.stored_at(key, k);
                assert(self.stored_at(key, k));
                self.entry_is_stored(k);
            }
            assert forall|key: Seq<char>| #[trigger] kept.contains_key(key) implies self@.contains_key(
                key,
            ) by {}
            assert(self@ =~= kept);
        }
    }
}

/// `now_held` is `start` without some of what is too old.
spec fn swept<V>(
    start: Map<Seq<char>, (u64, V)>,
    now_held: Map<Seq<char>, (u64, V)>,
    now: u64,
    keep_for: u64,
) -> bool {
    &&& forall|key: Seq<char>| #[trigger]
        now_held.contains_key(key) ==> start.contains_key(key) && start[key] == now_held[key]
    &&& forall|key: Seq<char>| #[trigger]
        start.contains_key(key) && age(start[key].0, now) < keep_for ==> now_held.contains_key(key)
}

} // verus!
