//! The subscription registry: the shared table of live subscriptions.
//!
//! A request unit that starts a subscription enters it here under its
//! subscription identity; later events look their subscription up, and
//! an unsubscribe removes it. The table is keyed by plain identifiers
//! the outside maps to its own resources; every write happens under the
//! outside mutual-exclusion guard, so each operation sees and leaves a
//! consistent table. The registry's mathematical value is a map from
//! subscription identity to entry, and every operation states exactly
//! what it does to that map.
use vstd::prelude::*;

verus! {

/// The map a sequence of key-value pairs builds up, later pairs winning.
pub open spec fn pairs_map(s: Seq<(u64, u64)>) -> Map<u64, u64>
    decreases s.len(),
{
    if s.len() == 0 {
        Map::empty()
    } else {
        pairs_map(s.drop_last()).insert(s.last().0, s.last().1)
    }
}

/// No key occurs twice in the sequence.
pub open spec fn keys_unique(s: Seq<(u64, u64)>) -> bool {
    forall|i: int, j: int| 0 <= i < j < s.len() ==> (#[trigger] s[i]).0 != (#[trigger] s[j]).0
}

/// Some pair of the sequence carries the key.
pub open spec fn key_in(s: Seq<(u64, u64)>, key: u64) -> bool {
    exists|i: int| 0 <= i < s.len() && (#[trigger] s[i]).0 == key
}

/// A key is in the built map exactly when some pair carries it.
proof fn lemma_key_in_map(s: Seq<(u64, u64)>, key: u64)
    ensures
        pairs_map(s).dom().contains(key) == key_in(s, key),
    decreases s.len(),
{
    if s.len() > 0 {
        lemma_key_in_map(s.drop_last(), key);
        if key_in(s.drop_last(), key) {
            let i = choose|i: int| 0 <= i < s.drop_last().len() && (#[trigger] s.drop_last()[i]).0
                == key;
            assert(s[i].0 == key);
        }
        if s.last().0 == key {
            assert(s[s.len() - 1].0 == key);
        }
        if key_in(s, key) && s.last().0 != key {
            let i = choose|i: int| 0 <= i < s.len() && (#[trigger] s[i]).0 == key;
            assert(s.drop_last()[i].0 == key);
        }
    }
}

/// With unique keys, the pair at `i` gives the map's value at its key.
proof fn lemma_lookup(s: Seq<(u64, u64)>, i: int)
    requires
        keys_unique(s),
        0 <= i < s.len(),
    ensures
        pairs_map(s).dom().contains(s[i].0),
        pairs_map(s)[s[i].0] == s[i].1,
    decreases s.len(),
{
    if i == s.len() - 1 {
    } else {
        assert(s.drop_last()[i] == s[i]);
        lemma_lookup(s.drop_last(), i);
    }
}

/// Removing the one pair that carries `key` removes `key` from the map
/// and keeps every other entry.
proof fn lemma_remove_pair(s: Seq<(u64, u64)>, i: int)
    requires
        keys_unique(s),
        0 <= i < s.len(),
    ensures
        pairs_map(s.remove(i)) =~= pairs_map(s).remove(s[i].0),
    decreases s.len(),
{
    let key = s[i].0;
    lemma_key_in_map(s.drop_last(), key);
    if i == s.len() - 1 {
        assert(s.remove(i) =~= s.drop_last());
        assert(!key_in(s.drop_last(), key));
        assert(pairs_map(s.drop_last()) =~= pairs_map(s.drop_last()).remove(key));
    } else {
        assert(s.remove(i).drop_last() =~= s.drop_last().remove(i));
        assert(s.remove(i).last() == s.last());
        assert(s.drop_last()[i] == s[i]);
        lemma_remove_pair(s.drop_last(), i);
        assert(s.last().0 != key);
        assert(pairs_map(s.remove(i)) =~= pairs_map(s.drop_last()).remove(key).insert(
            s.last().0,
            s.last().1,
        ));
    }
}

/// Taking one pair out keeps the keys unique.
proof fn lemma_unique_after_remove(s: Seq<(u64, u64)>, i: int)
    requires
        keys_unique(s),
        0 <= i < s.len(),
    ensures
        keys_unique(s.remove(i)),
{
    assert(forall|a: int, b: int|
        0 <= a < b < s.remove(i).len() ==> (#[trigger] s.remove(i)[a]).0 != (#[trigger] s.remove(
            i,
        )[b]).0);
}

/// The shared table of live subscriptions: identity of the subscription
/// to identity of its entry, each subscription at most once.
pub struct SubscriptionRegistry {
    entries: Vec<(u64, u64)>,
}

impl SubscriptionRegistry {
    /// The registry as a map from subscription identity to entry.
    pub closed spec fn model(&self) -> Map<u64, u64> {
        pairs_map(self.entries@)
    }

    /// Each subscription identity stands in the table at most once.
    pub closed spec fn wf(&self) -> bool {
        keys_unique(self.entries@)
    }

    /// An empty registry: no live subscription.
    pub fn new() -> (r: SubscriptionRegistry)
        ensures
            r.wf(),
            r.model() == Map::<u64, u64>::empty(),
    {
        SubscriptionRegistry { entries: Vec::new() }
    }

    /// The index of the pair carrying `key`, if the subscription is live.
    fn position_of(&self, key: u64) -> (r: Option<usize>)
        requires
            self.wf(),
        ensures
            match r {
                Option::Some(i) => i < self.entries@.len() && self.entries@[i as int].0 == key,
                Option::None => !key_in(self.entries@, key),
            },
    {
        let mut i: usize = 0;
        let n = self.entries.len();
        while i < n
            invariant
                0 <= i <= n,
                n == self.entries@.len(),
                forall|j: int| 0 <= j < i ==> (#[trigger] self.entries@[j]).0 != key,
            decreases n - i,
        {
            if self.entries[i].0 == key {
                return Option::Some(i);
            }
            i = i + 1;
        }
        Option::None
    }

    /// Whether the subscription is live.
    pub fn contains(&self, key: u64) -> (r: bool)
        requires
            self.wf(),
        ensures
            r == self.model().dom().contains(key),
    {
        proof {
            lemma_key_in_map(self.entries@, key);
        }
        match self.position_of(key) {
            Option::Some(i) => {
                proof {
                    lemma_lookup(self.entries@, i as int);
                }
                true
            },
            Option::None => false,
        }
    }

    /// The entry of the subscription, if it is live.
    pub fn get(&self, key: u64) -> (r: Option<u64>)
        requires
            self.wf(),
        ensures
            match r {
                Option::Some(entry) => self.model().dom().contains(key) && self.model()[key]
                    == entry,
                Option::None => !self.model().dom().contains(key),
            },
    {
        proof {
            lemma_key_in_map(self.entries@, key);
        }
        match self.position_of(key) {
            Option::Some(i) => {
                proof {
                    lemma_lookup(self.entries@, i as int);
                }
                Option::Some(self.entries[i].1)
            },
            Option::None => Option::None,
        }
    }

    /// Enter the subscription under its identity; a subscription entered
    /// again replaces its previous entry, so the identity stays unique.
    pub fn insert(&mut self, key: u64, entry: u64)
        requires
            old(self).wf(),
        ensures
            final(self).wf(),
            final(self).model() =~= old(self).model().insert(key, entry),
    {
        let ghost before = self.entries@;
        match self.position_of(key) {
            Option::Some(i) => {
                proof {
                    lemma_remove_pair(before, i as int);
                    lemma_key_in_map(before.remove(i as int), key);
                    lemma_unique_after_remove(before, i as int);
                }
                self.entries.remove(i);
                self.entries.push((key, entry));
                proof {
                    let trimmed = before.remove(i as int);
                    assert(self.entries@.drop_last() =~= trimmed);
                    assert(self.entries@.last() == (key, entry));
                    assert(pairs_map(self.entries@) == pairs_map(trimmed).insert(key, entry));
                    assert(pairs_map(trimmed).insert(key, entry) =~= pairs_map(before).insert(
                        key,
                        entry,
                    ));
                    lemma_unique_after_push(trimmed, key, entry);
                }
            },
            Option::None => {
                self.entries.push((key, entry));
                proof {
                    assert(self.entries@.drop_last() =~= before);
                    assert(self.entries@.last() == (key, entry));
                    assert(pairs_map(self.entries@) == pairs_map(before).insert(key, entry));
                    lemma_unique_after_push(before, key, entry);
                }
            },
        }
    }

    /// Remove the subscription on unsubscribe; removing one that is not
    /// live changes nothing.
    pub fn remove(&mut self, key: u64)
        requires
            old(self).wf(),
        ensures
            final(self).wf(),
            final(self).model() =~= old(self).model().remove(key),
    {
        let ghost before = self.entries@;
        match self.position_of(key) {
            Option::Some(i) => {
                proof {
                    lemma_remove_pair(before, i as int);
                }
                self.entries.remove(i);
                proof {
                    lemma_unique_after_remove(before, i as int);
                }
            },
            Option::None => {
                proof {
                    lemma_key_in_map(before, key);
                    assert(final(self).model() =~= old(self).model().remove(key));
                }
            },
        }
    }
}

/// Pushing a pair whose key is absent keeps the keys unique.
proof fn lemma_unique_after_push(s: Seq<(u64, u64)>, key: u64, entry: u64)
    requires
        keys_unique(s),
        !key_in(s, key),
    ensures
        keys_unique(s.push((key, entry))),
{
    let pushed = s.push((key, entry));
    assert forall|i: int, j: int| 0 <= i < j < pushed.len() implies (#[trigger] pushed[i]).0 != (
    #[trigger] pushed[j]).0 by {
        if j == pushed.len() - 1 {
            assert(s[i].0 != key);
        } else {
            assert(pushed[i] == s[i] && pushed[j] == s[j]);
        }
    }
}

} // verus!
