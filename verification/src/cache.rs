//! The read-through cache: a whole-collection snapshot keyed by ID, a
//! last-refreshed timestamp and a fixed refresh interval. The cache itself
//! never performs I/O: callers ask `check_needs_update` whether the snapshot
//! is still fresh, fetch the collection themselves when it is not, and hand
//! the outcome to `apply_refresh`. A failed fetch leaves the snapshot and
//! its timestamp untouched, so the very next read retries instead of
//! treating stale data as fresh.
use vstd::prelude::*;
use vstd::string::*;

verus! {

/// No two entries carry the same key.
pub open spec fn distinct_keys<V>(entries: Seq<(String, V)>) -> bool {
    forall|i: int, j: int| 0 <= i < j < entries.len() ==> entries[i].0@ != entries[j].0@
}

/// The mapping an entry list stands for; a later entry for the same key
/// wins, as when a keyed collection is built from a listing.
pub open spec fn assoc_map<V>(entries: Seq<(String, V)>) -> Map<Seq<char>, V>
    decreases entries.len(),
{
    if entries.len() == 0 {
        Map::empty()
    } else {
        assoc_map(entries.drop_last()).insert(entries.last().0@, entries.last().1)
    }
}

/// A key is in the mapping exactly when some entry carries it.
pub proof fn lemma_assoc_map_contains<V>(entries: Seq<(String, V)>, key: Seq<char>)
    ensures
        assoc_map(entries).contains_key(key) <==> exists|i: int|
            0 <= i < entries.len() && entries[i].0@ == key,
    decreases entries.len(),
{
    if entries.len() > 0 {
        lemma_assoc_map_contains(entries.drop_last(), key);
        if entries.last().0@ == key {
            assert(entries[entries.len() - 1].0@ == key);
        } else if assoc_map(entries).contains_key(key) {
            let i = choose|i: int|
                0 <= i < entries.drop_last().len() && #[trigger] entries.drop_last()[i].0@ == key;
            assert(entries[i].0@ == key);
        } else if exists|i: int| 0 <= i < entries.len() && #[trigger] entries[i].0@ == key {
            let i = choose|i: int| 0 <= i < entries.len() && #[trigger] entries[i].0@ == key;
            assert(entries.drop_last()[i].0@ == key);
        }
    }
}

/// Under distinct keys, the entry holding a key determines the mapping's
/// value at that key.
pub proof fn lemma_assoc_map_at<V>(entries: Seq<(String, V)>, i: int)
    requires
        distinct_keys(entries),
        0 <= i < entries.len(),
    ensures
        assoc_map(entries).contains_key(entries[i].0@),
        assoc_map(entries)[entries[i].0@] == entries[i].1,
    decreases entries.len(),
{
    if i == entries.len() - 1 {
    } else {
        assert(entries.drop_last()[i] == entries[i]);
        lemma_assoc_map_at(entries.drop_last(), i);
        assert(entries.last().0@ != entries[i].0@);
    }
}

/// Replacing the entry that holds a key updates the mapping at that key and
/// nothing else.
proof fn lemma_assoc_map_update<V>(entries: Seq<(String, V)>, i: int, e: (String, V))
    requires
        distinct_keys(entries),
        0 <= i < entries.len(),
        e.0@ == entries[i].0@,
    ensures
        assoc_map(entries.update(i, e)) == assoc_map(entries).insert(e.0@, e.1),
    decreases entries.len(),
{
    let updated = entries.update(i, e);
    if i == entries.len() - 1 {
        assert(updated.drop_last() =~= entries.drop_last());
        assert(updated.last() == e);
        assert(assoc_map(entries.drop_last()).insert(entries.last().0@, entries.last().1).insert(
            e.0@,
            e.1,
        ) =~= assoc_map(entries.drop_last()).insert(e.0@, e.1));
    } else {
        assert(updated.drop_last() =~= entries.drop_last().update(i, e));
        assert(entries.drop_last()[i] == entries[i]);
        lemma_assoc_map_update(entries.drop_last(), i, e);
        assert(updated.last() == entries.last());
        assert(entries.last().0@ != e.0@);
        assert(assoc_map(entries.drop_last()).insert(e.0@, e.1).insert(
            entries.last().0@,
            entries.last().1,
        ) =~= assoc_map(entries.drop_last()).insert(entries.last().0@, entries.last().1).insert(
            e.0@,
            e.1,
        ));
    }
}

/// Put one entry into a distinct-keyed entry list: replace the entry that
/// holds the key, or append one.
fn put_entry<V>(entries: &mut Vec<(String, V)>, key: String, value: V)
    requires
        distinct_keys(old(entries)@),
    ensures
        distinct_keys(final(entries)@),
        assoc_map(final(entries)@) == assoc_map(old(entries)@).insert(key@, value),
{
    let ghost entries0 = entries@;
    let mut i: usize = 0;
    while i < entries.len()
        invariant
            entries@ == entries0,
            entries0 == old(entries)@,
            distinct_keys(entries0),
            i <= entries0.len(),
            forall|j: int| 0 <= j < i ==> entries0[j].0@ != key@,
        decreases entries0.len() - i,
    {
        if crate::text::str_eq(entries[i].0.as_str(), key.as_str()) {
            proof {
                lemma_assoc_map_update(entries0, i as int, (key, value));
            }
            entries.set(i, (key, value));
            proof {
                assert(entries@ =~= entries0.update(i as int, (key, value)));
                assert forall|a: int, b: int|
                    0 <= a < b < entries@.len() implies entries@[a].0@ != entries@[b].0@ by {
                    assert(entries@[a].0@ == entries0[a].0@);
                    assert(entries@[b].0@ == entries0[b].0@);
                }
            }
            return ;
        }
        i += 1;
    }
    entries.push((key, value));
    proof {
        assert(entries@.drop_last() =~= entries0);
        assert forall|a: int, b: int|
            0 <= a < b < entries@.len() implies entries@[a].0@ != entries@[b].0@ by {
            if b == entries0.len() {
                assert(entries@[a] == entries0[a]);
            } else {
                assert(entries@[a] == entries0[a]);
                assert(entries@[b] == entries0[b]);
            }
        }
    }
}

/// The snapshot's age: how long ago it was refreshed, zero if the clock
/// reads earlier than the refresh.
pub open spec fn age_of(now: u64, then: u64) -> int {
    if now >= then {
        now - then
    } else {
        0
    }
}

/// A read at `now` must refresh: no snapshot was ever produced, or the
/// snapshot's age exceeds the refresh interval.
pub open spec fn needs_update_spec(last: Option<u64>, interval: u64, now: u64) -> bool {
    match last {
        None => true,
        Some(t) => age_of(now, t) > interval,
    }
}

/// A whole-collection snapshot with a refresh timestamp and a fixed refresh
/// interval, in seconds. Keys are IDs; values are whatever the remote
/// listing returns.
pub struct Cache<V> {
    entries: Vec<(String, V)>,
    last_update: Option<u64>,
    update_interval: u64,
}

impl<V> Cache<V> {
    /// The mapping the snapshot stands for.
    pub closed spec fn snapshot_map(self) -> Map<Seq<char>, V> {
        assoc_map(self.entries@)
    }

    /// The snapshot's entry list.
    pub closed spec fn snapshot_entries(self) -> Seq<(String, V)> {
        self.entries@
    }

    /// When the snapshot was last refreshed; `None` before the first
    /// successful refresh.
    pub closed spec fn last_update_time(self) -> Option<u64> {
        self.last_update
    }

    /// The refresh interval fixed at construction.
    pub closed spec fn interval(self) -> u64 {
        self.update_interval
    }

    /// The snapshot never holds two entries for one key.
    pub closed spec fn wf(self) -> bool {
        distinct_keys(self.entries@)
    }

    /// A cache starts empty, with no snapshot yet, so the first read always
    /// refreshes.
    pub fn new(update_interval: u64) -> (r: Cache<V>)
        ensures
            r.wf(),
            r.snapshot_map() == Map::<Seq<char>, V>::empty(),
            r.snapshot_entries() == Seq::<(String, V)>::empty(),
            r.last_update_time() is None,
            r.interval() == update_interval,
    {
        let r = Cache { entries: Vec::new(), last_update: None, update_interval };
        proof {
            assert(r.entries@ =~= Seq::<(String, V)>::empty());
        }
        r
    }

    /// Must a read at `now` refresh first? True exactly when no snapshot
    /// exists or its age exceeds the interval.
    pub fn check_needs_update(&self, now: u64) -> (r: bool)
        ensures
            r == needs_update_spec(self.last_update_time(), self.interval(), now),
    {
        match self.last_update {
            None => true,
            Some(t) => {
                let age = if now >= t {
                    now - t
                } else {
                    0
                };
                age > self.update_interval
            },
        }
    }

    /// The current snapshot, returned without any I/O. Fresh exactly when
    /// `check_needs_update` says no refresh is due.
    pub fn get_all(&self) -> (r: &Vec<(String, V)>)
        ensures
            r@ == self.snapshot_entries(),
            assoc_map(r@) == self.snapshot_map(),
            self.wf() ==> distinct_keys(r@),
    {
        &self.entries
    }

    /// The snapshot's value for one key, without any I/O.
    pub fn get<'a>(&'a self, key: &str) -> (r: Option<&'a V>)
        requires
            self.wf(),
        ensures
            match r {
                Some(v) => self.snapshot_map().contains_key(key@) && *v == self.snapshot_map()[key@],
                None => !self.snapshot_map().contains_key(key@),
            },
    {
        let mut i: usize = 0;
        while i < self.entries.len()
            invariant
                self.wf(),
                i <= self.entries@.len(),
                forall|j: int| 0 <= j < i ==> self.entries@[j].0@ != key@,
            decreases self.entries@.len() - i,
        {
            if crate::text::str_eq(self.entries[i].0.as_str(), key) {
                proof {
                    lemma_assoc_map_at(self.entries@, i as int);
                }
                return Some(&self.entries[i].1);
            }
            i += 1;
        }
        proof {
            lemma_assoc_map_contains(self.entries@, key@);
        }
        None
    }

    /// Install the outcome of a refresh performed at `now`. On success the
    /// snapshot is atomically replaced by the fetched collection and the
    /// timestamp is set to `now`; on failure the error is handed back and
    /// neither the snapshot nor the timestamp changes, so the next read
    /// retries.
    pub fn apply_refresh<E>(&mut self, now: u64, fetched: Result<Vec<(String, V)>, E>) -> (r:
        Result<(), E>)
        requires
            old(self).wf(),
        ensures
            final(self).wf(),
            final(self).interval() == old(self).interval(),
            match fetched {
                Ok(data) => {
                    &&& r is Ok
                    &&& final(self).snapshot_map() == assoc_map(data@)
                    &&& final(self).last_update_time() == Some(now)
                },
                Err(e) => {
                    &&& r matches Err(e2) && e2 == e
                    &&& *final(self) == *old(self)
                },
            },
    {
        match fetched {
            Ok(data) => {
                let mut fresh: Vec<(String, V)> = Vec::new();
                proof {
                    assert(fresh@ =~= Seq::<(String, V)>::empty());
                }
                let ghost data0 = data@;
                let mut items = data;
                let ghost mut taken: int = 0;
                while items.len() > 0
                    invariant
                        0 <= taken <= data0.len(),
                        items@ =~= data0.skip(taken),
                        distinct_keys(fresh@),
                        assoc_map(fresh@) == assoc_map(data0.take(taken)),
                    decreases items@.len(),
                {
                    let (key, value) = items.remove(0);
                    proof {
                        assert(data0[taken] == (key, value));
                        assert(data0.take(taken + 1).drop_last() =~= data0.take(taken));
                        assert(data0.take(taken + 1).last() == data0[taken]);
                    }
                    put_entry(&mut fresh, key, value);
                    proof {
                        taken = taken + 1;
                        assert(items@ =~= data0.skip(taken));
                    }
                }
                proof {
                    assert(data0.take(taken) =~= data0);
                }
                self.entries = fresh;
                self.last_update = Some(now);
                Ok(())
            },
            Err(e) => Err(e),
        }
    }

    /// Change one entry in place — for a value known to have changed
    /// locally, when refetching the whole collection would be wasteful.
    /// The refresh timestamp is deliberately untouched.
    pub fn update(&mut self, key: String, value: V)
        requires
            old(self).wf(),
        ensures
            final(self).wf(),
            final(self).snapshot_map() == old(self).snapshot_map().insert(key@, value),
            final(self).last_update_time() == old(self).last_update_time(),
            final(self).interval() == old(self).interval(),
    {
        put_entry(&mut self.entries, key, value);
    }
}

/// Before the first successful refresh every read refreshes: a fresh cache
/// reports a needed update at every time.
pub proof fn lemma_first_read_refreshes<V>(c: Cache<V>, now: u64)
    requires
        c.last_update_time() is None,
    ensures
        needs_update_spec(c.last_update_time(), c.interval(), now),
{
}

/// Within the interval after a successful refresh, reads are served from
/// the snapshot without a new refresh.
pub proof fn lemma_second_read_within_interval<V>(c: Cache<V>, t: u64, now: u64)
    requires
        c.last_update_time() == Some(t),
        t <= now,
        now - t <= c.interval(),
    ensures
        !needs_update_spec(c.last_update_time(), c.interval(), now),
{
}

/// Staleness never heals by itself: a cache that must refresh at one time
/// must still refresh at every later time. Since a failed refresh leaves
/// the snapshot and timestamp untouched, every read after one keeps
/// retrying instead of serving a cached error.
pub proof fn lemma_stale_stays_stale(last: Option<u64>, interval: u64, now: u64, later: u64)
    requires
        now <= later,
        needs_update_spec(last, interval, now),
    ensures
        needs_update_spec(last, interval, later),
{
}

/// Once the interval has elapsed since the last successful refresh, the
/// next read refreshes again.
pub proof fn lemma_read_after_interval_refreshes<V>(c: Cache<V>, t: u64, now: u64)
    requires
        c.last_update_time() == Some(t),
        t <= now,
        now - t > c.interval(),
    ensures
        needs_update_spec(c.last_update_time(), c.interval(), now),
{
}

} // verus!
