//! Group-sync reconciliation: resolving paging-service user IDs to directory
//! user IDs through the identity-mapping table, and the per-tick decision of
//! a group-sync poller. The poller's timer, cancellation channel and network
//! calls live outside this crate; each tick hands the fetched values in and
//! acts on the returned decision.
use vstd::prelude::*;
use vstd::string::*;
use crate::models::UserMapping;
use crate::opsgenie;

verus! {

/// The first mapping in the table whose paging-service ID is `ext`, if any.
pub open spec fn opsgenie_lookup_spec(table: Seq<UserMapping>, ext: Seq<char>) -> Option<
    UserMapping,
>
    decreases table.len(),
{
    if table.len() == 0 {
        None
    } else if table[0].opsgenie_id@ == ext {
        Some(table[0])
    } else {
        opsgenie_lookup_spec(table.drop_first(), ext)
    }
}

/// The first mapping in the table whose directory ID is `dir`, if any.
pub open spec fn slack_lookup_spec(table: Seq<UserMapping>, dir: Seq<char>) -> Option<UserMapping>
    decreases table.len(),
{
    if table.len() == 0 {
        None
    } else if table[0].slack_id@ == dir {
        Some(table[0])
    } else {
        slack_lookup_spec(table.drop_first(), dir)
    }
}

/// Look up the identity mapping for a paging-service user ID: the first
/// matching row, as the store would return it.
pub fn get_opsgenie_user_mapping<'a>(table: &'a Vec<UserMapping>, opsgenie_id: &str) -> (r: Option<
    &'a UserMapping,
>)
    ensures
        match r {
            Some(m) => opsgenie_lookup_spec(table@, opsgenie_id@) == Some(*m),
            None => opsgenie_lookup_spec(table@, opsgenie_id@) is None,
        },
{
    let mut i: usize = 0;
    proof {
        assert(table@.skip(0) =~= table@);
    }
    while i < table.len()
        invariant
            i <= table@.len(),
            forall|j: int| 0 <= j < i ==> table@[j].opsgenie_id@ != opsgenie_id@,
            opsgenie_lookup_spec(table@, opsgenie_id@) == opsgenie_lookup_spec(
                table@.skip(i as int),
                opsgenie_id@,
            ),
        decreases table@.len() - i,
    {
        if crate::text::str_eq(table[i].opsgenie_id.as_str(), opsgenie_id) {
            proof {
                assert(table@.skip(i as int)[0] == table@[i as int]);
            }
            return Some(&table[i]);
        }
        proof {
            assert(table@.skip(i as int)[0] == table@[i as int]);
            assert(table@.skip(i as int).drop_first() =~= table@.skip(i + 1));
        }
        i += 1;
    }
    proof {
        assert(table@.skip(table@.len() as int) =~= Seq::<UserMapping>::empty());
    }
    None
}

/// Look up the identity mapping for a directory user ID: the first matching
/// row, as the store would return it.
pub fn get_slack_user_mapping<'a>(table: &'a Vec<UserMapping>, slack_id: &str) -> (r: Option<
    &'a UserMapping,
>)
    ensures
        match r {
            Some(m) => slack_lookup_spec(table@, slack_id@) == Some(*m),
            None => slack_lookup_spec(table@, slack_id@) is None,
        },
{
    let mut i: usize = 0;
    proof {
        assert(table@.skip(0) =~= table@);
    }
    while i < table.len()
        invariant
            i <= table@.len(),
            forall|j: int| 0 <= j < i ==> table@[j].slack_id@ != slack_id@,
            slack_lookup_spec(table@, slack_id@) == slack_lookup_spec(
                table@.skip(i as int),
                slack_id@,
            ),
        decreases table@.len() - i,
    {
        if crate::text::str_eq(table[i].slack_id.as_str(), slack_id) {
            proof {
                assert(table@.skip(i as int)[0] == table@[i as int]);
            }
            return Some(&table[i]);
        }
        proof {
            assert(table@.skip(i as int)[0] == table@[i as int]);
            assert(table@.skip(i as int).drop_first() =~= table@.skip(i + 1));
        }
        i += 1;
    }
    proof {
        assert(table@.skip(table@.len() as int) =~= Seq::<UserMapping>::empty());
    }
    None
}

/// The directory IDs among a batch of lookup outcomes, in order; a missing
/// mapping is dropped, never an error.
pub open spec fn resolved_of(lookups: Seq<Option<String>>) -> Seq<Seq<char>>
    decreases lookups.len(),
{
    if lookups.len() == 0 {
        Seq::empty()
    } else {
        let rest = resolved_of(lookups.drop_last());
        match lookups.last() {
            Some(s) => rest.push(s@),
            None => rest,
        }
    }
}

/// Join a batch of per-user lookup outcomes: keep each found directory ID in
/// the order of the batch, silently dropping the users with no mapping.
pub fn collect_resolved(lookups: &Vec<Option<String>>) -> (r: Vec<String>)
    ensures
        r.deep_view() == resolved_of(lookups@),
{
    let mut out: Vec<String> = Vec::new();
    let mut k: usize = 0;
    while k < lookups.len()
        invariant
            k <= lookups@.len(),
            out.deep_view() == resolved_of(lookups@.take(k as int)),
        decreases lookups@.len() - k,
    {
        match &lookups[k] {
            Some(s) => {
                out.push(s.clone());
            },
            None => {},
        }
        proof {
            assert(lookups@.take(k + 1).drop_last() =~= lookups@.take(k as int));
            assert(lookups@.take(k + 1).last() == lookups@[k as int]);
        }
        k += 1;
    }
    proof {
        assert(lookups@.take(lookups@.len() as int) =~= lookups@);
    }
    out
}

/// The directory IDs of the external IDs that have a mapping in the table,
/// in the order of the external IDs.
pub open spec fn resolve_ids_spec(table: Seq<UserMapping>, ids: Seq<Seq<char>>) -> Seq<Seq<char>>
    decreases ids.len(),
{
    if ids.len() == 0 {
        Seq::empty()
    } else {
        let rest = resolve_ids_spec(table, ids.drop_last());
        match opsgenie_lookup_spec(table, ids.last()) {
            Some(m) => rest.push(m.slack_id@),
            None => rest,
        }
    }
}

/// Resolve a batch of paging-service user IDs against the identity-mapping
/// table: the directory IDs of exactly the mapped users, in the order of the
/// batch. Unmapped users are dropped, never an error.
pub fn resolve_ids(table: &Vec<UserMapping>, ids: &Vec<String>) -> (r: Vec<String>)
    ensures
        r.deep_view() == resolve_ids_spec(table@, ids.deep_view()),
{
    let mut out: Vec<String> = Vec::new();
    let mut k: usize = 0;
    while k < ids.len()
        invariant
            k <= ids@.len(),
            out.deep_view() == resolve_ids_spec(table@, ids.deep_view().take(k as int)),
        decreases ids@.len() - k,
    {
        match get_opsgenie_user_mapping(table, ids[k].as_str()) {
            Some(m) => {
                out.push(m.slack_id.clone());
            },
            None => {},
        }
        proof {
            assert(ids.deep_view().take(k + 1).drop_last() =~= ids.deep_view().take(k as int));
            assert(ids.deep_view().take(k + 1).last() == ids.deep_view()[k as int]);
        }
        k += 1;
    }
    proof {
        assert(ids.deep_view().take(ids@.len() as int) =~= ids.deep_view());
    }
    out
}

/// What a group-sync poller does with one tick's fetched values.
#[derive(Debug)]
pub enum SyncAction {
    /// The roster fetch failed: log it and wait for the next tick.
    Skip,
    /// Replace the target group's member list with exactly these directory
    /// IDs.
    ReplaceMembers(Vec<String>),
}

/// One tick of a group-sync poller: a failed roster fetch skips the tick;
/// a fetched roster is resolved against the identity-mapping table and the
/// target group's membership is replaced with exactly the resolved set.
pub fn sync_tick(fetched: &Result<Vec<String>, opsgenie::Error>, table: &Vec<UserMapping>) -> (r:
    SyncAction)
    ensures
        match fetched {
            Ok(ids) => r matches SyncAction::ReplaceMembers(m) && m.deep_view()
                == resolve_ids_spec(table@, ids.deep_view()),
            Err(_) => r is Skip,
        },
{
    match fetched {
        Ok(ids) => SyncAction::ReplaceMembers(resolve_ids(table, ids)),
        Err(_) => SyncAction::Skip,
    }
}

} // verus!
