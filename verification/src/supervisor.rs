//! The supervisor owns the live set of pollers, one per (subject, target)
//! pair, and mirrors the mappings recorded in the external store. Adding is
//! idempotent; removing a key that has no live poller is a logged no-op.
//! The poller handle is an explicit state machine — construction starts it
//! running, `stop` is idempotent and says whether the one-shot cancellation
//! signal must be sent — while the spawned task, the timer and the signal
//! channel themselves live outside this crate and act on the returned
//! decisions.
use vstd::prelude::*;
use vstd::string::*;
use crate::models::NotifiedSlackChannel;
use crate::models::OncallSync;

verus! {

/// Which reconciliation a poller runs.
#[derive(Clone, Copy, Debug, PartialEq, Eq, Structural)]
pub enum PollerKind {
    /// Keep a user group's members equal to the on-call set.
    GroupSync,
    /// Keep a channel's topic and announcements reflecting the on-call set.
    ChannelNotify,
}

/// Lifecycle of a poller's background loop.
#[derive(Clone, Copy, Debug, PartialEq, Eq, Structural)]
pub enum PollerPhase {
    /// The loop is ticking.
    Running,
    /// The owner signalled shutdown; the loop exits at its next check.
    Cancelling,
    /// The loop has exited.
    Stopped,
}

/// The phase after an owner's stop request: a running loop is asked to
/// cancel; any other phase is left as it is.
pub open spec fn stopped_phase(ph: PollerPhase) -> PollerPhase {
    if ph is Running {
        PollerPhase::Cancelling
    } else {
        ph
    }
}

/// One autonomous reconciliation unit for a (subject, target) pair.
#[derive(Debug)]
pub struct Poller {
    subject_id: String,
    target_id: String,
    kind: PollerKind,
    phase: PollerPhase,
}

impl Poller {
    /// The subject whose on-call roster this poller follows.
    pub closed spec fn subject_of(self) -> Seq<char> {
        self.subject_id@
    }

    /// The target this poller keeps in step with the roster.
    pub closed spec fn target_of(self) -> Seq<char> {
        self.target_id@
    }

    /// Which reconciliation this poller runs.
    pub closed spec fn kind_of(self) -> PollerKind {
        self.kind
    }

    /// Where the poller is in its lifecycle.
    pub closed spec fn phase_of(self) -> PollerPhase {
        self.phase
    }

    /// A poller starts running the moment it is constructed — construction
    /// is what spawns its background loop.
    pub fn new(subject_id: String, target_id: String, kind: PollerKind) -> (r: Poller)
        ensures
            r.subject_of() == subject_id@,
            r.target_of() == target_id@,
            r.kind_of() == kind,
            r.phase_of() is Running,
    {
        Poller { subject_id, target_id, kind, phase: PollerPhase::Running }
    }

    /// The subject's ID.
    pub fn subject_id(&self) -> (r: &String)
        ensures
            r@ == self.subject_of(),
    {
        &self.subject_id
    }

    /// The target's ID.
    pub fn target_id(&self) -> (r: &String)
        ensures
            r@ == self.target_of(),
    {
        &self.target_id
    }

    /// Which reconciliation this poller runs.
    pub fn kind(&self) -> (r: PollerKind)
        ensures
            r == self.kind_of(),
    {
        self.kind
    }

    /// Ask the loop to shut down. Idempotent and safe to call any number of
    /// times; returns true exactly when the one-shot cancellation signal
    /// must be sent now — on the first call, and never again.
    pub fn stop(&mut self) -> (send: bool)
        ensures
            send == (old(self).phase_of() is Running),
            final(self).phase_of() == stopped_phase(old(self).phase_of()),
            final(self).subject_of() == old(self).subject_of(),
            final(self).target_of() == old(self).target_of(),
            final(self).kind_of() == old(self).kind_of(),
    {
        match self.phase {
            PollerPhase::Running => {
                self.phase = PollerPhase::Cancelling;
                true
            },
            _ => false,
        }
    }

    /// Record that the loop observed the signal (or found the channel
    /// closed) and exited. Terminal.
    pub fn mark_stopped(&mut self)
        ensures
            final(self).phase_of() is Stopped,
            final(self).subject_of() == old(self).subject_of(),
            final(self).target_of() == old(self).target_of(),
            final(self).kind_of() == old(self).kind_of(),
    {
        self.phase = PollerPhase::Stopped;
    }
}

/// A second stop request finds nothing running, so the signal is sent
/// exactly once however often the owner asks.
pub proof fn lemma_stop_sends_at_most_once(ph: PollerPhase)
    ensures
        stopped_phase(stopped_phase(ph)) == stopped_phase(ph),
        !(stopped_phase(ph) is Running),
{
}

/// The composite identity of a poller.
pub open spec fn key_of(p: Poller) -> (Seq<char>, Seq<char>) {
    (p.subject_of(), p.target_of())
}

/// No two pollers share a (subject, target) key.
pub open spec fn distinct_poller_keys(ps: Seq<Poller>) -> bool {
    forall|i: int, j: int| 0 <= i < j < ps.len() ==> key_of(ps[i]) != key_of(ps[j])
}

/// What the caller must do after an add or remove on the supervisor.
#[derive(Clone, Copy, Debug, PartialEq, Eq, Structural)]
pub enum SupervisorAction {
    /// A new poller was recorded: spawn its background loop.
    Spawned,
    /// A live poller already carries this key: nothing to do.
    AlreadyPresent,
    /// The poller was stopped and discarded: send its cancellation signal.
    Cancelled,
    /// No live poller carries this key — drift with the store: log a
    /// warning, nothing else.
    NotFound,
}

/// A key joining the live set: appended unless already present.
pub open spec fn add_key(ks: Seq<(Seq<char>, Seq<char>)>, k: (Seq<char>, Seq<char>)) -> Seq<
    (Seq<char>, Seq<char>),
> {
    if ks.contains(k) {
        ks
    } else {
        ks.push(k)
    }
}

/// Adding a key that is already live changes nothing: however many times a
/// key is added, one poller carries it.
pub proof fn lemma_add_key_idempotent(ks: Seq<(Seq<char>, Seq<char>)>, k: (Seq<char>, Seq<char>))
    ensures
        add_key(add_key(ks, k), k) == add_key(ks, k),
{
    if !ks.contains(k) {
        assert(ks.push(k)[ks.len() as int] == k);
        assert(ks.push(k).contains(k));
    }
}

/// The key set after a bulk load of sync mapping rows.
pub open spec fn keys_after_sync_load(
    ks: Seq<(Seq<char>, Seq<char>)>,
    rows: Seq<OncallSync>,
) -> Seq<(Seq<char>, Seq<char>)>
    decreases rows.len(),
{
    if rows.len() == 0 {
        ks
    } else {
        add_key(
            keys_after_sync_load(ks, rows.drop_last()),
            (rows.last().oncall_id@, rows.last().user_group_id@),
        )
    }
}

/// The key set after a bulk load of notification mapping rows.
pub open spec fn keys_after_notification_load(
    ks: Seq<(Seq<char>, Seq<char>)>,
    rows: Seq<NotifiedSlackChannel>,
) -> Seq<(Seq<char>, Seq<char>)>
    decreases rows.len(),
{
    if rows.len() == 0 {
        ks
    } else {
        add_key(
            keys_after_notification_load(ks, rows.drop_last()),
            (rows.last().oncall_id@, rows.last().slack_channel_id@),
        )
    }
}

/// Owns the live pollers of one kind, keyed by (subject, target).
pub struct Supervisor {
    pollers: Vec<Poller>,
    kind: PollerKind,
}

impl Supervisor {
    /// The live pollers, in the order they were added.
    pub closed spec fn live(self) -> Seq<Poller> {
        self.pollers@
    }

    /// The keys of the live pollers, in order.
    pub open spec fn keys(self) -> Seq<(Seq<char>, Seq<char>)> {
        self.live().map_values(|p: Poller| key_of(p))
    }

    /// The kind of poller this supervisor spawns.
    pub closed spec fn kind_of(self) -> PollerKind {
        self.kind
    }

    /// Every live poller is of this supervisor's kind, is running, and no
    /// two share a key.
    pub closed spec fn wf(self) -> bool {
        &&& distinct_poller_keys(self.pollers@)
        &&& forall|i: int|
            0 <= i < self.pollers@.len() ==> (#[trigger] self.pollers@[i]).kind_of() == self.kind
                && self.pollers@[i].phase_of() is Running
    }

    /// A supervisor starts with no live pollers.
    pub fn new(kind: PollerKind) -> (r: Supervisor)
        ensures
            r.wf(),
            r.live() == Seq::<Poller>::empty(),
            r.kind_of() == kind,
    {
        let r = Supervisor { pollers: Vec::new(), kind };
        proof {
            assert(r.pollers@ =~= Seq::<Poller>::empty());
        }
        r
    }

    /// How many pollers are live.
    pub fn len(&self) -> (r: usize)
        ensures
            r == self.live().len(),
    {
        self.pollers.len()
    }

    /// Is a poller for this key live?
    pub fn contains_key(&self, subject_id: &str, target_id: &str) -> (r: bool)
        ensures
            r == self.keys().contains((subject_id@, target_id@)),
    {
        let mut i: usize = 0;
        while i < self.pollers.len()
            invariant
                i <= self.pollers@.len(),
                forall|j: int| 0 <= j < i ==> key_of(#[trigger] self.pollers@[j]) != (
                    subject_id@,
                    target_id@,
                ),
            decreases self.pollers@.len() - i,
        {
            let p = &self.pollers[i];
            if crate::text::str_eq(p.subject_id().as_str(), subject_id) && crate::text::str_eq(
                p.target_id().as_str(),
                target_id,
            ) {
                proof {
                    assert(self.keys()[i as int] == (subject_id@, target_id@));
                }
                return true;
            }
            i += 1;
        }
        proof {
            if self.keys().contains((subject_id@, target_id@)) {
                let w = choose|w: int|
                    0 <= w < self.keys().len() && self.keys()[w] == (subject_id@, target_id@);
                assert(key_of(self.pollers@[w]) == (subject_id@, target_id@));
            }
        }
        false
    }

    /// Record a poller for this key, unless one is already live: add is
    /// idempotent. `Spawned` tells the caller to start the background loop.
    pub fn add(&mut self, subject_id: String, target_id: String) -> (r: SupervisorAction)
        requires
            old(self).wf(),
        ensures
            final(self).wf(),
            final(self).kind_of() == old(self).kind_of(),
            final(self).keys() == add_key(old(self).keys(), (subject_id@, target_id@)),
            old(self).keys().contains((subject_id@, target_id@)) ==> r is AlreadyPresent
                && final(self).live() == old(self).live(),
            !old(self).keys().contains((subject_id@, target_id@)) ==> r is Spawned
                && final(self).live().len() == old(self).live().len() + 1
                && final(self).live().drop_last() == old(self).live()
                && final(self).live().last().phase_of() is Running
                && final(self).live().last().kind_of() == old(self).kind_of(),
    {
        if self.contains_key(subject_id.as_str(), target_id.as_str()) {
            return SupervisorAction::AlreadyPresent;
        }
        let ghost before = self.pollers@;
        let p = Poller::new(subject_id, target_id, self.kind);
        self.pollers.push(p);
        proof {
            assert(self.pollers@.drop_last() =~= before);
            assert(self.keys() =~= add_key(
                before.map_values(|q: Poller| key_of(q)),
                key_of(self.pollers@.last()),
            ));
            assert forall|a: int, b: int|
                0 <= a < b < self.pollers@.len() implies key_of(self.pollers@[a]) != key_of(
                self.pollers@[b],
            ) by {
                if b == before.len() {
                    assert(before.map_values(|q: Poller| key_of(q))[a] == key_of(before[a]));
                } else {
                    assert(self.pollers@[a] == before[a]);
                    assert(self.pollers@[b] == before[b]);
                }
            }
        }
        SupervisorAction::Spawned
    }

    /// Stop and discard the poller for this key. When none is live the
    /// caller merely logs the drift: the store stays authoritative and the
    /// live set is unchanged.
    pub fn remove(&mut self, subject_id: &str, target_id: &str) -> (r: SupervisorAction)
        requires
            old(self).wf(),
        ensures
            final(self).wf(),
            final(self).kind_of() == old(self).kind_of(),
            old(self).keys().contains((subject_id@, target_id@)) ==> r is Cancelled
                && exists|i: int|
                    0 <= i < old(self).live().len() && key_of(#[trigger] old(self).live()[i]) == (
                        subject_id@,
                        target_id@,
                    ) && final(self).live() == old(self).live().remove(i),
            !old(self).keys().contains((subject_id@, target_id@)) ==> r is NotFound
                && final(self).live() == old(self).live(),
    {
        let ghost before = self.pollers@;
        let mut i: usize = 0;
        while i < self.pollers.len()
            invariant
                self.pollers@ == before,
                before == old(self).live(),
                self.kind_of() == old(self).kind_of(),
                old(self).wf(),
                i <= before.len(),
                forall|j: int| 0 <= j < i ==> key_of(#[trigger] before[j]) != (
                    subject_id@,
                    target_id@,
                ),
            decreases before.len() - i,
        {
            let p = &self.pollers[i];
            if crate::text::str_eq(p.subject_id().as_str(), subject_id) && crate::text::str_eq(
                p.target_id().as_str(),
                target_id,
            ) {
                let mut removed = self.pollers.remove(i);
                let _ = removed.stop();
                proof {
                    assert(key_of(before[i as int]) == (subject_id@, target_id@));
                    assert(before.map_values(|q: Poller| key_of(q))[i as int] == (
                        subject_id@,
                        target_id@,
                    ));
                    assert(before.map_values(|q: Poller| key_of(q)).contains((
                        subject_id@,
                        target_id@,
                    )));
                    assert(self.pollers@ == before.remove(i as int));
                    assert(key_of(old(self).live()[i as int]) == (subject_id@, target_id@));
                    assert forall|a: int, b: int|
                        0 <= a < b < self.pollers@.len() implies key_of(self.pollers@[a])
                        != key_of(self.pollers@[b]) by {
                        let full = before;
                        let ia: int = if a < i { a } else { a + 1 };
                        let ib: int = if b < i { b } else { b + 1 };
                        assert(self.pollers@[a] == full[ia]);
                        assert(self.pollers@[b] == full[ib]);
                    }
                    assert forall|m: int|
                        0 <= m < self.pollers@.len() implies (#[trigger] self.pollers@[m]).kind_of()
                        == self.kind && self.pollers@[m].phase_of() is Running by {
                        let im: int = if m < i { m } else { m + 1 };
                        assert(self.pollers@[m] == before[im]);
                    }
                }
                return SupervisorAction::Cancelled;
            }
            i += 1;
        }
        proof {
            if self.keys().contains((subject_id@, target_id@)) {
                let w = choose|w: int|
                    0 <= w < self.keys().len() && self.keys()[w] == (subject_id@, target_id@);
                assert(key_of(before[w]) == (subject_id@, target_id@));
            }
        }
        SupervisorAction::NotFound
    }

    /// Bulk-add one poller per persisted sync mapping, as at startup. Keys
    /// already live are left alone.
    pub fn load_syncs(&mut self, rows: &Vec<OncallSync>)
        requires
            old(self).wf(),
        ensures
            final(self).wf(),
            final(self).kind_of() == old(self).kind_of(),
            final(self).keys() == keys_after_sync_load(old(self).keys(), rows@),
    {
        let mut k: usize = 0;
        while k < rows.len()
            invariant
                k <= rows@.len(),
                self.wf(),
                self.kind_of() == old(self).kind_of(),
                self.keys() == keys_after_sync_load(old(self).keys(), rows@.take(k as int)),
            decreases rows@.len() - k,
        {
            let row = &rows[k];
            let _ = self.add(row.oncall_id.clone(), row.user_group_id.clone());
            proof {
                assert(rows@.take(k + 1).drop_last() =~= rows@.take(k as int));
                assert(rows@.take(k + 1).last() == rows@[k as int]);
            }
            k += 1;
        }
        proof {
            assert(rows@.take(rows@.len() as int) =~= rows@);
        }
    }

    /// Bulk-add one poller per persisted notification mapping, as at
    /// startup. Keys already live are left alone.
    pub fn load_notifications(&mut self, rows: &Vec<NotifiedSlackChannel>)
        requires
            old(self).wf(),
        ensures
            final(self).wf(),
            final(self).kind_of() == old(self).kind_of(),
            final(self).keys() == keys_after_notification_load(old(self).keys(), rows@),
    {
        let mut k: usize = 0;
        while k < rows.len()
            invariant
                k <= rows@.len(),
                self.wf(),
                self.kind_of() == old(self).kind_of(),
                self.keys() == keys_after_notification_load(
                    old(self).keys(),
                    rows@.take(k as int),
                ),
            decreases rows@.len() - k,
        {
            let row = &rows[k];
            let _ = self.add(row.oncall_id.clone(), row.slack_channel_id.clone());
            proof {
                assert(rows@.take(k + 1).drop_last() =~= rows@.take(k as int));
                assert(rows@.take(k + 1).last() == rows@[k as int]);
            }
            k += 1;
        }
        proof {
            assert(rows@.take(rows@.len() as int) =~= rows@);
        }
    }
}

} // verus!
