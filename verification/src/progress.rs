//! Tracking of create-materialized-view backfill progress across epochs.
//!
//! Each tracked command owns one entry holding the actors that have not yet
//! reported done; when the last one reports, the command's notifiers fire
//! `finished` and the entry is dropped.

use vstd::prelude::*;

use crate::notifier::{Notifier, NotifierEvent, NotifierEventKind};
use crate::ActorId;

verus! {

/// A worker's report about one backfill actor, delivered with the collect
/// responses of some epoch.
#[derive(Clone, Copy, Debug, PartialEq, Eq, Structural)]
pub struct CreateMviewProgress {
    pub chain_actor_id: ActorId,
    pub done: bool,
    pub consumed_epoch: u64,
}

/// One tracked command: the epoch it was committed at, the actors still
/// backfilling, and the notifiers awaiting `finished`.
pub struct ProgressEntry {
    pub epoch: u64,
    pub remaining: Vec<ActorId>,
    pub notifiers: Vec<Notifier>,
}

/// A notifier that sits in the tracker: its barrier was collected
/// successfully, and it has neither finished nor failed.
pub open spec fn awaiting_finish(n: Notifier) -> bool {
    n.wf() && n.collected && !n.finished && !n.failed
}

impl ProgressEntry {
    pub open spec fn wf(self) -> bool {
        &&& self.remaining@.len() > 0
        &&& forall|j: int|
            0 <= j < self.notifiers@.len() ==> awaiting_finish(#[trigger] self.notifiers@[j])
    }

    /// Whether this entry still tracks the given actor.
    pub open spec fn tracks(self, a: ActorId) -> bool {
        self.remaining@.contains(a)
    }
}

/// The `finished` firings produced when a tracked command completes.
pub open spec fn finish_events(ns: Seq<Notifier>) -> Seq<NotifierEvent> {
    ns.map_values(
        |n: Notifier| NotifierEvent { notifier_id: n.id, kind: NotifierEventKind::Finished },
    )
}

/// A sequence of actors with every occurrence of one actor removed.
pub open spec fn without_actor(s: Seq<ActorId>, a: ActorId) -> Seq<ActorId>
    decreases s.len(),
{
    if s.len() == 0 {
        Seq::empty()
    } else {
        let pre = without_actor(s.drop_last(), a);
        if s.last() == a {
            pre
        } else {
            pre.push(s.last())
        }
    }
}

/// The first entry that tracks the given actor, or -1.
pub open spec fn first_tracking(s: Seq<ProgressEntry>, a: ActorId) -> int
    decreases s.len(),
{
    if s.len() == 0 {
        -1
    } else if s.first().tracks(a) {
        0
    } else {
        let r = first_tracking(s.drop_first(), a);
        if r < 0 {
            -1
        } else {
            r + 1
        }
    }
}

proof fn lemma_first_tracking_at(s: Seq<ProgressEntry>, a: ActorId, i: int)
    requires
        0 <= i < s.len(),
        s[i].tracks(a),
        forall|k: int| 0 <= k < i ==> !(#[trigger] s[k]).tracks(a),
    ensures
        first_tracking(s, a) == i,
    decreases i,
{
    if i > 0 {
        lemma_first_tracking_at(s.drop_first(), a, i - 1);
    }
}

proof fn lemma_first_tracking_none(s: Seq<ProgressEntry>, a: ActorId)
    requires
        forall|k: int| 0 <= k < s.len() ==> !(#[trigger] s[k]).tracks(a),
    ensures
        first_tracking(s, a) == -1,
    decreases s.len(),
{
    if s.len() > 0 {
        lemma_first_tracking_none(s.drop_first(), a);
    }
}

/// Per-materialized-view backfill progress, across epochs.
pub struct CreateMviewProgressTracker {
    pub entries: Vec<ProgressEntry>,
}

impl CreateMviewProgressTracker {
    pub open spec fn wf(self) -> bool {
        forall|i: int| 0 <= i < self.entries@.len() ==> (#[trigger] self.entries@[i]).wf()
    }

    pub fn new() -> (r: Self)
        ensures
            r.entries@.len() == 0,
            r.wf(),
    {
        CreateMviewProgressTracker { entries: Vec::new() }
    }

    /// Register a command whose barrier has just been collected. When it
    /// tracks no actor, its notifiers fire `finished` at once; otherwise an
    /// entry is created and nothing fires yet.
    pub fn add(&mut self, epoch: u64, actors: Vec<ActorId>, notifiers: Vec<Notifier>) -> (events:
        Vec<NotifierEvent>)
        requires
            old(self).wf(),
            forall|j: int| 0 <= j < notifiers@.len() ==> awaiting_finish(#[trigger] notifiers@[j]),
        ensures
            final(self).wf(),
            actors@.len() == 0 ==> {
                &&& final(self).entries@ == old(self).entries@
                &&& events@ == finish_events(notifiers@)
            },
            actors@.len() > 0 ==> {
                &&& events@.len() == 0
                &&& final(self).entries@.len() == old(self).entries@.len() + 1
                &&& forall|i: int|
                    0 <= i < old(self).entries@.len() ==> final(self).entries@[i] == old(
                        self,
                    ).entries@[i]
                &&& final(self).entries@.last().epoch == epoch
                &&& final(self).entries@.last().remaining@ == actors@
                &&& final(self).entries@.last().notifiers@ == notifiers@
            },
    {
        if actors.len() == 0 {
            let events = fire_finished(notifiers);
            events
        } else {
            self.entries.push(ProgressEntry { epoch, remaining: actors, notifiers });
            Vec::new()
        }
    }

    /// Apply one progress report. A report that is not `done`, or about an
    /// untracked actor, changes nothing. Otherwise the actor leaves the
    /// first entry tracking it; when that entry's last actor leaves, the
    /// entry's notifiers fire `finished` and the entry is dropped.
    pub fn update(&mut self, progress: &CreateMviewProgress) -> (events: Vec<NotifierEvent>)
        requires
            old(self).wf(),
        ensures
            final(self).wf(),
            !progress.done || first_tracking(old(self).entries@, progress.chain_actor_id) < 0
                ==> {
                &&& final(self).entries@ == old(self).entries@
                &&& events@.len() == 0
            },
            progress.done && first_tracking(old(self).entries@, progress.chain_actor_id) >= 0
                ==> {
                let i = first_tracking(old(self).entries@, progress.chain_actor_id);
                let rest = without_actor(
                    old(self).entries@[i].remaining@,
                    progress.chain_actor_id,
                );
                if rest.len() == 0 {
                    &&& final(self).entries@ == old(self).entries@.remove(i)
                    &&& events@ == finish_events(old(self).entries@[i].notifiers@)
                } else {
                    &&& final(self).entries@.len() == old(self).entries@.len()
                    &&& (forall|j: int|
                        0 <= j < old(self).entries@.len() && j != i ==> final(self).entries@[j]
                            == old(self).entries@[j])
                    &&& final(self).entries@[i].epoch == old(self).entries@[i].epoch
                    &&& final(self).entries@[i].remaining@ == rest
                    &&& final(self).entries@[i].notifiers@ == old(self).entries@[i].notifiers@
                    &&& events@.len() == 0
                }
            },
    {
        if !progress.done {
            return Vec::new();
        }
        let a = progress.chain_actor_id;
        let found = find_tracking(&self.entries, a);
        let i = match found {
            None => {
                proof {
                    lemma_first_tracking_none(self.entries@, a);
                }
                return Vec::new();
            },
            Some(i) => i,
        };
        proof {
            lemma_first_tracking_at(self.entries@, a, i as int);
        }
        let mut entry = self.entries.remove(i);
        let rest = remove_actor(&entry.remaining, a);
        if rest.len() == 0 {
            let events = fire_finished(entry.notifiers);
            events
        } else {
            entry.remaining = rest;
            self.entries.insert(i, entry);
            Vec::new()
        }
    }

    /// Drop every tracked entry; used when recovery re-derives the fleet
    /// state. Pending `finished` slots are dropped without firing.
    pub fn reset(&mut self)
        ensures
            final(self).entries@.len() == 0,
            final(self).wf(),
    {
        self.entries = Vec::new();
    }
}

/// The first entry tracking the given actor, scanning in order.
fn find_tracking(entries: &Vec<ProgressEntry>, a: ActorId) -> (r: Option<usize>)
    ensures
        match r {
            Some(i) => {
                &&& i < entries@.len()
                &&& entries@[i as int].tracks(a)
                &&& forall|k: int| 0 <= k < i ==> !(#[trigger] entries@[k]).tracks(a)
            },
            None => forall|k: int|
                0 <= k < entries@.len() ==> !(#[trigger] entries@[k]).tracks(a),
        },
{
    let n = entries.len();
    let mut i: usize = 0;
    while i < n
        invariant
            n == entries@.len(),
            0 <= i <= n,
            forall|k: int| 0 <= k < i ==> !(#[trigger] entries@[k]).tracks(a),
        decreases n - i,
    {
        if contains_actor(&entries[i].remaining, a) {
            return Some(i);
        }
        i = i + 1;
    }
    None
}

/// Whether the given actor occurs in the list.
fn contains_actor(s: &Vec<ActorId>, a: ActorId) -> (r: bool)
    ensures
        r == s@.contains(a),
{
    let n = s.len();
    let mut i: usize = 0;
    while i < n
        invariant
            n == s@.len(),
            0 <= i <= n,
            forall|k: int| 0 <= k < i ==> s@[k] != a,
        decreases n - i,
    {
        if s[i] == a {
            return true;
        }
        i = i + 1;
    }
    false
}

/// A copy of the list with every occurrence of the given actor removed.
fn remove_actor(s: &Vec<ActorId>, a: ActorId) -> (r: Vec<ActorId>)
    ensures
        r@ == without_actor(s@, a),
{
    let n = s.len();
    let mut r: Vec<ActorId> = Vec::new();
    let mut i: usize = 0;
    proof {
        assert(s@.take(0) =~= Seq::<ActorId>::empty());
    }
    while i < n
        invariant
            n == s@.len(),
            0 <= i <= n,
            r@ == without_actor(s@.take(i as int), a),
        decreases n - i,
    {
        proof {
            assert(s@.take(i + 1).drop_last() =~= s@.take(i as int));
            assert(s@.take(i + 1).last() == s@[i as int]);
        }
        if s[i] != a {
            r.push(s[i]);
        }
        i = i + 1;
    }
    proof {
        assert(s@.take(n as int) =~= s@);
    }
    r
}

/// Fire `finished` on every notifier in order, consuming them.
fn fire_finished(notifiers: Vec<Notifier>) -> (events: Vec<NotifierEvent>)
    requires
        forall|j: int| 0 <= j < notifiers@.len() ==> awaiting_finish(#[trigger] notifiers@[j]),
    ensures
        events@ == finish_events(notifiers@),
{
    let ghost all = notifiers@;
    let mut rest = notifiers;
    let mut events: Vec<NotifierEvent> = Vec::new();
    proof {
        assert(events@ =~= finish_events(all.take(0)));
    }
    let n = rest.len();
    let mut i: usize = 0;
    while i < n
        invariant
            n == all.len(),
            0 <= i <= n,
            rest@ == all.skip(i as int),
            forall|j: int| 0 <= j < all.len() ==> awaiting_finish(#[trigger] all[j]),
            events@ == finish_events(all.take(i as int)),
        decreases n - i,
    {
        let mut notifier = rest.remove(0);
        proof {
            assert(notifier == all[i as int]);
        }
        let ev = notifier.notify_finished();
        events.push(ev);
        proof {
            assert(rest@ =~= all.skip(i + 1));
            assert(events@ =~= finish_events(all.take(i + 1)));
        }
        i = i + 1;
    }
    proof {
        assert(all.take(n as int) =~= all);
    }
    events
}

} // verus!
