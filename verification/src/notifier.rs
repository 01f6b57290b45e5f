//! Notifiers: per-command completion records with four one-shot slots.
//!
//! A caller may arm any subset of the slots `to_send`, `collected`,
//! `finished` and `failed` when it schedules a command. The coordinator marks
//! the corresponding stages as the barrier advances and emits a
//! [`NotifierEvent`] for each stage reached; the host delivers an event on a
//! real channel only when the matching slot is armed.

use vstd::prelude::*;

use crate::error::BarrierError;

verus! {

/// A stage of a notifier's lifecycle, reported to the host for delivery.
#[derive(Clone, Copy, Debug, PartialEq, Eq, Structural)]
pub enum NotifierEventKind {
    /// Every worker acknowledged the inject phase of the barrier (or the
    /// fleet was empty and there was nothing to inject).
    Sent,
    /// All workers acknowledged collection and this epoch's storage commit
    /// and post-collect side effects succeeded.
    CollectedOk,
    /// All actors tracked by the command reported completion.
    Finished,
    /// The command was aborted or its barrier's epoch failed.
    Failed(BarrierError),
}

/// One firing of a notifier slot, addressed by the caller-chosen identity.
#[derive(Clone, Copy, Debug, PartialEq, Eq, Structural)]
pub struct NotifierEvent {
    pub notifier_id: u64,
    pub kind: NotifierEventKind,
}

/// The completion record attached to a scheduled command.
///
/// `wants_*` say which one-shot slots the caller armed; the remaining fields
/// record which stages the coordinator has marked. Slots fire at most once,
/// and dropping an armed slot without firing it is permitted.
pub struct Notifier {
    /// Caller-chosen identity, echoed in every event about this notifier.
    pub id: u64,
    pub wants_to_send: bool,
    pub wants_collected: bool,
    pub wants_finished: bool,
    pub wants_failed: bool,
    /// Every worker acknowledged the inject phase: the barrier was
    /// injected successfully.
    pub sent: bool,
    /// Collection and this epoch's commit both succeeded.
    pub collected: bool,
    /// Every tracked actor reported completion.
    pub finished: bool,
    /// The command was aborted or its epoch failed.
    pub failed: bool,
}

impl Notifier {
    /// The notifier law: success and failure are mutually exclusive,
    /// `finished` presupposes `collected`, and `collected` presupposes that
    /// the barrier was sent.
    pub open spec fn wf(self) -> bool {
        &&& !(self.collected && self.failed)
        &&& self.finished ==> self.collected
        &&& self.collected ==> self.sent
    }

    /// Nothing has been marked yet.
    pub open spec fn untouched(self) -> bool {
        !self.sent && !self.collected && !self.finished && !self.failed
    }

    /// A fresh notifier with exactly the given slots armed and nothing
    /// fired.
    pub open spec fn spec_with_slots(
        id: u64,
        to_send: bool,
        collected: bool,
        finished: bool,
        failed: bool,
    ) -> Notifier {
        Notifier {
            id,
            wants_to_send: to_send,
            wants_collected: collected,
            wants_finished: finished,
            wants_failed: failed,
            sent: false,
            collected: false,
            finished: false,
            failed: false,
        }
    }

    /// A notifier with no armed slot, as attached to fire-and-forget
    /// commands.
    pub fn new(id: u64) -> (r: Self)
        ensures
            r == Notifier::spec_with_slots(id, false, false, false, false),
            r.untouched(),
            r.wf(),
    {
        Notifier {
            id,
            wants_to_send: false,
            wants_collected: false,
            wants_finished: false,
            wants_failed: false,
            sent: false,
            collected: false,
            finished: false,
            failed: false,
        }
    }

    /// Arm a chosen subset of the slots.
    pub fn with_slots(
        id: u64,
        to_send: bool,
        collected: bool,
        finished: bool,
        failed: bool,
    ) -> (r: Self)
        ensures
            r == Notifier::spec_with_slots(id, to_send, collected, finished, failed),
            r.untouched(),
            r.wf(),
    {
        Notifier {
            id,
            wants_to_send: to_send,
            wants_collected: collected,
            wants_finished: finished,
            wants_failed: failed,
            sent: false,
            collected: false,
            finished: false,
            failed: false,
        }
    }

    /// Mark the barrier's inject phase as acknowledged by every worker.
    pub fn notify_to_send(&mut self) -> (ev: NotifierEvent)
        requires
            old(self).wf(),
            !old(self).sent,
        ensures
            *final(self) == (Notifier { sent: true, ..*old(self) }),
            final(self).wf(),
            ev == (NotifierEvent { notifier_id: old(self).id, kind: NotifierEventKind::Sent }),
    {
        self.sent = true;
        NotifierEvent { notifier_id: self.id, kind: NotifierEventKind::Sent }
    }

    /// Mark collection, storage commit and post-collect as all succeeded.
    pub fn notify_collected(&mut self) -> (ev: NotifierEvent)
        requires
            old(self).wf(),
            old(self).sent,
            !old(self).collected,
            !old(self).failed,
        ensures
            *final(self) == (Notifier { collected: true, ..*old(self) }),
            final(self).wf(),
            ev == (NotifierEvent {
                notifier_id: old(self).id,
                kind: NotifierEventKind::CollectedOk,
            }),
    {
        self.collected = true;
        NotifierEvent { notifier_id: self.id, kind: NotifierEventKind::CollectedOk }
    }

    /// Mark every tracked actor as done.
    pub fn notify_finished(&mut self) -> (ev: NotifierEvent)
        requires
            old(self).wf(),
            old(self).collected,
            !old(self).finished,
        ensures
            *final(self) == (Notifier { finished: true, ..*old(self) }),
            final(self).wf(),
            ev == (NotifierEvent {
                notifier_id: old(self).id,
                kind: NotifierEventKind::Finished,
            }),
    {
        self.finished = true;
        NotifierEvent { notifier_id: self.id, kind: NotifierEventKind::Finished }
    }

    /// Mark the command as failed with the given error.
    pub fn notify_collection_failed(&mut self, err: BarrierError) -> (ev: NotifierEvent)
        requires
            old(self).wf(),
            !old(self).collected,
            !old(self).failed,
        ensures
            *final(self) == (Notifier { failed: true, ..*old(self) }),
            final(self).wf(),
            ev == (NotifierEvent {
                notifier_id: old(self).id,
                kind: NotifierEventKind::Failed(err),
            }),
    {
        self.failed = true;
        NotifierEvent { notifier_id: self.id, kind: NotifierEventKind::Failed(err) }
    }
}

/// The `to_send` firings for a list of notifiers, in order.
pub open spec fn sent_events(ns: Seq<Notifier>) -> Seq<NotifierEvent> {
    ns.map_values(
        |n: Notifier| NotifierEvent { notifier_id: n.id, kind: NotifierEventKind::Sent },
    )
}

/// The `collected` firings for a list of notifiers, in order.
pub open spec fn collected_events(ns: Seq<Notifier>) -> Seq<NotifierEvent> {
    ns.map_values(
        |n: Notifier| NotifierEvent { notifier_id: n.id, kind: NotifierEventKind::CollectedOk },
    )
}

/// The `failed` firings for a list of notifiers, in order, all with the
/// same error.
pub open spec fn failed_events(ns: Seq<Notifier>, err: BarrierError) -> Seq<NotifierEvent> {
    ns.map_values(
        |n: Notifier| NotifierEvent { notifier_id: n.id, kind: NotifierEventKind::Failed(err) },
    )
}

/// Mark a whole list of fresh notifiers as sent, keeping them on their
/// pipeline node (or, for a skipped barrier, for immediate collection).
pub fn fire_to_send_all(notifiers: Vec<Notifier>) -> (r: (Vec<Notifier>, Vec<NotifierEvent>))
    requires
        forall|j: int| 0 <= j < notifiers@.len() ==> (#[trigger] notifiers@[j]).untouched(),
    ensures
        r.0@.len() == notifiers@.len(),
        forall|j: int|
            0 <= j < notifiers@.len() ==> r.0@[j] == (Notifier {
                sent: true,
                ..#[trigger] notifiers@[j]
            }),
        r.1@ == sent_events(notifiers@),
{
    let ghost all = notifiers@;
    let mut rest = notifiers;
    let mut kept: Vec<Notifier> = Vec::new();
    let mut events: Vec<NotifierEvent> = Vec::new();
    let n = rest.len();
    let mut i: usize = 0;
    proof {
        assert(events@ =~= sent_events(all.take(0)));
    }
    while i < n
        invariant
            n == all.len(),
            0 <= i <= n,
            rest@ == all.skip(i as int),
            forall|j: int| 0 <= j < all.len() ==> (#[trigger] all[j]).untouched(),
            kept@.len() == i,
            forall|j: int|
                0 <= j < i ==> kept@[j] == (Notifier { sent: true, ..#[trigger] all[j] }),
            events@ == sent_events(all.take(i as int)),
        decreases n - i,
    {
        let mut notifier = rest.remove(0);
        proof {
            assert(notifier == all[i as int]);
        }
        let ev = notifier.notify_to_send();
        events.push(ev);
        kept.push(notifier);
        proof {
            assert(rest@ =~= all.skip(i + 1));
            assert(events@ =~= sent_events(all.take(i + 1)));
        }
        i = i + 1;
    }
    proof {
        assert(all.take(n as int) =~= all);
    }
    (kept, events)
}

/// Mark a whole list of riding notifiers as collected, keeping them for
/// the progress tracker.
pub fn fire_collected_all(notifiers: Vec<Notifier>) -> (r: (Vec<Notifier>, Vec<NotifierEvent>))
    requires
        forall|j: int|
            0 <= j < notifiers@.len() ==> {
                let n = #[trigger] notifiers@[j];
                n.wf() && n.sent && !n.collected && !n.failed
            },
    ensures
        r.0@.len() == notifiers@.len(),
        forall|j: int|
            0 <= j < notifiers@.len() ==> r.0@[j] == (Notifier {
                collected: true,
                ..#[trigger] notifiers@[j]
            }),
        r.1@ == collected_events(notifiers@),
{
    let ghost all = notifiers@;
    let mut rest = notifiers;
    let mut kept: Vec<Notifier> = Vec::new();
    let mut events: Vec<NotifierEvent> = Vec::new();
    let n = rest.len();
    let mut i: usize = 0;
    proof {
        assert(events@ =~= collected_events(all.take(0)));
    }
    while i < n
        invariant
            n == all.len(),
            0 <= i <= n,
            rest@ == all.skip(i as int),
            forall|j: int|
                0 <= j < all.len() ==> {
                    let nt = #[trigger] all[j];
                    nt.wf() && nt.sent && !nt.collected && !nt.failed
                },
            kept@.len() == i,
            forall|j: int|
                0 <= j < i ==> kept@[j] == (Notifier { collected: true, ..#[trigger] all[j] }),
            events@ == collected_events(all.take(i as int)),
        decreases n - i,
    {
        let mut notifier = rest.remove(0);
        proof {
            assert(notifier == all[i as int]);
        }
        let ev = notifier.notify_collected();
        events.push(ev);
        kept.push(notifier);
        proof {
            assert(rest@ =~= all.skip(i + 1));
            assert(events@ =~= collected_events(all.take(i + 1)));
        }
        i = i + 1;
    }
    proof {
        assert(all.take(n as int) =~= all);
    }
    (kept, events)
}

/// Fire `failed` with the same error on a whole list of notifiers,
/// consuming them.
pub fn fire_failed_all(notifiers: Vec<Notifier>, err: BarrierError) -> (events: Vec<
    NotifierEvent,
>)
    requires
        forall|j: int|
            0 <= j < notifiers@.len() ==> {
                let n = #[trigger] notifiers@[j];
                n.wf() && !n.collected && !n.failed
            },
    ensures
        events@ == failed_events(notifiers@, err),
{
    let ghost all = notifiers@;
    let mut rest = notifiers;
    let mut events: Vec<NotifierEvent> = Vec::new();
    let n = rest.len();
    let mut i: usize = 0;
    proof {
        assert(events@ =~= failed_events(all.take(0), err));
    }
    while i < n
        invariant
            n == all.len(),
            0 <= i <= n,
            rest@ == all.skip(i as int),
            forall|j: int|
                0 <= j < all.len() ==> {
                    let nt = #[trigger] all[j];
                    nt.wf() && !nt.collected && !nt.failed
                },
            events@ == failed_events(all.take(i as int), err),
        decreases n - i,
    {
        let mut notifier = rest.remove(0);
        proof {
            assert(notifier == all[i as int]);
        }
        let ev = notifier.notify_collection_failed(err);
        events.push(ev);
        proof {
            assert(rest@ =~= all.skip(i + 1));
            assert(events@ =~= failed_events(all.take(i + 1), err));
        }
        i = i + 1;
    }
    proof {
        assert(all.take(n as int) =~= all);
    }
    events
}

/// The notifier law: for every notifier the coordinator handles,
/// `collected` (success) and `failed` never both fire, `finished` implies a
/// prior successful collection, and a collected barrier was necessarily
/// sent. The remaining clause of the law — `to_send` implies a successful
/// injection — is kept by the pipeline: a node's notifiers carry `sent`
/// exactly when its inject phase was acknowledged, and the empty-fleet
/// path injects nowhere.
pub proof fn lemma_notifier_law(n: Notifier)
    requires
        n.wf(),
    ensures
        !(n.collected && n.failed),
        n.finished ==> n.collected,
        n.collected ==> n.sent,
{
}

} // verus!
