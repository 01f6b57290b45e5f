//! The scheduled-barrier queue: a FIFO of pending commands with their
//! notifiers, a wake signal for the consumer, and head coalescing.
//!
//! The host serialises access (in a deployment the queue sits behind a lock)
//! and owns the actual wake channel; the methods here return whether the
//! wakeup must fire.

use std::collections::VecDeque;

use vstd::prelude::*;

use crate::command::Command;
use crate::error::BarrierError;
use crate::notifier::{Notifier, NotifierEvent, NotifierEventKind};

verus! {

/// One pending barrier: the command and the notifiers attached to it.
pub struct ScheduledEntry {
    pub command: Command,
    pub notifiers: Vec<Notifier>,
}

impl ScheduledEntry {
    /// Entries wait untouched in the queue: no notifier slot has fired yet.
    pub open spec fn wf(self) -> bool {
        forall|j: int|
            0 <= j < self.notifiers@.len() ==> (#[trigger] self.notifiers@[j]).untouched()
    }
}

/// The notifiers of a queue segment, entries in order and notifiers of one
/// entry in order.
pub open spec fn queued_notifiers(s: Seq<ScheduledEntry>) -> Seq<Notifier>
    decreases s.len(),
{
    if s.len() == 0 {
        Seq::empty()
    } else {
        s.first().notifiers@ + queued_notifiers(s.drop_first())
    }
}

/// The `failed` firings that aborting a queue of notifiers produces.
pub open spec fn abort_events(ns: Seq<Notifier>) -> Seq<NotifierEvent> {
    ns.map_values(
        |n: Notifier| NotifierEvent {
            notifier_id: n.id,
            kind: NotifierEventKind::Failed(BarrierError::Aborted),
        },
    )
}

/// A buffer of scheduled barriers, served FIFO.
pub struct ScheduledBarriers {
    pub buffer: VecDeque<ScheduledEntry>,
}

impl ScheduledBarriers {
    pub open spec fn wf(self) -> bool {
        forall|i: int| 0 <= i < self.buffer@.len() ==> (#[trigger] self.buffer@[i]).wf()
    }

    pub fn new() -> (r: Self)
        ensures
            r.buffer@.len() == 0,
            r.wf(),
    {
        ScheduledBarriers { buffer: VecDeque::new() }
    }

    /// Whether the queue holds no entry; the host awaits the wake signal
    /// when it does.
    pub fn is_empty(&self) -> (r: bool)
        ensures
            r == (self.buffer@.len() == 0),
    {
        self.buffer.len() == 0
    }

    /// Append an entry. The result says whether the queue was empty, in
    /// which case the host must fire the wakeup.
    pub fn push(&mut self, entry: ScheduledEntry) -> (wake: bool)
        requires
            old(self).wf(),
            entry.wf(),
        ensures
            final(self).buffer@ == old(self).buffer@.push(entry),
            final(self).wf(),
            wake == (old(self).buffer@.len() == 0),
    {
        let wake = self.buffer.len() == 0;
        self.buffer.push_back(entry);
        wake
    }

    /// Remove and return the head entry; when the queue is empty,
    /// synthesise a plain checkpoint with no notifiers instead.
    pub fn pop_or_default(&mut self) -> (r: ScheduledEntry)
        requires
            old(self).wf(),
        ensures
            final(self).wf(),
            old(self).buffer@.len() > 0 ==> {
                &&& r == old(self).buffer@[0]
                &&& final(self).buffer@ == old(self).buffer@.drop_first()
            },
            old(self).buffer@.len() == 0 ==> {
                &&& r.command is Plain
                &&& r.notifiers@.len() == 0
                &&& final(self).buffer@ == old(self).buffer@
            },
            r.wf(),
    {
        match self.buffer.pop_front() {
            Some(entry) => entry,
            None => ScheduledEntry { command: Command::checkpoint(), notifiers: Vec::new() },
        }
    }

    /// Attach notifiers to the head entry, so a waiter can piggyback on the
    /// next barrier; when the queue is empty, synthesise a plain checkpoint
    /// carrying them (and report that the wakeup must fire).
    pub fn attach_notifiers(&mut self, new_notifiers: Vec<Notifier>) -> (wake: bool)
        requires
            old(self).wf(),
            forall|j: int|
                0 <= j < new_notifiers@.len() ==> (#[trigger] new_notifiers@[j]).untouched(),
        ensures
            final(self).wf(),
            wake == (old(self).buffer@.len() == 0),
            old(self).buffer@.len() > 0 ==> {
                &&& final(self).buffer@.len() == old(self).buffer@.len()
                &&& final(self).buffer@[0].command == old(self).buffer@[0].command
                &&& final(self).buffer@[0].notifiers@ == old(self).buffer@[0].notifiers@
                    + new_notifiers@
                &&& forall|i: int|
                    1 <= i < old(self).buffer@.len() ==> final(self).buffer@[i] == old(
                        self,
                    ).buffer@[i]
            },
            old(self).buffer@.len() == 0 ==> {
                &&& final(self).buffer@.len() == 1
                &&& final(self).buffer@[0].command is Plain
                &&& final(self).buffer@[0].notifiers@ == new_notifiers@
            },
    {
        match self.buffer.pop_front() {
            Some(mut entry) => {
                let mut more = new_notifiers;
                entry.notifiers.append(&mut more);
                self.buffer.push_front(entry);
                false
            },
            None => {
                self.buffer.push_back(
                    ScheduledEntry { command: Command::checkpoint(), notifiers: new_notifiers },
                );
                true
            },
        }
    }

    /// Drain the queue, firing every attached notifier's `failed` slot with
    /// an "aborted" error. Returns the firings for the host to deliver.
    pub fn abort(&mut self) -> (events: Vec<NotifierEvent>)
        requires
            old(self).wf(),
        ensures
            final(self).buffer@.len() == 0,
            final(self).wf(),
            events@ == abort_events(queued_notifiers(old(self).buffer@)),
    {
        let mut events: Vec<NotifierEvent> = Vec::new();
        let ghost mut processed: Seq<Notifier> = Seq::empty();
        proof {
            assert(events@ =~= abort_events(processed));
            assert(queued_notifiers(old(self).buffer@) =~= processed + queued_notifiers(
                self.buffer@,
            ));
        }
        loop
            invariant
                self.wf(),
                events@ == abort_events(processed),
                queued_notifiers(old(self).buffer@) == processed + queued_notifiers(self.buffer@),
            ensures
                self.buffer@.len() == 0,
                events@ == abort_events(queued_notifiers(old(self).buffer@)),
            decreases self.buffer@.len(),
        {
            let ghost buffer_before = self.buffer@;
            let next = self.buffer.pop_front();
            match next {
                None => {
                    proof {
                        assert(queued_notifiers(self.buffer@) =~= Seq::<Notifier>::empty());
                        assert(queued_notifiers(old(self).buffer@) =~= processed);
                    }
                    break ;
                },
                Some(mut entry) => {
                    proof {
                        assert(buffer_before.drop_first() =~= self.buffer@);
                        assert(queued_notifiers(buffer_before) == entry.notifiers@
                            + queued_notifiers(self.buffer@));
                    }
                    while entry.notifiers.len() > 0
                        invariant
                            forall|k: int|
                                0 <= k < entry.notifiers@.len()
                                    ==> (#[trigger] entry.notifiers@[k]).untouched(),
                            events@ == abort_events(processed),
                            queued_notifiers(old(self).buffer@) == processed + entry.notifiers@
                                + queued_notifiers(self.buffer@),
                        decreases entry.notifiers@.len(),
                    {
                        let ghost remaining_before = entry.notifiers@;
                        let mut notifier = entry.notifiers.remove(0);
                        let ghost fresh_notifier = notifier;
                        let ev = notifier.notify_collection_failed(BarrierError::Aborted);
                        events.push(ev);
                        proof {
                            processed = processed.push(fresh_notifier);
                            assert(events@ =~= abort_events(processed));
                            assert(processed + entry.notifiers@ =~= processed.drop_last()
                                + remaining_before);
                        }
                    }
                    proof {
                        assert(processed + entry.notifiers@ =~= processed);
                    }
                },
            }
        }
        events
    }
}

} // verus!
