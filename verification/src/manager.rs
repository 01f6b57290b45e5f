//! The global barrier coordinator's decision core.
//!
//! The host runs the surrounding loop: it selects over shutdown, the
//! completion channel, the queue wakeup and the interval tick, performs the
//! RPC fan-outs, storage commits, persistence and recovery, and feeds every
//! result back here. This module makes all the decisions: which command a
//! barrier carries, which epoch it gets, when it may be injected, in which
//! order epochs commit, which notifier slots fire, and when the fleet must
//! be drained and recovered.

use vstd::prelude::*;

use crate::command::Command;
use crate::epoch::{next_epoch, INVALID_EPOCH};
use crate::error::BarrierError;
use crate::info::BarrierActorInfo;
use crate::notifier::{
    collected_events, failed_events, fire_collected_all, fire_failed_all, fire_to_send_all,
    sent_events, Notifier, NotifierEvent,
};
use crate::pipeline::{
    collect_mview_progress, collect_synced_ssts, count_in_flight, first_in_flight_at,
    has_build_actor, has_failed, lemma_count_in_flight_le_len, lemma_first_in_flight_at,
    mview_progress_of, node_awaits, synced_ssts, BarrierCompleteResponse, BarrierEpochState,
    CommandContext, ConcurrentControl, EpochNode, GroupedSstableInfo,
};
use crate::progress::{awaiting_finish, finish_events, CreateMviewProgress, CreateMviewProgressTracker};
use crate::protocol::{
    build_complete_requests, build_inject_requests, complete_request_matches,
    inject_request_matches, participants, BarrierCompleteRequest, InjectBarrierRequest,
};
use crate::scheduled::{ScheduledBarriers, ScheduledEntry};
use crate::TableId;

verus! {

/// A sequence of epochs in strictly ascending order.
pub open spec fn strictly_increasing(s: Seq<u64>) -> bool {
    forall|i: int, j: int| 0 <= i < j < s.len() ==> s[i] < s[j]
}

/// What the host must do next for the pipeline head.
#[derive(Clone, Copy, Debug, PartialEq, Eq, Structural)]
pub enum HeadStep {
    /// Commit the head's previous epoch to storage, with the sstables of
    /// [`GlobalBarrierManager::head_commit_request`].
    CommitStorage,
    /// Run the head command's post-collect side effects.
    PostCollect,
    /// Nothing to do for the head right now.
    Idle,
}

/// The outcome of handing the pending command to the fleet.
pub enum InjectOutcome {
    /// The fleet was empty: no RPC, no epoch, no pipeline node. The
    /// command's notifiers fired `to_send` and then `collected` at once.
    Skipped { events: Vec<NotifierEvent> },
    /// A new epoch was allocated and a node pushed in flight. The host
    /// must persist `curr_epoch` as the in-flight boundary and send every
    /// request of the inject phase. Once all of them are acknowledged it
    /// reports so through [`GlobalBarrierManager::on_inject_acked`] (which
    /// fires the `to_send` slots) and fans out the collect phase, feeding
    /// the result back through
    /// [`GlobalBarrierManager::on_barrier_complete`]; when any inject
    /// request fails, it feeds back an inject failure instead and no
    /// `to_send` fires.
    Injected {
        prev_epoch: u64,
        curr_epoch: u64,
        requests: Vec<InjectBarrierRequest>,
        collect_requests: Vec<BarrierCompleteRequest>,
    },
}

/// The coordinator: scheduling queue, epoch pipeline, progress tracker and
/// the persisted epoch boundary, with the history of injections and
/// commits carried as ghost state.
pub struct GlobalBarrierManager {
    /// Whether a failure leads to recovery (or must end the process).
    pub enable_recovery: bool,
    /// The sole admission control: the pipeline holds at most this many
    /// barriers.
    pub in_flight_barrier_nums: usize,
    /// The queue of scheduled barriers.
    pub scheduled_barriers: ScheduledBarriers,
    /// The in-flight epoch boundary, persisted by the host before each
    /// injection.
    pub in_flight_prev_epoch: u64,
    /// The admission flags and the epoch pipeline.
    pub control: ConcurrentControl,
    /// Backfill progress of create-materialized-view commands.
    pub tracker: CreateMviewProgressTracker,
    /// The entry popped from the queue while the host resolves the fleet
    /// topology for it.
    pub pending: Option<ScheduledEntry>,
    /// Every `curr_epoch` ever injected, in injection order.
    pub injected_epochs: Ghost<Seq<u64>>,
    /// Every epoch ever committed to storage, in commit order.
    pub committed_epochs: Ghost<Seq<u64>>,
}

impl GlobalBarrierManager {
    /// The coordinator's invariant, preserved by every operation.
    pub open spec fn inv(self) -> bool {
        let q = self.control.queue@;
        &&& self.control.wf()
        &&& self.scheduled_barriers.wf()
        &&& self.tracker.wf()
        &&& q.len() <= self.in_flight_barrier_nums
        &&& (self.pending matches Some(e) ==> e.wf())
        // at most one actor-building command is ever in the pipeline
        &&& (forall|i: int, j: int|
            0 <= i < j < q.len() ==> !((#[trigger] q[i]).command_ctx.command.spec_builds_actors()
                && (#[trigger] q[j]).command_ctx.command.spec_builds_actors()))
        // epochs chain up to the persisted boundary
        &&& (q.len() > 0 ==> q.last().command_ctx.curr_epoch == self.in_flight_prev_epoch)
        &&& (forall|i: int|
            0 <= i < q.len() ==> (#[trigger] q[i]).command_ctx.curr_epoch
                <= self.in_flight_prev_epoch)
        // injection history
        &&& strictly_increasing(self.injected_epochs@)
        &&& (self.injected_epochs@.len() > 0 ==> self.injected_epochs@.last()
            <= self.in_flight_prev_epoch)
        // commit history
        &&& strictly_increasing(self.committed_epochs@)
        &&& (self.committed_epochs@.len() > 0 && q.len() > 0 ==> {
            ||| self.committed_epochs@.last() < q[0].command_ctx.prev_epoch
            ||| (q[0].committed && self.committed_epochs@.last() == q[0].command_ctx.prev_epoch)
        })
        &&& (self.committed_epochs@.len() > 0 ==> self.committed_epochs@.last()
            < self.in_flight_prev_epoch)
    }

    /// A fresh coordinator resuming from a persisted epoch boundary.
    pub fn new(enable_recovery: bool, in_flight_barrier_nums: usize, in_flight_prev_epoch: u64)
        -> (r: Self)
        ensures
            r.inv(),
            r.enable_recovery == enable_recovery,
            r.in_flight_barrier_nums == in_flight_barrier_nums,
            r.in_flight_prev_epoch == in_flight_prev_epoch,
            r.scheduled_barriers.buffer@.len() == 0,
            r.control.queue@.len() == 0,
            !r.control.is_recovery,
            !r.control.is_build_actor,
            r.tracker.entries@.len() == 0,
            r.pending is None,
            r.injected_epochs@.len() == 0,
            r.committed_epochs@.len() == 0,
    {
        GlobalBarrierManager {
            enable_recovery,
            in_flight_barrier_nums,
            scheduled_barriers: ScheduledBarriers::new(),
            in_flight_prev_epoch,
            control: ConcurrentControl::new(),
            tracker: CreateMviewProgressTracker::new(),
            pending: None,
            injected_epochs: Ghost(Seq::empty()),
            committed_epochs: Ghost(Seq::empty()),
        }
    }

    /// Append a command with one notifier to the scheduling queue. The
    /// result says whether the host must fire the queue wakeup.
    pub fn do_schedule(&mut self, command: Command, notifier: Notifier) -> (wake: bool)
        requires
            old(self).inv(),
            notifier.untouched(),
        ensures
            final(self).inv(),
            final(self).in_flight_barrier_nums == old(self).in_flight_barrier_nums,
            final(self).enable_recovery == old(self).enable_recovery,
            final(self).scheduled_barriers.buffer@.len() == old(self).scheduled_barriers.buffer@.len() + 1,
            final(self).scheduled_barriers.buffer@.last().command == command,
            final(self).scheduled_barriers.buffer@.last().notifiers@ == seq![notifier],
            forall|i: int|
                0 <= i < old(self).scheduled_barriers.buffer@.len() ==> final(self).scheduled_barriers.buffer@[i] == old(self).scheduled_barriers.buffer@[i],
            wake == (old(self).scheduled_barriers.buffer@.len() == 0),
            final(self).control == old(self).control,
            final(self).tracker == old(self).tracker,
            final(self).pending == old(self).pending,
            final(self).in_flight_prev_epoch == old(self).in_flight_prev_epoch,
            final(self).injected_epochs@ == old(self).injected_epochs@,
            final(self).committed_epochs@ == old(self).committed_epochs@,
    {
        let mut notifiers: Vec<Notifier> = Vec::new();
        notifiers.push(notifier);
        let entry = ScheduledEntry { command, notifiers };
        proof {
            assert(entry.notifiers@ =~= seq![notifier]);
        }
        self.scheduled_barriers.push(entry)
    }

    /// Schedule a command and return immediately, fire-and-forget: the
    /// command is appended at the back of the queue with one notifier that
    /// arms no slot, and every entry already queued stays as it was.
    pub fn schedule_command(&mut self, command: Command) -> (wake: bool)
        requires
            old(self).inv(),
        ensures
            final(self).inv(),
            final(self).in_flight_barrier_nums == old(self).in_flight_barrier_nums,
            final(self).enable_recovery == old(self).enable_recovery,
            final(self).scheduled_barriers.buffer@.len() == old(self).scheduled_barriers.buffer@.len() + 1,
            final(self).scheduled_barriers.buffer@.last().command == command,
            final(self).scheduled_barriers.buffer@.last().notifiers@ == seq![
                Notifier::spec_with_slots(0, false, false, false, false),
            ],
            forall|i: int|
                0 <= i < old(self).scheduled_barriers.buffer@.len() ==> final(self).scheduled_barriers.buffer@[i] == old(self).scheduled_barriers.buffer@[i],
            wake == (old(self).scheduled_barriers.buffer@.len() == 0),
            final(self).control == old(self).control,
            final(self).tracker == old(self).tracker,
            final(self).pending == old(self).pending,
            final(self).in_flight_prev_epoch == old(self).in_flight_prev_epoch,
            final(self).injected_epochs@ == old(self).injected_epochs@,
            final(self).committed_epochs@ == old(self).committed_epochs@,
    {
        self.do_schedule(command, Notifier::new(0))
    }

    /// Schedule a command whose caller awaits the barrier being sent: the
    /// command is appended at the back of the queue — keeping FIFO order
    /// with every command already scheduled — with one notifier arming only
    /// the `to_send` slot under the given identity.
    pub fn issue_command(&mut self, command: Command, notifier_id: u64) -> (wake: bool)
        requires
            old(self).inv(),
        ensures
            final(self).inv(),
            final(self).in_flight_barrier_nums == old(self).in_flight_barrier_nums,
            final(self).enable_recovery == old(self).enable_recovery,
            final(self).scheduled_barriers.buffer@.len() == old(self).scheduled_barriers.buffer@.len() + 1,
            final(self).scheduled_barriers.buffer@.last().command == command,
            final(self).scheduled_barriers.buffer@.last().notifiers@ == seq![
                Notifier::spec_with_slots(notifier_id, true, false, false, false),
            ],
            forall|i: int|
                0 <= i < old(self).scheduled_barriers.buffer@.len() ==> final(self).scheduled_barriers.buffer@[i] == old(self).scheduled_barriers.buffer@[i],
            wake == (old(self).scheduled_barriers.buffer@.len() == 0),
            final(self).control == old(self).control,
            final(self).tracker == old(self).tracker,
            final(self).pending == old(self).pending,
            final(self).in_flight_prev_epoch == old(self).in_flight_prev_epoch,
            final(self).injected_epochs@ == old(self).injected_epochs@,
            final(self).committed_epochs@ == old(self).committed_epochs@,
    {
        self.do_schedule(command, Notifier::with_slots(notifier_id, true, false, false, false))
    }

    /// Schedule a command whose caller awaits full completion: the
    /// `collected` and `finished` slots are armed under the given identity.
    /// The second result says whether the caller must hold a storage
    /// snapshot pin between `collected` and `finished` (it must for a
    /// create-materialized-view command, whose snapshot ingestion spans
    /// epochs).
    pub fn run_command(&mut self, command: Command, notifier_id: u64) -> (r: (bool, bool))
        requires
            old(self).inv(),
        ensures
            final(self).inv(),
            final(self).in_flight_barrier_nums == old(self).in_flight_barrier_nums,
            final(self).enable_recovery == old(self).enable_recovery,
            final(self).scheduled_barriers.buffer@.len() == old(self).scheduled_barriers.buffer@.len() + 1,
            final(self).scheduled_barriers.buffer@.last().command == command,
            final(self).scheduled_barriers.buffer@.last().notifiers@ == seq![
                Notifier::spec_with_slots(notifier_id, false, true, true, false),
            ],
            forall|i: int|
                0 <= i < old(self).scheduled_barriers.buffer@.len() ==> final(self).scheduled_barriers.buffer@[i] == old(self).scheduled_barriers.buffer@[i],
            r.0 == (old(self).scheduled_barriers.buffer@.len() == 0),
            r.1 == (command is CreateMaterializedView),
            final(self).control == old(self).control,
            final(self).tracker == old(self).tracker,
            final(self).pending == old(self).pending,
            final(self).in_flight_prev_epoch == old(self).in_flight_prev_epoch,
            final(self).injected_epochs@ == old(self).injected_epochs@,
            final(self).committed_epochs@ == old(self).committed_epochs@,
    {
        let is_create_mv = matches!(command, Command::CreateMaterializedView { .. });
        let wake = self.do_schedule(
            command,
            Notifier::with_slots(notifier_id, false, true, true, false),
        );
        (wake, is_create_mv)
    }

    /// Attach a `collected` waiter to the head scheduled entry, so it
    /// piggybacks on the very next barrier: the head keeps its command and
    /// previously attached notifiers and gains one notifier arming only the
    /// `collected` slot; every other entry stays as it was. When the queue
    /// is empty, a plain checkpoint carrying exactly that notifier is
    /// synthesised instead and the wakeup fires.
    pub fn wait_for_next_barrier_to_collect(&mut self, notifier_id: u64) -> (wake: bool)
        requires
            old(self).inv(),
        ensures
            final(self).inv(),
            final(self).in_flight_barrier_nums == old(self).in_flight_barrier_nums,
            final(self).enable_recovery == old(self).enable_recovery,
            wake == (old(self).scheduled_barriers.buffer@.len() == 0),
            old(self).scheduled_barriers.buffer@.len() > 0 ==> {
                &&& final(self).scheduled_barriers.buffer@.len() == old(self).scheduled_barriers.buffer@.len()
                &&& final(self).scheduled_barriers.buffer@[0].command == old(self).scheduled_barriers.buffer@[0].command
                &&& final(self).scheduled_barriers.buffer@[0].notifiers@ == old(self).scheduled_barriers.buffer@[0].notifiers@ + seq![
                    Notifier::spec_with_slots(notifier_id, false, true, false, false),
                ]
                &&& forall|i: int|
                    1 <= i < old(self).scheduled_barriers.buffer@.len() ==> final(self).scheduled_barriers.buffer@[i] == old(self).scheduled_barriers.buffer@[i]
            },
            old(self).scheduled_barriers.buffer@.len() == 0 ==> {
                &&& final(self).scheduled_barriers.buffer@.len() == 1
                &&& final(self).scheduled_barriers.buffer@[0].command is Plain
                &&& final(self).scheduled_barriers.buffer@[0].notifiers@ == seq![
                    Notifier::spec_with_slots(notifier_id, false, true, false, false),
                ]
            },
            final(self).control == old(self).control,
            final(self).tracker == old(self).tracker,
            final(self).pending == old(self).pending,
            final(self).in_flight_prev_epoch == old(self).in_flight_prev_epoch,
            final(self).injected_epochs@ == old(self).injected_epochs@,
            final(self).committed_epochs@ == old(self).committed_epochs@,
    {
        let mut notifiers: Vec<Notifier> = Vec::new();
        notifiers.push(Notifier::with_slots(notifier_id, false, true, false, false));
        proof {
            assert(notifiers@ =~= seq![
                Notifier::spec_with_slots(notifier_id, false, true, false, false),
            ]);
        }
        self.scheduled_barriers.attach_notifiers(notifiers)
    }
    /// Take the next barrier to send: pop the head of the scheduling queue
    /// (or synthesise a plain checkpoint when the queue is empty, as the
    /// periodic tick does) and stash it while the host resolves the fleet
    /// topology. The result is the table the command is creating, if any,
    /// which the topology resolution needs.
    pub fn begin_barrier(&mut self) -> (r: Option<TableId>)
        requires
            old(self).inv(),
            old(self).pending is None,
            !old(self).control.is_recovery,
            !old(self).control.is_build_actor,
            old(self).control.queue@.len() < old(self).in_flight_barrier_nums,
        ensures
            final(self).inv(),
            final(self).in_flight_barrier_nums == old(self).in_flight_barrier_nums,
            final(self).enable_recovery == old(self).enable_recovery,
            final(self).pending is Some,
            old(self).scheduled_barriers.buffer@.len() > 0 ==> {
                &&& final(self).pending == Some(old(self).scheduled_barriers.buffer@[0])
                &&& final(self).scheduled_barriers.buffer@ == old(self).scheduled_barriers.buffer@.drop_first()
            },
            old(self).scheduled_barriers.buffer@.len() == 0 ==> {
                &&& final(self).pending.unwrap().command is Plain
                &&& final(self).pending.unwrap().notifiers@.len() == 0
                &&& final(self).scheduled_barriers.buffer@ == old(self).scheduled_barriers.buffer@
            },
            r == final(self).pending.unwrap().command.spec_creating_table_id(),
            final(self).control == old(self).control,
            final(self).tracker == old(self).tracker,
            final(self).in_flight_prev_epoch == old(self).in_flight_prev_epoch,
            final(self).injected_epochs@ == old(self).injected_epochs@,
            final(self).committed_epochs@ == old(self).committed_epochs@,
    {
        let entry = self.scheduled_barriers.pop_or_default();
        let r = entry.command.creating_table_id();
        self.pending = Some(entry);
        r
    }

    /// Hand the pending command to the resolved fleet. When the fleet has
    /// nothing to collect, the barrier is skipped entirely; otherwise the
    /// next epoch is allocated and an in-flight node enters the pipeline,
    /// its notifiers untouched until the inject phase is acknowledged.
    #[verifier::rlimit(100)]
    #[verifier::spinoff_prover]
    pub fn inject_pending(&mut self, info: BarrierActorInfo) -> (r: InjectOutcome)
        requires
            old(self).inv(),
            old(self).pending is Some,
            !old(self).control.is_recovery,
            !old(self).control.is_build_actor,
            old(self).control.queue@.len() < old(self).in_flight_barrier_nums,
            old(self).in_flight_prev_epoch < u64::MAX,
            info.wf(),
        ensures
            final(self).inv(),
            final(self).in_flight_barrier_nums == old(self).in_flight_barrier_nums,
            final(self).enable_recovery == old(self).enable_recovery,
            final(self).pending is None,
            final(self).scheduled_barriers == old(self).scheduled_barriers,
            final(self).tracker == old(self).tracker,
            final(self).committed_epochs@ == old(self).committed_epochs@,
            info.spec_nothing_to_do() ==> {
                &&& final(self).control == old(self).control
                &&& final(self).in_flight_prev_epoch == old(self).in_flight_prev_epoch
                &&& final(self).injected_epochs@ == old(self).injected_epochs@
                &&& r matches InjectOutcome::Skipped { events } && events@ == sent_events(
                    old(self).pending.unwrap().notifiers@,
                ) + collected_events(old(self).pending.unwrap().notifiers@)
            },
            !info.spec_nothing_to_do() ==> {
                let entry = old(self).pending.unwrap();
                let prev = old(self).in_flight_prev_epoch;
                let curr = old(self).in_flight_prev_epoch + 1;
                let q0 = old(self).control.queue@;
                let q1 = final(self).control.queue@;
                &&& final(self).in_flight_prev_epoch == curr
                &&& final(self).injected_epochs@ == old(self).injected_epochs@.push(curr as u64)
                &&& !final(self).control.is_recovery
                &&& final(self).control.is_build_actor
                    == entry.command.spec_builds_actors()
                &&& q1.len() == q0.len() + 1
                &&& (forall|i: int| 0 <= i < q0.len() ==> q1[i] == q0[i])
                &&& q1.last().state is InFlight
                &&& !q1.last().inject_acked
                &&& !q1.last().committed
                &&& q1.last().command_ctx.prev_epoch == prev
                &&& q1.last().command_ctx.curr_epoch == curr
                &&& q1.last().command_ctx.command == entry.command
                &&& q1.last().command_ctx.info == info
                &&& q1.last().notifiers@ == entry.notifiers@
                &&& r matches InjectOutcome::Injected {
                    prev_epoch,
                    curr_epoch,
                    requests,
                    collect_requests,
                }
                &&& prev_epoch == prev
                &&& curr_epoch == curr
                &&& requests@.len() == participants(info.workers@).len()
                &&& (forall|k: int|
                    0 <= k < requests@.len() ==> inject_request_matches(
                        #[trigger] requests@[k],
                        participants(info.workers@)[k],
                        prev,
                        curr as u64,
                        entry.command,
                    ))
                &&& collect_requests@.len() == participants(info.workers@).len()
                &&& (forall|k: int|
                    0 <= k < collect_requests@.len() ==> complete_request_matches(
                        #[trigger] collect_requests@[k],
                        participants(info.workers@)[k],
                        prev,
                    ))
            },
    {
        let entry = self.pending.take().unwrap();
        let ScheduledEntry { command, notifiers } = entry;
        if info.nothing_to_do() {
            let (marked, mut events) = fire_to_send_all(notifiers);
            proof {
                assert forall|j: int| 0 <= j < marked@.len() implies {
                    let n = #[trigger] marked@[j];
                    n.wf() && n.sent && !n.collected && !n.failed
                } by {
                    assert(old(self).pending.unwrap().notifiers@[j].untouched());
                }
            }
            let (_dropped, mut col_events) = fire_collected_all(marked);
            events.append(&mut col_events);
            return InjectOutcome::Skipped { events };
        }
        let prev = self.in_flight_prev_epoch;
        let curr = next_epoch(prev);
        self.in_flight_prev_epoch = curr;
        let requests = build_inject_requests(&info, prev, curr, &command);
        let collect_requests = build_complete_requests(&info, prev);
        proof {
            assert forall|j: int| 0 <= j < notifiers@.len() implies (
            #[trigger] notifiers@[j]).untouched() && notifiers@[j].wf() by {
                assert(old(self).pending.unwrap().notifiers@[j].untouched());
            }
        }
        let ctx = CommandContext::new(info, prev, curr, command);
        self.control.inject_barrier(ctx, notifiers);
        self.injected_epochs = Ghost(self.injected_epochs@.push(curr));
        InjectOutcome::Injected { prev_epoch: prev, curr_epoch: curr, requests, collect_requests }
    }

    /// Record a completion delivered on the completion channel: the result
    /// of the collect phase of the barrier whose previous epoch is
    /// `prev_epoch` (or of its inject phase, when that failed). Completions
    /// may arrive in any order; one that matches no in-flight node — a
    /// result arriving after a drain — is dropped.
    pub fn on_barrier_complete(
        &mut self,
        prev_epoch: u64,
        result: Result<Vec<BarrierCompleteResponse>, BarrierError>,
    )
        requires
            old(self).inv(),
        ensures
            final(self).inv(),
            final(self).in_flight_barrier_nums == old(self).in_flight_barrier_nums,
            final(self).enable_recovery == old(self).enable_recovery,
            final(self).scheduled_barriers == old(self).scheduled_barriers,
            final(self).tracker == old(self).tracker,
            final(self).pending == old(self).pending,
            final(self).in_flight_prev_epoch == old(self).in_flight_prev_epoch,
            final(self).injected_epochs@ == old(self).injected_epochs@,
            final(self).committed_epochs@ == old(self).committed_epochs@,
            final(self).control.is_build_actor == old(self).control.is_build_actor,
            first_in_flight_at(old(self).control.queue@, prev_epoch) < 0 ==> final(self).control
                == old(self).control,
            first_in_flight_at(old(self).control.queue@, prev_epoch) >= 0 ==> {
                let i = first_in_flight_at(old(self).control.queue@, prev_epoch);
                let q0 = old(self).control.queue@;
                let q1 = final(self).control.queue@;
                &&& q1.len() == q0.len()
                &&& (forall|j: int| 0 <= j < q0.len() && j != i ==> q1[j] == q0[j])
                &&& q1[i].command_ctx == q0[i].command_ctx
                &&& q1[i].notifiers == q0[i].notifiers
                &&& q1[i].inject_acked == q0[i].inject_acked
                &&& !q1[i].committed
                &&& (result matches Ok(resps) ==> {
                    &&& q1[i].state == BarrierEpochState::Complete(resps)
                    &&& final(self).control.is_recovery == old(self).control.is_recovery
                })
                &&& (result matches Err(e) ==> {
                    &&& q1[i].state == BarrierEpochState::Fail(e)
                    &&& final(self).control.is_recovery
                })
            },
    {
        let found = self.control.find_in_flight(prev_epoch);
        let i = match found {
            None => {
                return ;
            },
            Some(i) => i,
        };
        let mut node = self.control.queue.remove(i).unwrap();
        match result {
            Ok(resps) => {
                node.state = BarrierEpochState::Complete(resps);
            },
            Err(e) => {
                node.state = BarrierEpochState::Fail(e);
                self.control.is_recovery = true;
            },
        }
        self.control.queue.insert(i, node);
        proof {
            let q0 = old(self).control.queue@;
            let q1 = self.control.queue@;
            assert(q1 =~= q0.update(i as int, q1[i as int]));
            assert forall|a: int, b: int|
                0 <= a && b == a + 1 && b < q1.len() implies (#[trigger] q1[b]).command_ctx.prev_epoch
                == (#[trigger] q1[a]).command_ctx.curr_epoch by {
                assert(q0[b].command_ctx.prev_epoch == q0[a].command_ctx.curr_epoch);
                assert(q1[a].command_ctx == q0[a].command_ctx);
                assert(q1[b].command_ctx == q0[b].command_ctx);
            }
            if self.control.is_build_actor {
                let w = choose|w: int|
                    0 <= w < q0.len() && (#[trigger] q0[w]).command_ctx.command.spec_builds_actors();
                assert(q1[w].command_ctx == q0[w].command_ctx);
                assert(has_build_actor(q1));
            } else {
                assert forall|w: int| 0 <= w < q1.len() implies !(
                #[trigger] q1[w]).command_ctx.command.spec_builds_actors() by {
                    assert(q1[w].command_ctx == q0[w].command_ctx);
                }
            }
            if has_failed(q1) && !has_failed(q0) {
                let w = choose|w: int| 0 <= w < q1.len() && (#[trigger] q1[w]).state is Fail;
                assert(w == i as int);
            }
        }
    }

    /// Record that every worker acknowledged the inject phase of the
    /// barrier whose previous epoch is `prev_epoch`: only now do the
    /// barrier's `to_send` slots fire, so `to_send` implies a successful
    /// injection. A second acknowledgement, or one for an epoch no longer
    /// in flight, changes nothing.
    pub fn on_inject_acked(&mut self, prev_epoch: u64) -> (events: Vec<NotifierEvent>)
        requires
            old(self).inv(),
        ensures
            final(self).inv(),
            final(self).in_flight_barrier_nums == old(self).in_flight_barrier_nums,
            final(self).enable_recovery == old(self).enable_recovery,
            final(self).scheduled_barriers == old(self).scheduled_barriers,
            final(self).tracker == old(self).tracker,
            final(self).pending == old(self).pending,
            final(self).in_flight_prev_epoch == old(self).in_flight_prev_epoch,
            final(self).injected_epochs@ == old(self).injected_epochs@,
            final(self).committed_epochs@ == old(self).committed_epochs@,
            final(self).control.is_build_actor == old(self).control.is_build_actor,
            final(self).control.is_recovery == old(self).control.is_recovery,
            first_in_flight_at(old(self).control.queue@, prev_epoch) < 0 ==> {
                &&& final(self).control == old(self).control
                &&& events@.len() == 0
            },
            first_in_flight_at(old(self).control.queue@, prev_epoch) >= 0 ==> {
                let i = first_in_flight_at(old(self).control.queue@, prev_epoch);
                let q0 = old(self).control.queue@;
                let q1 = final(self).control.queue@;
                if q0[i].inject_acked {
                    &&& final(self).control == old(self).control
                    &&& events@.len() == 0
                } else {
                    &&& q1.len() == q0.len()
                    &&& (forall|j: int| 0 <= j < q0.len() && j != i ==> q1[j] == q0[j])
                    &&& q1[i].command_ctx == q0[i].command_ctx
                    &&& q1[i].state == q0[i].state
                    &&& q1[i].committed == q0[i].committed
                    &&& q1[i].inject_acked
                    &&& q1[i].notifiers@.len() == q0[i].notifiers@.len()
                    &&& (forall|j: int|
                        0 <= j < q0[i].notifiers@.len() ==> q1[i].notifiers@[j] == (Notifier {
                            sent: true,
                            ..#[trigger] q0[i].notifiers@[j]
                        }))
                    &&& events@ == sent_events(q0[i].notifiers@)
                }
            },
    {
        let found = self.control.find_in_flight(prev_epoch);
        let i = match found {
            None => {
                return Vec::new();
            },
            Some(i) => i,
        };
        let ghost q0 = old(self).control.queue@;
        if self.control.queue[i].inject_acked {
            return Vec::new();
        }
        let mut node = self.control.queue.remove(i).unwrap();
        proof {
            assert forall|j: int| 0 <= j < node.notifiers@.len() implies (
            #[trigger] node.notifiers@[j]).untouched() by {
                assert(EpochNode::notifier_riding(q0[i as int].notifiers@[j], false));
            }
        }
        let (marked, events) = fire_to_send_all(node.notifiers);
        node.notifiers = marked;
        node.inject_acked = true;
        self.control.queue.insert(i, node);
        proof {
            let q1 = self.control.queue@;
            assert(q1 =~= q0.update(i as int, q1[i as int]));
            assert forall|w: int|
                0 <= w < q1.len() implies (#[trigger] q1[w]).command_ctx == q0[w].command_ctx
                && q1[w].state == q0[w].state && q1[w].committed == q0[w].committed by {
                if w != i {
                    assert(q1[w] == q0[w]);
                }
            }
            assert forall|j: int|
                0 <= j < q1[i as int].notifiers@.len() implies EpochNode::notifier_riding(
                #[trigger] q1[i as int].notifiers@[j],
                true,
            ) by {
                assert(EpochNode::notifier_riding(q0[i as int].notifiers@[j], false));
                assert(q1[i as int].notifiers@[j] == (Notifier {
                    sent: true,
                    ..q0[i as int].notifiers@[j]
                }));
            }
            assert(q1[i as int].wf());
            assert forall|a: int, b: int|
                0 <= a && b == a + 1 && b < q1.len() implies (#[trigger] q1[b]).command_ctx.prev_epoch
                == (#[trigger] q1[a]).command_ctx.curr_epoch by {
                assert(q0[b].command_ctx.prev_epoch == q0[a].command_ctx.curr_epoch);
            }
            if self.control.is_build_actor {
                let w = choose|w: int|
                    0 <= w < q0.len() && (#[trigger] q0[w]).command_ctx.command.spec_builds_actors();
                assert(q1[w].command_ctx == q0[w].command_ctx);
                assert(has_build_actor(q1));
            } else {
                assert forall|w: int| 0 <= w < q1.len() implies !(
                #[trigger] q1[w]).command_ctx.command.spec_builds_actors() by {
                    assert(q1[w].command_ctx == q0[w].command_ctx);
                }
            }
            if has_failed(q1) {
                let w = choose|w: int| 0 <= w < q1.len() && (#[trigger] q1[w]).state is Fail;
                assert(q0[w].state is Fail);
                assert(has_failed(q0));
            }
        }
        events
    }

    /// What the host must do next for the pipeline head: commit its epoch
    /// to storage, run its post-collect side effects, or nothing.
    pub open spec fn spec_next_head_step(self) -> HeadStep {
        let q = self.control.queue@;
        if q.len() == 0 {
            HeadStep::Idle
        } else if !(q[0].state is Complete) {
            HeadStep::Idle
        } else if !q[0].committed && q[0].command_ctx.prev_epoch != INVALID_EPOCH {
            HeadStep::CommitStorage
        } else {
            HeadStep::PostCollect
        }
    }

    /// Executable twin of [`Self::spec_next_head_step`].
    pub fn next_head_step(&self) -> (r: HeadStep)
        ensures
            r == self.spec_next_head_step(),
    {
        if self.control.queue.len() == 0 {
            return HeadStep::Idle;
        }
        let node = &self.control.queue[0];
        if !matches!(node.state, BarrierEpochState::Complete(_)) {
            return HeadStep::Idle;
        }
        if !node.committed && node.command_ctx.prev_epoch != INVALID_EPOCH {
            HeadStep::CommitStorage
        } else {
            HeadStep::PostCollect
        }
    }

    /// The storage commit the host must perform for the head: its previous
    /// epoch and the sstables its workers synced.
    pub fn head_commit_request(&self) -> (r: (u64, Vec<GroupedSstableInfo>))
        requires
            self.inv(),
            self.spec_next_head_step() == HeadStep::CommitStorage,
        ensures
            r.0 == self.control.queue@[0].command_ctx.prev_epoch,
            r.0 != INVALID_EPOCH,
            self.committed_epochs@.len() > 0 ==> r.0 > self.committed_epochs@.last(),
            self.control.queue@[0].state matches BarrierEpochState::Complete(resps) && r.1@
                == synced_ssts(resps@),
    {
        let node = &self.control.queue[0];
        match &node.state {
            BarrierEpochState::Complete(resps) => {
                (node.command_ctx.prev_epoch, collect_synced_ssts(resps))
            },
            _ => {
                proof {
                    assert(false);
                }
                (0, Vec::new())
            },
        }
    }

    /// The command of the pipeline head, whose post-collect side effects
    /// the host runs when the head step asks for them.
    pub fn head_command(&self) -> (r: &Command)
        requires
            self.control.queue@.len() > 0,
        ensures
            *r == self.control.queue@[0].command_ctx.command,
    {
        &self.control.queue[0].command_ctx.command
    }

    /// Record the storage engine's verdict on the head commit. On success
    /// the head is marked committed and its epoch enters the commit
    /// history; on failure the head fails and recovery begins.
    pub fn on_commit_result(&mut self, ok: bool)
        requires
            old(self).inv(),
            old(self).spec_next_head_step() == HeadStep::CommitStorage,
        ensures
            final(self).inv(),
            final(self).in_flight_barrier_nums == old(self).in_flight_barrier_nums,
            final(self).enable_recovery == old(self).enable_recovery,
            final(self).scheduled_barriers == old(self).scheduled_barriers,
            final(self).tracker == old(self).tracker,
            final(self).pending == old(self).pending,
            final(self).in_flight_prev_epoch == old(self).in_flight_prev_epoch,
            final(self).injected_epochs@ == old(self).injected_epochs@,
            final(self).control.is_build_actor == old(self).control.is_build_actor,
            final(self).control.queue@.len() == old(self).control.queue@.len(),
            forall|j: int|
                1 <= j < old(self).control.queue@.len() ==> final(self).control.queue@[j] == old(self).control.queue@[j],
            final(self).control.queue@[0].command_ctx == old(self).control.queue@[0].command_ctx,
            final(self).control.queue@[0].notifiers == old(self).control.queue@[0].notifiers,
            final(self).control.queue@[0].inject_acked == old(self).control.queue@[0].inject_acked,
            ok ==> {
                &&& final(self).control.queue@[0].state == old(self).control.queue@[0].state
                &&& final(self).control.queue@[0].committed
                &&& final(self).control.is_recovery == old(self).control.is_recovery
                &&& final(self).committed_epochs@ == old(self).committed_epochs@.push(
                    old(self).control.queue@[0].command_ctx.prev_epoch,
                )
            },
            !ok ==> {
                &&& final(self).control.queue@[0].state == BarrierEpochState::Fail(
                    BarrierError::CommitFailed,
                )
                &&& final(self).control.queue@[0].committed == old(self).control.queue@[0].committed
                &&& final(self).control.is_recovery
                &&& final(self).committed_epochs@ == old(self).committed_epochs@
            },
    {
        let mut node = self.control.queue.remove(0).unwrap();
        let ghost q0 = old(self).control.queue@;
        if ok {
            node.committed = true;
            let prev = node.command_ctx.prev_epoch;
            self.control.queue.insert(0, node);
            self.committed_epochs = Ghost(self.committed_epochs@.push(prev));
        } else {
            node.state = BarrierEpochState::Fail(BarrierError::CommitFailed);
            self.control.queue.insert(0, node);
            self.control.is_recovery = true;
        }
        proof {
            let q1 = self.control.queue@;
            assert(q1 =~= q0.update(0, q1[0]));
            assert forall|a: int, b: int|
                0 <= a && b == a + 1 && b < q1.len() implies (#[trigger] q1[b]).command_ctx.prev_epoch
                == (#[trigger] q1[a]).command_ctx.curr_epoch by {
                assert(q0[b].command_ctx.prev_epoch == q0[a].command_ctx.curr_epoch);
            }
            if self.control.is_build_actor {
                let w = choose|w: int|
                    0 <= w < q0.len() && (#[trigger] q0[w]).command_ctx.command.spec_builds_actors();
                assert(q1[w].command_ctx == q0[w].command_ctx);
                assert(has_build_actor(q1));
            } else {
                assert forall|w: int| 0 <= w < q1.len() implies !(
                #[trigger] q1[w]).command_ctx.command.spec_builds_actors() by {
                    assert(q1[w].command_ctx == q0[w].command_ctx);
                }
            }
            if has_failed(q1) && !has_failed(q0) {
                let w = choose|w: int| 0 <= w < q1.len() && (#[trigger] q1[w]).state is Fail;
                assert(w == 0);
            }
            if ok {
                assert(self.committed_epochs@.last()
                    == q1[0].command_ctx.prev_epoch);
                assert(q0[0].command_ctx.curr_epoch <= self.in_flight_prev_epoch);
            }
        }
    }
    /// Record the outcome of the head command's post-collect side effects.
    /// On success the head pops: its notifiers fire `collected` (preceded
    /// by `to_send` in the corner case where the host never reported the
    /// inject acknowledgement — a collected barrier was necessarily
    /// injected), the command's tracked actors enter the progress tracker
    /// (firing `finished` at once when there are none), and the host
    /// receives the backfill progress reports of the batch, to be applied
    /// one by one to the tracker. On failure the head fails and recovery
    /// begins.
    #[verifier::rlimit(60)]
    pub fn on_post_collect_result(&mut self, ok: bool) -> (r: (
        Vec<NotifierEvent>,
        Vec<CreateMviewProgress>,
    ))
        requires
            old(self).inv(),
            old(self).spec_next_head_step() == HeadStep::PostCollect,
        ensures
            final(self).inv(),
            final(self).in_flight_barrier_nums == old(self).in_flight_barrier_nums,
            final(self).enable_recovery == old(self).enable_recovery,
            final(self).scheduled_barriers == old(self).scheduled_barriers,
            final(self).pending == old(self).pending,
            final(self).in_flight_prev_epoch == old(self).in_flight_prev_epoch,
            final(self).injected_epochs@ == old(self).injected_epochs@,
            final(self).committed_epochs@ == old(self).committed_epochs@,
            !ok ==> {
                let q0 = old(self).control.queue@;
                let q1 = final(self).control.queue@;
                &&& final(self).tracker == old(self).tracker
                &&& q1.len() == q0.len()
                &&& (forall|j: int| 1 <= j < q0.len() ==> q1[j] == q0[j])
                &&& q1[0].state == BarrierEpochState::Fail(BarrierError::PostCollectFailed)
                &&& q1[0].command_ctx == q0[0].command_ctx
                &&& q1[0].notifiers == q0[0].notifiers
                &&& q1[0].inject_acked == q0[0].inject_acked
                &&& q1[0].committed == q0[0].committed
                &&& final(self).control.is_recovery
                &&& final(self).control.is_build_actor == old(self).control.is_build_actor
                &&& r.0@.len() == 0
                &&& r.1@.len() == 0
            },
            ok ==> {
                let q0 = old(self).control.queue@;
                let head = q0[0];
                &&& final(self).control.queue@ == q0.drop_first()
                &&& final(self).control.is_recovery == old(self).control.is_recovery
                &&& final(self).control.is_build_actor == (old(self).control.is_build_actor
                    && !head.command_ctx.command.spec_builds_actors())
                &&& (head.state matches BarrierEpochState::Complete(resps) ==> r.1@
                    == mview_progress_of(resps@))
                &&& r.0@ == (
                if head.inject_acked {
                    Seq::<NotifierEvent>::empty()
                } else {
                    sent_events(head.notifiers@)
                }) + collected_events(head.notifiers@) + (
                if head.command_ctx.command.spec_actors_to_track().len() == 0 {
                    finish_events(head.notifiers@)
                } else {
                    Seq::<NotifierEvent>::empty()
                })
                &&& (head.command_ctx.command.spec_actors_to_track().len() == 0 ==> final(self).tracker.entries@ == old(self).tracker.entries@)
                &&& (head.command_ctx.command.spec_actors_to_track().len() > 0 ==> {
                    let t0 = old(self).tracker.entries@;
                    let t1 = final(self).tracker.entries@;
                    &&& t1.len() == t0.len() + 1
                    &&& (forall|j: int| 0 <= j < t0.len() ==> t1[j] == t0[j])
                    &&& t1.last().epoch == head.command_ctx.curr_epoch
                    &&& t1.last().remaining@ == head.command_ctx.command.spec_actors_to_track()
                    &&& t1.last().notifiers@.len() == head.notifiers@.len()
                    &&& (forall|j: int|
                        0 <= j < head.notifiers@.len() ==> t1.last().notifiers@[j] == (Notifier {
                            sent: true,
                            collected: true,
                            ..#[trigger] head.notifiers@[j]
                        }))
                })
            },
    {
        if !ok {
            let mut node = self.control.queue.remove(0).unwrap();
            let ghost q0 = old(self).control.queue@;
            node.state = BarrierEpochState::Fail(BarrierError::PostCollectFailed);
            self.control.queue.insert(0, node);
            self.control.is_recovery = true;
            proof {
                let q1 = self.control.queue@;
                assert(q1 =~= q0.update(0, q1[0]));
                assert forall|a: int, b: int|
                    0 <= a && b == a + 1 && b < q1.len() implies (
                #[trigger] q1[b]).command_ctx.prev_epoch == (
                #[trigger] q1[a]).command_ctx.curr_epoch by {
                    assert(q0[b].command_ctx.prev_epoch == q0[a].command_ctx.curr_epoch);
                }
                if self.control.is_build_actor {
                    let w = choose|w: int|
                        0 <= w < q0.len() && (
                        #[trigger] q0[w]).command_ctx.command.spec_builds_actors();
                    assert(q1[w].command_ctx == q0[w].command_ctx);
                    assert(has_build_actor(q1));
                } else {
                    assert forall|w: int| 0 <= w < q1.len() implies !(
                    #[trigger] q1[w]).command_ctx.command.spec_builds_actors() by {
                        assert(q1[w].command_ctx == q0[w].command_ctx);
                    }
                }
            }
            return (Vec::new(), Vec::new());
        }
        let ghost q0 = old(self).control.queue@;
        let node = self.control.queue.pop_front().unwrap();
        let EpochNode { command_ctx, state, inject_acked, committed: _, notifiers } = node;
        let resps = match state {
            BarrierEpochState::Complete(resps) => resps,
            _ => {
                proof {
                    assert(false);
                }
                Vec::new()
            },
        };
        let progress = collect_mview_progress(&resps);
        // a collected barrier was necessarily injected: when the host never
        // reported the acknowledgement, `to_send` fires now, first
        let mut events: Vec<NotifierEvent> = Vec::new();
        let notifiers = if inject_acked {
            notifiers
        } else {
            proof {
                assert forall|j: int| 0 <= j < notifiers@.len() implies (
                #[trigger] notifiers@[j]).untouched() by {
                    assert(EpochNode::notifier_riding(q0[0].notifiers@[j], false));
                }
            }
            let (sent_marked, mut sent_evs) = fire_to_send_all(notifiers);
            events.append(&mut sent_evs);
            proof {
                assert forall|j: int| 0 <= j < sent_marked@.len() implies EpochNode::notifier_riding(
                    #[trigger] sent_marked@[j],
                    true,
                ) by {
                    assert(EpochNode::notifier_riding(q0[0].notifiers@[j], false));
                }
                assert(sent_events(sent_marked@) =~= sent_events(q0[0].notifiers@));
                assert(collected_events(sent_marked@) =~= collected_events(q0[0].notifiers@));
            }
            sent_marked
        };
        proof {
            assert forall|j: int| 0 <= j < notifiers@.len() implies {
                let n = #[trigger] notifiers@[j];
                n.wf() && n.sent && !n.collected && !n.failed
            } by {
                assert(EpochNode::notifier_riding(q0[0].notifiers@[j], q0[0].inject_acked));
            }
        }
        let ghost sent_notifiers = notifiers@;
        let (marked, mut col_events) = fire_collected_all(notifiers);
        events.append(&mut col_events);
        proof {
            assert forall|j: int| 0 <= j < marked@.len() implies awaiting_finish(
                #[trigger] marked@[j],
            ) by {
                assert(EpochNode::notifier_riding(sent_notifiers[j], true));
            }
        }
        let actors = command_ctx.command.actors_to_track();
        let mut finish_evs = self.tracker.add(command_ctx.curr_epoch, actors, marked);
        events.append(&mut finish_evs);
        if command_ctx.command.builds_actors() {
            self.control.is_build_actor = false;
        }
        proof {
            let q1 = self.control.queue@;
            assert(q1 =~= q0.drop_first());
            assert forall|a: int, b: int|
                0 <= a && b == a + 1 && b < q1.len() implies (#[trigger] q1[b]).command_ctx.prev_epoch
                == (#[trigger] q1[a]).command_ctx.curr_epoch by {
                assert(q1[a] == q0[a + 1]);
                assert(q1[b] == q0[b + 1]);
                assert(q0[b + 1].command_ctx.prev_epoch == q0[a + 1].command_ctx.curr_epoch);
            }
            if self.control.is_build_actor {
                let w = choose|w: int|
                    0 <= w < q0.len() && (#[trigger] q0[w]).command_ctx.command.spec_builds_actors();
                assert(w != 0);
                assert(q1[w - 1] == q0[w]);
                assert(has_build_actor(q1));
            } else {
                assert forall|w: int| 0 <= w < q1.len() implies !(
                #[trigger] q1[w]).command_ctx.command.spec_builds_actors() by {
                    assert(q1[w] == q0[w + 1]);
                    if q0[w + 1].command_ctx.command.spec_builds_actors() {
                        assert(has_build_actor(q0));
                    }
                }
            }
            if has_failed(q1) {
                let w = choose|w: int| 0 <= w < q1.len() && (#[trigger] q1[w]).state is Fail;
                assert(q1[w] == q0[w + 1]);
                assert(has_failed(q0));
            }
            if self.committed_epochs@.len() > 0 && q1.len() > 0 {
                assert(q1[0] == q0[1]);
                assert(q0[1].command_ctx.prev_epoch == q0[0].command_ctx.curr_epoch);
                assert(self.committed_epochs@.last() < q1[0].command_ctx.prev_epoch);
            }
            assert(collected_events(sent_notifiers) =~= collected_events(q0[0].notifiers@));
            assert(events@ =~= (
            if q0[0].inject_acked {
                Seq::<NotifierEvent>::empty()
            } else {
                sent_events(q0[0].notifiers@)
            }) + collected_events(q0[0].notifiers@) + (
            if q0[0].command_ctx.command.spec_actors_to_track().len() == 0 {
                finish_events(marked@)
            } else {
                Seq::<NotifierEvent>::empty()
            }));
            assert(finish_events(marked@) =~= finish_events(q0[0].notifiers@));
        }
        (events, progress)
    }
    /// Whether the pipeline is ready for recovery: its head has failed and
    /// every other barrier has resolved, so no completion is outstanding.
    pub open spec fn spec_ready_to_recover(self) -> bool {
        let q = self.control.queue@;
        &&& q.len() > 0
        &&& q[0].state is Fail
        &&& (forall|i: int| 0 <= i < q.len() ==> !((#[trigger] q[i]).state is InFlight))
    }

    /// Executable twin of [`Self::spec_ready_to_recover`].
    pub fn ready_to_recover(&self) -> (r: bool)
        ensures
            r == self.spec_ready_to_recover(),
    {
        if self.control.queue.len() == 0 {
            return false;
        }
        if !matches!(self.control.queue[0].state, BarrierEpochState::Fail(_)) {
            return false;
        }
        self.control.no_in_flight()
    }

    /// Drain the failed pipeline: pop every node, firing each notifier's
    /// `failed` slot with the head's error. The result carries the epoch
    /// snapshot to hand to the external recovery routine (the largest
    /// epoch the pipeline reached), the head error, and the firings.
    /// When recovery is disabled the host must instead end the process
    /// with that error.
    pub fn drain_for_recovery(&mut self) -> (r: (u64, BarrierError, Vec<NotifierEvent>))
        requires
            old(self).inv(),
            old(self).spec_ready_to_recover(),
        ensures
            final(self).inv(),
            final(self).in_flight_barrier_nums == old(self).in_flight_barrier_nums,
            final(self).enable_recovery == old(self).enable_recovery,
            final(self).scheduled_barriers == old(self).scheduled_barriers,
            final(self).tracker == old(self).tracker,
            final(self).pending == old(self).pending,
            final(self).in_flight_prev_epoch == old(self).in_flight_prev_epoch,
            final(self).injected_epochs@ == old(self).injected_epochs@,
            final(self).committed_epochs@ == old(self).committed_epochs@,
            final(self).control.queue@.len() == 0,
            !final(self).control.is_build_actor,
            final(self).control.is_recovery,
            r.0 == old(self).in_flight_prev_epoch,
            old(self).control.queue@[0].state matches BarrierEpochState::Fail(e) && r.1 == e,
            r.2@ == failed_events(node_notifiers(old(self).control.queue@), r.1),
    {
        let err = match &self.control.queue[0].state {
            BarrierEpochState::Fail(e) => *e,
            _ => {
                proof {
                    assert(false);
                }
                BarrierError::Aborted
            },
        };
        let mut events: Vec<NotifierEvent> = Vec::new();
        let ghost mut processed: Seq<Notifier> = Seq::empty();
        proof {
            assert(events@ =~= failed_events(processed, err));
            assert(node_notifiers(old(self).control.queue@) =~= processed + node_notifiers(
                self.control.queue@,
            ));
        }
        loop
            invariant
                forall|i: int|
                    0 <= i < self.control.queue@.len() ==> (#[trigger] self.control.queue@[i]).wf(),
                events@ == failed_events(processed, err),
                node_notifiers(old(self).control.queue@) == processed + node_notifiers(
                    self.control.queue@,
                ),
                self.enable_recovery == old(self).enable_recovery,
                self.in_flight_barrier_nums == old(self).in_flight_barrier_nums,
                self.scheduled_barriers == old(self).scheduled_barriers,
                self.tracker == old(self).tracker,
                self.pending == old(self).pending,
                self.in_flight_prev_epoch == old(self).in_flight_prev_epoch,
                self.injected_epochs@ == old(self).injected_epochs@,
                self.committed_epochs@ == old(self).committed_epochs@,
                self.control.is_recovery == old(self).control.is_recovery,
                self.control.queue@.len() <= old(self).control.queue@.len(),
            ensures
                self.control.queue@.len() == 0,
                events@ == failed_events(node_notifiers(old(self).control.queue@), err),
            decreases self.control.queue@.len(),
        {
            let ghost queue_before = self.control.queue@;
            let next = self.control.queue.pop_front();
            match next {
                None => {
                    proof {
                        assert(node_notifiers(self.control.queue@) =~= Seq::<Notifier>::empty());
                        assert(node_notifiers(old(self).control.queue@) =~= processed);
                    }
                    break ;
                },
                Some(node) => {
                    proof {
                        assert(queue_before.drop_first() =~= self.control.queue@);
                        assert(node_notifiers(queue_before) == node.notifiers@ + node_notifiers(
                            self.control.queue@,
                        ));
                    }
                    let mut evs = fire_failed_all(node.notifiers, err);
                    events.append(&mut evs);
                    proof {
                        processed = processed + node.notifiers@;
                        assert(events@ =~= failed_events(processed, err));
                    }
                },
            }
        }
        self.control.is_build_actor = false;
        let snapshot = self.in_flight_prev_epoch;
        proof {
            assert(!has_build_actor(self.control.queue@));
            assert(!has_failed(self.control.queue@));
        }
        (snapshot, err, events)
    }

    /// Resume after the external recovery routine rebuilt a consistent
    /// fleet: reset the progress tracker, seed it with the actors the
    /// routine still tracks (the host then applies its progress reports
    /// one by one), persist the fresh epoch and leave recovery mode. The
    /// fresh epoch must lie beyond everything the coordinator has seen,
    /// and is therefore beyond every committed epoch by more than one.
    pub fn finish_recovery(&mut self, new_epoch: u64, actors_to_track: Vec<crate::ActorId>)
        requires
            old(self).inv(),
            old(self).control.queue@.len() == 0,
            old(self).pending is None,
            new_epoch > old(self).in_flight_prev_epoch,
        ensures
            final(self).inv(),
            final(self).in_flight_barrier_nums == old(self).in_flight_barrier_nums,
            final(self).enable_recovery == old(self).enable_recovery,
            final(self).scheduled_barriers == old(self).scheduled_barriers,
            final(self).pending is None,
            final(self).injected_epochs@ == old(self).injected_epochs@,
            final(self).committed_epochs@ == old(self).committed_epochs@,
            final(self).in_flight_prev_epoch == new_epoch,
            !final(self).control.is_recovery,
            !final(self).control.is_build_actor,
            final(self).control.queue@.len() == 0,
            actors_to_track@.len() == 0 ==> final(self).tracker.entries@.len() == 0,
            actors_to_track@.len() > 0 ==> {
                &&& final(self).tracker.entries@.len() == 1
                &&& final(self).tracker.entries@[0].epoch == new_epoch
                &&& final(self).tracker.entries@[0].remaining@ == actors_to_track@
                &&& final(self).tracker.entries@[0].notifiers@.len() == 0
            },
            final(self).committed_epochs@.len() > 0 ==> new_epoch > final(self).committed_epochs@.last() + 1,
    {
        self.tracker.reset();
        let no_notifiers: Vec<Notifier> = Vec::new();
        let _events = self.tracker.add(new_epoch, actors_to_track, no_notifiers);
        self.in_flight_prev_epoch = new_epoch;
        self.control.is_recovery = false;
        proof {
            assert(!has_build_actor(self.control.queue@));
            assert(!has_failed(self.control.queue@));
        }
    }

    /// Idempotent scheduling, shown on a fault-free run: scheduling a
    /// plain checkpoint `rounds` times yields exactly `rounds` storage
    /// commits, one per barrier, and as many injections. Each round plays
    /// one full barrier life cycle against a one-worker fleet whose every
    /// phase succeeds.
    pub fn run_plain_rounds(&mut self, rounds: usize, worker_id: crate::WorkerId,
        actor: crate::ActorId)
        requires
            old(self).inv(),
            old(self).pending is None,
            old(self).control.queue@.len() == 0,
            !old(self).control.is_recovery,
            !old(self).control.is_build_actor,
            old(self).scheduled_barriers.buffer@.len() == 0,
            old(self).in_flight_barrier_nums >= 1,
            old(self).in_flight_prev_epoch >= 1,
            old(self).in_flight_prev_epoch + rounds <= u64::MAX,
        ensures
            final(self).inv(),
            final(self).committed_epochs@.len() == old(self).committed_epochs@.len() + rounds,
            final(self).injected_epochs@.len() == old(self).injected_epochs@.len() + rounds,
            final(self).in_flight_prev_epoch == old(self).in_flight_prev_epoch + rounds,
            final(self).control.queue@.len() == 0,
    {
        let mut k: usize = 0;
        while k < rounds
            invariant
                self.inv(),
                self.pending is None,
                self.control.queue@.len() == 0,
                !self.control.is_recovery,
                !self.control.is_build_actor,
                self.scheduled_barriers.buffer@.len() == 0,
                self.in_flight_barrier_nums >= 1,
                0 <= k <= rounds,
                self.in_flight_prev_epoch == old(self).in_flight_prev_epoch + k,
                old(self).in_flight_prev_epoch >= 1,
                old(self).in_flight_prev_epoch + rounds <= u64::MAX,
                self.committed_epochs@.len() == old(self).committed_epochs@.len() + k,
                self.injected_epochs@.len() == old(self).injected_epochs@.len() + k,
            decreases rounds - k,
        {
            let _wake = self.schedule_command(Command::Plain);
            let _table = self.begin_barrier();
            let mut actors_to_collect: Vec<crate::ActorId> = Vec::new();
            actors_to_collect.push(actor);
            let worker = crate::info::WorkerActorInfo {
                worker_id,
                actors_to_send: Vec::new(),
                actors_to_collect,
            };
            let mut workers: Vec<crate::info::WorkerActorInfo> = Vec::new();
            workers.push(worker);
            let info = match BarrierActorInfo::resolve(workers) {
                Ok(info) => info,
                Err(_) => {
                    proof {
                        assert(false);
                    }
                    return ;
                },
            };
            proof {
                assert(info.workers@[0].takes_part());
                assert(!info.spec_nothing_to_do());
            }
            let prev = self.in_flight_prev_epoch;
            let _outcome = self.inject_pending(info);
            let ghost q_injected = self.control.queue@;
            proof {
                assert(node_awaits(q_injected[0], prev));
                lemma_first_in_flight_at(q_injected, prev, 0);
            }
            let _sent_events = self.on_inject_acked(prev);
            let ghost q_acked = self.control.queue@;
            proof {
                assert(node_awaits(q_acked[0], prev));
                lemma_first_in_flight_at(q_acked, prev, 0);
            }
            let resps: Vec<BarrierCompleteResponse> = Vec::new();
            self.on_barrier_complete(prev, Ok(resps));
            self.on_commit_result(true);
            let (_events, _progress) = self.on_post_collect_result(true);
            proof {
                assert(self.control.queue@ =~= Seq::<EpochNode>::empty());
            }
            k = k + 1;
        }
    }
}

/// The notifiers of a pipeline segment, nodes in order and notifiers of
/// one node in order.
pub open spec fn node_notifiers(s: Seq<EpochNode>) -> Seq<Notifier>
    decreases s.len(),
{
    if s.len() == 0 {
        Seq::empty()
    } else {
        s.first().notifiers@ + node_notifiers(s.drop_first())
    }
}

/// The history of injected epochs is strictly ascending: a barrier
/// injected earlier always carries a smaller epoch.
pub proof fn lemma_monotone_injection(m: GlobalBarrierManager)
    requires
        m.inv(),
    ensures
        strictly_increasing(m.injected_epochs@),
{
}

/// The history of committed epochs is strictly ascending: storage never
/// sees an epoch older than one it already committed.
pub proof fn lemma_monotone_commit(m: GlobalBarrierManager)
    requires
        m.inv(),
    ensures
        strictly_increasing(m.committed_epochs@),
{
}

/// Bounded concurrency: the pipeline never holds more in-flight barriers
/// than the admission cap.
pub proof fn lemma_bounded_concurrency(m: GlobalBarrierManager)
    requires
        m.inv(),
    ensures
        count_in_flight(m.control.queue@) <= m.in_flight_barrier_nums,
{
    lemma_count_in_flight_le_len(m.control.queue@);
}

/// Exclusion: while a command that builds actors is in the pipeline, the
/// single-writer flag is set, so the admission rule refuses every further
/// injection no matter the cap.
pub proof fn lemma_exclusion(m: GlobalBarrierManager, cap: usize)
    requires
        m.inv(),
        has_build_actor(m.control.queue@),
    ensures
        m.control.is_build_actor,
        !(!m.control.is_recovery && !m.control.is_build_actor && m.control.queue@.len() < cap),
{
}

} // verus!
