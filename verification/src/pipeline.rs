//! The epoch pipeline: one node per in-flight barrier, ordered by epoch,
//! with the admission flags that bound concurrency.

use std::collections::VecDeque;

use vstd::prelude::*;

use crate::command::Command;
use crate::error::BarrierError;
use crate::info::BarrierActorInfo;
use crate::notifier::Notifier;
use crate::progress::CreateMviewProgress;
use crate::WorkerId;

verus! {

/// A sealed sstable produced by a worker while syncing an epoch, together
/// with the compaction group it belongs to.
#[derive(Clone, Copy, Debug, PartialEq, Eq, Structural)]
pub struct GroupedSstableInfo {
    pub compaction_group_id: u64,
    pub sst_id: u64,
    pub file_size: u64,
}

/// A worker's reply to the collect phase: its sealed sstables for the epoch
/// and any backfill progress reports.
pub struct BarrierCompleteResponse {
    pub worker_id: WorkerId,
    pub synced_sstables: Vec<GroupedSstableInfo>,
    pub create_mview_progress: Vec<CreateMviewProgress>,
}

/// The sstables of a batch of collect responses, response order kept.
pub open spec fn synced_ssts(resps: Seq<BarrierCompleteResponse>) -> Seq<GroupedSstableInfo>
    decreases resps.len(),
{
    if resps.len() == 0 {
        Seq::empty()
    } else {
        synced_ssts(resps.drop_last()) + resps.last().synced_sstables@
    }
}

/// Gather the sstables of a batch of collect responses, for the storage
/// commit of the epoch.
pub fn collect_synced_ssts(resps: &Vec<BarrierCompleteResponse>) -> (r: Vec<GroupedSstableInfo>)
    ensures
        r@ == synced_ssts(resps@),
{
    let n = resps.len();
    let mut r: Vec<GroupedSstableInfo> = Vec::new();
    let mut i: usize = 0;
    proof {
        assert(resps@.take(0) =~= Seq::<BarrierCompleteResponse>::empty());
        assert(r@ =~= synced_ssts(resps@.take(0)));
    }
    while i < n
        invariant
            n == resps@.len(),
            0 <= i <= n,
            r@ == synced_ssts(resps@.take(i as int)),
        decreases n - i,
    {
        proof {
            assert(resps@.take(i + 1).drop_last() =~= resps@.take(i as int));
            assert(resps@.take(i + 1).last() == resps@[i as int]);
        }
        let m = resps[i].synced_sstables.len();
        let mut j: usize = 0;
        while j < m
            invariant
                0 <= i < n,
                n == resps@.len(),
                m == resps@[i as int].synced_sstables@.len(),
                0 <= j <= m,
                r@ == synced_ssts(resps@.take(i as int)) + resps@[i as int].synced_sstables@.take(
                    j as int,
                ),
            decreases m - j,
        {
            r.push(resps[i].synced_sstables[j]);
            proof {
                assert(r@ =~= synced_ssts(resps@.take(i as int)) + resps@[
                    i as int].synced_sstables@.take(j + 1));
            }
            j = j + 1;
        }
        proof {
            assert(resps@[i as int].synced_sstables@.take(m as int) =~= resps@[
                i as int].synced_sstables@);
        }
        i = i + 1;
    }
    proof {
        assert(resps@.take(n as int) =~= resps@);
    }
    r
}

/// The backfill progress reports of a batch of collect responses,
/// response order kept.
pub open spec fn mview_progress_of(resps: Seq<BarrierCompleteResponse>) -> Seq<
    CreateMviewProgress,
>
    decreases resps.len(),
{
    if resps.len() == 0 {
        Seq::empty()
    } else {
        mview_progress_of(resps.drop_last()) + resps.last().create_mview_progress@
    }
}

/// Gather the backfill progress reports of a batch of collect responses.
pub fn collect_mview_progress(resps: &Vec<BarrierCompleteResponse>) -> (r: Vec<
    CreateMviewProgress,
>)
    ensures
        r@ == mview_progress_of(resps@),
{
    let n = resps.len();
    let mut r: Vec<CreateMviewProgress> = Vec::new();
    let mut i: usize = 0;
    proof {
        assert(resps@.take(0) =~= Seq::<BarrierCompleteResponse>::empty());
        assert(r@ =~= mview_progress_of(resps@.take(0)));
    }
    while i < n
        invariant
            n == resps@.len(),
            0 <= i <= n,
            r@ == mview_progress_of(resps@.take(i as int)),
        decreases n - i,
    {
        proof {
            assert(resps@.take(i + 1).drop_last() =~= resps@.take(i as int));
            assert(resps@.take(i + 1).last() == resps@[i as int]);
        }
        let m = resps[i].create_mview_progress.len();
        let mut j: usize = 0;
        while j < m
            invariant
                0 <= i < n,
                n == resps@.len(),
                m == resps@[i as int].create_mview_progress@.len(),
                0 <= j <= m,
                r@ == mview_progress_of(resps@.take(i as int)) + resps@[
                    i as int].create_mview_progress@.take(j as int),
            decreases m - j,
        {
            r.push(resps[i].create_mview_progress[j]);
            proof {
                assert(r@ =~= mview_progress_of(resps@.take(i as int)) + resps@[
                    i as int].create_mview_progress@.take(j + 1));
            }
            j = j + 1;
        }
        proof {
            assert(resps@[i as int].create_mview_progress@.take(m as int) =~= resps@[
                i as int].create_mview_progress@);
        }
        i = i + 1;
    }
    proof {
        assert(resps@.take(n as int) =~= resps@);
    }
    r
}

/// The lifecycle state of one barrier's epoch.
pub enum BarrierEpochState {
    /// Injected; the collect phase has not resolved yet.
    InFlight,
    /// Every worker acknowledged collection, with these responses.
    Complete(Vec<BarrierCompleteResponse>),
    /// Injection, collection, the storage commit or the post-collect side
    /// effects failed.
    Fail(BarrierError),
}

/// The immutable snapshot bound to a single epoch.
pub struct CommandContext {
    pub info: BarrierActorInfo,
    pub prev_epoch: u64,
    pub curr_epoch: u64,
    pub command: Command,
}

impl CommandContext {
    pub open spec fn wf(self) -> bool {
        &&& self.info.wf()
        &&& self.prev_epoch < self.curr_epoch
    }

    pub fn new(info: BarrierActorInfo, prev_epoch: u64, curr_epoch: u64, command: Command) -> (r:
        CommandContext)
        requires
            info.wf(),
            prev_epoch < curr_epoch,
        ensures
            r == (CommandContext { info, prev_epoch, curr_epoch, command }),
            r.wf(),
    {
        CommandContext { info, prev_epoch, curr_epoch, command }
    }
}

/// The states and messages of one barrier in the pipeline.
pub struct EpochNode {
    pub command_ctx: CommandContext,
    pub state: BarrierEpochState,
    /// Whether every worker has acknowledged the inject phase: only then
    /// have the node's notifiers fired `to_send`.
    pub inject_acked: bool,
    /// Whether the storage commit of this node's previous epoch has
    /// already succeeded.
    pub committed: bool,
    pub notifiers: Vec<Notifier>,
}

impl EpochNode {
    /// A notifier rides a pipeline node from injection until the node
    /// pops: `to_send` has fired exactly when the inject phase was
    /// acknowledged, and nothing further has fired.
    pub open spec fn notifier_riding(n: Notifier, acked: bool) -> bool {
        n.wf() && n.sent == acked && !n.collected && !n.finished && !n.failed
    }

    pub open spec fn wf(self) -> bool {
        &&& self.command_ctx.wf()
        &&& (forall|j: int|
            0 <= j < self.notifiers@.len() ==> EpochNode::notifier_riding(
                #[trigger] self.notifiers@[j],
                self.inject_acked,
            ))
        &&& self.committed ==> !(self.state is InFlight)
    }
}

/// The number of in-flight nodes of the pipeline.
pub open spec fn count_in_flight(s: Seq<EpochNode>) -> int
    decreases s.len(),
{
    if s.len() == 0 {
        0
    } else {
        count_in_flight(s.drop_last()) + if s.last().state is InFlight {
            1int
        } else {
            0int
        }
    }
}

/// There can never be more in-flight nodes than nodes.
pub proof fn lemma_count_in_flight_le_len(s: Seq<EpochNode>)
    ensures
        0 <= count_in_flight(s) <= s.len(),
    decreases s.len(),
{
    if s.len() > 0 {
        lemma_count_in_flight_le_len(s.drop_last());
    }
}

/// Epochs in the pipeline are strictly increasing by position and
/// consecutive barriers chain: each node's previous epoch is its
/// predecessor's current epoch.
pub open spec fn epochs_chained(s: Seq<EpochNode>) -> bool {
    forall|i: int, j: int|
        0 <= i && j == i + 1 && j < s.len() ==> (#[trigger] s[j]).command_ctx.prev_epoch == (
        #[trigger] s[i]).command_ctx.curr_epoch
}

/// Whether some node in the pipeline carries a command that builds actors.
pub open spec fn has_build_actor(s: Seq<EpochNode>) -> bool {
    exists|i: int|
        0 <= i < s.len() && (#[trigger] s[i]).command_ctx.command.spec_builds_actors()
}

/// Whether some node in the pipeline has failed.
pub open spec fn has_failed(s: Seq<EpochNode>) -> bool {
    exists|i: int| 0 <= i < s.len() && (#[trigger] s[i]).state is Fail
}

/// Whether a node is the in-flight barrier of the given previous epoch.
pub open spec fn node_awaits(n: EpochNode, prev_epoch: u64) -> bool {
    n.command_ctx.prev_epoch == prev_epoch && n.state is InFlight
}

/// The position of the in-flight node of the given previous epoch, or -1.
pub open spec fn first_in_flight_at(s: Seq<EpochNode>, prev_epoch: u64) -> int
    decreases s.len(),
{
    if s.len() == 0 {
        -1
    } else if node_awaits(s.first(), prev_epoch) {
        0
    } else {
        let r = first_in_flight_at(s.drop_first(), prev_epoch);
        if r < 0 {
            -1
        } else {
            r + 1
        }
    }
}

pub proof fn lemma_first_in_flight_at(s: Seq<EpochNode>, prev_epoch: u64, i: int)
    requires
        0 <= i < s.len(),
        node_awaits(s[i], prev_epoch),
        forall|k: int| 0 <= k < i ==> !node_awaits(#[trigger] s[k], prev_epoch),
    ensures
        first_in_flight_at(s, prev_epoch) == i,
    decreases i,
{
    if i > 0 {
        lemma_first_in_flight_at(s.drop_first(), prev_epoch, i - 1);
    }
}

pub proof fn lemma_first_in_flight_none(s: Seq<EpochNode>, prev_epoch: u64)
    requires
        forall|k: int| 0 <= k < s.len() ==> !node_awaits(#[trigger] s[k], prev_epoch),
    ensures
        first_in_flight_at(s, prev_epoch) == -1,
    decreases s.len(),
{
    if s.len() > 0 {
        lemma_first_in_flight_none(s.drop_first(), prev_epoch);
    }
}

/// The admission flags and the ordered pipeline of epoch nodes.
pub struct ConcurrentControl {
    /// Set while a failure is being handled: from the moment an epoch
    /// fails until recovery completes, no new barrier is injected.
    pub is_recovery: bool,
    /// Set while a command that builds actors is in the pipeline: such a
    /// command is the single writer on the actor topology.
    pub is_build_actor: bool,
    /// The pipeline, ordered by epoch; the head is the oldest barrier.
    pub queue: VecDeque<EpochNode>,
}

impl ConcurrentControl {
    pub open spec fn wf(self) -> bool {
        &&& (forall|i: int| 0 <= i < self.queue@.len() ==> (#[trigger] self.queue@[i]).wf())
        &&& epochs_chained(self.queue@)
        &&& self.is_build_actor == has_build_actor(self.queue@)
        &&& has_failed(self.queue@) ==> self.is_recovery
        &&& (forall|i: int| 0 < i < self.queue@.len() ==> !(#[trigger] self.queue@[i]).committed)
    }

    pub fn new() -> (r: Self)
        ensures
            r.queue@.len() == 0,
            !r.is_recovery,
            !r.is_build_actor,
            r.wf(),
    {
        let r = ConcurrentControl {
            is_recovery: false,
            is_build_actor: false,
            queue: VecDeque::new(),
        };
        proof {
            assert(!has_build_actor(r.queue@));
        }
        r
    }

    /// The admission rule: a new barrier may be injected only while no
    /// failure is being handled, no actor-building command is in flight,
    /// and the pipeline has room.
    pub fn can_inject_barrier(&self, in_flight_barrier_nums: usize) -> (r: bool)
        ensures
            r == (!self.is_recovery && !self.is_build_actor && self.queue@.len()
                < in_flight_barrier_nums),
    {
        !self.is_recovery && !self.is_build_actor && self.queue.len() < in_flight_barrier_nums
    }

    /// Push a new in-flight node at the tail of the pipeline, its inject
    /// phase not yet acknowledged. Admission must have been checked: no
    /// recovery is under way and no actor-building command is in flight,
    /// so the pipeline holds no failed node and no actor-building node.
    pub fn inject_barrier(&mut self, ctx: CommandContext, notifiers: Vec<Notifier>)
        requires
            old(self).wf(),
            !old(self).is_recovery,
            !old(self).is_build_actor,
            ctx.wf(),
            old(self).queue@.len() > 0 ==> old(self).queue@.last().command_ctx.curr_epoch
                == ctx.prev_epoch,
            forall|j: int| 0 <= j < notifiers@.len() ==> (#[trigger] notifiers@[j]).untouched()
                && notifiers@[j].wf(),
        ensures
            final(self).wf(),
            final(self).queue@.len() == old(self).queue@.len() + 1,
            forall|i: int|
                0 <= i < old(self).queue@.len() ==> final(self).queue@[i] == old(self).queue@[i],
            final(self).queue@.last() == (EpochNode {
                command_ctx: ctx,
                state: BarrierEpochState::InFlight,
                inject_acked: false,
                committed: false,
                notifiers,
            }),
            !final(self).is_recovery,
            final(self).is_build_actor == ctx.command.spec_builds_actors(),
            forall|i: int|
                0 <= i < old(self).queue@.len() ==> !(#[trigger] final(self).queue@[i]).command_ctx.command.spec_builds_actors(),
    {
        if ctx.command.builds_actors() {
            self.is_build_actor = true;
        }
        let node = EpochNode {
            command_ctx: ctx,
            state: BarrierEpochState::InFlight,
            inject_acked: false,
            committed: false,
            notifiers,
        };
        self.queue.push_back(node);
        proof {
            let q0 = old(self).queue@;
            let q1 = self.queue@;
            assert(q1.last() == node);
            assert(forall|i: int| 0 <= i < q0.len() ==> q1[i] == q0[i]);
            assert(forall|i: int|
                0 <= i < q0.len() ==> !(#[trigger] q0[i]).command_ctx.command.spec_builds_actors());
            assert(forall|i: int| 0 <= i < q0.len() ==> !((#[trigger] q0[i]).state is Fail));
            if node.command_ctx.command.spec_builds_actors() {
                assert(has_build_actor(q1));
            } else {
                assert(!has_build_actor(q1)) by {
                    assert(forall|i: int|
                        0 <= i < q1.len() ==> !(#[trigger] q1[i]).command_ctx.command.spec_builds_actors());
                }
            }
            assert(!has_failed(q1)) by {
                assert(forall|i: int| 0 <= i < q1.len() ==> !((#[trigger] q1[i]).state is Fail));
            }
        }
    }

    /// Find the in-flight node of the given previous epoch.
    pub fn find_in_flight(&self, prev_epoch: u64) -> (r: Option<usize>)
        ensures
            match r {
                Some(i) => {
                    &&& i < self.queue@.len()
                    &&& i == first_in_flight_at(self.queue@, prev_epoch)
                    &&& node_awaits(self.queue@[i as int], prev_epoch)
                },
                None => first_in_flight_at(self.queue@, prev_epoch) < 0,
            },
    {
        let n = self.queue.len();
        let mut i: usize = 0;
        while i < n
            invariant
                n == self.queue@.len(),
                0 <= i <= n,
                forall|k: int|
                    0 <= k < i ==> !node_awaits(#[trigger] self.queue@[k], prev_epoch),
            decreases n - i,
        {
            let node = &self.queue[i];
            if node.command_ctx.prev_epoch == prev_epoch && matches!(
                node.state,
                BarrierEpochState::InFlight,
            ) {
                proof {
                    lemma_first_in_flight_at(self.queue@, prev_epoch, i as int);
                }
                return Some(i);
            }
            i = i + 1;
        }
        proof {
            lemma_first_in_flight_none(self.queue@, prev_epoch);
        }
        None
    }

    /// Whether every node of the pipeline has resolved; recovery must wait
    /// until none is still in flight.
    pub fn no_in_flight(&self) -> (r: bool)
        ensures
            r == (forall|i: int| 0 <= i < self.queue@.len() ==> !((#[trigger] self.queue@[i]).state
                is InFlight)),
    {
        let n = self.queue.len();
        let mut i: usize = 0;
        while i < n
            invariant
                n == self.queue@.len(),
                0 <= i <= n,
                forall|k: int| 0 <= k < i ==> !((#[trigger] self.queue@[k]).state is InFlight),
            decreases n - i,
        {
            if matches!(self.queue[i].state, BarrierEpochState::InFlight) {
                return false;
            }
            i = i + 1;
        }
        true
    }
}

} // verus!
