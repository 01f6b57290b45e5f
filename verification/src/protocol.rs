//! The two-phase barrier protocol: the inject and collect requests sent to
//! every worker that takes part in a barrier.

use vstd::prelude::*;

use crate::command::{mutation_is_for, Command, Mutation};
use crate::info::{BarrierActorInfo, WorkerActorInfo};
use crate::WorkerId;

verus! {

/// The request of the synchronous inject phase: the worker enqueues the
/// barrier locally and replies without awaiting local drain.
pub struct InjectBarrierRequest {
    pub request_id: String,
    pub worker_id: WorkerId,
    pub prev_epoch: u64,
    pub curr_epoch: u64,
    pub mutation: Option<Mutation>,
    pub actor_ids_to_send: Vec<u32>,
    pub actor_ids_to_collect: Vec<u32>,
}

/// The request of the asynchronous collect phase: the worker replies once
/// the barrier has drained downstream and local state is flushed.
pub struct BarrierCompleteRequest {
    pub request_id: String,
    pub worker_id: WorkerId,
    pub prev_epoch: u64,
}

/// Relies on `uuid::Uuid::new_v4` and its `Display` impl: a fresh random
/// version-4 UUID rendered in the 36-character hyphenated ASCII form. The
/// value itself is random, so nothing but its length is promised.
#[verifier::external_body]
fn fresh_request_id() -> (r: String)
    ensures
        r@.len() == 36,
{
    uuid::Uuid::new_v4().to_string()
}

/// The workers that take part in a barrier, in fleet order: those with a
/// non-empty set of actors to collect.
pub open spec fn participants(ws: Seq<WorkerActorInfo>) -> Seq<WorkerActorInfo>
    decreases ws.len(),
{
    if ws.len() == 0 {
        Seq::empty()
    } else {
        let pre = participants(ws.drop_last());
        if ws.last().takes_part() {
            pre.push(ws.last())
        } else {
            pre
        }
    }
}

/// What one inject request must say for one participating worker.
pub open spec fn inject_request_matches(
    rq: InjectBarrierRequest,
    w: WorkerActorInfo,
    prev_epoch: u64,
    curr_epoch: u64,
    c: Command,
) -> bool {
    &&& rq.worker_id == w.worker_id
    &&& rq.prev_epoch == prev_epoch
    &&& rq.curr_epoch == curr_epoch
    &&& mutation_is_for(rq.mutation, c)
    &&& rq.actor_ids_to_send@ == w.actors_to_send@
    &&& rq.actor_ids_to_collect@ == w.actors_to_collect@
    &&& rq.request_id@.len() == 36
}

/// What one collect request must say for one participating worker.
pub open spec fn complete_request_matches(
    rq: BarrierCompleteRequest,
    w: WorkerActorInfo,
    prev_epoch: u64,
) -> bool {
    &&& rq.worker_id == w.worker_id
    &&& rq.prev_epoch == prev_epoch
    &&& rq.request_id@.len() == 36
}

/// Build the inject-phase fan-out: one request per participating worker, in
/// fleet order, each carrying the epoch pair, the command's mutation and the
/// worker's actor sets.
pub fn build_inject_requests(
    info: &BarrierActorInfo,
    prev_epoch: u64,
    curr_epoch: u64,
    command: &Command,
) -> (r: Vec<InjectBarrierRequest>)
    requires
        info.wf(),
    ensures
        r@.len() == participants(info.workers@).len(),
        forall|k: int|
            0 <= k < r@.len() ==> inject_request_matches(
                #[trigger] r@[k],
                participants(info.workers@)[k],
                prev_epoch,
                curr_epoch,
                *command,
            ),
{
    let n = info.workers.len();
    let mut r: Vec<InjectBarrierRequest> = Vec::new();
    let mut i: usize = 0;
    proof {
        assert(info.workers@.take(0) =~= Seq::<WorkerActorInfo>::empty());
    }
    while i < n
        invariant
            n == info.workers@.len(),
            0 <= i <= n,
            info.wf(),
            r@.len() == participants(info.workers@.take(i as int)).len(),
            forall|k: int|
                0 <= k < r@.len() ==> inject_request_matches(
                    #[trigger] r@[k],
                    participants(info.workers@.take(i as int))[k],
                    prev_epoch,
                    curr_epoch,
                    *command,
                ),
        decreases n - i,
    {
        let w = &info.workers[i];
        proof {
            assert(info.workers@.take(i + 1).drop_last() =~= info.workers@.take(i as int));
            assert(info.workers@.take(i + 1).last() == info.workers@[i as int]);
        }
        if w.actors_to_collect.len() > 0 {
            let send = w.actors_to_send.clone();
            let collect = w.actors_to_collect.clone();
            assert(send@ =~= w.actors_to_send@);
            assert(collect@ =~= w.actors_to_collect@);
            let rq = InjectBarrierRequest {
                request_id: fresh_request_id(),
                worker_id: w.worker_id,
                prev_epoch,
                curr_epoch,
                mutation: command.to_mutation(),
                actor_ids_to_send: send,
                actor_ids_to_collect: collect,
            };
            r.push(rq);
        }
        i = i + 1;
    }
    proof {
        assert(info.workers@.take(n as int) =~= info.workers@);
    }
    r
}

/// Build the collect-phase fan-out for the same worker set: one request per
/// participating worker, addressed by the barrier's previous epoch.
pub fn build_complete_requests(info: &BarrierActorInfo, prev_epoch: u64) -> (r: Vec<
    BarrierCompleteRequest,
>)
    requires
        info.wf(),
    ensures
        r@.len() == participants(info.workers@).len(),
        forall|k: int|
            0 <= k < r@.len() ==> complete_request_matches(
                #[trigger] r@[k],
                participants(info.workers@)[k],
                prev_epoch,
            ),
{
    let n = info.workers.len();
    let mut r: Vec<BarrierCompleteRequest> = Vec::new();
    let mut i: usize = 0;
    proof {
        assert(info.workers@.take(0) =~= Seq::<WorkerActorInfo>::empty());
    }
    while i < n
        invariant
            n == info.workers@.len(),
            0 <= i <= n,
            info.wf(),
            r@.len() == participants(info.workers@.take(i as int)).len(),
            forall|k: int|
                0 <= k < r@.len() ==> complete_request_matches(
                    #[trigger] r@[k],
                    participants(info.workers@.take(i as int))[k],
                    prev_epoch,
                ),
        decreases n - i,
    {
        let w = &info.workers[i];
        proof {
            assert(info.workers@.take(i + 1).drop_last() =~= info.workers@.take(i as int));
            assert(info.workers@.take(i + 1).last() == info.workers@[i as int]);
        }
        if w.actors_to_collect.len() > 0 {
            let rq = BarrierCompleteRequest {
                request_id: fresh_request_id(),
                worker_id: w.worker_id,
                prev_epoch,
            };
            r.push(rq);
        }
        i = i + 1;
    }
    proof {
        assert(info.workers@.take(n as int) =~= info.workers@);
    }
    r
}

} // verus!
