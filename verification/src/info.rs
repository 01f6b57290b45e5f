//! The actor-fleet topology resolved for one barrier.
//!
//! The host resolves, per command, which workers exist and which actors each
//! worker must receive and collect the barrier for. The snapshot is immutable
//! for the lifetime of the barrier.

use vstd::prelude::*;

use crate::error::BarrierError;
use crate::{ActorId, WorkerId};

verus! {

/// One worker's share of a barrier: the actors the barrier is sent to and
/// the actors whose acknowledgement is collected on that worker.
pub struct WorkerActorInfo {
    pub worker_id: WorkerId,
    pub actors_to_send: Vec<ActorId>,
    pub actors_to_collect: Vec<ActorId>,
}

impl WorkerActorInfo {
    /// A worker that collects nothing must also send nothing: such a worker
    /// takes no part in the barrier at all.
    pub open spec fn ok(self) -> bool {
        self.actors_to_collect@.len() == 0 ==> self.actors_to_send@.len() == 0
    }

    /// Whether the worker takes part in the barrier.
    pub open spec fn takes_part(self) -> bool {
        self.actors_to_collect@.len() > 0
    }
}

/// The topology snapshot bound to a single barrier.
pub struct BarrierActorInfo {
    pub workers: Vec<WorkerActorInfo>,
}

impl BarrierActorInfo {
    pub open spec fn wf(self) -> bool {
        forall|i: int| 0 <= i < self.workers@.len() ==> (#[trigger] self.workers@[i]).ok()
    }

    /// No worker has any actor to collect: the fleet is effectively empty
    /// and the barrier need not be sent anywhere.
    pub open spec fn spec_nothing_to_do(self) -> bool {
        forall|i: int|
            0 <= i < self.workers@.len() ==> !(#[trigger] self.workers@[i]).takes_part()
    }

    /// Validate a resolved topology. Fails with [`BarrierError::Fatal`]
    /// exactly when some worker lists actors to send but none to collect.
    pub fn resolve(workers: Vec<WorkerActorInfo>) -> (r: Result<BarrierActorInfo, BarrierError>)
        ensures
            r is Ok <==> forall|i: int|
                0 <= i < workers@.len() ==> (#[trigger] workers@[i]).ok(),
            r matches Ok(info) ==> info.workers == workers && info.wf(),
            r matches Err(e) ==> e == BarrierError::Fatal,
    {
        let n = workers.len();
        let mut i: usize = 0;
        while i < n
            invariant
                n == workers@.len(),
                0 <= i <= n,
                forall|k: int| 0 <= k < i ==> (#[trigger] workers@[k]).ok(),
            decreases n - i,
        {
            let w = &workers[i];
            if w.actors_to_collect.len() == 0 && w.actors_to_send.len() > 0 {
                return Err(BarrierError::Fatal);
            }
            i = i + 1;
        }
        Ok(BarrierActorInfo { workers })
    }

    /// Executable twin of [`Self::spec_nothing_to_do`].
    pub fn nothing_to_do(&self) -> (r: bool)
        ensures
            r == self.spec_nothing_to_do(),
    {
        let n = self.workers.len();
        let mut i: usize = 0;
        while i < n
            invariant
                n == self.workers@.len(),
                0 <= i <= n,
                forall|k: int| 0 <= k < i ==> !(#[trigger] self.workers@[k]).takes_part(),
            decreases n - i,
        {
            if self.workers[i].actors_to_collect.len() > 0 {
                return false;
            }
            i = i + 1;
        }
        true
    }
}

} // verus!
