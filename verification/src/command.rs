//! Commands: the control-plane intent carried by a barrier.
//!
//! Each variant determines the mutation attached to the barrier, whether the
//! command builds new actors, the actors whose post-collect progress is
//! tracked, and which post-collect side effect the host must run.

use vstd::prelude::*;

use crate::{ActorId, TableId};

verus! {

/// The control-plane payload attached to a barrier, derived from the
/// command that scheduled it.
pub enum Mutation {
    /// Start the given set of newly created actors.
    Add { actors: Vec<ActorId> },
    /// Stop and drop the given set of actors.
    Stop { actors: Vec<ActorId> },
    /// Replace parts of the topology: start `added_actors`, stop
    /// `removed_actors`.
    Update { added_actors: Vec<ActorId>, removed_actors: Vec<ActorId> },
    /// Pause all sources.
    Pause,
    /// Resume all sources.
    Resume,
}

/// The intent carried by a scheduled barrier.
pub enum Command {
    /// No mutation: a periodic checkpoint.
    Plain,
    /// Pause all sources.
    Pause,
    /// Resume all sources.
    Resume,
    /// Create a materialized view: start `actors_to_create` and track the
    /// backfill progress of `actors_to_track` until they all report done.
    CreateMaterializedView {
        table_id: TableId,
        actors_to_create: Vec<ActorId>,
        actors_to_track: Vec<ActorId>,
    },
    /// Drop a materialized view: stop its actors.
    DropMaterializedView { table_id: TableId, actors_to_drop: Vec<ActorId> },
    /// Move actors across workers: start `added_actors`, stop
    /// `removed_actors`.
    Reschedule { added_actors: Vec<ActorId>, removed_actors: Vec<ActorId> },
}

/// The mutation a command derives, stated up to the contained actor lists.
pub open spec fn mutation_is_for(m: Option<Mutation>, c: Command) -> bool {
    match c {
        Command::Plain => m is None,
        Command::Pause => m matches Some(Mutation::Pause),
        Command::Resume => m matches Some(Mutation::Resume),
        Command::CreateMaterializedView { actors_to_create, .. } => {
            m matches Some(Mutation::Add { actors }) && actors@ == actors_to_create@
        },
        Command::DropMaterializedView { actors_to_drop, .. } => {
            m matches Some(Mutation::Stop { actors }) && actors@ == actors_to_drop@
        },
        Command::Reschedule { added_actors, removed_actors } => {
            m matches Some(Mutation::Update { added_actors: a, removed_actors: r })
                && a@ == added_actors@ && r@ == removed_actors@
        },
    }
}

impl Command {
    /// The default periodic checkpoint barrier.
    pub fn checkpoint() -> (r: Command)
        ensures
            r is Plain,
    {
        Command::Plain
    }

    /// Whether this command builds new actors while its barrier is in
    /// flight: every command but a plain checkpoint claims the single
    /// writer slot on the actor topology.
    pub open spec fn spec_builds_actors(self) -> bool {
        !(self is Plain)
    }

    /// Executable twin of [`Self::spec_builds_actors`].
    pub fn builds_actors(&self) -> (r: bool)
        ensures
            r == self.spec_builds_actors(),
    {
        !matches!(self, Command::Plain)
    }

    /// The actors whose post-collect progress must be tracked before the
    /// command counts as finished.
    pub open spec fn spec_actors_to_track(self) -> Seq<ActorId> {
        match self {
            Command::CreateMaterializedView { actors_to_track, .. } => actors_to_track@,
            _ => Seq::empty(),
        }
    }

    /// Executable twin of [`Self::spec_actors_to_track`].
    pub fn actors_to_track(&self) -> (r: Vec<ActorId>)
        ensures
            r@ == self.spec_actors_to_track(),
    {
        match self {
            Command::CreateMaterializedView { actors_to_track, .. } => {
                let r = actors_to_track.clone();
                assert(r@ =~= actors_to_track@);
                r
            },
            _ => Vec::new(),
        }
    }

    /// The table being created, if any: the fragment manager resolves the
    /// topology of a creating table separately.
    pub open spec fn spec_creating_table_id(self) -> Option<TableId> {
        match self {
            Command::CreateMaterializedView { table_id, .. } => Some(table_id),
            _ => None,
        }
    }

    /// Executable twin of [`Self::spec_creating_table_id`].
    pub fn creating_table_id(&self) -> (r: Option<TableId>)
        ensures
            r == self.spec_creating_table_id(),
    {
        match self {
            Command::CreateMaterializedView { table_id, .. } => Some(*table_id),
            _ => None,
        }
    }

    /// Derive the barrier's mutation. Deterministic and side-effect-free.
    pub fn to_mutation(&self) -> (r: Option<Mutation>)
        ensures
            mutation_is_for(r, *self),
    {
        match self {
            Command::Plain => None,
            Command::Pause => Some(Mutation::Pause),
            Command::Resume => Some(Mutation::Resume),
            Command::CreateMaterializedView { actors_to_create, .. } => {
                let actors = actors_to_create.clone();
                assert(actors@ =~= actors_to_create@);
                Some(Mutation::Add { actors })
            },
            Command::DropMaterializedView { actors_to_drop, .. } => {
                let actors = actors_to_drop.clone();
                assert(actors@ =~= actors_to_drop@);
                Some(Mutation::Stop { actors })
            },
            Command::Reschedule { added_actors, removed_actors } => {
                let a = added_actors.clone();
                let r = removed_actors.clone();
                assert(a@ =~= added_actors@);
                assert(r@ =~= removed_actors@);
                Some(Mutation::Update { added_actors: a, removed_actors: r })
            },
        }
    }
}

} // verus!
