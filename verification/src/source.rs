//! Projection: from symbolic entities to the identifiers that a ground has
//! given them.

use crate::entity::{EntitySetView, EntityView};
use crate::ground::{interned, Ground};
use crate::state::State;
use vstd::prelude::*;

verus! {

/// The identifiers that a ground has given to the entities of a set: the
/// positions at which the ground holds an element of the set.  An entity
/// that the ground does not hold contributes nothing.
pub open spec fn projected(entities: EntitySetView, ground: Seq<EntityView>) -> Set<usize> {
    Set::new(|id: usize| id < ground.len() && entities.contains(ground[id as int]))
}

/// A value that holds symbolic entities and can project them through a
/// ground.
pub trait Source {
    /// The identifiers of those entities of this value that the ground holds.
    spec fn projection(&self, ground: Seq<EntityView>) -> Set<usize>;

    /// The state of the identifiers of every entity of this value that the
    /// ground holds.  Entities without an identifier are left out without an
    /// error, and the ground stays as it is.
    fn emit(&mut self, ground: &Ground) -> (state: State)
        requires
            ground.wf(),
        ensures
            state@ == old(self).projection(ground@),
    ;
}

/// An entity that the ground does not hold has no part in a projection: with
/// it or without it, the set projects to the same identifiers.
pub proof fn lemma_projection_omits_unknown(
    entities: EntitySetView,
    ground: Seq<EntityView>,
    unknown: EntityView,
)
    requires
        !ground.contains(unknown),
    ensures
        projected(entities.insert(unknown), ground) == projected(entities, ground),
{
    assert(projected(entities.insert(unknown), ground) =~= projected(entities, ground));
}

/// In a projection every identifier stands for an element of the set, and
/// every element that the ground holds is there under its identifier.
pub proof fn lemma_projection_members(entities: EntitySetView, ground: Seq<EntityView>)
    requires
        interned(ground),
    ensures
        forall|id: usize| #[trigger]
            projected(entities, ground).contains(id) ==> id < ground.len() && entities.contains(
                ground[id as int],
            ),
        forall|i: int|
            0 <= i < ground.len() && i <= usize::MAX && entities.contains(#[trigger] ground[i])
                ==> projected(entities, ground).contains(i as usize),
{
}

} // verus!
