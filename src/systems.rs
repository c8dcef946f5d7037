//! The systems: processors that run once per frame over the entity list.

pub mod audio;
pub mod collision;
pub mod input;
pub mod movement;
pub mod physics;

use vstd::prelude::*;

use crate::components::Component;
use crate::entity::{components_wf, Entity};
use crate::global::{Global, Signals};

verus! {

/// The component lists of a list of entities.
pub open spec fn world_of(entities: Seq<Entity>) -> Seq<Seq<Component>> {
    entities.map_values(|e: Entity| e.components@)
}

/// Every entity's first position and physics components are well formed.
pub open spec fn world_wf(world: Seq<Seq<Component>>) -> bool {
    forall|k: int| 0 <= k < world.len() ==> components_wf(#[trigger] world[k])
}

/// The same number of entities, with the same identifiers in the same order.
pub open spec fn ids_kept(before: Seq<Entity>, after: Seq<Entity>) -> bool {
    &&& after.len() == before.len()
    &&& forall|k: int| 0 <= k < before.len() ==> #[trigger] after[k].id == before[k].id
}

/// Whether every entity is well formed.
pub fn entities_well_formed(entities: &Vec<Entity>) -> (r: bool)
    ensures
        r == world_wf(world_of(entities@)),
{
    let ghost world = world_of(entities@);
    let mut i: usize = 0;
    while i < entities.len()
        invariant
            world == world_of(entities@),
            i <= entities@.len(),
            forall|m: int| 0 <= m < i ==> components_wf(#[trigger] world[m]),
        decreases entities@.len() - i,
    {
        assert(world[i as int] == entities@[i as int].components@);
        if !entities[i].is_well_formed() {
            return false;
        }
        i = i + 1;
    }
    true
}

/// A processor run once per frame over the whole entity list.
pub trait System: Sized {
    /// The components of every entity after one run, given the signal board.
    spec fn outcome(&self, world: Seq<Seq<Component>>, signals: Signals) -> Seq<Seq<Component>>;

    /// Runs once over `entities`, reading the signals of `global`.
    fn run(&mut self, entities: &mut Vec<Entity>, global: &Global)
        requires
            world_wf(world_of(old(entities)@)),
        ensures
            *final(self) == *old(self),
            ids_kept(old(entities)@, final(entities)@),
            world_wf(world_of(final(entities)@)),
            world_of(final(entities)@) == old(self).outcome(world_of(old(entities)@), global.signals),
    ;
}

} // verus!
