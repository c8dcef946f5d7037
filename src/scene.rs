//! The scene: the ordered entity list and the ordered systems that run
//! over it once per frame.

use vstd::prelude::*;

use crate::components::Component;
use crate::entity::Entity;
use crate::global::{Global, Signals};
use crate::systems::collision::CollisionSystem;
use crate::systems::movement::MovementSystem;
use crate::systems::physics::PhysicsSystem;
use crate::systems::{ids_kept, world_of, world_wf, System};

verus! {

/// A system registered with a scene.
#[derive(Clone, Copy, Debug, PartialEq, Eq)]
pub enum ScheduledSystem {
    Physics(PhysicsSystem),
    Movement(MovementSystem),
    Collision(CollisionSystem),
}

impl System for ScheduledSystem {
    open spec fn outcome(&self, world: Seq<Seq<Component>>, signals: Signals) -> Seq<
        Seq<Component>,
    > {
        match self {
            ScheduledSystem::Physics(s) => s.outcome(world, signals),
            ScheduledSystem::Movement(s) => s.outcome(world, signals),
            ScheduledSystem::Collision(s) => s.outcome(world, signals),
        }
    }

    fn run(&mut self, entities: &mut Vec<Entity>, global: &Global) {
        match self {
            ScheduledSystem::Physics(s) => s.run(entities, global),
            ScheduledSystem::Movement(s) => s.run(entities, global),
            ScheduledSystem::Collision(s) => s.run(entities, global),
        }
    }
}

/// The world after systems `k..` run in order.
pub open spec fn frame_from(
    systems: Seq<ScheduledSystem>,
    k: int,
    world: Seq<Seq<Component>>,
    signals: Signals,
) -> Seq<Seq<Component>>
    decreases systems.len() - k,
{
    if k < 0 || k >= systems.len() {
        world
    } else {
        frame_from(systems, k + 1, systems[k].outcome(world, signals), signals)
    }
}

/// The world after one frame: every system once, in registration order.
pub open spec fn frame(systems: Seq<ScheduledSystem>, world: Seq<Seq<Component>>, signals: Signals) -> Seq<
    Seq<Component>,
> {
    frame_from(systems, 0, world, signals)
}

/// Composition root of one frame.
#[derive(Debug)]
pub struct Scene {
    pub systems: Vec<ScheduledSystem>,
    pub entities: Vec<Entity>,
}

impl Scene {
    /// A scene of the given entities and no systems.
    pub fn new(entities: Vec<Entity>) -> (s: Scene)
        ensures
            s.entities@ == entities@,
            s.systems@.len() == 0,
    {
        Scene { entities, systems: Vec::new() }
    }

    /// Appends an entity.
    pub fn add_entity(&mut self, entity: Entity)
        ensures
            final(self).entities@ == old(self).entities@.push(entity),
            final(self).systems@ == old(self).systems@,
    {
        self.entities.push(entity);
    }

    /// Registers a system after the others.
    pub fn add_system(&mut self, system: ScheduledSystem)
        ensures
            final(self).systems@ == old(self).systems@.push(system),
            final(self).entities@ == old(self).entities@,
    {
        self.systems.push(system);
    }

    /// Runs every system once over the entities, in registration order.
    pub fn run_frame(&mut self, global: &Global)
        requires
            world_wf(world_of(old(self).entities@)),
        ensures
            final(self).systems@ == old(self).systems@,
            ids_kept(old(self).entities@, final(self).entities@),
            world_wf(world_of(final(self).entities@)),
            world_of(final(self).entities@) == frame(
                old(self).systems@,
                world_of(old(self).entities@),
                global.signals,
            ),
    {
        let ghost systems = self.systems@;
        let ghost first = self.entities@;
        let ghost target = frame(systems, world_of(first), global.signals);
        let mut k: usize = 0;
        while k < self.systems.len()
            invariant
                self.systems@ == systems,
                k <= systems.len(),
                ids_kept(first, self.entities@),
                world_wf(world_of(self.entities@)),
                frame_from(systems, k as int, world_of(self.entities@), global.signals) == target,
            decreases systems.len() - k,
        {
            self.systems[k].run(&mut self.entities, global);
            assert(self.systems@ =~= systems);
            k = k + 1;
        }
    }
}

} // verus!
