//! Force integration: accumulated force into velocity, velocity into
//! position, once per frame for every entity with position and physics.

use vstd::prelude::*;

use crate::components::physics::PhysicsComponent;
use crate::components::position::PositionComponent;
use crate::components::{Component, ComponentKind};
use crate::entity::{
    components_wf, find_kind, lemma_find_from, lemma_find_same_kind, physics_in, position_in,
    Entity,
};
use crate::fixed::fixed_div;
use crate::global::{Global, Signals};
use crate::systems::{ids_kept, world_of, world_wf, System};

verus! {

/// Integrates motion, adding a constant external force (such as gravity)
/// to every moving entity each frame.
#[derive(Clone, Copy, Debug, PartialEq, Eq)]
pub struct PhysicsSystem {
    pub external_force: (i64, i64),
}

/// Position and physics after one integration step: the external force is
/// accumulated, the acceleration added to the velocity, the rectangle moved
/// by the velocity, and the accumulator emptied.
pub open spec fn integrated(p: PositionComponent, q: PhysicsComponent, force: (i64, i64)) -> Option<
    (PositionComponent, PhysicsComponent),
> {
    match q.applied_force((force.0 as int, force.1 as int)) {
        Some(q1) => match q1.updated() {
            Some(q2) => match p.shifted(q2.velocity.0 as int, q2.velocity.1 as int) {
                Some(p1) => Some((p1, PhysicsComponent { acceleration: (0, 0), ..q2 })),
                None => None,
            },
            None => None,
        },
        None => None,
    }
}

/// Position and physics after one tick: the integration step, or, when it
/// would leave `i64`, the same position and velocity with the accumulator
/// emptied all the same.
pub open spec fn stepped(p: PositionComponent, q: PhysicsComponent, force: (i64, i64)) -> (
    PositionComponent,
    PhysicsComponent,
) {
    match integrated(p, q, force) {
        Some(r) => r,
        None => (p, PhysicsComponent { acceleration: (0, 0), ..q }),
    }
}

/// An entity's components after one tick; an entity without both a
/// position and physics is left as it is.
pub open spec fn physics_tick(cs: Seq<Component>, force: (i64, i64)) -> Seq<Component> {
    match (position_in(cs), physics_in(cs)) {
        (Some(p), Some(q)) => cs.update(
            find_kind(cs, ComponentKind::Position).unwrap(),
            Component::Position(stepped(p, q, force).0),
        ).update(
            find_kind(cs, ComponentKind::Physics).unwrap(),
            Component::Physics(stepped(p, q, force).1),
        ),
        _ => cs,
    }
}

/// Every entity ticked.
pub open spec fn physics_world(world: Seq<Seq<Component>>, force: (i64, i64)) -> Seq<
    Seq<Component>,
> {
    world.map_values(|cs: Seq<Component>| physics_tick(cs, force))
}

/// A tick keeps the kinds and indices of the components and their
/// well-formedness.
pub proof fn lemma_tick_keeps(cs: Seq<Component>, force: (i64, i64))
    requires
        components_wf(cs),
    ensures
        physics_tick(cs, force).len() == cs.len(),
        forall|k: ComponentKind| #[trigger] find_kind(physics_tick(cs, force), k) == find_kind(cs, k),
        components_wf(physics_tick(cs, force)),
{
    lemma_find_from(cs, ComponentKind::Position, 0);
    lemma_find_from(cs, ComponentKind::Physics, 0);
    if position_in(cs) is Some && physics_in(cs) is Some {
        let (p, q) = stepped(position_in(cs).unwrap(), physics_in(cs).unwrap(), force);
        let pi = find_kind(cs, ComponentKind::Position).unwrap();
        let qi = find_kind(cs, ComponentKind::Physics).unwrap();
        let c1 = cs.update(pi, Component::Position(p));
        let c2 = c1.update(qi, Component::Physics(q));
        assert forall|k: ComponentKind| #[trigger] find_kind(c2, k) == find_kind(cs, k) by {
            lemma_find_same_kind(cs, pi, Component::Position(p), k);
            lemma_find_same_kind(c1, qi, Component::Physics(q), k);
        }
        assert(c2[pi] == Component::Position(p));
        assert(c2[qi] == Component::Physics(q));
    }
}

/// An entity's components after `n` ticks.
pub open spec fn ticks(cs: Seq<Component>, force: (i64, i64), n: nat) -> Seq<Component>
    decreases n,
{
    if n == 0 {
        cs
    } else {
        ticks(physics_tick(cs, force), force, (n - 1) as nat)
    }
}

/// An entity at rest (zero acceleration and zero velocity) under no external
/// force stays exactly as it is, its position included, for any number of ticks.
pub proof fn law_rest_is_stable(cs: Seq<Component>, n: nat)
    requires
        components_wf(cs),
        physics_in(cs) matches Some(q) ==> q.acceleration == (0i64, 0i64) && q.velocity == (
            0i64,
            0i64,
        ),
    ensures
        ticks(cs, (0, 0), n) == cs,
    decreases n,
{
    if n > 0 {
        lemma_find_from(cs, ComponentKind::Position, 0);
        lemma_find_from(cs, ComponentKind::Physics, 0);
        if position_in(cs) is Some && physics_in(cs) is Some {
            let p = position_in(cs).unwrap();
            let q = physics_in(cs).unwrap();
            assert(fixed_div(0, q.mass as int) == 0);
            let pi = find_kind(cs, ComponentKind::Position).unwrap();
            let qi = find_kind(cs, ComponentKind::Physics).unwrap();
            assert(integrated(p, q, (0, 0)) == Some((p, q)));
            assert(cs.update(pi, Component::Position(p)).update(qi, Component::Physics(q)) =~= cs);
        }
        law_rest_is_stable(cs, (n - 1) as nat);
    }
}

/// One tick empties the force accumulator whatever it held. The velocity
/// changes only by the integration step, the old acceleration plus the
/// external force divided by the mass, when that step fits in `i64`, and not
/// at all otherwise; mass, friction and bounciness never change.
pub proof fn law_tick_resets_accumulator(cs: Seq<Component>, force: (i64, i64))
    requires
        components_wf(cs),
        position_in(cs) is Some,
        physics_in(cs) is Some,
    ensures
        ({
            let before = physics_in(cs).unwrap();
            let after = physics_in(physics_tick(cs, force));
            &&& after is Some
            &&& after.unwrap().acceleration == (0i64, 0i64)
            &&& after.unwrap().mass == before.mass
            &&& after.unwrap().friction == before.friction
            &&& after.unwrap().bounciness == before.bounciness
            &&& integrated(position_in(cs).unwrap(), before, force) is Some ==> {
                &&& after.unwrap().velocity.0 == before.velocity.0 + before.acceleration.0
                    + fixed_div(force.0 as int, before.mass as int)
                &&& after.unwrap().velocity.1 == before.velocity.1 + before.acceleration.1
                    + fixed_div(force.1 as int, before.mass as int)
            }
            &&& integrated(position_in(cs).unwrap(), before, force) is None
                ==> after.unwrap().velocity == before.velocity
        }),
{
    lemma_tick_keeps(cs, force);
    lemma_find_from(cs, ComponentKind::Position, 0);
    lemma_find_from(cs, ComponentKind::Physics, 0);
    let after = physics_tick(cs, force);
    let qi = find_kind(cs, ComponentKind::Physics).unwrap();
    let (p1, q1) = stepped(position_in(cs).unwrap(), physics_in(cs).unwrap(), force);
    assert(after[qi] == Component::Physics(q1));
}

impl PhysicsSystem {
    /// A physics system with no external force.
    pub fn new() -> (r: PhysicsSystem)
        ensures
            r.external_force == (0i64, 0i64),
    {
        PhysicsSystem { external_force: (0, 0) }
    }

    /// Integrates one entity's motion; an overflowing step leaves both
    /// components as they are.
    fn update_position(&self, physics: &mut PhysicsComponent, position: &mut PositionComponent)
        requires
            old(physics).wf(),
        ensures
            (*final(position), *final(physics)) == stepped(
                *old(position),
                *old(physics),
                self.external_force,
            ),
    {
        let stepped = match physics.try_apply_force(self.external_force) {
            Some(q1) => match q1.try_update() {
                Some(q2) => {
                    let displ = q2.get_displacement();
                    match position.try_shift(displ.0, displ.1) {
                        Some(p) => Some((p, q2)),
                        None => None,
                    }
                },
                None => None,
            },
            None => None,
        };
        if let Some((p, q)) = stepped {
            *physics = q;
            *position = p;
        }
        physics.reset();
    }

    /// Integrates one entity.
    fn tick(&self, entity: &mut Entity)
        requires
            components_wf(old(entity).components@),
        ensures
            final(entity).id == old(entity).id,
            final(entity).components@ == physics_tick(old(entity).components@, self.external_force),
    {
        let ghost cs0 = entity.components@;
        proof {
            lemma_find_from(cs0, ComponentKind::Position, 0);
            lemma_find_from(cs0, ComponentKind::Physics, 0);
        }
        let pi = entity.find(ComponentKind::Position);
        let qi = entity.find(ComponentKind::Physics);
        match (pi, qi, entity.position(), entity.physics()) {
            (Some(pi), Some(qi), Some(mut position), Some(mut physics)) => {
                self.update_position(&mut physics, &mut position);
                entity.set_component(pi, Component::Position(position));
                entity.set_component(qi, Component::Physics(physics));
            },
            _ => {},
        }
    }

    /// One integration tick over every entity, in list order.
    pub fn integrate(&self, entities: &mut Vec<Entity>)
        requires
            world_wf(world_of(old(entities)@)),
        ensures
            ids_kept(old(entities)@, final(entities)@),
            world_wf(world_of(final(entities)@)),
            world_of(final(entities)@) == physics_world(
                world_of(old(entities)@),
                self.external_force,
            ),
    {
        let ghost orig = world_of(entities@);
        let ghost first = entities@;
        let n = entities.len();
        assert forall|m: int| 0 <= m < n implies #[trigger] entities@[m].components@ == orig[m]
            && components_wf(entities@[m].components@) by {
            assert(components_wf(orig[m]));
        }
        let mut i: usize = 0;
        while i < n
            invariant
                n == entities@.len(),
                n == orig.len(),
                orig == world_of(first),
                world_wf(orig),
                i <= n,
                forall|m: int| 0 <= m < n ==> #[trigger] entities@[m].id == first[m].id,
                forall|m: int|
                    0 <= m < i ==> #[trigger] entities@[m].components@ == physics_tick(
                        orig[m],
                        self.external_force,
                    ),
                forall|m: int| i <= m < n ==> #[trigger] entities@[m].components@ == orig[m],
                forall|m: int| 0 <= m < n ==> components_wf(#[trigger] entities@[m].components@),
            decreases n - i,
        {
            assert(components_wf(orig[i as int]));
            proof {
                lemma_tick_keeps(orig[i as int], self.external_force);
            }
            let ghost before = entities@;
            assert(before[i as int].components@ == orig[i as int]);
            self.tick(&mut entities[i]);
            assert(entities@.len() == before.len());
            assert(entities@[i as int].components@ == physics_tick(
                orig[i as int],
                self.external_force,
            ));
            assert(forall|m: int| 0 <= m < n && m != i ==> entities@[m] == before[m]);
            assert forall|m: int| i < m < n implies #[trigger] entities@[m].components@ == orig[m] by {
                assert(entities@[m] == before[m]);
            }
            assert forall|m: int| 0 <= m < i implies #[trigger] entities@[m].components@
                == physics_tick(orig[m], self.external_force) by {
                assert(entities@[m] == before[m]);
                assert(before[m].components@ == physics_tick(orig[m], self.external_force));
            }
            assert forall|m: int| 0 <= m < n implies components_wf(
                #[trigger] entities@[m].components@,
            ) by {
                if m != i {
                    assert(entities@[m] == before[m]);
                }
            }
            i = i + 1;
        }
        assert(world_of(entities@) =~= physics_world(orig, self.external_force));
        assert forall|m: int| 0 <= m < n implies components_wf(
            #[trigger] world_of(entities@)[m],
        ) by {
            assert(world_of(entities@)[m] == entities@[m].components@);
        }
    }
}

impl System for PhysicsSystem {
    open spec fn outcome(&self, world: Seq<Seq<Component>>, signals: Signals) -> Seq<
        Seq<Component>,
    > {
        physics_world(world, self.external_force)
    }

    fn run(&mut self, entities: &mut Vec<Entity>, global: &Global) {
        self.integrate(entities);
    }
}

} // verus!
