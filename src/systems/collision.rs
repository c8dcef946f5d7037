//! Collision detection and resolution between axis-aligned rectangles.
//!
//! Every unordered pair of distinct entities that both carry a collision
//! marker is visited once, in list order. When one of the two is a mover
//! (position and physics) and the other has a position, the mover is
//! resolved against the partner's rectangle as it was before the pass;
//! when both are movers, the earlier one in the list is resolved.
//!
//! Touching edges count as overlap. The side the mover is pushed out by is
//! found by comparing the partner's edge with the overlap's edge; in fixed
//! point that comparison is exact.

use vstd::prelude::*;

use crate::components::physics::PhysicsComponent;
use crate::components::position::PositionComponent;
use crate::components::{Component, ComponentKind};
use crate::entity::{
    components_wf, find_kind, has_kind, lemma_find_from, lemma_find_same_kind, physics_in,
    position_in, Entity,
};
use crate::fixed::{checked_sub, fits_i64, fixed_mul};
use crate::global::{Global, Signals};
use crate::systems::{ids_kept, world_of, world_wf, System};

verus! {

/// The axis along which a collision is resolved.
#[derive(Clone, Copy, Debug, PartialEq, Eq, Structural)]
pub enum Axis {
    X,
    Y,
}

/// The side of the partner the mover is pushed out by.
#[derive(Clone, Copy, Debug, PartialEq, Eq, Structural)]
pub enum Edge {
    Left,
    Right,
    Top,
    Bottom,
}

/// Detects and resolves collisions; it has no state of its own.
#[derive(Clone, Copy, Debug, PartialEq, Eq, Structural)]
pub struct CollisionSystem {}

/// The rectangles overlap; touching edges count as overlap.
pub open spec fn colliding(a: PositionComponent, b: PositionComponent) -> bool {
    !(a.left() > b.right() || a.right() < b.left() || a.bottom() < b.top() || a.top() > b.bottom())
}

/// The larger of two values.
pub open spec fn max_of(a: int, b: int) -> int {
    if a >= b {
        a
    } else {
        b
    }
}

/// The smaller of two values.
pub open spec fn min_of(a: int, b: int) -> int {
    if a <= b {
        a
    } else {
        b
    }
}

/// Left, right, top and bottom edges of the overlap of two rectangles.
pub open spec fn intersection_of(a: PositionComponent, b: PositionComponent) -> (
    int,
    int,
    int,
    int,
) {
    (
        max_of(a.left(), b.left()),
        min_of(a.right(), b.right()),
        max_of(a.top(), b.top()),
        min_of(a.bottom(), b.bottom()),
    )
}

/// Horizontal when the overlap is narrower than it is tall; vertical
/// otherwise, ties included.
pub open spec fn axis_of(inter: (int, int, int, int)) -> Axis {
    if inter.1 - inter.0 < inter.3 - inter.2 {
        Axis::X
    } else {
        Axis::Y
    }
}

/// The partner edge that matches the overlap on the chosen axis.
pub open spec fn edge_of(inter: (int, int, int, int), b: PositionComponent) -> Edge {
    match axis_of(inter) {
        Axis::X => if b.position.0 == inter.0 {
            Edge::Left
        } else {
            Edge::Right
        },
        Axis::Y => if b.position.1 == inter.2 {
            Edge::Top
        } else {
            Edge::Bottom
        },
    }
}

/// The mover's position and physics after a collision with overlap `inter`
/// against partner `b`: a bounce on the chosen axis, friction on the other,
/// and a push out of the overlap by its depth. `None` when a value leaves `i64`.
pub open spec fn resolved(
    inter: (int, int, int, int),
    a: PositionComponent,
    phys: PhysicsComponent,
    b: PositionComponent,
) -> Option<(PositionComponent, PhysicsComponent)> {
    let x_dist = inter.1 - inter.0;
    let y_dist = inter.3 - inter.2;
    if !fits_i64(x_dist) || !fits_i64(-x_dist) || !fits_i64(y_dist) || !fits_i64(-y_dist) {
        None
    } else {
        let (bounced, shift) = match edge_of(inter, b) {
            Edge::Left => (phys.bounced_x(), (-x_dist, 0int)),
            Edge::Right => (phys.bounced_x(), (x_dist, 0int)),
            Edge::Top => (phys.bounced_y(), (0int, -y_dist)),
            Edge::Bottom => (phys.bounced_y(), (0int, y_dist)),
        };
        let damped = match bounced {
            Some(q) => match axis_of(inter) {
                Axis::X => q.with_friction_y(),
                Axis::Y => q.with_friction_x(),
            },
            None => None,
        };
        match (damped, a.shifted(shift.0, shift.1)) {
            (Some(q), Some(p)) => Some((p, q)),
            _ => None,
        }
    }
}

/// The open interiors of the rectangles intersect: they overlap by more
/// than an edge.
pub open spec fn interiors_overlap(a: PositionComponent, b: PositionComponent) -> bool {
    a.left() < b.right() && b.left() < a.right() && a.top() < b.bottom() && b.top() < a.bottom()
}

/// Overlap detection does not depend on the order of the two rectangles.
pub proof fn law_colliding_symmetric(a: PositionComponent, b: PositionComponent)
    ensures
        colliding(a, b) == colliding(b, a),
{
}

/// When the overlap is exactly as wide as it is tall, the collision is
/// resolved vertically: the mover keeps its horizontal position and
/// horizontal velocity, and bounces vertically.
pub proof fn law_tie_resolves_vertically(
    a: PositionComponent,
    phys: PhysicsComponent,
    b: PositionComponent,
)
    requires
        intersection_of(a, b).1 - intersection_of(a, b).0 == intersection_of(a, b).3
            - intersection_of(a, b).2,
        resolved(intersection_of(a, b), a, phys, b) is Some,
    ensures
        axis_of(intersection_of(a, b)) == Axis::Y,
        resolved(intersection_of(a, b), a, phys, b).unwrap().0.position.0 == a.position.0,
        resolved(intersection_of(a, b), a, phys, b).unwrap().1.velocity.0 == phys.velocity.0,
        resolved(intersection_of(a, b), a, phys, b).unwrap().1.velocity.1 == fixed_mul(
            phys.velocity.1 as int,
            -phys.bounciness,
        ),
{
}

/// The partner does not lie strictly inside the mover along `axis`: the
/// overlap on that axis ends at one of the mover's own edges.
pub open spec fn not_nested(a: PositionComponent, b: PositionComponent, axis: Axis) -> bool {
    match axis {
        Axis::X => (b.left() >= a.left() ==> a.right() <= b.right()) && (b.left() < a.left()
            ==> b.right() <= a.right()),
        Axis::Y => (b.top() >= a.top() ==> a.bottom() <= b.bottom()) && (b.top() < a.top()
            ==> b.bottom() <= a.bottom()),
    }
}

/// Positional correction pushes the mover out by exactly the penetration
/// depth: afterwards its rectangle meets the partner's along the chosen
/// axis edge to edge, and their interiors no longer overlap.
pub proof fn law_correction_ends_penetration(
    a: PositionComponent,
    phys: PhysicsComponent,
    b: PositionComponent,
)
    requires
        a.wf(),
        b.wf(),
        colliding(a, b),
        not_nested(a, b, axis_of(intersection_of(a, b))),
        resolved(intersection_of(a, b), a, phys, b) is Some,
    ensures
        ({
            let p = resolved(intersection_of(a, b), a, phys, b).unwrap().0;
            &&& p.size == a.size
            &&& axis_of(intersection_of(a, b)) == Axis::X ==> p.right() == b.left() || p.left()
                == b.right()
            &&& axis_of(intersection_of(a, b)) == Axis::Y ==> p.bottom() == b.top() || p.top()
                == b.bottom()
            &&& !interiors_overlap(p, b)
        }),
{
}

/// Takes part in detection and may be pushed: collision, position and physics.
pub open spec fn is_mover(cs: Seq<Component>) -> bool {
    &&& has_kind(cs, ComponentKind::Collision)
    &&& position_in(cs) is Some
    &&& physics_in(cs) is Some
}

/// Takes part in detection as a rectangle: collision and position.
pub open spec fn is_obstacle(cs: Seq<Component>) -> bool {
    &&& has_kind(cs, ComponentKind::Collision)
    &&& position_in(cs) is Some
}

/// The mover `cs` after resolving against partner rectangle `b`. It is left
/// as it is when the rectangles do not overlap, and when the resolution
/// would leave `i64`.
pub open spec fn resolve_against(cs: Seq<Component>, b: PositionComponent) -> Seq<Component> {
    let a = position_in(cs).unwrap();
    let phys = physics_in(cs).unwrap();
    if !colliding(a, b) {
        cs
    } else {
        match resolved(intersection_of(a, b), a, phys, b) {
            Some((p, q)) => cs.update(
                find_kind(cs, ComponentKind::Position).unwrap(),
                Component::Position(p),
            ).update(find_kind(cs, ComponentKind::Physics).unwrap(), Component::Physics(q)),
            None => cs,
        }
    }
}

/// One pair `(i, j)`, `i < j`, of the pass: `orig` is the world before the
/// pass, `cur` the world so far.
pub open spec fn pair_step(
    orig: Seq<Seq<Component>>,
    cur: Seq<Seq<Component>>,
    i: int,
    j: int,
) -> Seq<Seq<Component>> {
    if is_mover(cur[i]) && is_obstacle(orig[j]) {
        cur.update(i, resolve_against(cur[i], position_in(orig[j]).unwrap()))
    } else if is_mover(cur[j]) && is_obstacle(orig[i]) {
        cur.update(j, resolve_against(cur[j], position_in(orig[i]).unwrap()))
    } else {
        cur
    }
}

/// The rest of the pass from pair `(i, j)` on, in list order.
pub open spec fn pass_from(orig: Seq<Seq<Component>>, cur: Seq<Seq<Component>>, i: int, j: int) -> Seq<
    Seq<Component>,
>
    decreases orig.len() - i, orig.len() - j,
{
    if i < 0 || i >= orig.len() {
        cur
    } else if j <= i {
        pass_from(orig, cur, i, i + 1)
    } else if j >= orig.len() {
        pass_from(orig, cur, i + 1, i + 2)
    } else {
        pass_from(orig, pair_step(orig, cur, i, j), i, j + 1)
    }
}

/// The components of every entity after one collision pass.
pub open spec fn collision_pass(world: Seq<Seq<Component>>) -> Seq<Seq<Component>> {
    pass_from(world, world, 0, 1)
}

proof fn lemma_pass_keeps_non_movers(
    orig: Seq<Seq<Component>>,
    cur: Seq<Seq<Component>>,
    i: int,
    j: int,
    k: int,
)
    requires
        cur.len() == orig.len(),
        0 <= k < cur.len(),
        !is_mover(cur[k]),
    ensures
        pass_from(orig, cur, i, j).len() == cur.len(),
        pass_from(orig, cur, i, j)[k] == cur[k],
    decreases orig.len() - i, orig.len() - j,
{
    if i < 0 || i >= orig.len() {
    } else if j <= i {
        lemma_pass_keeps_non_movers(orig, cur, i, i + 1, k);
    } else if j >= orig.len() {
        lemma_pass_keeps_non_movers(orig, cur, i + 1, i + 2, k);
    } else {
        let next = pair_step(orig, cur, i, j);
        assert(next.len() == cur.len());
        assert(next[k] == cur[k]);
        lemma_pass_keeps_non_movers(orig, next, i, j + 1, k);
    }
}

/// Only movers are corrected: an entity without collision marker, position
/// or physics comes out of a collision pass exactly as it went in.
pub proof fn law_only_movers_move(world: Seq<Seq<Component>>, k: int)
    requires
        0 <= k < world.len(),
        !is_mover(world[k]),
    ensures
        collision_pass(world).len() == world.len(),
        collision_pass(world)[k] == world[k],
{
    lemma_pass_keeps_non_movers(world, world, 0, 1, k);
}

/// The smaller of two values.
fn min_fixed(a: i64, b: i64) -> (r: i64)
    ensures
        r == min_of(a as int, b as int),
{
    if a <= b {
        a
    } else {
        b
    }
}

/// The larger of two values.
fn max_fixed(a: i64, b: i64) -> (r: i64)
    ensures
        r == max_of(a as int, b as int),
{
    if a >= b {
        a
    } else {
        b
    }
}

/// Whether two rectangles overlap, touching edges included.
pub fn are_colliding(a: &PositionComponent, b: &PositionComponent) -> (r: bool)
    requires
        a.wf(),
        b.wf(),
    ensures
        r == colliding(*a, *b),
{
    let a_right_b = a.position.0 > b.position.0 + b.size.0;
    let a_left_b = a.position.0 + a.size.0 < b.position.0;
    let a_above_b = a.position.1 + a.size.1 < b.position.1;
    let a_below_b = a.position.1 > b.position.1 + b.size.1;
    !(a_right_b || a_left_b || a_above_b || a_below_b)
}

/// Left, right, top and bottom edges of the overlap of two rectangles.
pub fn get_collision_intersection(a: &PositionComponent, b: &PositionComponent) -> (r: [i64; 4])
    requires
        a.wf(),
        b.wf(),
    ensures
        (r[0] as int, r[1] as int, r[2] as int, r[3] as int) == intersection_of(*a, *b),
{
    let a_edges: [i64; 4] = [
        a.position.0,
        a.position.0 + a.size.0,
        a.position.1,
        a.position.1 + a.size.1,
    ];
    let b_edges: [i64; 4] = [
        b.position.0,
        b.position.0 + b.size.0,
        b.position.1,
        b.position.1 + b.size.1,
    ];
    [
        max_fixed(a_edges[0], b_edges[0]),
        min_fixed(a_edges[1], b_edges[1]),
        max_fixed(a_edges[2], b_edges[2]),
        min_fixed(a_edges[3], b_edges[3]),
    ]
}

impl CollisionSystem {
    /// The collision system; it has no state of its own.
    pub fn new() -> (r: CollisionSystem)
        ensures
            r == (CollisionSystem {  }),
    {
        CollisionSystem {  }
    }

    /// Resolves mover `a` against partner `b` given their overlap: bounce and
    /// friction on the mover's physics, and a push out of the overlap. A
    /// resolution that would leave `i64` changes nothing.
    pub fn handle_collision(
        &self,
        intersection: &[i64; 4],
        pos_a: &mut PositionComponent,
        phys_a: &mut PhysicsComponent,
        pos_b: &PositionComponent,
    )
        requires
            old(phys_a).wf(),
        ensures
            match resolved(
                (
                    intersection[0] as int,
                    intersection[1] as int,
                    intersection[2] as int,
                    intersection[3] as int,
                ),
                *old(pos_a),
                *old(phys_a),
                *pos_b,
            ) {
                Some((p, q)) => *final(pos_a) == p && *final(phys_a) == q,
                None => *final(pos_a) == *old(pos_a) && *final(phys_a) == *old(phys_a),
            },
    {
        let (x_dist, y_dist) = match (
            checked_sub(intersection[1], intersection[0]),
            checked_sub(intersection[3], intersection[2]),
        ) {
            (Some(x), Some(y)) => (x, y),
            _ => return ,
        };
        if x_dist == i64::MIN || y_dist == i64::MIN {
            return ;
        }
        let collision_axis = if x_dist < y_dist {
            Axis::X
        } else {
            Axis::Y
        };
        let (bounced, edge) = match collision_axis {
            Axis::X => (
                phys_a.try_bounce_x(),
                if pos_b.position.0 == intersection[0] {
                    Edge::Left
                } else {
                    Edge::Right
                },
            ),
            Axis::Y => (
                phys_a.try_bounce_y(),
                if pos_b.position.1 == intersection[2] {
                    Edge::Top
                } else {
                    Edge::Bottom
                },
            ),
        };
        let damped = match bounced {
            Some(q) => match collision_axis {
                Axis::X => q.try_friction_y(),
                Axis::Y => q.try_friction_x(),
            },
            None => None,
        };
        let shifted = match edge {
            Edge::Left => pos_a.try_shift(-x_dist, 0),
            Edge::Right => pos_a.try_shift(x_dist, 0),
            Edge::Top => pos_a.try_shift(0, -y_dist),
            Edge::Bottom => pos_a.try_shift(0, y_dist),
        };
        match (damped, shifted) {
            (Some(q), Some(p)) => {
                *phys_a = q;
                *pos_a = p;
            },
            _ => {},
        }
    }
}

/// The first position component is one exactly when its kind is found.
pub proof fn lemma_position_found(cs: Seq<Component>)
    ensures
        (position_in(cs) is Some) == has_kind(cs, ComponentKind::Position),
        (physics_in(cs) is Some) == has_kind(cs, ComponentKind::Physics),
{
    lemma_find_from(cs, ComponentKind::Position, 0);
    lemma_find_from(cs, ComponentKind::Physics, 0);
}

/// Resolving a mover keeps the kinds and indices of its components and
/// their well-formedness.
pub proof fn lemma_resolve_keeps(cs: Seq<Component>, b: PositionComponent)
    requires
        is_mover(cs),
        components_wf(cs),
    ensures
        resolve_against(cs, b).len() == cs.len(),
        forall|k: ComponentKind| #[trigger] find_kind(resolve_against(cs, b), k) == find_kind(cs, k),
        components_wf(resolve_against(cs, b)),
{
    let a = position_in(cs).unwrap();
    let phys = physics_in(cs).unwrap();
    lemma_find_from(cs, ComponentKind::Position, 0);
    lemma_find_from(cs, ComponentKind::Physics, 0);
    if colliding(a, b) && resolved(intersection_of(a, b), a, phys, b) is Some {
        let (p, q) = resolved(intersection_of(a, b), a, phys, b).unwrap();
        let pi = find_kind(cs, ComponentKind::Position).unwrap();
        let qi = find_kind(cs, ComponentKind::Physics).unwrap();
        let c1 = cs.update(pi, Component::Position(p));
        let c2 = c1.update(qi, Component::Physics(q));
        assert forall|k: ComponentKind| #[trigger] find_kind(c2, k) == find_kind(cs, k) by {
            lemma_find_same_kind(cs, pi, Component::Position(p), k);
            lemma_find_same_kind(c1, qi, Component::Physics(q), k);
        }
        assert(c2[pi] == Component::Position(p));
        assert(c2[qi] == Component::Physics(q));
    }
}

impl CollisionSystem {
    /// Resolves mover `entity` against the partner rectangle `pos_b`.
    fn resolve_mover(&self, entity: &mut Entity, pos_b: &PositionComponent)
        requires
            is_mover(old(entity).components@),
            components_wf(old(entity).components@),
            pos_b.wf(),
        ensures
            final(entity).id == old(entity).id,
            final(entity).components@ == resolve_against(old(entity).components@, *pos_b),
    {
        let ghost cs0 = entity.components@;
        proof {
            lemma_find_from(cs0, ComponentKind::Position, 0);
            lemma_find_from(cs0, ComponentKind::Physics, 0);
        }
        let pi = entity.find(ComponentKind::Position).unwrap();
        let qi = entity.find(ComponentKind::Physics).unwrap();
        let mut pos_a = entity.position().unwrap();
        let mut phys_a = entity.physics().unwrap();
        if !are_colliding(&pos_a, pos_b) {
            return ;
        }
        let intersection = get_collision_intersection(&pos_a, pos_b);
        let ghost p0 = pos_a;
        let ghost q0 = phys_a;
        self.handle_collision(&intersection, &mut pos_a, &mut phys_a, pos_b);
        entity.set_component(pi, Component::Position(pos_a));
        entity.set_component(qi, Component::Physics(phys_a));
        proof {
            if resolved(intersection_of(p0, *pos_b), p0, q0, *pos_b) is None {
                assert(entity.components@ =~= cs0);
            }
        }
    }
}

/// Whether `entity` is a mover.
fn mover_status(entity: &Entity) -> (r: bool)
    ensures
        r == is_mover(entity.components@),
{
    entity.find(ComponentKind::Collision).is_some() && entity.position().is_some()
        && entity.physics().is_some()
}

/// The entity's rectangle when it is an obstacle.
fn obstacle_rect(entity: &Entity) -> (r: Option<PositionComponent>)
    ensures
        r == (if is_obstacle(entity.components@) {
            position_in(entity.components@)
        } else {
            None
        }),
{
    if entity.find(ComponentKind::Collision).is_some() {
        entity.position()
    } else {
        None
    }
}

impl CollisionSystem {
    /// One collision pass over `entities`: every unordered pair of distinct
    /// entities is visited once, in list order, against the rectangles as
    /// they were before the pass.
    pub fn resolve_collisions(&self, entities: &mut Vec<Entity>)
        requires
            world_wf(world_of(old(entities)@)),
        ensures
            ids_kept(old(entities)@, final(entities)@),
            world_wf(world_of(final(entities)@)),
            world_of(final(entities)@) == collision_pass(world_of(old(entities)@)),
    {
        let ghost orig = world_of(entities@);
        let ghost first = entities@;
        let ghost target = collision_pass(orig);
        let n = entities.len();

        let mut snapshot: Vec<Option<PositionComponent>> = Vec::new();
        let mut k: usize = 0;
        while k < n
            invariant
                n == entities@.len(),
                orig == world_of(entities@),
                first == entities@,
                world_wf(orig),
                snapshot@.len() == k,
                k <= n,
                forall|m: int|
                    0 <= m < k ==> #[trigger] snapshot@[m] == (if is_obstacle(orig[m]) {
                        position_in(orig[m])
                    } else {
                        None
                    }),
            decreases n - k,
        {
            snapshot.push(obstacle_rect(&entities[k]));
            k = k + 1;
        }

        assert forall|m: int| 0 <= m < n implies components_wf(
            #[trigger] entities@[m].components@,
        ) by {
            assert(entities@[m].components@ == orig[m]);
            assert(components_wf(orig[m]));
        }
        let mut i: usize = 0;
        while i < n
            invariant
                n == entities@.len(),
                n == orig.len(),
                snapshot@.len() == n,
                forall|m: int|
                    0 <= m < n ==> #[trigger] snapshot@[m] == (if is_obstacle(orig[m]) {
                        position_in(orig[m])
                    } else {
                        None
                    }),
                forall|m: int| 0 <= m < n ==> components_wf(#[trigger] orig[m]),
                forall|m: int| 0 <= m < n ==> #[trigger] entities@[m].id == first[m].id,
                forall|m: int| 0 <= m < n ==> components_wf(#[trigger] entities@[m].components@),
                forall|m: int, kind: ComponentKind|
                    0 <= m < n ==> #[trigger] find_kind(entities@[m].components@, kind)
                        == find_kind(orig[m], kind),
                i <= n,
                pass_from(orig, world_of(entities@), i as int, i + 1) == target,
            decreases n - i,
        {
            let mut j: usize = i + 1;
            while j < n
                invariant
                    n == entities@.len(),
                    n == orig.len(),
                    snapshot@.len() == n,
                    forall|m: int|
                        0 <= m < n ==> #[trigger] snapshot@[m] == (if is_obstacle(orig[m]) {
                            position_in(orig[m])
                        } else {
                            None
                        }),
                    forall|m: int| 0 <= m < n ==> components_wf(#[trigger] orig[m]),
                    forall|m: int| 0 <= m < n ==> #[trigger] entities@[m].id == first[m].id,
                    forall|m: int|
                        0 <= m < n ==> components_wf(#[trigger] entities@[m].components@),
                    forall|m: int, kind: ComponentKind|
                        0 <= m < n ==> #[trigger] find_kind(entities@[m].components@, kind)
                            == find_kind(orig[m], kind),
                    i < n,
                    i < j <= n,
                    pass_from(orig, world_of(entities@), i as int, j as int) == target,
                decreases n - j,
            {
                let ghost cur = world_of(entities@);
                assert(cur[i as int] == entities@[i as int].components@);
                assert(cur[j as int] == entities@[j as int].components@);
                proof {
                    lemma_position_found(cur[i as int]);
                    lemma_position_found(cur[j as int]);
                    lemma_position_found(orig[i as int]);
                    lemma_position_found(orig[j as int]);
                }
                let next = Ghost(pair_step(orig, cur, i as int, j as int));
                if mover_status(&entities[i]) && snapshot[j].is_some() {
                    let pos_b = snapshot[j].unwrap();
                    proof {
                        lemma_resolve_keeps(cur[i as int], pos_b);
                    }
                    self.resolve_mover(&mut entities[i], &pos_b);
                } else if mover_status(&entities[j]) && snapshot[i].is_some() {
                    let pos_b = snapshot[i].unwrap();
                    proof {
                        lemma_resolve_keeps(cur[j as int], pos_b);
                    }
                    self.resolve_mover(&mut entities[j], &pos_b);
                }
                assert(world_of(entities@) =~= next@);
                j = j + 1;
            }
            i = i + 1;
        }
        assert forall|m: int| 0 <= m < n implies components_wf(
            #[trigger] world_of(entities@)[m],
        ) by {
            assert(world_of(entities@)[m] == entities@[m].components@);
        }
    }
}

impl System for CollisionSystem {
    open spec fn outcome(&self, world: Seq<Seq<Component>>, signals: Signals) -> Seq<
        Seq<Component>,
    > {
        collision_pass(world)
    }

    fn run(&mut self, entities: &mut Vec<Entity>, global: &Global) {
        self.resolve_collisions(entities);
    }
}

} // verus!
