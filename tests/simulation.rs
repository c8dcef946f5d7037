use bastel::components::collision::CollisionComponent;
use bastel::components::moveable::MoveableComponent;
use bastel::components::physics::PhysicsComponent;
use bastel::components::position::{generate_indices, generate_vertices, PositionComponent};
use bastel::components::{Component, ComponentKind};
use bastel::entity::Entity;
use bastel::fixed::{checked_add, checked_div_fixed, checked_mul_fixed, checked_sub, SCALE};
use bastel::global::{Global, Signal};
use bastel::scene::{Scene, ScheduledSystem};
use bastel::systems::collision::{are_colliding, get_collision_intersection, CollisionSystem};
use bastel::systems::movement::{get_vector_normalised, MovementSystem, MOVEMENT_STRENGTH};
use bastel::systems::physics::PhysicsSystem;
use bastel::systems::System;

fn rect(x: i64, y: i64, w: i64, h: i64) -> PositionComponent {
    PositionComponent { position: (x, y), size: (w, h) }
}

fn body(vx: i64, vy: i64) -> PhysicsComponent {
    let mut p = PhysicsComponent::default();
    p.velocity = (vx, vy);
    p
}

fn position_of(e: &Entity) -> PositionComponent {
    e.position().unwrap()
}

fn physics_of(e: &Entity) -> PhysicsComponent {
    e.physics().unwrap()
}

#[test]
fn fixed_point_products_round_toward_zero() {
    assert_eq!(checked_mul_fixed(1_500_000, 2_000_000), Some(3_000_000));
    assert_eq!(checked_mul_fixed(-1_500_000, 500_000), Some(-750_000));
    assert_eq!(checked_mul_fixed(-1, 1), Some(0));
    assert_eq!(checked_mul_fixed(1, 1), Some(0));
    assert_eq!(checked_div_fixed(1_000_000, 3_000_000), Some(333_333));
    assert_eq!(checked_div_fixed(-1_000_000, 3_000_000), Some(-333_333));
    assert_eq!(checked_div_fixed(0, 7), Some(0));
}

#[test]
fn fixed_point_overflow_is_reported() {
    assert_eq!(checked_mul_fixed(i64::MAX, 2 * SCALE), None);
    assert_eq!(checked_mul_fixed(i64::MIN, SCALE), Some(i64::MIN));
    assert_eq!(checked_div_fixed(i64::MAX, 1), None);
    assert_eq!(checked_div_fixed(i64::MAX, SCALE), Some(i64::MAX));
    assert_eq!(checked_add(i64::MAX, 1), None);
    assert_eq!(checked_sub(i64::MIN, 1), None);
    assert_eq!(checked_sub(5, 7), Some(-2));
}

#[test]
fn normalisation_of_directions() {
    assert_eq!(get_vector_normalised((0, 0)), (0, 0));
    assert_eq!(get_vector_normalised((1, 0)), (SCALE, 0));
    assert_eq!(get_vector_normalised((0, -1)), (0, -SCALE));
    assert_eq!(get_vector_normalised((1, -1)), (707_106, -707_106));
    assert_eq!(get_vector_normalised((-1, 1)), (-707_106, 707_106));
    let (x, y) = get_vector_normalised((-1, -1));
    assert!(x < 0 && y < 0);
    assert!(SCALE * SCALE - 4 * SCALE <= x * x + y * y && x * x + y * y <= SCALE * SCALE);
}

#[test]
fn rest_is_stable_over_many_ticks() {
    let mut entities = vec![Entity::new(
        1,
        vec![
            PositionComponent::new((250_000, -40_000), (100_000, 100_000)),
            Component::Physics(PhysicsComponent::default()),
        ],
    )];
    let mut physics = PhysicsSystem::new();
    let global = Global::new(String::from("t"), (800, 600));
    for _ in 0..50 {
        physics.run(&mut entities, &global);
    }
    assert_eq!(position_of(&entities[0]).position, (250_000, -40_000));
    assert_eq!(physics_of(&entities[0]).velocity, (0, 0));
    assert_eq!(physics_of(&entities[0]).acceleration, (0, 0));
}

#[test]
fn tick_resets_accumulator_and_keeps_velocity() {
    let mut phys = body(100_000, -20_000);
    phys.acceleration = (30_000, 5_000);
    let mut entities = vec![Entity::new(
        7,
        vec![PositionComponent::new((0, 0), (SCALE, SCALE)), Component::Physics(phys)],
    )];
    let physics = PhysicsSystem::new();
    physics.integrate(&mut entities);
    let after = physics_of(&entities[0]);
    assert_eq!(after.acceleration, (0, 0));
    assert_eq!(after.velocity, (130_000, -15_000));
    assert_eq!(position_of(&entities[0]).position, (130_000, -15_000));

    physics.integrate(&mut entities);
    let again = physics_of(&entities[0]);
    assert_eq!(again.acceleration, (0, 0));
    assert_eq!(again.velocity, (130_000, -15_000));
    assert_eq!(position_of(&entities[0]).position, (260_000, -30_000));
}

#[test]
fn external_force_is_divided_by_mass() {
    let mut phys = PhysicsComponent::new(2 * SCALE, SCALE / 2, SCALE);
    phys.velocity = (0, 0);
    let mut entities = vec![Entity::new(
        1,
        vec![PositionComponent::new((0, 0), (SCALE, SCALE)), Component::Physics(phys)],
    )];
    let mut physics = PhysicsSystem::new();
    physics.external_force = (0, 10_000);
    physics.integrate(&mut entities);
    assert_eq!(physics_of(&entities[0]).velocity, (0, 5_000));
    assert_eq!(position_of(&entities[0]).position, (0, 5_000));
}

fn movement_force(up: bool, down: bool, left: bool, right: bool) -> (i64, i64) {
    let mut global = Global::new(String::from("t"), (800, 600));
    global.signals.set(Signal::UpPressed, up);
    global.signals.set(Signal::DownPressed, down);
    global.signals.set(Signal::LeftPressed, left);
    global.signals.set(Signal::RightPressed, right);
    let mut phys = PhysicsComponent::default();
    let movement = MovementSystem::new();
    movement.handle_movement(&mut phys, (MOVEMENT_STRENGTH, MOVEMENT_STRENGTH), &global);
    phys.acceleration
}

#[test]
fn diagonal_movement_is_not_faster() {
    let axis = movement_force(false, false, false, true);
    let diagonal = movement_force(true, false, false, true);
    assert_eq!(axis, (1000, 0));
    assert_eq!(diagonal, (707, -707));
    let axis_len2 = axis.0 * axis.0 + axis.1 * axis.1;
    let diag_len2 = diagonal.0 * diagonal.0 + diagonal.1 * diagonal.1;
    assert!(diag_len2 <= axis_len2);
    assert!((axis_len2 - diag_len2) * 1000 < axis_len2);
    assert_eq!(movement_force(false, false, false, false), (0, 0));
    assert_eq!(movement_force(true, true, true, true), (0, 0));
    assert_eq!(movement_force(false, true, true, false), (-707, 707));
}

#[test]
fn movement_only_reaches_moveable_entities() {
    let mut global = Global::new(String::from("t"), (800, 600));
    global.signals.set(Signal::LeftPressed, true);
    let mut entities = vec![
        Entity::new(1, vec![MoveableComponent::new(), Component::Physics(PhysicsComponent::default())]),
        Entity::new(2, vec![Component::Physics(PhysicsComponent::default())]),
    ];
    let mut movement = MovementSystem::new();
    movement.run(&mut entities, &global);
    assert_eq!(physics_of(&entities[0]).acceleration, (-1000, 0));
    assert_eq!(physics_of(&entities[1]).acceleration, (0, 0));
}

#[test]
fn overlap_is_symmetric() {
    let cases = [
        (rect(0, 0, 10, 10), rect(5, 5, 10, 10)),
        (rect(0, 0, 10, 10), rect(10, 0, 10, 10)),
        (rect(0, 0, 10, 10), rect(11, 0, 10, 10)),
        (rect(0, 0, 10, 10), rect(0, 11, 10, 10)),
        (rect(-5, -5, 2, 2), rect(-3, -3, 0, 0)),
        (rect(0, 0, 100, 100), rect(40, 40, 5, 5)),
    ];
    for (a, b) in cases.iter() {
        assert_eq!(are_colliding(a, b), are_colliding(b, a));
    }
    assert!(are_colliding(&cases[0].0, &cases[0].1));
    assert!(are_colliding(&cases[1].0, &cases[1].1));
    assert!(!are_colliding(&cases[2].0, &cases[2].1));
    assert!(!are_colliding(&cases[3].0, &cases[3].1));
    assert!(are_colliding(&cases[5].0, &cases[5].1));
}

#[test]
fn intersection_edges() {
    let a = rect(100_000, 0, SCALE, SCALE);
    let b = rect(900_000, 0, SCALE, SCALE);
    assert_eq!(get_collision_intersection(&a, &b), [900_000, 1_100_000, 0, SCALE]);
}

#[test]
fn tie_resolves_as_vertical_collision() {
    let a0 = rect(0, 0, 2 * SCALE, SCALE);
    let b = rect(SCALE, 0, 2 * SCALE, SCALE);
    let inter = get_collision_intersection(&a0, &b);
    assert_eq!(inter[1] - inter[0], inter[3] - inter[2]);
    for _ in 0..3 {
        let mut a = a0;
        let mut phys = body(50_000, 40_000);
        CollisionSystem::new().handle_collision(&inter, &mut a, &mut phys, &b);
        assert_eq!(a.position, (0, -SCALE));
        assert_eq!(phys.velocity, (50_000, -40_000));
        assert_eq!(phys.acceleration, (-25_000, 0));
    }
}

#[test]
fn correction_ends_penetration() {
    let mut a = rect(450_000, 0, 100_000, 100_000);
    let b = rect(500_000, 0, 100_000, 100_000);
    assert!(are_colliding(&a, &b));
    let inter = get_collision_intersection(&a, &b);
    let mut phys = body(10_000, 0);
    CollisionSystem::new().handle_collision(&inter, &mut a, &mut phys, &b);
    assert_eq!(a.position, (400_000, 0));
    assert_eq!(a.position.0 + a.size.0, b.position.0);
    assert_eq!(phys.velocity, (-10_000, 0));
}

#[test]
fn end_to_end_bounce() {
    let a = Entity::new(
        1,
        vec![
            PositionComponent::new((0, 0), (SCALE, SCALE)),
            Component::Physics(PhysicsComponent {
                mass: SCALE,
                acceleration: (0, 0),
                velocity: (100_000, 0),
                friction: SCALE / 2,
                bounciness: SCALE,
            }),
            CollisionComponent::new(),
        ],
    );
    let b = Entity::new(
        2,
        vec![PositionComponent::new((900_000, 0), (SCALE, SCALE)), CollisionComponent::new()],
    );
    let mut scene = Scene::new(vec![a, b]);
    scene.add_system(ScheduledSystem::Physics(PhysicsSystem::new()));
    let global = Global::new(String::from("t"), (800, 600));
    scene.run_frame(&global);
    assert_eq!(position_of(&scene.entities[0]).position, (100_000, 0));

    scene.add_system(ScheduledSystem::Collision(CollisionSystem::new()));
    let mut collision = CollisionSystem::new();
    collision.run(&mut scene.entities, &global);
    let pa = position_of(&scene.entities[0]);
    let pb = position_of(&scene.entities[1]);
    assert_eq!(physics_of(&scene.entities[0]).velocity, (-100_000, 0));
    assert_eq!(pa.position, (-100_000, 0));
    assert_eq!(pa.position.0 + pa.size.0, pb.position.0);
    assert_eq!(pb.position, (900_000, 0));
}

#[test]
fn earlier_mover_of_two_is_resolved() {
    let mover = |id: u32, x: i64| {
        Entity::new(
            id,
            vec![
                CollisionComponent::new(),
                PositionComponent::new((x, 0), (SCALE, SCALE)),
                Component::Physics(body(0, 0)),
            ],
        )
    };
    let mut entities = vec![mover(1, 0), mover(2, 800_000)];
    CollisionSystem::new().resolve_collisions(&mut entities);
    assert_eq!(position_of(&entities[0]).position, (-200_000, 0));
    assert_eq!(position_of(&entities[1]).position, (800_000, 0));
}

#[test]
fn obstacle_first_in_list_still_pushes_mover() {
    let wall = Entity::new(
        1,
        vec![PositionComponent::new((0, 0), (SCALE, SCALE)), CollisionComponent::new()],
    );
    let ball = Entity::new(
        2,
        vec![
            CollisionComponent::new(),
            PositionComponent::new((900_000, 300_000), (SCALE, SCALE)),
            Component::Physics(body(-50_000, 0)),
        ],
    );
    let mut entities = vec![wall, ball];
    CollisionSystem::new().resolve_collisions(&mut entities);
    assert_eq!(position_of(&entities[1]).position, (SCALE, 300_000));
    assert_eq!(physics_of(&entities[1]).velocity, (50_000, 0));
    assert_eq!(position_of(&entities[0]).position, (0, 0));
}

#[test]
fn entities_without_marker_do_not_collide() {
    let ghost = Entity::new(
        1,
        vec![PositionComponent::new((0, 0), (SCALE, SCALE)), Component::Physics(body(0, 0))],
    );
    let wall = Entity::new(
        2,
        vec![PositionComponent::new((500_000, 0), (SCALE, SCALE)), CollisionComponent::new()],
    );
    let mut entities = vec![ghost, wall];
    CollisionSystem::new().resolve_collisions(&mut entities);
    assert_eq!(position_of(&entities[0]).position, (0, 0));
}

#[test]
fn partner_is_read_from_snapshot() {
    let mover = |id: u32, x: i64| {
        Entity::new(
            id,
            vec![
                CollisionComponent::new(),
                PositionComponent::new((x, 0), (SCALE, SCALE)),
                Component::Physics(body(0, 0)),
            ],
        )
    };
    let wall = Entity::new(
        3,
        vec![PositionComponent::new((-900_000, 0), (SCALE, 3 * SCALE)), CollisionComponent::new()],
    );
    // The second mover is pushed by the first one's rectangle as it was
    // before the first one was corrected against the wall.
    let mut entities = vec![wall, mover(1, 0), mover(2, 900_000)];
    CollisionSystem::new().resolve_collisions(&mut entities);
    assert_eq!(position_of(&entities[1]).position, (-100_000, 0));
    assert_eq!(position_of(&entities[2]).position, (900_000, 0));
}

#[test]
fn first_component_of_a_kind_wins() {
    let mut e = Entity::new(
        3,
        vec![
            CollisionComponent::new(),
            PositionComponent::new((1, 2), (3, 4)),
            PositionComponent::new((9, 9), (9, 9)),
        ],
    );
    assert_eq!(e.find(ComponentKind::Position), Some(1));
    assert_eq!(e.find(ComponentKind::Physics), None);
    assert_eq!(e.position().unwrap().position, (1, 2));
    e.add_component(Component::Physics(PhysicsComponent::default()));
    assert_eq!(e.find(ComponentKind::Physics), Some(3));
    assert_eq!(e.components.len(), 4);
}

#[test]
fn physics_component_operations() {
    let mut p = PhysicsComponent::new(2 * SCALE, SCALE / 2, SCALE / 2);
    p.velocity = (400_000, -200_000);
    p.acceleration = (100_000, 60_000);
    p.bounce_x();
    assert_eq!(p.velocity, (-200_000, -200_000));
    assert_eq!(p.acceleration, (-50_000, 60_000));
    p.bounce_y();
    assert_eq!(p.velocity, (-200_000, 100_000));
    assert_eq!(p.acceleration, (-50_000, -30_000));
    p.friction_x();
    assert_eq!(p.acceleration, (50_000, -30_000));
    p.friction_y();
    assert_eq!(p.acceleration, (50_000, -80_000));
    p.update();
    assert_eq!(p.velocity, (-150_000, 20_000));
    assert_eq!(p.get_displacement(), (-150_000, 20_000));
    p.reset();
    assert_eq!(p.acceleration, (0, 0));
    assert_eq!(p.velocity, (-150_000, 20_000));
}

#[test]
fn geometry_follows_position() {
    let mut p = rect(10, 20, 30, 40);
    p.shift(5, -5);
    assert_eq!(p.position, (15, 15));
    let v = p.vertices();
    assert_eq!(v.len(), 4);
    assert_eq!(v[0].position, [15, 15]);
    assert_eq!(v[1].position, [15, 55]);
    assert_eq!(v[2].position, [45, 55]);
    assert_eq!(v[3].position, [45, 15]);
    assert_eq!(v[2].uv, [SCALE, SCALE]);
    assert_eq!(generate_vertices((15, 15), (30, 40)), v);
    assert_eq!(generate_indices(), vec![0, 1, 2, 2, 3, 0]);
    assert_eq!(p.indices(), vec![0, 1, 2, 2, 3, 0]);
}

#[test]
fn signal_board_starts_empty() {
    let mut g = Global::new(String::from("game"), (800, 600));
    assert_eq!(g.view_size, (800 * SCALE, 600 * SCALE));
    assert_eq!(g.title, "game");
    assert!(!g.signals.get(Signal::PlayBgm));
    g.signals.set(Signal::PlayBgm, true);
    assert!(g.signals.get(Signal::PlayBgm));
    assert!(!g.signals.get(Signal::Resize));
}

#[test]
fn scene_runs_systems_in_order() {
    let mut global = Global::new(String::from("t"), (800, 600));
    global.signals.set(Signal::DownPressed, true);
    let player = Entity::new(
        1,
        vec![
            MoveableComponent::new(),
            PositionComponent::new((0, 0), (SCALE, SCALE)),
            Component::Physics(PhysicsComponent::default()),
        ],
    );
    let mut scene = Scene::new(vec![]);
    scene.add_entity(player);
    scene.add_system(ScheduledSystem::Movement(MovementSystem::new()));
    scene.add_system(ScheduledSystem::Physics(PhysicsSystem::new()));
    scene.run_frame(&global);
    assert_eq!(physics_of(&scene.entities[0]).velocity, (0, 1000));
    assert_eq!(position_of(&scene.entities[0]).position, (0, 1000));
    scene.run_frame(&global);
    assert_eq!(physics_of(&scene.entities[0]).velocity, (0, 2000));
    assert_eq!(position_of(&scene.entities[0]).position, (0, 3000));
}

#[test]
fn overflowing_tick_still_empties_accumulator() {
    let mut phys = body(i64::MAX - 10, 0);
    phys.acceleration = (100, 7);
    let mut entities = vec![Entity::new(
        1,
        vec![PositionComponent::new((0, 0), (SCALE, SCALE)), Component::Physics(phys)],
    )];
    PhysicsSystem::new().integrate(&mut entities);
    assert_eq!(physics_of(&entities[0]).acceleration, (0, 0));
    assert_eq!(physics_of(&entities[0]).velocity, (i64::MAX - 10, 0));
    assert_eq!(position_of(&entities[0]).position, (0, 0));
}
