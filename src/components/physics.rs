//! Linear motion state of an entity.

use vstd::prelude::*;

use crate::components::Component;
use crate::fixed::{
    checked_add, checked_div_fixed, checked_mul_fixed, fits_i64, fixed_div, fixed_mul, SCALE,
};

verus! {

/// Mass, the per-frame force accumulator (`acceleration`), the persisting
/// velocity, and two ratios in `0..=SCALE`: friction and bounciness.
#[derive(Clone, Copy, Debug, PartialEq, Eq)]
pub struct PhysicsComponent {
    pub mass: i64,
    pub acceleration: (i64, i64),
    pub velocity: (i64, i64),
    pub friction: i64,
    pub bounciness: i64,
}

impl PhysicsComponent {
    /// Positive mass; friction and bounciness are ratios between 0 and 1.
    pub open spec fn wf(self) -> bool {
        &&& self.mass > 0
        &&& 0 <= self.friction <= SCALE
        &&& 0 <= self.bounciness <= SCALE
    }

    /// The state after `force` is added to the accumulator
    /// (`acceleration += force / mass`); `None` when a value leaves `i64`.
    pub open spec fn applied_force(self, force: (int, int)) -> Option<PhysicsComponent> {
        let ax = self.acceleration.0 + fixed_div(force.0, self.mass as int);
        let ay = self.acceleration.1 + fixed_div(force.1, self.mass as int);
        if fits_i64(fixed_div(force.0, self.mass as int)) && fits_i64(fixed_div(
            force.1,
            self.mass as int,
        )) && fits_i64(ax) && fits_i64(ay) {
            Some(PhysicsComponent { acceleration: (ax as i64, ay as i64), ..self })
        } else {
            None
        }
    }

    /// The state after the accumulator is added to the velocity.
    pub open spec fn updated(self) -> Option<PhysicsComponent> {
        let vx = self.velocity.0 + self.acceleration.0;
        let vy = self.velocity.1 + self.acceleration.1;
        if fits_i64(vx) && fits_i64(vy) {
            Some(PhysicsComponent { velocity: (vx as i64, vy as i64), ..self })
        } else {
            None
        }
    }

    /// Horizontal acceleration and velocity inverted and damped by the bounciness.
    pub open spec fn bounced_x(self) -> Option<PhysicsComponent> {
        let ax = fixed_mul(self.acceleration.0 as int, -self.bounciness);
        let vx = fixed_mul(self.velocity.0 as int, -self.bounciness);
        if fits_i64(ax) && fits_i64(vx) {
            Some(
                PhysicsComponent {
                    acceleration: (ax as i64, self.acceleration.1),
                    velocity: (vx as i64, self.velocity.1),
                    ..self
                },
            )
        } else {
            None
        }
    }

    /// Vertical acceleration and velocity inverted and damped by the bounciness.
    pub open spec fn bounced_y(self) -> Option<PhysicsComponent> {
        let ay = fixed_mul(self.acceleration.1 as int, -self.bounciness);
        let vy = fixed_mul(self.velocity.1 as int, -self.bounciness);
        if fits_i64(ay) && fits_i64(vy) {
            Some(
                PhysicsComponent {
                    acceleration: (self.acceleration.0, ay as i64),
                    velocity: (self.velocity.0, vy as i64),
                    ..self
                },
            )
        } else {
            None
        }
    }

    /// The horizontal friction force `mass * velocity.0 * friction`.
    pub open spec fn friction_force_x(self) -> int {
        fixed_mul(fixed_mul(self.mass as int, self.velocity.0 as int), self.friction as int)
    }

    /// The vertical friction force `mass * velocity.1 * friction`.
    pub open spec fn friction_force_y(self) -> int {
        fixed_mul(fixed_mul(self.mass as int, self.velocity.1 as int), self.friction as int)
    }

    /// The state after a force against the horizontal velocity is applied.
    pub open spec fn with_friction_x(self) -> Option<PhysicsComponent> {
        if fits_i64(fixed_mul(self.mass as int, self.velocity.0 as int)) && fits_i64(
            self.friction_force_x(),
        ) && fits_i64(-self.friction_force_x()) {
            self.applied_force((-self.friction_force_x(), 0))
        } else {
            None
        }
    }

    /// The state after a force against the vertical velocity is applied.
    pub open spec fn with_friction_y(self) -> Option<PhysicsComponent> {
        if fits_i64(fixed_mul(self.mass as int, self.velocity.1 as int)) && fits_i64(
            self.friction_force_y(),
        ) && fits_i64(-self.friction_force_y()) {
            self.applied_force((0, -self.friction_force_y()))
        } else {
            None
        }
    }

    /// Whether the mass is positive and both ratios lie between 0 and 1.
    pub fn is_well_formed(&self) -> (r: bool)
        ensures
            r == self.wf(),
    {
        self.mass > 0 && 0 <= self.friction && self.friction <= SCALE && 0 <= self.bounciness
            && self.bounciness <= SCALE
    }

    /// A physics component at rest.
    pub fn new(mass: i64, friction: i64, bounciness: i64) -> (r: PhysicsComponent)
        ensures
            r == (PhysicsComponent {
                mass,
                acceleration: (0, 0),
                velocity: (0, 0),
                friction,
                bounciness,
            }),
    {
        PhysicsComponent { mass, acceleration: (0, 0), velocity: (0, 0), friction, bounciness }
    }

    /// Unit mass, friction one half, full bounciness, at rest.
    pub fn default() -> (r: PhysicsComponent)
        ensures
            r == (PhysicsComponent {
                mass: SCALE,
                acceleration: (0, 0),
                velocity: (0, 0),
                friction: (SCALE / 2) as i64,
                bounciness: SCALE,
            }),
            r.wf(),
    {
        PhysicsComponent {
            mass: SCALE,
            acceleration: (0, 0),
            velocity: (0, 0),
            friction: SCALE / 2,
            bounciness: SCALE,
        }
    }

    /// The state after `force` is accumulated, or `None` on overflow.
    pub fn try_apply_force(&self, force: (i64, i64)) -> (r: Option<PhysicsComponent>)
        requires
            self.wf(),
        ensures
            r == self.applied_force((force.0 as int, force.1 as int)),
    {
        match (checked_div_fixed(force.0, self.mass), checked_div_fixed(force.1, self.mass)) {
            (Some(dx), Some(dy)) => match (
                checked_add(self.acceleration.0, dx),
                checked_add(self.acceleration.1, dy),
            ) {
                (Some(ax), Some(ay)) => Some(PhysicsComponent { acceleration: (ax, ay), ..*self }),
                _ => None,
            },
            _ => None,
        }
    }

    /// The state after the acceleration is added to the velocity, or `None`
    /// on overflow.
    pub fn try_update(&self) -> (r: Option<PhysicsComponent>)
        ensures
            r == self.updated(),
    {
        match (
            checked_add(self.velocity.0, self.acceleration.0),
            checked_add(self.velocity.1, self.acceleration.1),
        ) {
            (Some(vx), Some(vy)) => Some(PhysicsComponent { velocity: (vx, vy), ..*self }),
            _ => None,
        }
    }

    /// The state after a horizontal bounce, or `None` on overflow.
    pub fn try_bounce_x(&self) -> (r: Option<PhysicsComponent>)
        requires
            self.wf(),
        ensures
            r == self.bounced_x(),
    {
        match (
            checked_mul_fixed(self.acceleration.0, -self.bounciness),
            checked_mul_fixed(self.velocity.0, -self.bounciness),
        ) {
            (Some(ax), Some(vx)) => Some(
                PhysicsComponent {
                    acceleration: (ax, self.acceleration.1),
                    velocity: (vx, self.velocity.1),
                    ..*self
                },
            ),
            _ => None,
        }
    }

    /// The state after a vertical bounce, or `None` on overflow.
    pub fn try_bounce_y(&self) -> (r: Option<PhysicsComponent>)
        requires
            self.wf(),
        ensures
            r == self.bounced_y(),
    {
        match (
            checked_mul_fixed(self.acceleration.1, -self.bounciness),
            checked_mul_fixed(self.velocity.1, -self.bounciness),
        ) {
            (Some(ay), Some(vy)) => Some(
                PhysicsComponent {
                    acceleration: (self.acceleration.0, ay),
                    velocity: (self.velocity.0, vy),
                    ..*self
                },
            ),
            _ => None,
        }
    }

    /// The state after horizontal friction, or `None` on overflow.
    pub fn try_friction_x(&self) -> (r: Option<PhysicsComponent>)
        requires
            self.wf(),
        ensures
            r == self.with_friction_x(),
    {
        match checked_mul_fixed(self.mass, self.velocity.0) {
            Some(m) => match checked_mul_fixed(m, self.friction) {
                Some(f) => if f == i64::MIN {
                    None
                } else {
                    self.try_apply_force((-f, 0))
                },
                None => None,
            },
            None => None,
        }
    }

    /// The state after vertical friction, or `None` on overflow.
    pub fn try_friction_y(&self) -> (r: Option<PhysicsComponent>)
        requires
            self.wf(),
        ensures
            r == self.with_friction_y(),
    {
        match checked_mul_fixed(self.mass, self.velocity.1) {
            Some(m) => match checked_mul_fixed(m, self.friction) {
                Some(f) => if f == i64::MIN {
                    None
                } else {
                    self.try_apply_force((0, -f))
                },
                None => None,
            },
            None => None,
        }
    }

    /// Adds the accumulated acceleration to the velocity.
    pub fn update(&mut self)
        requires
            old(self).updated() is Some,
        ensures
            *final(self) == old(self).updated().unwrap(),
    {
        *self = self.try_update().unwrap();
    }

    /// Inverts and damps the horizontal motion.
    pub fn bounce_x(&mut self)
        requires
            old(self).wf(),
            old(self).bounced_x() is Some,
        ensures
            *final(self) == old(self).bounced_x().unwrap(),
    {
        *self = self.try_bounce_x().unwrap();
    }

    /// Inverts and damps the vertical motion.
    pub fn bounce_y(&mut self)
        requires
            old(self).wf(),
            old(self).bounced_y() is Some,
        ensures
            *final(self) == old(self).bounced_y().unwrap(),
    {
        *self = self.try_bounce_y().unwrap();
    }

    /// Applies a force against the horizontal velocity.
    pub fn friction_x(&mut self)
        requires
            old(self).wf(),
            old(self).with_friction_x() is Some,
        ensures
            *final(self) == old(self).with_friction_x().unwrap(),
    {
        *self = self.try_friction_x().unwrap();
    }

    /// Applies a force against the vertical velocity.
    pub fn friction_y(&mut self)
        requires
            old(self).wf(),
            old(self).with_friction_y() is Some,
        ensures
            *final(self) == old(self).with_friction_y().unwrap(),
    {
        *self = self.try_friction_y().unwrap();
    }

    /// Accumulates `force / mass` into the acceleration.
    pub fn apply_force(&mut self, force: (i64, i64))
        requires
            old(self).wf(),
            old(self).applied_force((force.0 as int, force.1 as int)) is Some,
        ensures
            *final(self) == old(self).applied_force((force.0 as int, force.1 as int)).unwrap(),
    {
        *self = self.try_apply_force(force).unwrap();
    }

    /// The physics component a scene description's `physics` element gives:
    /// the defaults, whatever the element holds.
    pub fn from_xml() -> (c: Component)
        ensures
            c == Component::Physics(
                PhysicsComponent {
                    mass: SCALE,
                    acceleration: (0, 0),
                    velocity: (0, 0),
                    friction: (SCALE / 2) as i64,
                    bounciness: SCALE,
                },
            ),
    {
        Component::Physics(PhysicsComponent::default())
    }

    /// How far the entity moves this frame: its velocity.
    pub fn get_displacement(&self) -> (r: (i64, i64))
        ensures
            r == self.velocity,
    {
        self.velocity
    }

    /// Empties the force accumulator; the velocity is kept.
    pub fn reset(&mut self)
        ensures
            *final(self) == (PhysicsComponent { acceleration: (0, 0), ..*old(self) }),
    {
        self.acceleration = (0, 0);
    }
}

} // verus!
