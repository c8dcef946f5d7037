//! Marker: the entity takes part in collision detection.

use vstd::prelude::*;

use crate::components::Component;

verus! {

/// Presence-only marker for collision detection.
#[derive(Clone, Copy, Debug, PartialEq, Eq, Structural)]
pub struct CollisionComponent {}

impl CollisionComponent {
    /// The collision marker, as a component.
    pub fn new() -> (c: Component)
        ensures
            c == Component::Collision(CollisionComponent {  }),
    {
        Component::Collision(CollisionComponent {  })
    }
}

} // verus!
