//! Marker: the entity responds to the movement signals.

use vstd::prelude::*;

use crate::components::Component;

verus! {

/// Presence-only marker for entities steered by the movement signals.
#[derive(Clone, Copy, Debug, PartialEq, Eq, Structural)]
pub struct MoveableComponent {}

impl MoveableComponent {
    /// The movement marker, as a component.
    pub fn new() -> (c: Component)
        ensures
            c == Component::Moveable(MoveableComponent {  }),
    {
        Component::Moveable(MoveableComponent {  })
    }
}

} // verus!
