//! The data fragments an entity is made of.

pub mod audio;
pub mod collision;
pub mod moveable;
pub mod physics;
pub mod position;
pub mod sprite;

use vstd::prelude::*;

use crate::components::audio::AudioComponent;
use crate::components::collision::CollisionComponent;
use crate::components::moveable::MoveableComponent;
use crate::components::physics::PhysicsComponent;
use crate::components::position::PositionComponent;
use crate::components::sprite::SpriteComponent;

verus! {

/// One typed data fragment of an entity.
#[derive(Clone, Debug, PartialEq, Eq)]
pub enum Component {
    Audio(AudioComponent),
    Collision(CollisionComponent),
    Moveable(MoveableComponent),
    Physics(PhysicsComponent),
    Position(PositionComponent),
    Sprite(SpriteComponent),
}

/// The variant of a component, without its data.
#[derive(Clone, Copy, Debug, PartialEq, Eq, Structural)]
pub enum ComponentKind {
    Audio,
    Collision,
    Moveable,
    Physics,
    Position,
    Sprite,
}

/// The variant of `c`.
pub open spec fn kind_of(c: Component) -> ComponentKind {
    match c {
        Component::Audio(_) => ComponentKind::Audio,
        Component::Collision(_) => ComponentKind::Collision,
        Component::Moveable(_) => ComponentKind::Moveable,
        Component::Physics(_) => ComponentKind::Physics,
        Component::Position(_) => ComponentKind::Position,
        Component::Sprite(_) => ComponentKind::Sprite,
    }
}

impl Component {
    /// The variant of this component.
    pub fn kind(&self) -> (k: ComponentKind)
        ensures
            k == kind_of(*self),
    {
        match self {
            Component::Audio(_) => ComponentKind::Audio,
            Component::Collision(_) => ComponentKind::Collision,
            Component::Moveable(_) => ComponentKind::Moveable,
            Component::Physics(_) => ComponentKind::Physics,
            Component::Position(_) => ComponentKind::Position,
            Component::Sprite(_) => ComponentKind::Sprite,
        }
    }
}

} // verus!
