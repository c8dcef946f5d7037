//! A small entity-component simulation core: components, entities, a
//! shared signal board, and the systems that integrate forces, turn input
//! into movement and resolve collisions between axis-aligned rectangles.
//!
//! Every physical quantity is a fixed-point integer: `fixed::SCALE` steps
//! make one world unit, and products and quotients round toward zero. A
//! system step whose arithmetic would leave `i64` is skipped: the entity
//! (or, in a collision, the mover of that pair) is left as it was, except
//! that a physics tick empties the force accumulator all the same.
//!
//! Entities live in a plain list that the systems borrow for one pass;
//! systems read the signal board explicitly, and the scene runs them in
//! registration order. The engine turns window events into changes of
//! this state and tells the event loop whether to go on.

pub mod components;
pub mod decimal;
pub mod engine;
pub mod entity;
pub mod fixed;
pub mod global;
pub mod markup;
pub mod scene;
pub mod shaders;
pub mod systems;
pub mod vertex;
pub mod viewport;
