//! The shader programs a sprite can be drawn with.

use vstd::prelude::*;

verus! {

/// How a sprite is filled when drawn.
#[derive(Clone, Copy, Debug, PartialEq, Eq, Structural)]
pub enum Shader {
    Solid,
    Texture,
    Rainbow,
}

} // verus!
