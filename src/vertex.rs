//! Render geometry handed to the drawing collaborator.

use vstd::prelude::*;

verus! {

/// One corner of a quad: its position, a colour and texture coordinates,
/// all in fixed point.
#[derive(Clone, Copy, Debug, PartialEq, Eq)]
pub struct Vertex {
    pub position: [i64; 2],
    pub color: [i64; 3],
    pub uv: [i64; 2],
}

} // verus!
