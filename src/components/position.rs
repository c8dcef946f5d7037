//! Placement of an entity: an axis-aligned rectangle in world space.

use vstd::prelude::*;

use crate::components::Component;
use crate::fixed::{checked_add, fits_i64, SCALE};
use crate::decimal::{decimal_of, parse_fixed};
use crate::markup::{attribute, last_value};
use crate::vertex::Vertex;

verus! {

/// Top-left corner and size (width, height) of an entity's rectangle.
/// The y axis points down: `top` is the smaller y.
#[derive(Clone, Copy, Debug, PartialEq, Eq)]
pub struct PositionComponent {
    pub position: (i64, i64),
    pub size: (i64, i64),
}

impl PositionComponent {
    /// Left edge.
    pub open spec fn left(self) -> int {
        self.position.0 as int
    }

    /// Right edge: left edge plus width.
    pub open spec fn right(self) -> int {
        self.position.0 + self.size.0
    }

    /// Top edge.
    pub open spec fn top(self) -> int {
        self.position.1 as int
    }

    /// Bottom edge: top edge plus height.
    pub open spec fn bottom(self) -> int {
        self.position.1 + self.size.1
    }

    /// A non-negative size, with every edge representable.
    pub open spec fn wf(self) -> bool {
        &&& self.size.0 >= 0
        &&& self.size.1 >= 0
        &&& fits_i64(self.right())
        &&& fits_i64(self.bottom())
    }

    /// The rectangle moved by `(x, y)`; `None` when an edge leaves `i64`.
    pub open spec fn shifted(self, x: int, y: int) -> Option<PositionComponent> {
        let nx = self.position.0 + x;
        let ny = self.position.1 + y;
        if fits_i64(nx) && fits_i64(ny) && fits_i64(nx + self.size.0) && fits_i64(
            ny + self.size.1,
        ) {
            Some(PositionComponent { position: (nx as i64, ny as i64), size: self.size })
        } else {
            None
        }
    }

    /// Whether the size is non-negative and every edge representable.
    pub fn is_well_formed(&self) -> (r: bool)
        ensures
            r == self.wf(),
    {
        self.size.0 >= 0 && self.size.1 >= 0 && checked_add(self.position.0, self.size.0).is_some()
            && checked_add(self.position.1, self.size.1).is_some()
    }

    /// A position component for the rectangle at `position` of `size`.
    pub fn new(position: (i64, i64), size: (i64, i64)) -> (c: Component)
        ensures
            c == Component::Position(PositionComponent { position, size }),
    {
        Component::Position(PositionComponent { position, size })
    }

    /// The rectangle moved by `(x, y)`, or `None` when an edge would leave `i64`.
    pub fn try_shift(&self, x: i64, y: i64) -> (r: Option<PositionComponent>)
        ensures
            r == self.shifted(x as int, y as int),
    {
        match (checked_add(self.position.0, x), checked_add(self.position.1, y)) {
            (Some(nx), Some(ny)) => match (checked_add(nx, self.size.0), checked_add(ny, self.size.1)) {
                (Some(_), Some(_)) => Some(PositionComponent { position: (nx, ny), size: self.size }),
                _ => None,
            },
            _ => None,
        }
    }

    /// The position a description's attributes give.
    pub fn from_xml(attrs: &Vec<(String, String)>) -> (r: Option<Component>)
        ensures
            r == position_from(attrs@),
    {
        let x = coordinate(attrs, "x");
        let y = coordinate(attrs, "y");
        let w = coordinate(attrs, "width");
        let h = coordinate(attrs, "height");
        match (x, y, w, h) {
            (Some(x), Some(y), Some(w), Some(h)) => {
                let p = PositionComponent { position: (x, y), size: (w, h) };
                if p.is_well_formed() {
                    Some(Component::Position(p))
                } else {
                    None
                }
            },
            _ => None,
        }
    }

    /// Moves the rectangle by `(x, y)`.
    pub fn shift(&mut self, x: i64, y: i64)
        requires
            old(self).shifted(x as int, y as int) is Some,
        ensures
            *final(self) == old(self).shifted(x as int, y as int).unwrap(),
    {
        *self = self.try_shift(x, y).unwrap();
    }

    /// The four corners of the rectangle, derived from its current placement.
    pub fn vertices(&self) -> (r: Vec<Vertex>)
        requires
            self.wf(),
        ensures
            r@ == quad_vertices(self.position, self.size),
    {
        generate_vertices(self.position, self.size)
    }

    /// The two triangles that cover the rectangle, as indices into its vertices.
    pub fn indices(&self) -> (r: Vec<u16>)
        ensures
            r@ == seq![0u16, 1, 2, 2, 3, 0],
    {
        generate_indices()
    }
}

/// The position a description's attributes give: `x`, `y`, `width` and
/// `height`, each a decimal; `None` when one is missing or not a decimal
/// that fits, when a size is negative, or when an edge would not fit.
pub open spec fn position_from(attrs: Seq<(String, String)>) -> Option<Component> {
    let coord = |name: Seq<char>|
        match last_value(attrs, name) {
            Some(t) => decimal_of(t@),
            None => None,
        };
    match (coord("x"@), coord("y"@), coord("width"@), coord("height"@)) {
        (Some(x), Some(y), Some(w), Some(h)) => if (PositionComponent {
            position: (x, y),
            size: (w, h),
        }).wf() {
            Some(Component::Position(PositionComponent { position: (x, y), size: (w, h) }))
        } else {
            None
        },
        _ => None,
    }
}

/// A black corner at `(x, y)` with texture coordinates `(u, v)`.
pub open spec fn corner(x: int, y: int, u: int, v: int) -> Vertex {
    Vertex { position: [x as i64, y as i64], color: [0, 0, 0], uv: [u as i64, v as i64] }
}

/// Top-left, bottom-left, bottom-right and top-right corners of a rectangle,
/// each with its texture coordinate.
pub open spec fn quad_vertices(position: (i64, i64), size: (i64, i64)) -> Seq<Vertex> {
    let (x, y) = position;
    let (w, h) = size;
    seq![
        corner(x as int, y as int, 0, 0),
        corner(x as int, y + h, 0, SCALE as int),
        corner(x + w, y + h, SCALE as int, SCALE as int),
        corner(x + w, y as int, SCALE as int, 0),
    ]
}

/// The decimal value of the last attribute named `name`.
fn coordinate(attrs: &Vec<(String, String)>, name: &str) -> (r: Option<i64>)
    ensures
        r == (match last_value(attrs@, name@) {
            Some(t) => decimal_of(t@),
            None => None,
        }),
{
    match attribute(attrs, name) {
        Some(t) => parse_fixed(t.as_str()),
        None => None,
    }
}

/// The corners of the rectangle at `position` of `size`.
pub fn generate_vertices(position: (i64, i64), size: (i64, i64)) -> (r: Vec<Vertex>)
    requires
        fits_i64(position.0 + size.0),
        fits_i64(position.1 + size.1),
    ensures
        r@ == quad_vertices(position, size),
{
    let (x, y) = position;
    let (w, h) = size;
    let r = vec![
        Vertex { position: [x, y], color: [0, 0, 0], uv: [0, 0] },
        Vertex { position: [x, y + h], color: [0, 0, 0], uv: [0, SCALE] },
        Vertex { position: [x + w, y + h], color: [0, 0, 0], uv: [SCALE, SCALE] },
        Vertex { position: [x + w, y], color: [0, 0, 0], uv: [SCALE, 0] },
    ];
    assert(r@ =~= quad_vertices(position, size));
    r
}

/// Index list of the two triangles of a quad.
pub fn generate_indices() -> (r: Vec<u16>)
    ensures
        r@ == seq![0u16, 1, 2, 2, 3, 0],
{
    vec![0, 1, 2, 2, 3, 0]
}

} // verus!
