//! Letterboxing: the largest area of the window that shows the view at its
//! own aspect ratio, centred.

use vstd::prelude::*;

use crate::fixed::SCALE;

verus! {

/// Size and top-left corner of the drawing area, in fixed-point pixels.
#[derive(Clone, Copy, Debug, PartialEq, Eq)]
pub struct Viewport {
    pub dimensions: (i64, i64),
    pub origin: (i64, i64),
}

/// The drawing area for a window of `window` pixels showing a view of
/// `view`: full height with bars left and right when the window is wider
/// than the view, full width with bars above and below otherwise. `None`
/// when a size is not positive.
pub open spec fn letterboxed(window: (u32, u32), view: (i64, i64)) -> Option<Viewport> {
    if window.0 == 0 || window.1 == 0 || view.0 <= 0 || view.1 <= 0 {
        None
    } else {
        let x = window.0 * SCALE;
        let y = window.1 * SCALE;
        if window.0 * view.1 > window.1 * view.0 {
            let vx = y * view.0 / (view.1 as int);
            Some(
                Viewport {
                    dimensions: (vx as i64, y as i64),
                    origin: (((x - vx) / 2) as i64, 0),
                },
            )
        } else {
            let vy = x * view.1 / (view.0 as int);
            Some(
                Viewport {
                    dimensions: (x as i64, vy as i64),
                    origin: (0, ((y - vy) / 2) as i64),
                },
            )
        }
    }
}

/// The letterboxed drawing area of a window showing a view.
pub fn letterbox(window: (u32, u32), view: (i64, i64)) -> (r: Option<Viewport>)
    ensures
        r == letterboxed(window, view),
{
    if window.0 == 0 || window.1 == 0 || view.0 <= 0 || view.1 <= 0 {
        return None;
    }
    let w0 = window.0 as i128;
    let w1 = window.1 as i128;
    let v0 = view.0 as i128;
    let v1 = view.1 as i128;
    let s = SCALE as i128;
    proof {
        assert(0 < w0 * v1 <= 0xffff_ffff * 0x7fff_ffff_ffff_ffff) by (nonlinear_arith)
            requires
                0 < w0 <= 0xffff_ffff,
                0 < v1 <= 0x7fff_ffff_ffff_ffff,
        ;
        assert(0 < w1 * v0 <= 0xffff_ffff * 0x7fff_ffff_ffff_ffff) by (nonlinear_arith)
            requires
                0 < w1 <= 0xffff_ffff,
                0 < v0 <= 0x7fff_ffff_ffff_ffff,
        ;
    }
    let x = w0 * s;
    let y = w1 * s;
    if w0 * v1 > w1 * v0 {
        proof {
            assert(0 < y * v0 <= 0xffff_ffff * 1_000_000 * 0x7fff_ffff_ffff_ffff) by (nonlinear_arith)
                requires
                    0 < w1 <= 0xffff_ffff,
                    y == w1 * 1_000_000,
                    0 < v0 <= 0x7fff_ffff_ffff_ffff,
            ;
            assert(y * v0 < x * v1) by (nonlinear_arith)
                requires
                    w0 * v1 > w1 * v0,
                    x == w0 * 1_000_000,
                    y == w1 * 1_000_000,
            ;
            assert((y * v0) / (v1 as int) < x) by (nonlinear_arith)
                requires
                    y * v0 < x * v1,
                    v1 > 0,
            ;
        }
        let vx = y * v0 / v1;
        Some(Viewport { dimensions: (vx as i64, y as i64), origin: (((x - vx) / 2) as i64, 0) })
    } else {
        proof {
            assert(0 < x * v1 <= 0xffff_ffff * 1_000_000 * 0x7fff_ffff_ffff_ffff) by (nonlinear_arith)
                requires
                    0 < w0 <= 0xffff_ffff,
                    x == w0 * 1_000_000,
                    0 < v1 <= 0x7fff_ffff_ffff_ffff,
            ;
            assert(x * v1 <= y * v0) by (nonlinear_arith)
                requires
                    w0 * v1 <= w1 * v0,
                    x == w0 * 1_000_000,
                    y == w1 * 1_000_000,
            ;
            assert((x * v1) / (v0 as int) <= y) by (nonlinear_arith)
                requires
                    x * v1 <= y * v0,
                    v0 > 0,
            ;
        }
        let vy = x * v1 / v0;
        Some(Viewport { dimensions: (x as i64, vy as i64), origin: (0, ((y - vy) / 2) as i64) })
    }
}

} // verus!
