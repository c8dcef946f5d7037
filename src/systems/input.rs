//! Input: key presses become the direction signals, and the cursor is kept
//! in view coordinates, where the view spans `-1..=1` on both axes.

use vstd::prelude::*;

use crate::components::Component;
use crate::entity::Entity;
use crate::fixed::{
    checked_add, checked_div_fixed, checked_mul_fixed, checked_sub, fixed_div, fixed_mul, to_i64,
    SCALE,
};
use crate::global::{Global, Signal, Signals};
use crate::systems::System;

verus! {

/// Keyboard and cursor state, written to the signal board as it changes.
#[derive(Clone, Copy, Debug, PartialEq, Eq)]
pub struct InputSystem {
    pub cursor: [i64; 2],
    pub up: bool,
    pub down: bool,
    pub left: bool,
    pub right: bool,
}

/// The direction a scancode stands for: the arrow keys, and W, D, S, A.
pub open spec fn key_direction(scancode: u32) -> Option<Signal> {
    if scancode == 103 || scancode == 17 {
        Some(Signal::UpPressed)
    } else if scancode == 106 || scancode == 32 {
        Some(Signal::RightPressed)
    } else if scancode == 108 || scancode == 31 {
        Some(Signal::DownPressed)
    } else if scancode == 105 || scancode == 30 {
        Some(Signal::LeftPressed)
    } else {
        None
    }
}

/// One coordinate of the cursor in view coordinates: pixel coordinate `p`
/// of a window `extent` wide whose view is inset by `origin` on each side.
/// `None` when the view is empty or a value leaves `i64`.
pub open spec fn view_coordinate(p: int, extent: int, origin: int) -> Option<i64> {
    let view = extent - 2 * origin;
    if extent <= 0 || view <= 0 || to_i64(2 * p - extent) is None || to_i64(view) is None {
        None
    } else {
        match (to_i64(fixed_div(2 * p - extent, extent)), to_i64(fixed_div(extent, view))) {
            (Some(c), Some(scale)) => to_i64(fixed_mul(c as int, scale as int)),
            _ => None,
        }
    }
}

impl InputSystem {
    /// The board as the input system writes it: its four direction flags.
    pub open spec fn directions(self, signals: Signals) -> Signals {
        Signals {
            up_pressed: self.up,
            down_pressed: self.down,
            left_pressed: self.left,
            right_pressed: self.right,
            ..signals
        }
    }

    /// The state after a key press (`pressed`) or release of `scancode`.
    pub open spec fn after_key(self, scancode: u32, pressed: bool) -> InputSystem {
        match key_direction(scancode) {
            Some(Signal::UpPressed) => InputSystem { up: pressed, ..self },
            Some(Signal::RightPressed) => InputSystem { right: pressed, ..self },
            Some(Signal::DownPressed) => InputSystem { down: pressed, ..self },
            Some(Signal::LeftPressed) => InputSystem { left: pressed, ..self },
            _ => self,
        }
    }

    /// The state after the cursor moves to pixel position `position`.
    pub open spec fn after_cursor(self, position: (i64, i64), global: Global) -> InputSystem {
        let x = match view_coordinate(
            position.0 as int,
            global.view_size.0 as int,
            global.view_origin.0 as int,
        ) {
            Some(c) => c,
            None => self.cursor[0],
        };
        let y = match view_coordinate(
            position.1 as int,
            global.view_size.1 as int,
            global.view_origin.1 as int,
        ) {
            Some(c) => c,
            None => self.cursor[1],
        };
        InputSystem { cursor: [x, y], ..self }
    }

    /// The shared state after a click: inside the view the click position
    /// is recorded and a resize asked for; outside it nothing changes.
    pub open spec fn after_click(self, global: Global) -> Global {
        if self.cursor_in_view() {
            Global {
                click: (self.cursor[0], self.cursor[1]),
                signals: global.signals.with(Signal::Resize, true),
                ..global
            }
        } else {
            global
        }
    }

    /// The cursor lies inside the view.
    pub open spec fn cursor_in_view(self) -> bool {
        -SCALE <= self.cursor[0] <= SCALE && -SCALE <= self.cursor[1] <= SCALE
    }

    /// No key held, cursor at the centre.
    pub open spec fn new_spec() -> InputSystem {
        InputSystem { cursor: [0, 0], up: false, down: false, left: false, right: false }
    }

    /// No key held, cursor at the centre.
    pub fn new() -> (r: InputSystem)
        ensures
            r == InputSystem::new_spec(),
    {
        InputSystem { cursor: [0, 0], up: false, down: false, left: false, right: false }
    }

    /// Records a key press or release and writes the four direction signals.
    pub fn handle_input(&mut self, scancode: u32, pressed: bool, global: &mut Global)
        ensures
            *final(self) == old(self).after_key(scancode, pressed),
            *final(global) == (Global {
                signals: final(self).directions(old(global).signals),
                ..*old(global)
            }),
    {
        if scancode == 103 || scancode == 17 {
            self.up = pressed;
        } else if scancode == 106 || scancode == 32 {
            self.right = pressed;
        } else if scancode == 108 || scancode == 31 {
            self.down = pressed;
        } else if scancode == 105 || scancode == 30 {
            self.left = pressed;
        }
        global.signals.set(Signal::UpPressed, self.up);
        global.signals.set(Signal::DownPressed, self.down);
        global.signals.set(Signal::LeftPressed, self.left);
        global.signals.set(Signal::RightPressed, self.right);
        assert(global.signals == self.directions(old(global).signals));
    }

    /// Moves the cursor to pixel position `position` (fixed point), in view
    /// coordinates; a coordinate that cannot be computed is left as it was.
    pub fn cursor_moved(&mut self, position: (i64, i64), global: &Global)
        ensures
            *final(self) == old(self).after_cursor(position, *global),
    {
        let x = view_coordinate_of(position.0, global.view_size.0, global.view_origin.0);
        let y = view_coordinate_of(position.1, global.view_size.1, global.view_origin.1);
        let nx = match x {
            Some(c) => c,
            None => self.cursor[0],
        };
        let ny = match y {
            Some(c) => c,
            None => self.cursor[1],
        };
        self.cursor = [nx, ny];
    }

    /// On a click inside the view, records the click position and asks for
    /// a resize; outside the view nothing happens.
    pub fn click(&self, global: &mut Global)
        ensures
            *final(global) == self.after_click(*old(global)),
    {
        if !self.is_valid_cursor_position() {
            return ;
        }
        global.click = (self.cursor[0], self.cursor[1]);
        global.signals.set(Signal::Resize, true);
    }

    /// Whether the cursor lies inside the view.
    pub fn is_valid_cursor_position(&self) -> (r: bool)
        ensures
            r == self.cursor_in_view(),
    {
        if self.cursor[0] < -SCALE || self.cursor[0] > SCALE {
            return false;
        }
        if self.cursor[1] < -SCALE || self.cursor[1] > SCALE {
            return false;
        }
        true
    }
}

/// One cursor coordinate in view coordinates.
fn view_coordinate_of(p: i64, extent: i64, origin: i64) -> (r: Option<i64>)
    ensures
        r == view_coordinate(p as int, extent as int, origin as int),
{
    if extent <= 0 {
        return None;
    }
    let twice_origin = match checked_add(origin, origin) {
        Some(t) => t,
        None => return None,
    };
    let view = match checked_sub(extent, twice_origin) {
        Some(v) => v,
        None => return None,
    };
    if extent <= 0 || view <= 0 {
        return None;
    }
    let wide: i128 = 2 * (p as i128) - extent as i128;
    if wide < i64::MIN as i128 || wide > i64::MAX as i128 {
        return None;
    }
    let offset = wide as i64;
    match (checked_div_fixed(offset, extent), checked_div_fixed(extent, view)) {
        (Some(c), Some(scale)) => checked_mul_fixed(c, scale),
        _ => None,
    }
}

impl System for InputSystem {
    open spec fn outcome(&self, world: Seq<Seq<Component>>, signals: Signals) -> Seq<
        Seq<Component>,
    > {
        world
    }

    /// Input arrives through events, not frames: a frame changes nothing.
    fn run(&mut self, entities: &mut Vec<Entity>, global: &Global) {
    }
}

} // verus!
