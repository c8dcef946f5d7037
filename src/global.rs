//! Engine-wide state shared by the systems: view geometry, the last click
//! and the board of boolean signals.

use vstd::prelude::*;

use crate::fixed::SCALE;

verus! {

/// The signals that pass between the input collaborator, the systems and
/// the audio and render collaborators.
#[derive(Clone, Copy, Debug, PartialEq, Eq, Structural)]
pub enum Signal {
    UpPressed,
    DownPressed,
    LeftPressed,
    RightPressed,
    Resize,
    PlayBgm,
    PlaySfx,
}

/// One boolean per signal; a signal never set reads `false`.
#[derive(Clone, Copy, Debug, PartialEq, Eq, Structural)]
pub struct Signals {
    pub up_pressed: bool,
    pub down_pressed: bool,
    pub left_pressed: bool,
    pub right_pressed: bool,
    pub resize: bool,
    pub play_bgm: bool,
    pub play_sfx: bool,
}

impl Signals {
    /// The value of `signal`.
    pub open spec fn value(self, signal: Signal) -> bool {
        match signal {
            Signal::UpPressed => self.up_pressed,
            Signal::DownPressed => self.down_pressed,
            Signal::LeftPressed => self.left_pressed,
            Signal::RightPressed => self.right_pressed,
            Signal::Resize => self.resize,
            Signal::PlayBgm => self.play_bgm,
            Signal::PlaySfx => self.play_sfx,
        }
    }

    /// The board with `signal` set to `value`.
    pub open spec fn with(self, signal: Signal, value: bool) -> Signals {
        match signal {
            Signal::UpPressed => Signals { up_pressed: value, ..self },
            Signal::DownPressed => Signals { down_pressed: value, ..self },
            Signal::LeftPressed => Signals { left_pressed: value, ..self },
            Signal::RightPressed => Signals { right_pressed: value, ..self },
            Signal::Resize => Signals { resize: value, ..self },
            Signal::PlayBgm => Signals { play_bgm: value, ..self },
            Signal::PlaySfx => Signals { play_sfx: value, ..self },
        }
    }

    /// A board on which no signal is set.
    pub fn new() -> (r: Signals)
        ensures
            forall|s: Signal| !r.value(s),
    {
        Signals {
            up_pressed: false,
            down_pressed: false,
            left_pressed: false,
            right_pressed: false,
            resize: false,
            play_bgm: false,
            play_sfx: false,
        }
    }

    /// Reads a signal.
    pub fn get(&self, signal: Signal) -> (r: bool)
        ensures
            r == self.value(signal),
    {
        match signal {
            Signal::UpPressed => self.up_pressed,
            Signal::DownPressed => self.down_pressed,
            Signal::LeftPressed => self.left_pressed,
            Signal::RightPressed => self.right_pressed,
            Signal::Resize => self.resize,
            Signal::PlayBgm => self.play_bgm,
            Signal::PlaySfx => self.play_sfx,
        }
    }

    /// Reads a one-shot signal and clears it.
    pub fn take(&mut self, signal: Signal) -> (r: bool)
        ensures
            r == old(self).value(signal),
            *final(self) == old(self).with(signal, false),
    {
        let r = self.get(signal);
        self.set(signal, false);
        r
    }

    /// Sets one signal and leaves the others.
    pub fn set(&mut self, signal: Signal, value: bool)
        ensures
            *final(self) == old(self).with(signal, value),
            final(self).value(signal) == value,
            forall|s: Signal| s != signal ==> final(self).value(s) == old(self).value(s),
    {
        match signal {
            Signal::UpPressed => self.up_pressed = value,
            Signal::DownPressed => self.down_pressed = value,
            Signal::LeftPressed => self.left_pressed = value,
            Signal::RightPressed => self.right_pressed = value,
            Signal::Resize => self.resize = value,
            Signal::PlayBgm => self.play_bgm = value,
            Signal::PlaySfx => self.play_sfx = value,
        }
    }
}

/// Shared engine state. Sizes and points are in fixed point; the view
/// starts as large as the window, one unit per pixel.
#[derive(Debug)]
pub struct Global {
    pub title: String,
    pub window_size: (u32, u32),
    pub view_size: (i64, i64),
    pub view_origin: (i64, i64),
    pub click: (i64, i64),
    pub signals: Signals,
}

impl Global {
    /// The window was resized: its new size is recorded and a resize is
    /// asked for.
    pub fn window_resized(&mut self, width: u32, height: u32)
        ensures
            *final(self) == (Global {
                window_size: (width, height),
                signals: old(self).signals.with(Signal::Resize, true),
                ..*old(self)
            }),
    {
        self.window_size = (width, height);
        self.signals.set(Signal::Resize, true);
    }

    /// The state at engine start: no click, no signal set.
    pub fn new(title: String, window_size: (u32, u32)) -> (g: Global)
        ensures
            g.title@ == title@,
            g.window_size == window_size,
            g.view_size.0 == window_size.0 * SCALE,
            g.view_size.1 == window_size.1 * SCALE,
            g.view_origin == (0i64, 0i64),
            g.click == (0i64, 0i64),
            forall|s: Signal| !g.signals.value(s),
    {
        let w = window_size.0 as i64 * SCALE;
        let h = window_size.1 as i64 * SCALE;
        Global {
            title,
            window_size,
            view_size: (w, h),
            view_origin: (0, 0),
            click: (0, 0),
            signals: Signals::new(),
        }
    }
}

} // verus!
