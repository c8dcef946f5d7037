//! The engine's decisions: what each window event does to the shared
//! state, the input, and the scene. The event loop itself, the window, the
//! renderer and the audio device belong to the caller, which hands each
//! event over and acts on the answer.

use vstd::prelude::*;

use crate::fixed::SCALE;
use crate::global::{Global, Signal};
use crate::scene::{frame, Scene, ScheduledSystem};
use crate::systems::collision::CollisionSystem;
use crate::systems::input::InputSystem;
use crate::systems::movement::MovementSystem;
use crate::systems::physics::PhysicsSystem;
use crate::systems::{entities_well_formed, world_of, world_wf};

verus! {

/// Frames per second the loop aims for.
pub const DEFAULT_FPS: u64 = 60;

/// A window event, reduced to what the engine reads of it. Positions are
/// fixed-point pixels.
#[derive(Clone, Copy, Debug, PartialEq, Eq)]
pub enum EngineEvent {
    CloseRequested,
    Resized(u32, u32),
    Key { scancode: u32, pressed: bool },
    MouseReleased,
    CursorMoved(i64, i64),
    RedrawEventsCleared,
    Other,
}

/// What the event loop is to do next.
#[derive(Clone, Copy, Debug, PartialEq, Eq, Structural)]
pub enum LoopControl {
    /// Wait for the next event or the next frame.
    Wait,
    /// Leave the loop.
    Exit,
}

/// Shared state, the scene and the input state of one running engine.
#[derive(Debug)]
pub struct Engine {
    pub global: Global,
    pub scene: Scene,
    pub fps: u64,
    pub input: InputSystem,
}

impl Engine {
    /// An engine with an empty scene for a window of the given size.
    pub fn new(title: String, width: u32, height: u32) -> (e: Engine)
        ensures
            e.global.title@ == title@,
            e.global.window_size == (width, height),
            e.global.view_size.0 == width * SCALE,
            e.global.view_size.1 == height * SCALE,
            e.global.view_origin == (0i64, 0i64),
            e.global.click == (0i64, 0i64),
            forall|s: Signal| !e.global.signals.value(s),
            e.scene.entities@.len() == 0,
            e.scene.systems@.len() == 0,
            e.fps == DEFAULT_FPS,
            e.input == InputSystem::new_spec(),
    {
        Engine {
            global: Global::new(title, (width, height)),
            scene: Scene::new(Vec::new()),
            fps: DEFAULT_FPS,
            input: InputSystem::new(),
        }
    }

    /// Registers the simulation systems after any already there, in the
    /// engine's order: physics, movement, collision.
    pub fn add_core_systems(&mut self)
        ensures
            final(self).scene.systems@ == old(self).scene.systems@ + seq![
                ScheduledSystem::Physics(PhysicsSystem { external_force: (0, 0) }),
                ScheduledSystem::Movement(MovementSystem {  }),
                ScheduledSystem::Collision(CollisionSystem {  }),
            ],
            final(self).scene.entities@ == old(self).scene.entities@,
            final(self).global == old(self).global,
            final(self).input == old(self).input,
            final(self).fps == old(self).fps,
    {
        self.scene.add_system(ScheduledSystem::Physics(PhysicsSystem::new()));
        self.scene.add_system(ScheduledSystem::Movement(MovementSystem::new()));
        self.scene.add_system(ScheduledSystem::Collision(CollisionSystem::new()));
        assert(self.scene.systems@ =~= old(self).scene.systems@ + seq![
            ScheduledSystem::Physics(PhysicsSystem { external_force: (0, 0) }),
            ScheduledSystem::Movement(MovementSystem {  }),
            ScheduledSystem::Collision(CollisionSystem {  }),
        ]);
    }

    /// Milliseconds between two frames.
    pub fn frame_period_millis(&self) -> (r: u64)
        requires
            self.fps > 0,
        ensures
            r == 1000u64 / self.fps,
    {
        1000 / self.fps
    }

    /// Handles one event. A close request ends the loop; a resize records
    /// the window size and asks for a resize; keys, clicks and cursor moves
    /// go to the input state; the end of a redraw runs one frame of the
    /// scene, when every entity is well formed. Anything else is ignored.
    pub fn handle_event(&mut self, event: EngineEvent) -> (r: LoopControl)
        ensures
            r == (if event == EngineEvent::CloseRequested {
                LoopControl::Exit
            } else {
                LoopControl::Wait
            }),
            final(self).fps == old(self).fps,
            final(self).scene.systems@ == old(self).scene.systems@,
            match event {
                EngineEvent::Resized(w, h) => {
                    &&& final(self).global == (Global {
                        window_size: (w, h),
                        signals: old(self).global.signals.with(
                            Signal::Resize,
                            true,
                        ),
                        ..old(self).global
                    })
                    &&& final(self).input == old(self).input
                    &&& final(self).scene.entities@ == old(self).scene.entities@
                },
                EngineEvent::Key { scancode, pressed } => {
                    &&& final(self).input == old(self).input.after_key(scancode, pressed)
                    &&& final(self).global == (Global {
                        signals: final(self).input.directions(old(self).global.signals),
                        ..old(self).global
                    })
                    &&& final(self).scene.entities@ == old(self).scene.entities@
                },
                EngineEvent::MouseReleased => {
                    &&& final(self).global == old(self).input.after_click(old(self).global)
                    &&& final(self).input == old(self).input
                    &&& final(self).scene.entities@ == old(self).scene.entities@
                },
                EngineEvent::CursorMoved(x, y) => {
                    &&& final(self).input == old(self).input.after_cursor((x, y), old(self).global)
                    &&& final(self).global == old(self).global
                    &&& final(self).scene.entities@ == old(self).scene.entities@
                },
                EngineEvent::RedrawEventsCleared => {
                    &&& final(self).global == old(self).global
                    &&& final(self).input == old(self).input
                    &&& if world_wf(world_of(old(self).scene.entities@)) {
                        world_of(final(self).scene.entities@) == frame(
                            old(self).scene.systems@,
                            world_of(old(self).scene.entities@),
                            old(self).global.signals,
                        ) && final(self).scene.entities@.len() == old(self).scene.entities@.len()
                    } else {
                        final(self).scene.entities@ == old(self).scene.entities@
                    }
                },
                _ => {
                    &&& final(self).global == old(self).global
                    &&& final(self).input == old(self).input
                    &&& final(self).scene.entities@ == old(self).scene.entities@
                },
            },
    {
        match event {
            EngineEvent::CloseRequested => {
                return LoopControl::Exit;
            },
            EngineEvent::Resized(w, h) => {
                self.global.window_resized(w, h);
            },
            EngineEvent::Key { scancode, pressed } => {
                self.input.handle_input(scancode, pressed, &mut self.global);
            },
            EngineEvent::MouseReleased => {
                self.input.click(&mut self.global);
            },
            EngineEvent::CursorMoved(x, y) => {
                self.input.cursor_moved((x, y), &self.global);
            },
            EngineEvent::RedrawEventsCleared => {
                if entities_well_formed(&self.scene.entities) {
                    self.scene.run_frame(&self.global);
                }
            },
            EngineEvent::Other => {},
        }
        LoopControl::Wait
    }
}

} // verus!
