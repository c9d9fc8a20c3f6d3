//! The part of the engine's state that decisions depend on, the events the
//! window loop delivers, and the directive that answers each of them.

use vstd::prelude::*;

verus! {

/// The extent of a drawing surface, in physical pixels.
#[derive(Clone, Copy, Debug, PartialEq, Eq, Structural)]
pub struct Size {
    pub width: u32,
    pub height: u32,
}

impl Size {
    /// A surface can only be configured with a width and a height above zero.
    pub open spec fn drawable(self) -> bool {
        self.width > 0 && self.height > 0
    }
}

/// A key, as far as the loop tells keys apart.
#[derive(Clone, Copy, Debug, PartialEq, Eq, Structural)]
pub enum Key {
    Escape,
    Other,
}

/// Something that happened to a window.
#[derive(Clone, Copy, Debug, PartialEq, Eq, Structural)]
pub enum WindowEvent {
    /// The user asked for the window to be closed.
    CloseRequested,
    /// A key went down or up. `key` is `None` where the platform gave no key code.
    KeyboardInput { pressed: bool, key: Option<Key> },
    /// The wheel was turned.
    MouseWheel,
    /// A mouse button went down or up; `left` tells the left button from the others.
    MouseInput { left: bool, pressed: bool },
    /// The window now has this size.
    Resized(Size),
    /// The scale factor changed, and with it the size in physical pixels.
    ScaleFactorChanged(Size),
    /// Anything else.
    Other,
}

/// One delivery of the window loop.
#[derive(Clone, Copy, Debug, PartialEq, Eq, Structural)]
pub enum Event {
    /// The pointer moved.
    MouseMotion,
    /// A window event; `own` says whether it is for the engine's window.
    Window { own: bool, event: WindowEvent },
    /// A window has to be drawn anew; `own` says whether it is the engine's.
    RedrawRequested { own: bool },
    /// All redraws of this round are done.
    RedrawEventsCleared,
    /// Anything else.
    Other,
}

impl Event {
    /// Whether this delivery is a frame tick: the request to draw the
    /// engine's own window anew.
    pub open spec fn is_frame_tick(self) -> bool {
        self == (Event::RedrawRequested { own: true })
    }
}

/// How an attempt to show a frame ended.
#[derive(Clone, Copy, Debug, PartialEq, Eq, Structural)]
pub enum SurfaceStatus {
    /// The frame is on screen.
    Presented,
    /// The surface was lost.
    Lost,
    /// The surface no longer matches the window.
    Outdated,
    /// There is no memory left for a frame.
    OutOfMemory,
    /// No frame became free in time.
    Timeout,
}

/// What the loop has to do next.
#[derive(Clone, Copy, Debug, PartialEq, Eq, Structural)]
pub enum Directive {
    /// Nothing; wait for the next event.
    Continue,
    /// Turn the camera by the pointer's motion.
    TurnCamera,
    /// Pass the key to the camera.
    MoveCamera,
    /// Pass the wheel's turn to the camera.
    ZoomCamera,
    /// Configure the surface and the projection for this size.
    Configure(Size),
    /// Advance the scene and draw a frame, then report how showing it ended.
    Redraw,
    /// Ask the window for another redraw.
    RequestRedraw,
    /// Say that no frame became free in time, and go on.
    ReportTimeout,
    /// Leave the loop.
    Exit,
}

/// What the engine remembers between events: the size its surface is
/// configured for, and whether the left mouse button is down.
#[derive(Clone, Copy, Debug, PartialEq, Eq, Structural)]
pub struct State {
    pub size: Size,
    pub mouse_pressed: bool,
}

impl State {
    /// The state after a request to resize to `new_size`: taken over if a
    /// surface of that size can be configured, ignored otherwise.
    pub open spec fn resized(self, new_size: Size) -> State {
        if new_size.drawable() {
            State { size: new_size, mouse_pressed: self.mouse_pressed }
        } else {
            self
        }
    }

    /// Whether `event` is input that the engine consumes: a key with a key
    /// code (Escape too), a turn of the wheel, or the left mouse button.
    pub open spec fn consumes(event: WindowEvent) -> bool {
        match event {
            WindowEvent::KeyboardInput { key: Some(_), .. } => true,
            WindowEvent::MouseWheel => true,
            WindowEvent::MouseInput { left: true, .. } => true,
            _ => false,
        }
    }

    /// The state after the window event `event`, and the directive for it.
    pub open spec fn after_window_event(self, event: WindowEvent) -> (State, Directive) {
        match event {
            WindowEvent::KeyboardInput { key: Some(_), .. } => (self, Directive::MoveCamera),
            WindowEvent::MouseWheel => (self, Directive::ZoomCamera),
            WindowEvent::MouseInput { left: true, pressed } => (
                State { size: self.size, mouse_pressed: pressed },
                Directive::Continue,
            ),
            WindowEvent::CloseRequested => (self, Directive::Exit),
            WindowEvent::Resized(size) | WindowEvent::ScaleFactorChanged(size) => (
                self.resized(size),
                if size.drawable() {
                    Directive::Configure(size)
                } else {
                    Directive::Continue
                },
            ),
            _ => (self, Directive::Continue),
        }
    }

    /// The state after `event`, and the directive for it.
    pub open spec fn after_event(self, event: Event) -> (State, Directive) {
        match event {
            Event::MouseMotion => (
                self,
                if self.mouse_pressed {
                    Directive::TurnCamera
                } else {
                    Directive::Continue
                },
            ),
            Event::Window { own: true, event } => self.after_window_event(event),
            Event::RedrawRequested { own: true } => (self, Directive::Redraw),
            Event::RedrawEventsCleared => (self, Directive::RequestRedraw),
            _ => (self, Directive::Continue),
        }
    }

    /// The directive after an attempt to show a frame ended with `status`.
    /// A stale surface is configured again for the size it had, which a
    /// surface without extent cannot be.
    pub open spec fn after_present(self, status: SurfaceStatus) -> Directive {
        match status {
            SurfaceStatus::Presented => Directive::Continue,
            SurfaceStatus::Lost | SurfaceStatus::Outdated => if self.size.drawable() {
                Directive::Configure(self.size)
            } else {
                Directive::Continue
            },
            SurfaceStatus::OutOfMemory => Directive::Exit,
            SurfaceStatus::Timeout => Directive::ReportTimeout,
        }
    }

    /// The state of an engine whose surface is configured for `size`.
    pub fn new(size: Size) -> (state: State)
        ensures
            state == (State { size, mouse_pressed: false }),
    {
        State { size, mouse_pressed: false }
    }

    /// Takes over `new_size` if a surface of that size can be configured,
    /// and says whether it did. The caller then configures the surface.
    pub fn resize(&mut self, new_size: Size) -> (accepted: bool)
        ensures
            accepted == new_size.drawable(),
            *final(self) == old(self).resized(new_size),
    {
        if new_size.width > 0 && new_size.height > 0 {
            self.size = new_size;
            true
        } else {
            false
        }
    }

    /// Takes `event` if it is input: returns what the camera is to be told,
    /// or `None` for an event that is left to the caller.
    pub fn input(&mut self, event: &WindowEvent) -> (taken: Option<Directive>)
        ensures
            taken.is_some() == Self::consumes(*event),
            Self::consumes(*event) ==> (*final(self), taken.unwrap()) == old(
                self,
            ).after_window_event(*event),
            !Self::consumes(*event) ==> *final(self) == *old(self),
    {
        match event {
            WindowEvent::KeyboardInput { key: Some(_), .. } => Some(Directive::MoveCamera),
            WindowEvent::MouseWheel => Some(Directive::ZoomCamera),
            WindowEvent::MouseInput { left: true, pressed } => {
                self.mouse_pressed = *pressed;
                Some(Directive::Continue)
            },
            _ => None,
        }
    }

    /// Decides what the loop does about `event`.
    pub fn dispatch(&mut self, event: &Event) -> (directive: Directive)
        ensures
            (*final(self), directive) == old(self).after_event(*event),
    {
        match event {
            Event::MouseMotion => {
                if self.mouse_pressed {
                    Directive::TurnCamera
                } else {
                    Directive::Continue
                }
            },
            Event::Window { own: true, event } => {
                match self.input(event) {
                    Some(directive) => directive,
                    None => match event {
                        // The second pattern is never met as long as `input`
                        // takes every key that has a key code.
                        WindowEvent::CloseRequested
                        | WindowEvent::KeyboardInput { pressed: true, key: Some(Key::Escape) } => {
                            Directive::Exit
                        },
                        WindowEvent::Resized(size) | WindowEvent::ScaleFactorChanged(size) => {
                            if self.resize(*size) {
                                Directive::Configure(*size)
                            } else {
                                Directive::Continue
                            }
                        },
                        _ => Directive::Continue,
                    },
                }
            },
            Event::RedrawRequested { own: true } => Directive::Redraw,
            Event::RedrawEventsCleared => Directive::RequestRedraw,
            _ => Directive::Continue,
        }
    }

    /// Decides what the loop does after showing a frame ended with `status`.
    pub fn presented(&self, status: SurfaceStatus) -> (directive: Directive)
        ensures
            directive == self.after_present(status),
    {
        match status {
            SurfaceStatus::Presented => Directive::Continue,
            SurfaceStatus::Lost | SurfaceStatus::Outdated => {
                if self.size.width > 0 && self.size.height > 0 {
                    Directive::Configure(self.size)
                } else {
                    Directive::Continue
                }
            },
            SurfaceStatus::OutOfMemory => Directive::Exit,
            SurfaceStatus::Timeout => Directive::ReportTimeout,
        }
    }
}

} // verus!
