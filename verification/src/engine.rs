//! What the render loop decides: how to answer each event of the window,
//! what to do when a frame could not be shown, and what to draw.

pub mod frame;
pub mod model;

pub use frame::{Directive, Event, Key, Size, State, SurfaceStatus, WindowEvent};
pub use model::{DrawCall, Mesh, Model, ModelView};
