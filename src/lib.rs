//! Interactive canvas core for a logic-circuit viewer: a fixed-point camera
//! driven by wheel, drag and pinch gestures, the pin and wire layout of the
//! circuit's components, hit-testing of buttons, and a simulation clock that
//! turns elapsed wall-clock time into whole logic ticks.

pub mod geom;
pub mod camera;
pub mod layout;
pub mod clock;
pub mod hit;
pub mod state;
