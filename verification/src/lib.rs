//! Chaikin corner-cutting curves over a fixed-point canvas, with the editing
//! and playback state of an interactive curve editor.

pub mod editor;
pub mod geometry;
pub mod levels;
pub mod subdivision;

pub use editor::{
    segments, App, ClickMode, Flow, Frame, Key, MouseButton, MousePos, Segment, ANIM_INTERVAL_MS,
};
pub use geometry::{cut, dist2, within, Pt, CLICK_RADIUS, HEIGHT, UNIT, WIDTH};
pub use levels::{detect_and_normalize, is_closed, precompute_iterations, MAX_STEPS};
pub use subdivision::chaikin_step;
