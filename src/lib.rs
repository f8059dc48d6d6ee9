//! Verified core of a small 2D game-engine support library.
//!
//! - `timer` and `gameloop`: a fixed-step scheduler with interpolation, lockstep snapping
//!   and bounded catch-up, driven by callbacks that return commands.
//! - `font`, `layout` and `text`: multi-font text layout in integer font units, the
//!   per-frame draw queue, and `atlas`, the book-keeping of the glyph atlas that grows
//!   on overflow.
//!
//! Times are integer nanoseconds; the update debt is fixed point with `ONE_UPDATE` units
//! per update; text lengths are integer layout units.

pub mod atlas;
pub mod font;
pub mod gameloop;
pub mod layout;
pub mod text;
pub mod timer;
