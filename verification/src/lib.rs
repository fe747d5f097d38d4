//! Verified rendering core of a flip-clock screensaver.
//!
//! The library covers the logic that decides what is drawn and where:
//! the rounded-card rasterizer that paints packed pixels into a buffer,
//! the digit-centering arithmetic, the per-frame plan of a card-flip
//! transition, the minute-boundary timer schedule, and the committed
//! hour/minute display state.  Window, font and blit calls live outside,
//! in the thin shell around this crate; they receive plain coordinates
//! and rectangles computed and proved here.

pub mod clock;
pub mod color;
pub mod flip;
pub mod geom;
pub mod rounded;
pub mod sched;
pub mod surface;
pub mod textlayout;
pub mod wallclock;
