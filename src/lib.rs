//! Ray casting of a scene of flat-coloured spheres onto a pixel canvas.
//!
//! `tracer` holds the scene model, the viewport projection and the
//! nearest-hit selection; `canvas` holds the pixel surface and the
//! mapping from centre-origin coordinates to its row-major buffer.
pub mod tracer;
pub mod canvas;
pub mod harness;
