//! The rendering core of a desktop host for an embedded UI engine: the engine's task queues,
//! the hand-over between the UI thread and the render thread during a live resize, the render
//! thread's frame drawable, and the table of backing stores composed into each frame.
//!
//! Everything here decides; the platform calls (GPU contexts, the window compositor, the
//! engine's C interface) are made by the host with the values these functions return.
use vstd::prelude::*;

pub mod compositor;
pub mod resize;
pub mod surface;
pub mod task_runner;

verus! {

} // verus!
