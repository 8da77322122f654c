//! State of a single-window application across frames and restarts: what is
//! loaded at start-up, what changes on each frame and on each user action,
//! and what is stored at shutdown.
//!
//! All quantities are whole numbers. Times are nanoseconds on the host's
//! monotonic clock; positions are thousandths of a pixel.

pub mod clock;
pub mod smoothing;
pub mod state;
pub mod laws;
