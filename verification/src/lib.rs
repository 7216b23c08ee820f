//! Temporal smoothing of per-frame crop windows.
//!
//! A detector proposes one crop per video frame. The types and functions here
//! decide which crop each frame is finally shown with, so that detector noise
//! does not move the window while real changes of scene or subject do.
//!
//! Coordinates are whole pixels and tolerances are hundredths of a percent;
//! every comparison is exact. Images are known by handle only: the caller
//! keeps the pixels, detects cuts and renders.
//!
//! - [`crop`]: crop rectangles, their similarity, and the choice between two
//!   candidate crops.
//! - [`video_processor_utils`]: interpolation between two crops.
//! - [`history`]: the queue of frames that wait for a decision.
//! - [`history_smoothing_video_processor`]: the history smoothing engine.
//! - [`history_smoothing_laws`]: what holds of the engine on every stream.
//! - [`crop_buffer`]: the time-windowed crop buffer, a simpler strategy.
//! - [`frame`]: frames as the two strategies see them.

pub mod crop;
pub mod crop_buffer;
pub mod frame;
pub mod history;
pub mod history_smoothing_laws;
pub mod history_smoothing_video_processor;
pub mod video_processor_utils;
