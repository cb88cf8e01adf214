//! Synchronisation and composition engine for a multi-stream video compositor.
//!
//! Producers queue decoded frames per video; at each output tick the compositor picks, per
//! video, the frame whose timestamp lies in the current window, hands the chosen frames to
//! be drawn in index order with a strict depth test, and reads the rendered planes back
//! into one tightly packed output frame.

pub mod compositor;
pub mod errors;
pub mod formats;
pub mod geometry;
pub mod laws;
pub mod plugins;
pub mod scene;
pub mod stream;
