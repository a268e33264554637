//! The verified logic of Interpolate, a desktop application that raises the frame
//! rate of videos: which frames are interpolated and where they lie, what a job
//! does step by step, and how the application answers its user.

pub mod app;
pub mod backend;
pub mod cadence;
pub mod host;
pub mod logging;
pub mod pipeline;
pub mod ratio;
pub mod text;
pub mod tray;
