//! A time tracker's core: projects, their timers and what is reported of them.

pub mod clock;
pub mod error;
pub mod instant;
pub mod laws;
pub mod outside;
pub mod report;
pub mod store;
pub mod task;
pub mod text;
pub mod timer;
pub mod ui;
