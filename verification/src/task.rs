//! The tasks that the kernel runs.
pub mod keyboard;
