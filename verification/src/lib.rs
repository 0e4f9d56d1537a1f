//! A realtime latency profiler for Python programs: the histogram, scrolling,
//! rendering and command logic behind the terminal interface.

pub mod cli;
pub mod error;
pub mod profiler;
pub mod text;
pub mod tui;
