//! Rules of the proxy between the terminal and the shell.

pub mod cpr;
pub mod osc_filter;
pub mod overlay_write;
pub mod providers;
pub mod shutdown;
pub mod startup;
pub mod stdio;
pub mod tasks;
pub mod ticks;
pub mod trigger;
