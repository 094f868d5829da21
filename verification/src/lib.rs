//! The decision core of a PTY proxy that offers command completion in the terminal.

use vstd::prelude::*;

pub mod decimal;
pub mod dynamic_result;
pub mod feedback;
pub mod handler;
pub mod input;
pub mod model;
pub mod order;
pub mod predict;
pub mod proxy;
pub mod resize;
pub mod shell_completion;
pub mod spawn;
pub mod text;

pub use handler::parse_key_name;

verus! {

} // verus!
