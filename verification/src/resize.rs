//! The size of a terminal.

use vstd::prelude::*;

verus! {

#[derive(Debug, Clone, Copy, PartialEq, Eq, Structural)]
pub struct TerminalSize {
    pub rows: u16,
    pub cols: u16,
}

impl TerminalSize {
    /// From the number of columns and rows, in this order.
    pub fn from_cols_rows(size: (u16, u16)) -> (terminal: Self)
        ensures
            terminal == (TerminalSize { rows: size.1, cols: size.0 }),
    {
        let (cols, rows) = size;
        TerminalSize { rows, cols }
    }
}

} // verus!
