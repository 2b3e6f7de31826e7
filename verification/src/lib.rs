//! A text-mode display writer: packed color cells, a fixed 80x25 grid of
//! volatile cells, and a cursor/scroll state machine over the last row.

pub mod color;
pub mod grid;
pub mod writer;
