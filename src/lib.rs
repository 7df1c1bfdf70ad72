//! Date-prefix renaming: finds a calendar date in a file name (or takes one from
//! the file's creation time) and plans the rename to `YYYY-MM-DD - <name>`.
pub mod date;
pub mod extract;
pub mod plan;
pub mod timestamp;
pub mod remote;
pub mod pipeline;
pub mod traverse;
pub mod laws;
