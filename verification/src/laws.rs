//! What the operations of the library do, said of their inputs and results alone,
//! and how two calls of them relate.

pub mod acts;
pub mod boxes;
pub mod cache;
pub mod calls;
pub mod changes;
pub mod details;
pub mod files;
pub mod form;
pub mod keys;
pub mod lines;
pub mod matches;
pub mod outcomes;
pub mod paths;
pub mod printed;
pub mod runs;
pub mod screen;
pub mod shown;
pub mod texts;
pub mod vision;
