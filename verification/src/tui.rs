//! The interactive terminal interface: a state machine with three phases.
//!
//! * **Setup**: compose a search. Pattern input, directory, extension chips, flag
//!   toggles, limit. Tab cycles focus, space toggles chips.
//! * **Searching**: the search runs while a progress view is shown.
//! * **Results**: a list on the left, a preview on the right. Enter opens a file,
//!   `n` starts a new search, `Esc` goes back to the setup.

pub mod form;
pub mod geometry;
pub mod paint;
pub mod state;
pub mod view;
