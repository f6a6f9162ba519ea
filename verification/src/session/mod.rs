//! Sessions: what is stored of them, how they are found again, and the
//! state of the one that is running.

pub mod history;
pub mod laws;
pub mod model;
pub mod selector;
pub mod state;
