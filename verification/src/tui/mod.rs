//! The terminal interface: its state, its key bindings and the text it
//! shows.

pub mod app;
pub mod keys;
pub mod view;
