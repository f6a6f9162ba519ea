//! The state behind the terminal interface.

pub mod app;
pub mod drawing;
pub mod drawing_laws;
pub mod event;
pub mod event_laws;
pub mod event_loop;
pub mod inline_terminal;
pub mod inline_tui;
pub mod input;
pub mod key_laws;
pub mod keymap;
pub mod output;
pub mod output_laws;
pub mod screen_laws;
pub mod scrollback;
pub mod sgr;
pub mod slash_popup;
pub mod ui;
pub mod ui_laws;
pub mod worker;
