//! The core of a terminal coding assistant: the conversation it keeps with
//! a model, the requests it builds, the sessions it stores and the state
//! behind its terminal interface.

pub mod api;
pub mod clipboard;
pub mod commands;
pub mod config;
pub mod conversation;
pub mod input_laws;
pub mod loop_laws;
pub mod model_info;
pub mod repl;
pub mod request_builder;
pub mod response_handler;
pub mod response_laws;
pub mod session;
pub mod settings_laws;
pub mod syntax;
pub mod text;
pub mod text_laws;
pub mod tool_batch;
pub mod tui;
