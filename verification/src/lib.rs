//! The core of `tm`, a small tmux-style terminal multiplexer: command lines,
//! configuration files, the wire protocol between client and daemon, pane
//! layouts, and the normalisation of pane output.

pub mod text;
pub mod text_laws;
pub mod unicode;
pub mod geometry;
pub mod protocol;
pub mod command;
pub mod config;
pub mod config_laws;
pub mod layout;
pub mod layout_laws;
pub mod emulator;
pub mod emulator_laws;
pub mod terminal;
pub mod terminal_laws;
pub mod model;
pub mod model_laws;
pub mod pty;
pub mod pty_laws;
pub mod client;
pub mod client_laws;
