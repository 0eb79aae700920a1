//! The client side of a terminal multiplexer as a verified library.

pub mod ansi;
pub mod ansi_laws;
pub mod backend;
pub mod client;
pub mod command_laws;
pub mod commands;
pub mod config;
pub mod config_laws;
pub mod copy_mode;
pub mod draw;
pub mod folding;
pub mod frame;
pub mod frame_laws;
pub mod geometry;
pub mod help;
pub mod json;
pub mod key_laws;
pub mod keys;
pub mod layout_laws;
pub mod machines;
pub mod navigation;
pub mod paint;
pub mod paint_laws;
pub mod pane_laws;
pub mod panel_laws;
pub mod panels;
pub mod pointer;
pub mod pointer_laws;
pub mod prompt;
pub mod prompt_laws;
pub mod repaint;
pub mod request_laws;
pub mod selection;
pub mod selection_laws;
pub mod server_ansi;
pub mod session_tree;
pub mod socket;
pub mod socket_laws;
pub mod ssh;
pub mod strmap;
pub mod style;
pub mod style_laws;
pub mod text;
pub mod text_laws;
pub mod tree_laws;
pub mod url;
pub mod visual;
pub mod visual_laws;
pub mod wire;
