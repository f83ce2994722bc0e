//! Core logic of a Neovim GUI: the rope-backed grid rows, the decoding of
//! the msgpack-RPC redraw notifications sent by Neovim, highlight and color
//! bookkeeping, and the small layout and input helpers of the widgets.

pub mod text;
pub mod nvim_bridge;
pub mod row;
pub mod grid;
pub mod value;
pub mod color;
pub mod common;
pub mod font;
pub mod args;
pub mod input;
pub mod tooltip;
pub mod laws;
pub mod wellformed;
pub mod ui_model;
pub mod widgets;
pub mod cmdline;
pub mod table_laws;
