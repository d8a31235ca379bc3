//! Den: the verified core of a terminal text editor.
//!
//! The modules hold the editor's decisions and data structures: the terminal
//! emulator that backs the integrated terminal (a VT byte-stream parser over a
//! scrollback buffer), the sidebar file tree, the debug panel and debugger
//! state, the framing of debug-adapter messages, the key bindings and the
//! editor's prompt/sidebar state machine. Everything that touches the
//! operating system lives outside this crate.

pub mod geometry;
pub mod style;
pub mod scrollback;
pub mod decimal;
pub mod csi;
pub mod vt;
pub mod text;
pub mod command;
pub mod file_tree;
pub mod debug;
pub mod dap;
pub mod editor;
pub mod terminal;
pub mod wide;
pub mod pane;
pub mod draw;
pub mod adapters;
pub mod startup;
