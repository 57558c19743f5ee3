//! Terminal multiplexer core: screen buffer, escape handling, keyboard input,
//! pane layout, tabs, sessions, debouncing, selection and the coordination panel.

pub mod buffer;
pub mod edits;
pub mod seqs;
pub mod vt;
pub mod layout;
pub mod tab;
pub mod state;
pub mod restore;
pub mod input;
pub mod clock;
pub mod resize;
pub mod auto_save;
pub mod selection;
pub mod text;
pub mod panel;
pub mod glyph;
pub mod boxdraw;
pub mod config;
pub mod store;
pub mod workspace;
