//! State of the interactive debugger: its screens, editor and trace stepping.
pub mod app;
pub mod editor;
pub mod picker;
pub mod trace;
