//! Verified core of a hotkey command launcher: key-name tables, hexadecimal
//! virtual-key codes, the command table built from configuration, and the
//! decisions taken by the hotkey and message loops.

pub mod text;
pub mod keycode;
pub mod keymap;
pub mod command;
pub mod config;
pub mod control;
