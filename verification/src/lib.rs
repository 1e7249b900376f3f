//! Keyboard shortcut detection and keystroke emulation, with the small
//! algorithms and configuration rules that the tools around it share.

pub mod algorithm;
pub mod error;
pub mod gui;
pub mod keyboard;
pub mod language;
pub mod menu;
pub mod text;
pub mod translate;
pub mod worker;

pub use error::DheError;
