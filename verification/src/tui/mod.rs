//! The terminal interface: what each widget shows and how its state moves.

pub mod cursor;
pub mod device_selector;
pub mod help_modal;
pub mod keys;
pub mod library;
pub mod organize;
pub mod picker;
pub mod queue;
pub mod screen;
pub mod transport;
pub mod visualizer;
pub mod viz_picker;
