//! The stages that run once per tick.

pub mod editor_input;
pub mod editor_sender;
pub mod entity_handler;
pub mod read_component;
pub mod read_resource;
pub mod write_component;
pub mod write_resource;
