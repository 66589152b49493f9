//! Synchronisation core for publishing the live state of a running simulation
//! to an external inspector over datagrams, and for routing the inspector's
//! edits back to the simulation.

pub mod bundle;
pub mod channel;
pub mod channel_map;
pub mod editor_log;
pub mod serializable_entity;
pub mod stages;
pub mod systems;
pub mod text;
pub mod timer;
pub mod transport;
pub mod type_set;
pub mod types;

pub use crate::bundle::SyncEditorBundle;
pub use crate::editor_log::EditorLogger;
pub use crate::serializable_entity::SerializableEntity;
pub use crate::type_set::TypeSet;
pub use crate::types::{
    EditorConnection, EntityMessage, IncomingComponent, IncomingMessage, SerializedData,
};
