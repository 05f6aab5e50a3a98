//! The decisions a voxel game server takes, apart from the engine that carries
//! them out: who may connect, where players spawn, which entities leave with the
//! terrain, what is answered to a chat command, in which order a tick does its
//! work, and which voxels of a volume are turned into geometry.
//!
//! Every function states what it returns in its contract. The contracts are proved,
//! but for those of a few functions that only call an outside crate: each of these
//! says in its doc comment what is taken on trust. The entity store is read through
//! [`ecs`]; work on sockets, files and clocks is done by the caller, which hands
//! plain values in and takes plain values back.

pub mod admin;
pub mod banned_words;
pub mod chat;
pub mod chunks;
pub mod connections;
pub mod ecs;
pub mod geometry;
pub mod laws;
pub mod mesh;
pub mod messages;
pub mod persistence;
pub mod server;
pub mod settings;
pub mod spawn;
pub mod state;
pub mod text;
pub mod tick;

pub use admin::{add_admin, remove_admin};
pub use messages::Event;
pub use server::Server;
pub use settings::{EditableSettings, HwStats, ServerError, Settings};
pub use tick::{Tick, TickStart};
