//! The entity component system: entities, component storages with
//! read/write access views, the world registry, and system dispatch.

pub mod access;
pub mod basic;
pub mod entity;
pub mod event;
pub mod storage;
pub mod system;
pub mod world;

pub use access::{Component, ComponentStorage, ReadAccess, RwAccess, WriteAccess};
pub use entity::Entity;
pub use event::Event;
pub use storage::{DequeReader, DequeStorage, DequeWriter, VecReader, VecStorage, VecWriter};
pub use system::System;
