//! A minimal entity-component-system data store: a generational slot
//! allocator issues entity identifiers that stay unique across destruction
//! and reuse; component storage files one entity-indexed map per registered
//! component type behind a single type-erased value, recovered by a checked
//! match at every access; resource storage keeps one global value per type;
//! and the bundle mechanism registers a fixed set of component types and
//! instantiates them together for one fresh entity. The facade composes the
//! four behind one API surface.

pub mod bundle;
pub mod bundles;
pub mod component;
pub mod components;
pub mod ecs;
pub mod entity;
mod random;
pub mod render;
pub mod resource;
pub mod resources;
pub mod schedule;
pub mod systems;
