//! A discrete-tick world-simulation kernel.
//!
//! The kernel keeps a hierarchical clock, a registry of entities placed at
//! points, and a log of time-bounded events. Each call of [`run`] advances
//! the clock by one unit-tick, evicts expired events, asks the registered
//! generators what happens next and folds their answers into the world.
//!
//! The host supplies its own kinds of entities and events, through
//! [`ObjectType`] and [`EventContents`], and the generators.

pub mod batch;
pub mod entity;
pub mod ident;
pub mod laws;
pub mod natural;
pub mod point;
pub mod registry;
pub mod time;
pub mod world;

pub use batch::{stamp, stamp_event, stamp_object, Batch, Occurrence};
pub use entity::{Event, EventContents, GeneratedData, Object, ObjectType};
pub use ident::{generate_object_id, object_id_from};
pub use point::Point;
pub use time::Time;
pub use world::{begin_tick, commit, evict_expired, is_expired, run, Context, Generater};
