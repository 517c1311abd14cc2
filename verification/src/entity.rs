//! Entities and events, and what a host must tell the kernel about its own
//! kinds of them.

use crate::point::{Point, PointView};
use crate::time::{Time, TimeView};
use vstd::prelude::*;

verus! {

/// What the kernel needs to know of a host's kind of entity.
pub trait ObjectType: Clone {
    /// A readable name of the kind.
    fn name(&self) -> String;

    /// Where an entity of this kind comes into being.
    fn generated_point(&self) -> Point;
}

/// What the kernel needs to know of a host's kind of event.
///
/// The kernel asks an event for its move, its lifetime, its cause and its
/// target. The two other questions are for the host's own use: the kernel
/// never asks them, and an event that does not answer them says `None`.
pub trait EventContents: Clone {
    /// The entity that the event brings into being, if the host notes one.
    fn generate_object_opt(&self) -> (noted: Option<String>) {
        None
    }

    /// The id of the entity that the event ends, if the host notes one.
    fn remove_object_opt(&self) -> (noted: Option<String>) {
        None
    }

    /// The entity to move and where to, if the event moves one.
    fn move_object_opt(&self) -> Option<(String, Point)>;

    /// How long the event is remembered; `None` means for ever.
    fn lifetime(&self) -> Option<Time>;

    /// The id of the entity that caused the event.
    fn do_object(&self) -> String;

    /// The id of the entity that the event is aimed at, if any.
    fn target_object_opt(&self) -> Option<String>;
}

/// An entity of the world.
#[derive(Debug, Clone, PartialEq, Eq)]
pub struct Object<T: ObjectType> {
    /// When it came into being.
    pub generated_time: Time,
    /// Where it is now.
    pub point: Point,
    /// What the host says it is.
    pub object_type: T,
}

/// The plain values of an [`Object`].
pub struct ObjectView<T> {
    pub generated_time: TimeView,
    pub point: PointView,
    pub object_type: T,
}

impl<T: ObjectType> View for Object<T> {
    type V = ObjectView<T>;

    open spec fn view(&self) -> ObjectView<T> {
        ObjectView {
            generated_time: self.generated_time@,
            point: self.point@,
            object_type: self.object_type,
        }
    }
}

/// Something that happened.
#[derive(Debug, Clone)]
pub struct Event<T: EventContents> {
    /// When it happened.
    pub generated_time: Time,
    /// How long it is remembered; `None` means for ever.
    pub lifetime: Option<Time>,
    /// What the host says happened.
    pub contents: T,
    /// The id of the entity that caused it.
    pub do_object: String,
    /// The id of the entity that it was aimed at, if any.
    pub target_object: Option<String>,
}

/// The plain values of an [`Event`].
pub struct EventView<T> {
    pub generated_time: TimeView,
    pub lifetime: Option<TimeView>,
    pub contents: T,
    pub do_object: Seq<char>,
    pub target_object: Option<Seq<char>>,
}

impl<T: EventContents> View for Event<T> {
    type V = EventView<T>;

    open spec fn view(&self) -> EventView<T> {
        EventView {
            generated_time: self.generated_time@,
            lifetime: match self.lifetime {
                Some(t) => Some(t@),
                None => None,
            },
            contents: self.contents,
            do_object: self.do_object@,
            target_object: match self.target_object {
                Some(id) => Some(id@),
                None => None,
            },
        }
    }
}

/// What one generator answers for one tick.
#[derive(Debug, Clone)]
pub struct GeneratedData<T: EventContents, U: ObjectType> {
    /// Events that happen now.
    pub events: Vec<T>,
    /// Entities that come into being now.
    pub generate_objects: Vec<U>,
    /// Ids of entities that cease to be now.
    pub remove_objects: Vec<String>,
}

} // verus!
