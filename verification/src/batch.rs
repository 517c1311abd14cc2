//! What one tick folds into the world, and how the answers of the
//! generators are made ready for it.

use crate::entity::{Event, EventContents, EventView, GeneratedData, Object, ObjectType, ObjectView};
use crate::ident::{generate_object_id, object_id};
use crate::point::{Point, PointView};
use crate::registry::{ids_view, pairs_view};
use crate::time::{Time, TimeView};
use vstd::prelude::*;

verus! {

/// An event of this tick together with the move that it orders, if any.
#[derive(Debug, Clone)]
pub struct Occurrence<T: EventContents> {
    /// The event as it will be remembered.
    pub event: Event<T>,
    /// The entity to move and where to.
    pub relocation: Option<(String, Point)>,
}

/// The plain values of an [`Occurrence`].
pub struct OccurrenceView<T> {
    pub event: EventView<T>,
    pub relocation: Option<(Seq<char>, PointView)>,
}

impl<T: EventContents> View for Occurrence<T> {
    type V = OccurrenceView<T>;

    open spec fn view(&self) -> OccurrenceView<T> {
        OccurrenceView {
            event: self.event@,
            relocation: match self.relocation {
                Some((id, point)) => Some((id@, point@)),
                None => None,
            },
        }
    }
}

/// The plain values of a list of occurrences.
pub open spec fn occurrences_view<T: EventContents>(events: Seq<Occurrence<T>>) -> Seq<
    OccurrenceView<T>,
> {
    events.map_values(|o: Occurrence<T>| o@)
}

/// What one tick folds into the world: the events that happen, the ids of
/// the entities that cease to be, and the entities that come into being with
/// the ids assigned to them.
#[derive(Debug, Clone)]
pub struct Batch<T: EventContents, U: ObjectType> {
    /// The events of the tick, in the order in which they were generated.
    pub events: Vec<Occurrence<T>>,
    /// The ids to remove.
    pub remove_objects: Vec<String>,
    /// The new entities, each with its id.
    pub generate_objects: Vec<(String, Object<U>)>,
}

/// The plain values of a [`Batch`].
pub struct BatchView<T, U> {
    pub events: Seq<OccurrenceView<T>>,
    pub remove_objects: Seq<Seq<char>>,
    pub generate_objects: Seq<(Seq<char>, ObjectView<U>)>,
}

impl<T: EventContents, U: ObjectType> View for Batch<T, U> {
    type V = BatchView<T, U>;

    open spec fn view(&self) -> BatchView<T, U> {
        BatchView {
            events: occurrences_view(self.events@),
            remove_objects: ids_view(self.remove_objects@),
            generate_objects: pairs_view(self.generate_objects@),
        }
    }
}

impl<T, U> BatchView<T, U> {
    /// The batch that holds nothing.
    pub open spec fn empty() -> BatchView<T, U> {
        BatchView {
            events: Seq::empty(),
            remove_objects: Seq::empty(),
            generate_objects: Seq::empty(),
        }
    }

    /// This batch with the contents of `next` after its own.
    pub open spec fn followed_by(self, next: BatchView<T, U>) -> BatchView<T, U> {
        BatchView {
            events: self.events + next.events,
            remove_objects: self.remove_objects + next.remove_objects,
            generate_objects: self.generate_objects + next.generate_objects,
        }
    }

    /// The batches of `parts` one after the other.
    pub open spec fn merged(parts: Seq<BatchView<T, U>>) -> BatchView<T, U>
        decreases parts.len(),
    {
        if parts.len() == 0 {
            BatchView::empty()
        } else {
            BatchView::merged(parts.drop_last()).followed_by(parts.last())
        }
    }

    /// The events of the batch as they are remembered.
    pub open spec fn remembered(self) -> Seq<EventView<T>> {
        self.events.map_values(|o: OccurrenceView<T>| o.event)
    }

    /// The moves that the events of the batch order, in their order.
    pub open spec fn relocations(self) -> Seq<Option<(Seq<char>, PointView)>> {
        self.events.map_values(|o: OccurrenceView<T>| o.relocation)
    }
}

/// The plain values of a list of batches.
pub open spec fn batches_view<T: EventContents, U: ObjectType>(parts: Seq<Batch<T, U>>) -> Seq<
    BatchView<T, U>,
> {
    parts.map_values(|b: Batch<T, U>| b@)
}

/// Whether `stamped` is the event `contents` as it happens at `now`: it
/// carries that time, a clone of the contents, and what the contents answer
/// when asked for their lifetime, their cause, their target and their move.
pub open spec fn occurrence_of<T: EventContents>(
    now: TimeView,
    contents: T,
    stamped: Occurrence<T>,
) -> bool {
    &&& stamped.event.generated_time@ == now
    &&& cloned(contents, stamped.event.contents)
    &&& call_ensures(T::lifetime, (&contents,), stamped.event.lifetime)
    &&& call_ensures(T::do_object, (&contents,), stamped.event.do_object)
    &&& call_ensures(T::target_object_opt, (&contents,), stamped.event.target_object)
    &&& call_ensures(T::move_object_opt, (&contents,), stamped.relocation)
}

/// Stamps an event of a generator with the time of the tick.
pub fn stamp_event<T: EventContents>(now: &Time, contents: &T) -> (stamped: Occurrence<T>)
    ensures
        occurrence_of(now@, *contents, stamped),
{
    let event = Event {
        generated_time: now.clone(),
        lifetime: contents.lifetime(),
        contents: contents.clone(),
        do_object: contents.do_object(),
        target_object: contents.target_object_opt(),
    };
    Occurrence { event, relocation: contents.move_object_opt() }
}

/// Whether `arrival` is an entity of kind `kind` as it comes into being at
/// `now`: it carries that time, a clone of the kind, the point that the kind
/// names as its origin, and an id made of the kind's name, its origin and
/// the tick.
pub open spec fn arrival_of<U: ObjectType>(now: TimeView, kind: U, arrival: (String, Object<U>)) -> bool {
    &&& arrival.1.generated_time@ == now
    &&& cloned(kind, arrival.1.object_type)
    &&& call_ensures(U::generated_point, (&kind,), arrival.1.point)
    &&& exists|name: String, origin: Point, clock: Seq<char>|
        #![trigger object_id(name@, origin@, now.all, clock)]
        {
            &&& call_ensures(U::name, (&kind,), name)
            &&& call_ensures(U::generated_point, (&kind,), origin)
            &&& arrival.0@ == object_id(name@, origin@, now.all, clock)
        }
}

/// Stamps an entity of a generator with the time of the tick and assigns
/// it an id.
pub fn stamp_object<U: ObjectType>(now: &Time, kind: &U) -> (arrival: (String, Object<U>))
    ensures
        arrival_of(now@, *kind, arrival),
{
    let object = Object {
        generated_time: now.clone(),
        point: kind.generated_point(),
        object_type: kind.clone(),
    };
    let name = kind.name();
    let origin = kind.generated_point();
    let id = generate_object_id(name.as_str(), &origin, now.all());
    proof {
        let clock = choose|clock: Seq<char>| id@ == object_id(name@, origin@, now@.all, clock);
        assert(id@ == object_id(name@, origin@, now@.all, clock));
    }
    (id, object)
}

/// Whether `part` is what the answer `data` of a generator contributes to
/// the tick at `now`: the ids to remove as they are, each event stamped, and
/// each new entity stamped and given an id.
pub open spec fn stamped_from<T: EventContents, U: ObjectType>(
    now: TimeView,
    data: GeneratedData<T, U>,
    part: Batch<T, U>,
) -> bool {
    &&& part.remove_objects@ == data.remove_objects@
    &&& part.events.len() == data.events.len()
    &&& forall|j: int|
        0 <= j < data.events.len() ==> occurrence_of(now, data.events[j], #[trigger] part.events[j])
    &&& part.generate_objects.len() == data.generate_objects.len()
    &&& forall|j: int|
        0 <= j < data.generate_objects.len() ==> arrival_of(
            now,
            data.generate_objects[j],
            #[trigger] part.generate_objects[j],
        )
}

/// Stamps the answer of one generator.
pub fn stamp<T: EventContents, U: ObjectType>(now: &Time, data: &GeneratedData<T, U>) -> (part:
    Batch<T, U>)
    ensures
        stamped_from(now@, *data, part),
{
    let mut events: Vec<Occurrence<T>> = Vec::new();
    let mut i: usize = 0;
    while i < data.events.len()
        invariant
            i <= data.events.len(),
            events.len() == i,
            forall|j: int| 0 <= j < i ==> occurrence_of(now@, data.events[j], #[trigger] events[j]),
        decreases data.events.len() - i,
    {
        events.push(stamp_event(now, &data.events[i]));
        i += 1;
    }
    let mut remove_objects: Vec<String> = Vec::new();
    let mut k: usize = 0;
    while k < data.remove_objects.len()
        invariant
            k <= data.remove_objects.len(),
            remove_objects@ == data.remove_objects@.take(k as int),
        decreases data.remove_objects.len() - k,
    {
        remove_objects.push(data.remove_objects[k].clone());
        assert(data.remove_objects@.take(k + 1) == data.remove_objects@.take(k as int).push(
            data.remove_objects@[k as int],
        ));
        k += 1;
    }
    assert(data.remove_objects@.take(data.remove_objects.len() as int) == data.remove_objects@);
    let mut generate_objects: Vec<(String, Object<U>)> = Vec::new();
    let mut n: usize = 0;
    while n < data.generate_objects.len()
        invariant
            n <= data.generate_objects.len(),
            generate_objects.len() == n,
            forall|j: int|
                0 <= j < n ==> arrival_of(
                    now@,
                    data.generate_objects[j],
                    #[trigger] generate_objects[j],
                ),
        decreases data.generate_objects.len() - n,
    {
        generate_objects.push(stamp_object(now, &data.generate_objects[n]));
        n += 1;
    }
    Batch { events, remove_objects, generate_objects }
}

impl<T: EventContents, U: ObjectType> Batch<T, U> {
    /// A batch that holds nothing.
    pub fn new() -> (batch: Batch<T, U>)
        ensures
            batch@ == BatchView::<T, U>::empty(),
    {
        let batch = Batch { events: Vec::new(), remove_objects: Vec::new(), generate_objects: Vec::new() };
        assert(batch@.events =~= Seq::<OccurrenceView<T>>::empty());
        assert(batch@.remove_objects =~= Seq::<Seq<char>>::empty());
        assert(batch@.generate_objects =~= Seq::<(Seq<char>, ObjectView<U>)>::empty());
        batch
    }

    /// Puts the contents of `next` after those of this batch.
    pub fn absorb(&mut self, next: Batch<T, U>)
        ensures
            final(self)@ == old(self)@.followed_by(next@),
    {
        let Batch { mut events, mut remove_objects, mut generate_objects } = next;
        self.events.append(&mut events);
        self.remove_objects.append(&mut remove_objects);
        self.generate_objects.append(&mut generate_objects);
        assert(self@.events =~= old(self)@.events + next@.events);
        assert(self@.remove_objects =~= old(self)@.remove_objects + next@.remove_objects);
        assert(self@.generate_objects =~= old(self)@.generate_objects + next@.generate_objects);
    }
}

} // verus!
