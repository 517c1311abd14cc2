//! The world and what one tick does to it.

use crate::batch::{
    batches_view, occurrences_view, stamp, stamped_from, Batch, BatchView, Occurrence,
    OccurrenceView,
};
use crate::entity::{Event, EventContents, EventView, GeneratedData, Object, ObjectType, ObjectView};
use crate::natural::{big_less, big_sum};
use crate::point::Point;
use crate::registry::{
    insert_all, inserted_all, lemma_relocated_all_keeps_ids, objects_view, pairs_view,
    registry_new, relocate_all, relocated_all, relocation_view, remove_all, removed_all,
};
use crate::time::{Time, TimeView};
use rustc_hash::FxHashMap;
use vstd::prelude::*;

verus! {

/// The state of the world.
#[derive(Debug, Clone)]
pub struct Context<T: EventContents, U: ObjectType> {
    /// The time now.
    pub time: Time,
    /// The events that are remembered, oldest first.
    pub memory: Vec<Event<T>>,
    /// The entities that exist, by id.
    pub objects: FxHashMap<String, Object<U>>,
}

/// The plain values of a [`Context`].
pub struct ContextView<T, U> {
    pub time: TimeView,
    pub memory: Seq<EventView<T>>,
    pub objects: Map<Seq<char>, ObjectView<U>>,
}

/// The plain values of a list of events.
pub open spec fn events_view<T: EventContents>(events: Seq<Event<T>>) -> Seq<EventView<T>> {
    events.map_values(|e: Event<T>| e@)
}

impl<T: EventContents, U: ObjectType> View for Context<T, U> {
    type V = ContextView<T, U>;

    open spec fn view(&self) -> ContextView<T, U> {
        ContextView {
            time: self.time@,
            memory: events_view(self.memory@),
            objects: objects_view(self.objects),
        }
    }
}

impl<T, U> ContextView<T, U> {
    /// The world at the start of the next tick: time has advanced by one
    /// unit-tick and the events that have expired by then are forgotten.
    pub open spec fn begun(self) -> ContextView<T, U> {
        ContextView {
            time: self.time.plus(1),
            memory: evict(self.memory, self.time.all + 1),
            objects: self.objects,
        }
    }

    /// The world with a batch folded in: the entities named for removal are
    /// gone, the events are remembered after the earlier ones, the entities
    /// that still exist are moved as the events order, and the new entities
    /// are put in.
    pub open spec fn committed(self, batch: BatchView<T, U>) -> ContextView<T, U> {
        ContextView {
            time: self.time,
            memory: self.memory + batch.remembered(),
            objects: inserted_all(
                relocated_all(
                    removed_all(self.objects, batch.remove_objects),
                    batch.relocations(),
                ),
                batch.generate_objects,
            ),
        }
    }
}

/// Whether an event's lifetime has run out at `now`: the tick in which it
/// happened plus its lifetime lies before `now`. An event without a
/// lifetime never expires.
pub open spec fn expired<T>(event: EventView<T>, now: nat) -> bool {
    match event.lifetime {
        Some(lifetime) => event.generated_time.all + lifetime.all < now,
        None => false,
    }
}

/// The events that are still remembered at `now`, in their order.
pub open spec fn evict<T>(memory: Seq<EventView<T>>, now: nat) -> Seq<EventView<T>> {
    memory.filter(|e: EventView<T>| !expired(e, now))
}

/// Whether `event` is to be forgotten at `now`.
pub fn is_expired<T: EventContents>(event: &Event<T>, now: &Time) -> (b: bool)
    ensures
        b == expired(event@, now@.all),
{
    match &event.lifetime {
        Some(lifetime) => {
            let end = big_sum(event.generated_time.all(), lifetime.all());
            big_less(&end, now.all())
        },
        None => false,
    }
}

/// Drops the events whose lifetime has run out at `now` and keeps the
/// others in their order.
pub fn evict_expired<T: EventContents>(memory: Vec<Event<T>>, now: &Time) -> (kept: Vec<Event<T>>)
    ensures
        events_view(kept@) == evict(events_view(memory@), now@.all),
{
    let ghost all = memory@;
    let mut kept: Vec<Event<T>> = Vec::new();
    for event in it: memory
        invariant
            it.seq() == all,
            events_view(kept@) == evict(events_view(all.take(it.index() as int)), now@.all),
    {
        proof {
            let i = it.index() as int;
            let pred = |e: EventView<T>| !expired(e, now@.all);
            assert(all.take(i + 1).drop_last() == all.take(i));
            assert(events_view(all.take(i + 1)).drop_last() == events_view(all.take(i)));
            reveal(Seq::filter);
            assert(events_view(all.take(i + 1)).last() == event@);
        }
        if !is_expired(&event, now) {
            let ghost before = kept@;
            kept.push(event);
            assert(events_view(kept@) == events_view(before).push(event@));
        }
    }
    assert(all.take(all.len() as int) == all);
    kept
}

/// Appends the events of a tick to the memory and hands back the moves that
/// they order, in the same order.
fn remember<T: EventContents>(memory: &mut Vec<Event<T>>, events: Vec<Occurrence<T>>) -> (relocations:
    Vec<Option<(String, Point)>>)
    ensures
        events_view(final(memory)@) == events_view(old(memory)@) + occurrences_view(
            events@,
        ).map_values(|o: OccurrenceView<T>| o.event),
        relocations@.map_values(|r: Option<(String, Point)>| relocation_view(r))
            == occurrences_view(events@).map_values(|o: OccurrenceView<T>| o.relocation),
{
    let ghost start = events_view(memory@);
    let ghost all = events@;
    let ghost event_of = |o: OccurrenceView<T>| o.event;
    let ghost move_of = |o: OccurrenceView<T>| o.relocation;
    let ghost plain = |r: Option<(String, Point)>| relocation_view(r);
    let mut relocations: Vec<Option<(String, Point)>> = Vec::new();
    for occurrence in it: events
        invariant
            it.seq() == all,
            event_of == |o: OccurrenceView<T>| o.event,
            move_of == |o: OccurrenceView<T>| o.relocation,
            plain == |r: Option<(String, Point)>| relocation_view(r),
            events_view(memory@) == start + occurrences_view(
                all.take(it.index() as int),
            ).map_values(event_of),
            relocations@.map_values(plain) == occurrences_view(
                all.take(it.index() as int),
            ).map_values(move_of),
    {
        let ghost i = it.index() as int;
        let ghost memory_before = memory@;
        let ghost relocations_before = relocations@;
        let Occurrence { event, relocation } = occurrence;
        memory.push(event);
        relocations.push(relocation);
        proof {
            assert(all.take(i + 1) == all.take(i).push(occurrence));
            assert(events_view(memory@) == events_view(memory_before).push(event@));
            assert(occurrences_view(all.take(i + 1)).map_values(event_of) == occurrences_view(
                all.take(i),
            ).map_values(event_of).push(event@));
            assert(relocations@.map_values(plain) == relocations_before.map_values(plain).push(
                relocation_view(relocation),
            ));
            assert(occurrences_view(all.take(i + 1)).map_values(move_of) == occurrences_view(
                all.take(i),
            ).map_values(move_of).push(relocation_view(relocation)));
        }
    }
    assert(all.take(all.len() as int) == all);
    relocations
}

impl<T: EventContents, U: ObjectType> Context<T, U> {
    /// A world at `time` that remembers nothing and holds the given
    /// entities, each under its id. Of two entities with the same id the
    /// later one stays.
    pub fn new(time: Time, objects: Vec<(String, Object<U>)>) -> (world: Context<T, U>)
        ensures
            world@ == (ContextView::<T, U> {
                time: time@,
                memory: Seq::empty(),
                objects: inserted_all(Map::empty(), pairs_view(objects@)),
            }),
    {
        let mut registry: FxHashMap<String, Object<U>> = registry_new();
        assert(objects_view(registry) =~= Map::<Seq<char>, ObjectView<U>>::empty());
        insert_all(&mut registry, objects);
        let world = Context { time, memory: Vec::new(), objects: registry };
        assert(world@.memory =~= Seq::<EventView<T>>::empty());
        world
    }
}

/// Starts a tick: advances the time by one unit-tick and forgets the events
/// that have expired by the new time.
pub fn begin_tick<T: EventContents, U: ObjectType>(ctx: &mut Context<T, U>)
    ensures
        final(ctx)@ == old(ctx)@.begun(),
        final(ctx)@.time.all == old(ctx)@.time.all + 1,
{
    ctx.time.plus_one();
    let mut memory: Vec<Event<T>> = Vec::new();
    std::mem::swap(&mut ctx.memory, &mut memory);
    let kept = evict_expired(memory, &ctx.time);
    ctx.memory = kept;
}

/// Folds a batch into the world: removes the entities named for removal,
/// remembers the events, carries out the moves that the events order on the
/// entities that still exist, and puts in the new entities.
pub fn commit<T: EventContents, U: ObjectType>(ctx: &mut Context<T, U>, batch: Batch<T, U>)
    ensures
        final(ctx)@ == old(ctx)@.committed(batch@),
{
    let ghost start = ctx@;
    let Batch { events, remove_objects, generate_objects } = batch;
    remove_all(&mut ctx.objects, &remove_objects);
    let relocations = remember(&mut ctx.memory, events);
    relocate_all(&mut ctx.objects, relocations);
    let ghost moved = objects_view(ctx.objects);
    // Entities named for removal are gone already, and a move brings none
    // back: removing them once more changes nothing.
    remove_all(&mut ctx.objects, &remove_objects);
    proof {
        let ids = batch@.remove_objects;
        lemma_relocated_all_keeps_ids(removed_all(start.objects, ids), batch@.relocations());
        assert(removed_all(moved, ids) =~= moved);
    }
    insert_all(&mut ctx.objects, generate_objects);
}

/// Whether one tick leads from the world `before` to the world `after`,
/// given the generators, what they answered, the world `snapshot` that they
/// were shown and the stamped parts made of their answers: the snapshot is
/// the world `before` with the tick begun, each generator answered on that
/// snapshot, each part is its answer stamped with the snapshot's time, and
/// `after` is the snapshot with all the parts, in the order of the
/// generators, folded in.
pub open spec fn ticked<T: EventContents, U: ObjectType, F: Fn(&Context<T, U>) -> GeneratedData<T, U>>(
    before: ContextView<T, U>,
    generators: Seq<F>,
    answers: Seq<GeneratedData<T, U>>,
    snapshot: Context<T, U>,
    parts: Seq<Batch<T, U>>,
    after: ContextView<T, U>,
) -> bool {
    &&& snapshot@ == before.begun()
    &&& answers.len() == generators.len()
    &&& parts.len() == generators.len()
    &&& forall|i: int|
        0 <= i < generators.len() ==> call_ensures(generators[i], (&snapshot,), #[trigger] answers[i])
    &&& forall|i: int|
        0 <= i < generators.len() ==> stamped_from(snapshot@.time, answers[i], #[trigger] parts[i])
    &&& after == snapshot@.committed(BatchView::merged(batches_view(parts)))
}

/// A generator as a plain function: what happens in the world as it stands.
pub type Generater<T, U> = fn(&Context<T, U>) -> GeneratedData<T, U>;

/// Runs one tick: advances the time by one unit-tick, forgets the events
/// that have expired, asks each generator in turn what happens in the world
/// as it then stands, and folds all their answers into the world. Returns
/// the answers, one for each generator.
pub fn run<T: EventContents, U: ObjectType, F: Fn(&Context<T, U>) -> GeneratedData<T, U>>(
    ctx: &mut Context<T, U>,
    generate_functions: Vec<F>,
) -> (answers: Vec<GeneratedData<T, U>>)
    requires
        forall|i: int, world: &Context<T, U>|
            0 <= i < generate_functions.len() ==> #[trigger] call_requires(
                generate_functions[i],
                (world,),
            ),
    ensures
        final(ctx)@.time == old(ctx)@.time.plus(1),
        final(ctx)@.time.all == old(ctx)@.time.all + 1,
        answers.len() == generate_functions.len(),
        exists|snapshot: Context<T, U>, parts: Seq<Batch<T, U>>|
            ticked(old(ctx)@, generate_functions@, answers@, snapshot, parts, final(ctx)@),
{
    begin_tick(ctx);
    let ghost snapshot = *ctx;
    let ghost mut parts: Seq<Batch<T, U>> = Seq::empty();
    let mut batch: Batch<T, U> = Batch::new();
    let mut answers: Vec<GeneratedData<T, U>> = Vec::new();
    let mut i: usize = 0;
    assert(batches_view(parts) =~= Seq::<BatchView<T, U>>::empty());
    while i < generate_functions.len()
        invariant
            i <= generate_functions.len(),
            *ctx == snapshot,
            answers.len() == i,
            parts.len() == i,
            forall|k: int, world: &Context<T, U>|
                0 <= k < generate_functions.len() ==> #[trigger] call_requires(
                    generate_functions[k],
                    (world,),
                ),
            forall|k: int|
                0 <= k < i ==> call_ensures(generate_functions[k], (&snapshot,), #[trigger] answers[k]),
            forall|k: int| 0 <= k < i ==> stamped_from(snapshot@.time, answers[k], #[trigger] parts[k]),
            batch@ == BatchView::merged(batches_view(parts)),
        decreases generate_functions.len() - i,
    {
        let generate = &generate_functions[i];
        let data = generate(&*ctx);
        let part = stamp(&ctx.time, &data);
        proof {
            let earlier = parts;
            parts = parts.push(part);
            assert(batches_view(parts).drop_last() == batches_view(earlier));
            assert(batches_view(parts).last() == part@);
        }
        batch.absorb(part);
        answers.push(data);
        i += 1;
    }
    commit(ctx, batch);
    proof {
        assert(ticked(old(ctx)@, generate_functions@, answers@, snapshot, parts, ctx@));
    }
    answers
}

} // verus!
