//! What holds of every tick, proved over the functions that state what a
//! tick does.

use crate::entity::{EventView, ObjectView};
use crate::point::PointView;
use crate::batch::BatchView;
use crate::registry::{
    inserted_all, lemma_relocated_all_keeps_ids, relocated, relocated_all, removed_all,
};
use crate::world::{evict, expired, ContextView};
use vstd::prelude::*;

verus! {

/// Evicting twice at the same time forgets nothing that evicting once has
/// not forgotten.
pub proof fn lemma_evict_idempotent<T>(memory: Seq<EventView<T>>, now: nat)
    ensures
        evict(evict(memory, now), now) == evict(memory, now),
    decreases memory.len(),
{
    reveal(Seq::filter);
    let keep = |e: EventView<T>| !expired(e, now);
    if memory.len() > 0 {
        lemma_evict_idempotent(memory.drop_last(), now);
        let earlier = memory.drop_last().filter(keep);
        if keep(memory.last()) {
            assert(earlier.push(memory.last()).drop_last() == earlier);
        }
    }
}

/// Every event that eviction keeps has not expired, and eviction keeps the
/// events without a lifetime.
pub proof fn lemma_evict_keeps_exactly_the_live<T>(memory: Seq<EventView<T>>, now: nat)
    ensures
        forall|e: EventView<T>| #[trigger]
            evict(memory, now).contains(e) <==> memory.contains(e) && !expired(e, now),
{
    let keep = |e: EventView<T>| !expired(e, now);
    assert forall|e: EventView<T>| #[trigger]
        evict(memory, now).contains(e) <==> memory.contains(e) && !expired(e, now) by {
        if evict(memory, now).contains(e) {
            let i = choose|i: int| 0 <= i < memory.filter(keep).len() && memory.filter(keep)[i] == e;
            memory.lemma_filter_pred(keep, i);
            memory.lemma_filter_contains_rev(keep, e);
        }
        if memory.contains(e) && !expired(e, now) {
            let i = choose|i: int| 0 <= i < memory.len() && memory[i] == e;
            memory.lemma_filter_contains(keep, i);
        }
    }
}

/// The ids of a list of entities with their ids.
pub open spec fn ids_of<U>(pairs: Seq<(Seq<char>, ObjectView<U>)>) -> Set<Seq<char>> {
    pairs.map_values(|p: (Seq<char>, ObjectView<U>)| p.0).to_set()
}

/// Putting entities in adds their ids and no others.
pub proof fn lemma_inserted_all_ids<U>(
    objects: Map<Seq<char>, ObjectView<U>>,
    pairs: Seq<(Seq<char>, ObjectView<U>)>,
)
    ensures
        inserted_all(objects, pairs).dom() == objects.dom().union(ids_of(pairs)),
    decreases pairs.len(),
{
    let id_of = |p: (Seq<char>, ObjectView<U>)| p.0;
    if pairs.len() == 0 {
        assert(pairs.map_values(id_of).to_set() =~= Set::<Seq<char>>::empty());
        assert(objects.dom().union(ids_of(pairs)) =~= objects.dom());
    } else {
        lemma_inserted_all_ids(objects, pairs.drop_last());
        let earlier = pairs.drop_last().map_values(id_of);
        assert(pairs.map_values(id_of) =~= earlier.push(pairs.last().0));
        earlier.lemma_push_to_set_commute(pairs.last().0);
        assert(inserted_all(objects, pairs).dom() =~= objects.dom().union(ids_of(pairs)));
    }
}

/// After a batch is folded in, the world holds the entities that it held
/// and that the batch does not remove, and the entities that the batch
/// brings; no move adds to them or takes from them.
pub proof fn lemma_committed_ids<T, U>(world: ContextView<T, U>, batch: BatchView<T, U>)
    ensures
        world.committed(batch).objects.dom() == world.objects.dom().difference(
            batch.remove_objects.to_set(),
        ).union(ids_of(batch.generate_objects)),
{
    let left = removed_all(world.objects, batch.remove_objects);
    lemma_relocated_all_keeps_ids(left, batch.relocations());
    lemma_inserted_all_ids(relocated_all(left, batch.relocations()), batch.generate_objects);
    assert(left.dom() =~= world.objects.dom().difference(batch.remove_objects.to_set()));
}

/// Removal comes before insertion: where the world holds one entity, and a
/// batch removes it and brings one new entity, the world holds exactly one
/// entity afterwards, the new one, also where the new id is the old one.
pub proof fn lemma_retire_and_replace<T, U>(
    world: ContextView<T, U>,
    batch: BatchView<T, U>,
    retired: Seq<char>,
    id: Seq<char>,
    object: ObjectView<U>,
)
    requires
        world.objects.dom() == set![retired],
        batch.remove_objects.contains(retired),
        batch.generate_objects == seq![(id, object)],
    ensures
        world.committed(batch).objects.dom() == set![id],
        world.committed(batch).objects.dom().len() == 1,
        world.committed(batch).objects[id] == object,
{
    lemma_committed_ids(world, batch);
    let id_of = |p: (Seq<char>, ObjectView<U>)| p.0;
    assert(batch.generate_objects.map_values(id_of) =~= seq![id]);
    assert(seq![id].to_set() =~= set![id]) by {
        assert(seq![id][0] == id);
    }
    assert(world.objects.dom().difference(batch.remove_objects.to_set()) =~= Set::<
        Seq<char>,
    >::empty());
    assert(world.committed(batch).objects.dom() =~= set![id]);
    assert(batch.generate_objects.drop_last() =~= Seq::<(Seq<char>, ObjectView<U>)>::empty());
    assert(batch.generate_objects.last() == (id, object));
    reveal_with_fuel(inserted_all, 2);
}

/// A merged batch brings nothing where none of its parts does.
pub proof fn lemma_merged_brings_nothing<T, U>(parts: Seq<BatchView<T, U>>)
    requires
        forall|k: int| 0 <= k < parts.len() ==> (#[trigger] parts[k]).generate_objects.len() == 0,
    ensures
        BatchView::merged(parts).generate_objects == Seq::<(Seq<char>, ObjectView<U>)>::empty(),
    decreases parts.len(),
{
    if parts.len() > 0 {
        assert forall|k: int| 0 <= k < parts.drop_last().len() implies (#[trigger] parts.drop_last()[k]).generate_objects.len()
            == 0 by {
            assert(parts.drop_last()[k] == parts[k]);
        }
        lemma_merged_brings_nothing(parts.drop_last());
        assert(BatchView::merged(parts).generate_objects =~= Seq::<
            (Seq<char>, ObjectView<U>),
        >::empty());
    } else {
        assert(BatchView::merged(parts).generate_objects =~= Seq::<
            (Seq<char>, ObjectView<U>),
        >::empty());
    }
}

/// A merged batch removes every id that one of its parts removes.
pub proof fn lemma_merged_removes<T, U>(parts: Seq<BatchView<T, U>>, part: int, id: Seq<char>)
    requires
        0 <= part < parts.len(),
        parts[part].remove_objects.contains(id),
    ensures
        BatchView::merged(parts).remove_objects.contains(id),
    decreases parts.len(),
{
    let earlier = BatchView::merged(parts.drop_last()).remove_objects;
    let last = parts.last().remove_objects;
    if part == parts.len() - 1 {
        let j = choose|j: int| 0 <= j < last.len() && last[j] == id;
        assert((earlier + last)[earlier.len() + j] == id);
    } else {
        assert(parts.drop_last()[part] == parts[part]);
        lemma_merged_removes(parts.drop_last(), part, id);
        let j = choose|j: int| 0 <= j < earlier.len() && earlier[j] == id;
        assert((earlier + last)[j] == id);
    }
}

/// A merged batch brings exactly the one entity that one of its parts
/// brings, where the other parts bring none.
pub proof fn lemma_merged_brings_one<T, U>(
    parts: Seq<BatchView<T, U>>,
    maker: int,
    pair: (Seq<char>, ObjectView<U>),
)
    requires
        0 <= maker < parts.len(),
        parts[maker].generate_objects == seq![pair],
        forall|k: int|
            0 <= k < parts.len() && k != maker ==> (#[trigger] parts[k]).generate_objects.len() == 0,
    ensures
        BatchView::merged(parts).generate_objects == seq![pair],
    decreases parts.len(),
{
    let earlier = parts.drop_last();
    if maker == parts.len() - 1 {
        assert forall|k: int| 0 <= k < earlier.len() implies (#[trigger] earlier[k]).generate_objects.len()
            == 0 by {
            assert(earlier[k] == parts[k]);
        }
        lemma_merged_brings_nothing(earlier);
        assert(BatchView::merged(parts).generate_objects =~= seq![pair]);
    } else {
        assert(earlier[maker] == parts[maker]);
        assert forall|k: int| 0 <= k < earlier.len() && k != maker implies (#[trigger] earlier[k]).generate_objects.len()
            == 0 by {
            assert(earlier[k] == parts[k]);
        }
        lemma_merged_brings_one(earlier, maker, pair);
        assert(parts.last() == parts[parts.len() - 1]);
        assert(BatchView::merged(parts).generate_objects =~= seq![pair]);
    }
}

/// Removal comes before insertion whichever generators ask for them: where
/// the world holds one entity, one generator's part removes it, and one
/// generator's part, the same or another, earlier or later, brings the only
/// new entity of the tick, the world holds exactly one entity afterwards,
/// the new one.
pub proof fn lemma_retire_and_replace_across_generators<T, U>(
    world: ContextView<T, U>,
    parts: Seq<BatchView<T, U>>,
    remover: int,
    maker: int,
    retired: Seq<char>,
    id: Seq<char>,
    object: ObjectView<U>,
)
    requires
        world.objects.dom() == set![retired],
        0 <= remover < parts.len(),
        parts[remover].remove_objects.contains(retired),
        0 <= maker < parts.len(),
        parts[maker].generate_objects == seq![(id, object)],
        forall|k: int|
            0 <= k < parts.len() && k != maker ==> (#[trigger] parts[k]).generate_objects.len() == 0,
    ensures
        world.committed(BatchView::merged(parts)).objects.dom() == set![id],
        world.committed(BatchView::merged(parts)).objects.dom().len() == 1,
        world.committed(BatchView::merged(parts)).objects[id] == object,
{
    lemma_merged_removes(parts, remover, retired);
    lemma_merged_brings_one(parts, maker, (id, object));
    lemma_retire_and_replace(world, BatchView::merged(parts), retired, id, object);
}

/// A move changes the place of the entity that it names and nothing else
/// of it, and leaves every other entity as it was.
pub proof fn lemma_relocated_changes_only_the_point<U>(
    objects: Map<Seq<char>, ObjectView<U>>,
    id: Seq<char>,
    point: PointView,
)
    requires
        objects.contains_key(id),
    ensures
        ({
            let after = relocated(objects, Some((id, point)));
            &&& after.dom() == objects.dom()
            &&& after[id].point == point
            &&& after[id].generated_time == objects[id].generated_time
            &&& after[id].object_type == objects[id].object_type
            &&& forall|other: Seq<char>|
                other != id && objects.contains_key(other) ==> #[trigger] after[other]
                    == objects[other]
        }),
{
    let after = relocated(objects, Some((id, point)));
    assert(after.dom() =~= objects.dom());
}

} // verus!
