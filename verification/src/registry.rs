//! The keyed store of entities.
//!
//! The registry is a `rustc_hash::FxHashMap` from ids to values: the hash
//! map of the standard library with the Fx hasher, which hashes the same
//! text to the same number every time. Two ids are the same key when they
//! hold the same text, so the contracts speak of the store as a map from
//! texts: see [`entries`]. vstd says what the map's operations do only for
//! keys and hashers that it knows, and these are not among them; so what the
//! two operations that the kernel uses do to that map is stated here and
//! trusted, not proved. The steps of a tick that work on the registry are
//! built on those two and proved.

use crate::entity::{Object, ObjectType, ObjectView};
use crate::point::{Point, PointView};
use rustc_hash::FxHashMap;
use vstd::prelude::*;

verus! {

/// `rustc_hash::FxHasher`, taken as it is.
#[verifier::external_type_specification]
#[verifier::external_body]
pub struct ExFxHasher(rustc_hash::FxHasher);

/// `std::hash::BuildHasherDefault`, taken as it is.
#[verifier::external_type_specification]
#[verifier::external_body]
#[verifier::reject_recursive_types(H)]
pub struct ExBuildHasherDefault<H>(std::hash::BuildHasherDefault<H>);

/// What a registry holds, by the text of each id.
pub open spec fn entries<V>(m: FxHashMap<String, V>) -> Map<Seq<char>, V> {
    Map::new(
        |id: Seq<char>| exists|k: String| #[trigger] m@.contains_key(k) && k@ == id,
        |id: Seq<char>| m@[choose|k: String| #[trigger] m@.contains_key(k) && k@ == id],
    )
}

/// A registry that holds nothing.
pub fn registry_new<V>() -> (m: FxHashMap<String, V>)
    ensures
        entries(m) == Map::<Seq<char>, V>::empty(),
{
    let m: FxHashMap<String, V> = FxHashMap::default();
    assert(entries(m) =~= Map::<Seq<char>, V>::empty());
    m
}

/// `HashMap::insert`: afterwards the registry holds `value` under `id`, in
/// place of what it held under an id of the same text, and is otherwise
/// unchanged.
#[verifier::external_body]
pub(crate) fn registry_insert<V>(m: &mut FxHashMap<String, V>, id: String, value: V)
    ensures
        entries(*final(m)) == entries(*old(m)).insert(id@, value),
{
    m.insert(id, value);
}

/// `HashMap::remove`: afterwards the registry holds nothing under an id of
/// the text of `id` and is otherwise unchanged; the result is what it held
/// there, if anything.
#[verifier::external_body]
pub(crate) fn registry_remove<V>(m: &mut FxHashMap<String, V>, id: &String) -> (taken: Option<V>)
    ensures
        entries(*final(m)) == entries(*old(m)).remove(id@),
        taken == if entries(*old(m)).contains_key(id@) {
            Some(entries(*old(m))[id@])
        } else {
            None::<V>
        },
{
    m.remove(id)
}

/// The plain values of a registry.
pub open spec fn objects_view<U: ObjectType>(objects: FxHashMap<String, Object<U>>) -> Map<
    Seq<char>,
    ObjectView<U>,
> {
    entries(objects).map_values(|o: Object<U>| o@)
}

/// The texts of a list of ids.
pub open spec fn ids_view(ids: Seq<String>) -> Seq<Seq<char>> {
    ids.map_values(|id: String| id@)
}

/// The plain values of a list of entities with their ids.
pub open spec fn pairs_view<U: ObjectType>(pairs: Seq<(String, Object<U>)>) -> Seq<
    (Seq<char>, ObjectView<U>),
> {
    pairs.map_values(|p: (String, Object<U>)| (p.0@, p.1@))
}

/// The plain values of a move.
pub open spec fn relocation_view(relocation: Option<(String, Point)>) -> Option<
    (Seq<char>, PointView),
> {
    match relocation {
        Some((id, point)) => Some((id@, point@)),
        None => None,
    }
}

/// The registry without the entities whose id is in `ids`.
pub open spec fn removed_all<U>(objects: Map<Seq<char>, ObjectView<U>>, ids: Seq<Seq<char>>) -> Map<
    Seq<char>,
    ObjectView<U>,
> {
    objects.remove_keys(ids.to_set())
}

/// The registry after one move: the entity named, if it exists, is at the
/// new point and otherwise as it was; a move of an entity that does not
/// exist changes nothing.
pub open spec fn relocated<U>(
    objects: Map<Seq<char>, ObjectView<U>>,
    relocation: Option<(Seq<char>, PointView)>,
) -> Map<Seq<char>, ObjectView<U>> {
    match relocation {
        Some((id, point)) => if objects.contains_key(id) {
            objects.insert(
                id,
                ObjectView {
                    generated_time: objects[id].generated_time,
                    point,
                    object_type: objects[id].object_type,
                },
            )
        } else {
            objects
        },
        None => objects,
    }
}

/// The registry after a list of moves, applied first to last.
pub open spec fn relocated_all<U>(
    objects: Map<Seq<char>, ObjectView<U>>,
    relocations: Seq<Option<(Seq<char>, PointView)>>,
) -> Map<Seq<char>, ObjectView<U>>
    decreases relocations.len(),
{
    if relocations.len() == 0 {
        objects
    } else {
        relocated(relocated_all(objects, relocations.drop_last()), relocations.last())
    }
}

/// The registry after a list of entities was put in, first to last, each
/// under its id; a later one takes the place of an earlier one of the same
/// id.
pub open spec fn inserted_all<U>(
    objects: Map<Seq<char>, ObjectView<U>>,
    pairs: Seq<(Seq<char>, ObjectView<U>)>,
) -> Map<Seq<char>, ObjectView<U>>
    decreases pairs.len(),
{
    if pairs.len() == 0 {
        objects
    } else {
        inserted_all(objects, pairs.drop_last()).insert(pairs.last().0, pairs.last().1)
    }
}

/// Moves cannot bring an entity into being or end one.
pub proof fn lemma_relocated_all_keeps_ids<U>(
    objects: Map<Seq<char>, ObjectView<U>>,
    relocations: Seq<Option<(Seq<char>, PointView)>>,
)
    ensures
        relocated_all(objects, relocations).dom() == objects.dom(),
    decreases relocations.len(),
{
    if relocations.len() > 0 {
        lemma_relocated_all_keeps_ids(objects, relocations.drop_last());
        let earlier = relocated_all(objects, relocations.drop_last());
        assert(relocated(earlier, relocations.last()).dom() =~= earlier.dom());
    }
}

/// Putting a value into the registry puts its plain values into the map.
proof fn lemma_view_after_insert<U: ObjectType>(
    before: FxHashMap<String, Object<U>>,
    after: FxHashMap<String, Object<U>>,
    id: Seq<char>,
    object: Object<U>,
)
    requires
        entries(after) == entries(before).insert(id, object),
    ensures
        objects_view(after) == objects_view(before).insert(id, object@),
{
    assert(objects_view(after) =~= objects_view(before).insert(id, object@));
}

/// Taking an id out of the registry takes it out of the map.
proof fn lemma_view_after_remove<U: ObjectType>(
    before: FxHashMap<String, Object<U>>,
    after: FxHashMap<String, Object<U>>,
    id: Seq<char>,
)
    requires
        entries(after) == entries(before).remove(id),
    ensures
        objects_view(after) == objects_view(before).remove(id),
{
    assert(objects_view(after) =~= objects_view(before).remove(id));
}

/// Removes from the registry every entity whose id is in `ids`. An id that
/// names no entity is passed over.
pub(crate) fn remove_all<U: ObjectType>(objects: &mut FxHashMap<String, Object<U>>, ids: &Vec<String>)
    ensures
        objects_view(*final(objects)) == removed_all(
            objects_view(*old(objects)),
            ids_view(ids@),
        ),
{
    let ghost start = objects_view(*objects);
    let mut i: usize = 0;
    assert(ids_view(ids@.take(0)).to_set() =~= Set::<Seq<char>>::empty());
    assert(start.remove_keys(Set::<Seq<char>>::empty()) =~= start);
    while i < ids.len()
        invariant
            i <= ids.len(),
            objects_view(*objects) == removed_all(start, ids_view(ids@.take(i as int))),
        decreases ids.len() - i,
    {
        let ghost before = *objects;
        let _ = registry_remove(objects, &ids[i]);
        proof {
            let done = ids_view(ids@.take(i as int));
            let id = ids@[i as int]@;
            lemma_view_after_remove(before, *objects, id);
            assert(ids_view(ids@.take(i + 1)) =~= done.push(id));
            done.lemma_push_to_set_commute(id);
            assert(start.remove_keys(done.to_set()).remove(id) =~= start.remove_keys(
                done.to_set().insert(id),
            ));
        }
        i += 1;
    }
    assert(ids@.take(ids.len() as int) == ids@);
}

/// Carries out one move.
fn relocate<U: ObjectType>(
    objects: &mut FxHashMap<String, Object<U>>,
    relocation: Option<(String, Point)>,
)
    ensures
        objects_view(*final(objects)) == relocated(
            objects_view(*old(objects)),
            relocation_view(relocation),
        ),
{
    match relocation {
        Some((id, point)) => {
            let ghost before = *objects;
            match registry_remove(objects, &id) {
                Some(found) => {
                    let ghost without = *objects;
                    let Object { generated_time, point: _, object_type } = found;
                    let moved = Object { generated_time, point, object_type };
                    let ghost text = id@;
                    registry_insert(objects, id, moved);
                    proof {
                        lemma_view_after_remove(before, without, text);
                        lemma_view_after_insert(without, *objects, text, moved);
                        assert(objects_view(*objects) =~= relocated(
                            objects_view(before),
                            Some((text, point@)),
                        ));
                    }
                },
                None => {
                    proof {
                        lemma_view_after_remove(before, *objects, id@);
                        assert(objects_view(*objects) =~= objects_view(before));
                    }
                },
            }
        },
        None => {},
    }
}

/// Carries out a list of moves, first to last.
pub(crate) fn relocate_all<U: ObjectType>(
    objects: &mut FxHashMap<String, Object<U>>,
    relocations: Vec<Option<(String, Point)>>,
)
    ensures
        objects_view(*final(objects)) == relocated_all(
            objects_view(*old(objects)),
            relocations@.map_values(|r: Option<(String, Point)>| relocation_view(r)),
        ),
{
    let ghost start = objects_view(*objects);
    let ghost all = relocations@;
    let ghost plain = |r: Option<(String, Point)>| relocation_view(r);
    for relocation in it: relocations
        invariant
            it.seq() == all,
            plain == |r: Option<(String, Point)>| relocation_view(r),
            objects_view(*objects) == relocated_all(
                start,
                all.take(it.index() as int).map_values(plain),
            ),
    {
        proof {
            let i = it.index() as int;
            assert(all.take(i + 1).map_values(plain).drop_last() == all.take(i).map_values(plain));
            assert(all.take(i + 1).map_values(plain).last() == relocation_view(relocation));
        }
        relocate(objects, relocation);
    }
    assert(all.take(all.len() as int) == all);
}

/// Puts a list of entities into the registry, first to last.
pub(crate) fn insert_all<U: ObjectType>(
    objects: &mut FxHashMap<String, Object<U>>,
    pairs: Vec<(String, Object<U>)>,
)
    ensures
        objects_view(*final(objects)) == inserted_all(
            objects_view(*old(objects)),
            pairs_view(pairs@),
        ),
{
    let ghost start = objects_view(*objects);
    let ghost all = pairs@;
    for pair in it: pairs
        invariant
            it.seq() == all,
            objects_view(*objects) == inserted_all(
                start,
                pairs_view(all.take(it.index() as int)),
            ),
    {
        let ghost before = *objects;
        let (id, object) = pair;
        proof {
            let i = it.index() as int;
            assert(pairs_view(all.take(i + 1)).drop_last() == pairs_view(all.take(i)));
            assert(pairs_view(all.take(i + 1)).last() == (id@, object@));
        }
        let ghost text = id@;
        registry_insert(objects, id, object);
        proof {
            lemma_view_after_insert(before, *objects, text, object);
        }
    }
    assert(all.take(all.len() as int) == all);
}

} // verus!
