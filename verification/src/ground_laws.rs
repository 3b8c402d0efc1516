//! What holds of interning, whatever is inserted: stated over the content of
//! a ground as [`Ground`](crate::ground::Ground)'s functions describe it.

use crate::entity::EntityView;
use crate::ground::{absorbed, id_of, inserted, interned, is_fresh, merged, names_of, numbers_of};
use vstd::prelude::*;

verus! {

/// The numbers and names of a sequence of entities, as a set.
pub open spec fn storable(entities: Seq<EntityView>) -> Set<EntityView> {
    entities.to_set().filter(|e: EntityView| !(e is Identifier))
}

/// An insertion keeps a valid content valid and keeps every entity at its
/// place; the entity, unless it is an identifier, is held afterwards.
pub proof fn lemma_inserted(entities: Seq<EntityView>, entity: EntityView)
    requires
        interned(entities),
    ensures
        interned(inserted(entities, entity)),
        entities.is_prefix_of(inserted(entities, entity)),
        inserted(entities, entity).to_set() == if entity is Identifier {
            entities.to_set()
        } else {
            entities.to_set().insert(entity)
        },
        !is_fresh(inserted(entities, entity), entity),
{
    let after = inserted(entities, entity);
    if is_fresh(entities, entity) {
        assert(after[entities.len() as int] == entity);
        entities.lemma_push_to_set_commute(entity);
    } else if !(entity is Identifier) {
        assert(entities.to_set().insert(entity) =~= entities.to_set());
    }
}

/// Interning is idempotent: a second insertion of the same entity changes
/// nothing, is not reported as an addition, and finds the entity under the
/// identifier that the first one gave.
pub proof fn lemma_insert_twice(entities: Seq<EntityView>, entity: EntityView)
    ensures
        inserted(inserted(entities, entity), entity) == inserted(entities, entity),
        !is_fresh(inserted(entities, entity), entity),
        id_of(inserted(inserted(entities, entity), entity), entity) == id_of(
            inserted(entities, entity),
            entity,
        ),
{
    if is_fresh(entities, entity) {
        assert(entities.push(entity)[entities.len() as int] == entity);
    }
}

/// Several insertions keep a valid content valid, keep every entity at its
/// place, and add exactly the numbers and names inserted.
pub proof fn lemma_absorbed(entities: Seq<EntityView>, more: Seq<EntityView>)
    requires
        interned(entities),
    ensures
        interned(absorbed(entities, more)),
        entities.is_prefix_of(absorbed(entities, more)),
        absorbed(entities, more).to_set() == entities.to_set().union(storable(more)),
    decreases more.len(),
{
    if more.len() == 0 {
        assert(storable(more) =~= Set::empty());
        assert(entities.to_set().union(storable(more)) =~= entities.to_set());
    } else {
        let before = absorbed(entities, more.drop_last());
        lemma_absorbed(entities, more.drop_last());
        lemma_inserted(before, more.last());
        assert(more.drop_last().push(more.last()) =~= more);
        more.drop_last().lemma_push_to_set_commute(more.last());
        assert(storable(more) =~= if more.last() is Identifier {
            storable(more.drop_last())
        } else {
            storable(more.drop_last()).insert(more.last())
        });
        assert(absorbed(entities, more).to_set() =~= entities.to_set().union(storable(more)));
    }
}

/// Insertions one after the other are insertions of the whole.
pub proof fn lemma_absorbed_concat(
    entities: Seq<EntityView>,
    first: Seq<EntityView>,
    second: Seq<EntityView>,
)
    ensures
        absorbed(entities, first + second) == absorbed(absorbed(entities, first), second),
    decreases second.len(),
{
    if second.len() == 0 {
        assert(first + second =~= first);
    } else {
        lemma_absorbed_concat(entities, first, second.drop_last());
        assert((first + second).drop_last() =~= first + second.drop_last());
    }
}

/// `insert` reports an addition at most once for one entity: once the entity
/// has been inserted, no later insertion of it adds anything, whatever was
/// inserted in between.
pub proof fn lemma_insert_reports_once(
    entities: Seq<EntityView>,
    entity: EntityView,
    between: Seq<EntityView>,
)
    requires
        interned(entities),
    ensures
        !is_fresh(absorbed(inserted(entities, entity), between), entity),
{
    lemma_inserted(entities, entity);
    lemma_absorbed(inserted(entities, entity), between);
    if !(entity is Identifier) {
        let first = inserted(entities, entity);
        assert(first.to_set().contains(entity));
        assert(absorbed(first, between).to_set().contains(entity));
    }
}

/// Identifiers count the distinct entities in the order of their insertion:
/// in a ground that started empty, an entity that was new when it was
/// inserted stands at the position that equals the number of distinct
/// numbers and names inserted before it.
pub proof fn lemma_identifiers_count_insertions(inserts: Seq<EntityView>, at: int)
    requires
        0 <= at < inserts.len(),
        is_fresh(absorbed(Seq::empty(), inserts.take(at)), inserts[at]),
    ensures
        ({
            let ground = absorbed(Seq::empty(), inserts);
            let earlier = storable(inserts.take(at)).len();
            &&& earlier < ground.len()
            &&& ground[earlier as int] == inserts[at]
            &&& id_of(ground, inserts[at]) == Some(earlier as int)
        }),
{
    let empty = Seq::<EntityView>::empty();
    let before = absorbed(empty, inserts.take(at));
    let with_it = absorbed(empty, inserts.take(at + 1));
    let ground = absorbed(empty, inserts);
    lemma_absorbed(empty, inserts.take(at));
    assert(inserts.take(at + 1).drop_last() =~= inserts.take(at));
    assert(with_it == before.push(inserts[at]));
    assert(inserts =~= inserts.take(at + 1) + inserts.skip(at + 1));
    lemma_absorbed_concat(empty, inserts.take(at + 1), inserts.skip(at + 1));
    lemma_inserted(before, inserts[at]);
    lemma_absorbed(with_it, inserts.skip(at + 1));
    lemma_absorbed(empty, inserts);
    before.unique_seq_to_set();
    assert(empty.to_set().union(storable(inserts.take(at))) =~= storable(inserts.take(at)));
    let earlier = storable(inserts.take(at)).len();
    assert(earlier == before.len());
    assert(ground[earlier as int] == with_it[earlier as int]);
    assert(ground.contains(inserts[at]));
}

/// The numbers and the names of a valid content are all it holds.
proof fn lemma_kinds(entities: Seq<EntityView>)
    requires
        interned(entities),
    ensures
        storable(numbers_of(entities)).union(storable(names_of(entities))) == entities.to_set(),
{
    let numbers = numbers_of(entities);
    let names = names_of(entities);
    let both = storable(numbers).union(storable(names));
    assert forall|e: EntityView| both.contains(e) <==> entities.to_set().contains(e) by {
        let is_number = |e: EntityView| e is Number;
        let is_name = |e: EntityView| e is Name;
        if both.contains(e) {
            if numbers.contains(e) {
                entities.lemma_filter_contains_rev(is_number, e);
            } else {
                entities.lemma_filter_contains_rev(is_name, e);
            }
        }
        if entities.to_set().contains(e) {
            let i = choose|i: int| 0 <= i < entities.len() && entities[i] == e;
            assert(!(entities[i] is Identifier));
            if e is Number {
                entities.lemma_filter_contains(is_number, i);
            } else {
                entities.lemma_filter_contains(is_name, i);
            }
        }
    }
    assert(both =~= entities.to_set());
}

/// What a merge holds does not depend on which ground absorbs which: either
/// way the result holds the entities of both, each once, so that its length
/// is the sum of the two lengths less the number of entities that both
/// hold.  Only the identifiers may differ.
pub proof fn lemma_merge_membership(first: Seq<EntityView>, second: Seq<EntityView>)
    requires
        interned(first),
        interned(second),
    ensures
        interned(merged(first, second)),
        first.is_prefix_of(merged(first, second)),
        merged(first, second).to_set() == first.to_set().union(second.to_set()),
        merged(first, second).to_set() == merged(second, first).to_set(),
        merged(first, second).len() == first.len() + second.len() - first.to_set().intersect(
            second.to_set(),
        ).len(),
{
    lemma_merged_set(first, second);
    lemma_merged_set(second, first);
    assert(first.to_set().union(second.to_set()) =~= second.to_set().union(first.to_set()));
    merged(first, second).unique_seq_to_set();
    first.unique_seq_to_set();
    second.unique_seq_to_set();
    vstd::set_lib::lemma_set_intersect_union_lens(first.to_set(), second.to_set());
}

/// A merge holds the entities of both grounds.
proof fn lemma_merged_set(first: Seq<EntityView>, second: Seq<EntityView>)
    requires
        interned(first),
        interned(second),
    ensures
        interned(merged(first, second)),
        first.is_prefix_of(merged(first, second)),
        merged(first, second).to_set() == first.to_set().union(second.to_set()),
{
    let with_numbers = absorbed(first, numbers_of(second));
    lemma_absorbed(first, numbers_of(second));
    lemma_absorbed(with_numbers, names_of(second));
    lemma_kinds(second);
    assert(merged(first, second).to_set() =~= first.to_set().union(second.to_set()));
}

/// A ground that absorbs entities that it holds already does not change.
pub proof fn lemma_absorbed_known(entities: Seq<EntityView>, more: Seq<EntityView>)
    requires
        forall|i: int| 0 <= i < more.len() ==> !is_fresh(entities, #[trigger] more[i]),
    ensures
        absorbed(entities, more) == entities,
    decreases more.len(),
{
    if more.len() > 0 {
        lemma_absorbed_known(entities, more.drop_last());
    }
}

/// Merging is idempotent: a ground that absorbs a ground with the same
/// entities, in whatever order, stays as it is.
pub proof fn lemma_merge_same_entities(entities: Seq<EntityView>, other: Seq<EntityView>)
    requires
        interned(other),
        other.to_set().subset_of(entities.to_set()),
    ensures
        merged(entities, other) == entities,
        merged(entities, entities) == entities,
{
    lemma_merge_known(entities, other);
    lemma_merge_known(entities, entities);
}

/// A ground that absorbs a ground none of whose entities is new to it stays
/// as it is.
proof fn lemma_merge_known(entities: Seq<EntityView>, other: Seq<EntityView>)
    requires
        other.to_set().subset_of(entities.to_set()),
    ensures
        merged(entities, other) == entities,
{
    let numbers = numbers_of(other);
    let names = names_of(other);
    assert forall|i: int| 0 <= i < numbers.len() implies !is_fresh(
        entities,
        #[trigger] numbers[i],
    ) by {
        other.lemma_filter_contains_rev(|e: EntityView| e is Number, numbers[i]);
        assert(other.to_set().contains(numbers[i]));
        assert(entities.to_set().contains(numbers[i]));
    }
    lemma_absorbed_known(entities, numbers);
    assert forall|i: int| 0 <= i < names.len() implies !is_fresh(entities, #[trigger] names[i]) by {
        other.lemma_filter_contains_rev(|e: EntityView| e is Name, names[i]);
        assert(other.to_set().contains(names[i]));
        assert(entities.to_set().contains(names[i]));
    }
    lemma_absorbed_known(entities, names);
}

} // verus!
