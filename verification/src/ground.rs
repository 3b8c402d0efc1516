//! The ground: the interning table that gives every entity of a model a
//! stable identifier.

use crate::entity::{entity_views, Entity, EntityView};
use std::collections::HashMap;
use vstd::prelude::*;

verus! {

broadcast use vstd::std_specs::hash::group_hash_axioms;

/// Whether a sequence of entities can be the content of a ground: it holds
/// numbers and names only, and none of them twice.
pub open spec fn interned(entities: Seq<EntityView>) -> bool {
    &&& entities.no_duplicates()
    &&& forall|i: int| 0 <= i < entities.len() ==> !(#[trigger] entities[i] is Identifier)
}

/// Whether inserting the entity adds it: it is a number or a name that the
/// sequence does not hold yet.
pub open spec fn is_fresh(entities: Seq<EntityView>, entity: EntityView) -> bool {
    !(entity is Identifier) && !entities.contains(entity)
}

/// The content of a ground after the insertion of one entity: a fresh one is
/// appended, any other changes nothing.
pub open spec fn inserted(entities: Seq<EntityView>, entity: EntityView) -> Seq<EntityView> {
    if is_fresh(entities, entity) {
        entities.push(entity)
    } else {
        entities
    }
}

/// The identifier of an entity: its position, if the sequence holds it.
pub open spec fn id_of(entities: Seq<EntityView>, entity: EntityView) -> Option<int> {
    if entities.contains(entity) {
        Some(entities.index_of(entity))
    } else {
        None
    }
}

/// An identifier that a function hands out, as a position.
pub open spec fn as_position(id: Option<usize>) -> Option<int> {
    match id {
        Some(i) => Some(i as int),
        None => None,
    }
}

/// The content of a ground after the insertion of several entities, one after
/// the other.
pub open spec fn absorbed(entities: Seq<EntityView>, more: Seq<EntityView>) -> Seq<EntityView>
    decreases more.len(),
{
    if more.len() == 0 {
        entities
    } else {
        inserted(absorbed(entities, more.drop_last()), more.last())
    }
}

/// The numbers of a sequence of entities, in their order.
pub open spec fn numbers_of(entities: Seq<EntityView>) -> Seq<EntityView> {
    entities.filter(|e: EntityView| e is Number)
}

/// The names of a sequence of entities, in their order.
pub open spec fn names_of(entities: Seq<EntityView>) -> Seq<EntityView> {
    entities.filter(|e: EntityView| e is Name)
}

/// The content of a ground after it has absorbed another: its own entities
/// keep their places, then come the numbers of the other that it did not
/// hold, then such names.
pub open spec fn merged(entities: Seq<EntityView>, other: Seq<EntityView>) -> Seq<EntityView> {
    absorbed(absorbed(entities, numbers_of(other)), names_of(other))
}

/// The entity universe of one model.  An entity's identifier is its position
/// in the order of insertion; it is never given to another entity.
#[derive(Debug)]
pub struct Ground {
    /// The entities, each at the position that is its identifier.  A name is
    /// looked up here.
    entities: Vec<Entity>,
    /// The identifier of every number.
    number_ids: HashMap<u32, usize>,
}

impl View for Ground {
    type V = Seq<EntityView>;

    closed spec fn view(&self) -> Seq<EntityView> {
        entity_views(self.entities@)
    }
}

impl Default for Ground {
    fn default() -> (ground: Ground)
        ensures
            ground.wf(),
            ground@ == Seq::<EntityView>::empty(),
    {
        Ground::new()
    }
}

impl Ground {
    /// The index of the numbers agrees with the entities.
    pub closed spec fn indexed(&self) -> bool {
        &&& self.number_ids@.dom().finite()
        &&& forall|n: u32| #[trigger]
            self.number_ids@.contains_key(n) ==> self.number_ids@[n] < self@.len()
                && self@[self.number_ids@[n] as int] == EntityView::Number(n)
        &&& forall|i: int|
            0 <= i < self@.len() ==> (#[trigger] self@[i] matches EntityView::Number(n)
                ==> self.number_ids@.contains_key(n))
    }

    /// The invariant of a ground.
    pub open spec fn wf(&self) -> bool {
        interned(self@) && self.indexed()
    }

    /// The ground without entities.
    pub fn new() -> (ground: Ground)
        ensures
            ground.wf(),
            ground@ == Seq::<EntityView>::empty(),
    {
        let ground = Ground { entities: Vec::new(), number_ids: HashMap::new() };
        assert(ground@ =~= Seq::<EntityView>::empty());
        ground
    }

    /// A ground holds no more entities than a machine can count.
    pub proof fn lemma_bounded(&self)
        ensures
            self@.len() <= usize::MAX,
    {
        assert(self@.len() == self.entities.len());
    }

    /// How many entities the ground holds.
    pub fn len(&self) -> (count: usize)
        ensures
            count == self@.len(),
    {
        self.entities.len()
    }

    /// Inserts an entity and tells whether it was added.  An identifier is
    /// never added.
    pub fn insert(&mut self, entity: Entity) -> (added: bool)
        requires
            old(self).wf(),
        ensures
            final(self).wf(),
            added == is_fresh(old(self)@, entity@),
            final(self)@ == inserted(old(self)@, entity@),
    {
        match entity {
            Entity::Number(num) => self.insert_number(num),
            Entity::Name(name) => self.insert_name(name),
            Entity::Identifier(_) => false,
        }
    }

    /// Inserts a number and tells whether it was added.
    pub fn insert_number(&mut self, num: u32) -> (added: bool)
        requires
            old(self).wf(),
        ensures
            final(self).wf(),
            added == is_fresh(old(self)@, EntityView::Number(num)),
            final(self)@ == inserted(old(self)@, EntityView::Number(num)),
    {
        if self.number_ids.contains_key(&num) {
            assert(self@[self.number_ids@[num] as int] == EntityView::Number(num));
            false
        } else {
            let id = self.entities.len();
            self.number_ids.insert(num, id);
            self.entities.push(Entity::Number(num));
            assert(self@ =~= old(self)@.push(EntityView::Number(num)));
            true
        }
    }

    /// Where a name stands among the entities, if it does.
    fn find_name(&self, name: &String) -> (found: Option<usize>)
        ensures
            match found {
                Some(id) => id < self@.len() && self@[id as int] == EntityView::Name(name@),
                None => !self@.contains(EntityView::Name(name@)),
            },
    {
        let mut i: usize = 0;
        while i < self.entities.len()
            invariant
                i <= self.entities.len(),
                forall|j: int| 0 <= j < i ==> self@[j] != EntityView::Name(name@),
            decreases self.entities.len() - i,
        {
            match &self.entities[i] {
                Entity::Name(s) => {
                    if *s == *name {
                        return Some(i);
                    }
                },
                _ => {},
            }
            i += 1;
        }
        None
    }

    /// Inserts a name and tells whether it was added.
    pub fn insert_name(&mut self, name: String) -> (added: bool)
        requires
            old(self).wf(),
        ensures
            final(self).wf(),
            added == is_fresh(old(self)@, EntityView::Name(name@)),
            final(self)@ == inserted(old(self)@, EntityView::Name(name@)),
    {
        if self.find_name(&name).is_some() {
            false
        } else {
            self.entities.push(Entity::Name(name));
            assert(self@ =~= old(self)@.push(EntityView::Name(name@)));
            true
        }
    }

    /// The identifier of an entity, if the ground holds it.  An identifier
    /// entity has none.
    #[inline]
    pub fn get_id(&self, entity: &Entity) -> (id: Option<usize>)
        requires
            self.wf(),
        ensures
            as_position(id) == id_of(self@, entity@),
            id matches Some(i) ==> i < self@.len() && self@[i as int] == entity@,
    {
        match entity {
            Entity::Number(num) => self.get_number_id(num),
            Entity::Name(name) => self.get_name_id(name.as_str()),
            Entity::Identifier(_) => None,
        }
    }

    /// The identifier of a number, if the ground holds it.
    #[inline]
    pub fn get_number_id(&self, num: &u32) -> (id: Option<usize>)
        requires
            self.wf(),
        ensures
            as_position(id) == id_of(self@, EntityView::Number(*num)),
            id matches Some(i) ==> i < self@.len() && self@[i as int] == EntityView::Number(*num),
    {
        match self.number_ids.get(num) {
            Some(id) => {
                assert(self@[*id as int] == EntityView::Number(*num));
                Some(*id)
            },
            None => None,
        }
    }

    /// The identifier of a number, which is inserted if the ground does not
    /// hold it yet.
    pub fn provide_number_id(&mut self, num: &u32) -> (id: usize)
        requires
            old(self).wf(),
        ensures
            final(self).wf(),
            final(self)@ == inserted(old(self)@, EntityView::Number(*num)),
            id_of(final(self)@, EntityView::Number(*num)) == Some(id as int),
            id < final(self)@.len(),
            final(self)@[id as int] == EntityView::Number(*num),
    {
        match self.get_number_id(num) {
            Some(id) => id,
            None => {
                let id = self.entities.len();
                self.insert_number(*num);
                assert(self@[id as int] == EntityView::Number(*num));
                id
            },
        }
    }

    /// The identifier of a name, if the ground holds it.
    #[inline]
    pub fn get_name_id(&self, name: &str) -> (id: Option<usize>)
        requires
            self.wf(),
        ensures
            as_position(id) == id_of(self@, EntityView::Name(name@)),
            id matches Some(i) ==> i < self@.len() && self@[i as int] == EntityView::Name(name@),
    {
        let owned = name.to_owned();
        self.find_name(&owned)
    }

    /// The identifier of a name, which is inserted if the ground does not
    /// hold it yet.
    pub fn provide_name_id(&mut self, name: &str) -> (id: usize)
        requires
            old(self).wf(),
        ensures
            final(self).wf(),
            final(self)@ == inserted(old(self)@, EntityView::Name(name@)),
            id_of(final(self)@, EntityView::Name(name@)) == Some(id as int),
            id < final(self)@.len(),
            final(self)@[id as int] == EntityView::Name(name@),
    {
        match self.get_name_id(name) {
            Some(id) => id,
            None => {
                let id = self.entities.len();
                self.insert_name(name.to_owned());
                assert(self@[id as int] == EntityView::Name(name@));
                id
            },
        }
    }

    /// Absorbs another ground: every number and name of `other` that this
    /// ground does not hold is inserted, the numbers first.  The entities of
    /// this ground keep their identifiers; those that `other` had given are
    /// not kept.
    pub fn merge(&mut self, other: Ground)
        requires
            old(self).wf(),
        ensures
            final(self).wf(),
            final(self)@ == merged(old(self)@, other@),
    {
        let mut i: usize = 0;
        while i < other.entities.len()
            invariant
                i <= other.entities.len(),
                self.wf(),
                self@ == absorbed(old(self)@, numbers_of(other@.take(i as int))),
            decreases other.entities.len() - i,
        {
            proof {
                lemma_filter_step(other@, i as int);
            }
            match &other.entities[i] {
                Entity::Number(num) => {
                    self.insert_number(*num);
                },
                _ => {},
            }
            i += 1;
        }
        assert(other@.take(other@.len() as int) =~= other@);
        let ghost with_numbers = self@;
        let mut k: usize = 0;
        while k < other.entities.len()
            invariant
                k <= other.entities.len(),
                self.wf(),
                self@ == absorbed(with_numbers, names_of(other@.take(k as int))),
            decreases other.entities.len() - k,
        {
            proof {
                lemma_filter_step(other@, k as int);
            }
            match &other.entities[k] {
                Entity::Name(name) => {
                    self.insert_name(name.clone());
                },
                _ => {},
            }
            k += 1;
        }
        assert(other@.take(other@.len() as int) =~= other@);
    }
}

/// How the numbers and the names of a prefix grow with one more entity.
proof fn lemma_filter_step(entities: Seq<EntityView>, i: int)
    requires
        0 <= i < entities.len(),
    ensures
        numbers_of(entities.take(i + 1)) == if entities[i] is Number {
            numbers_of(entities.take(i)).push(entities[i])
        } else {
            numbers_of(entities.take(i))
        },
        names_of(entities.take(i + 1)) == if entities[i] is Name {
            names_of(entities.take(i)).push(entities[i])
        } else {
            names_of(entities.take(i))
        },
        numbers_of(entities.take(0)) == Seq::<EntityView>::empty(),
        names_of(entities.take(0)) == Seq::<EntityView>::empty(),
        forall|g: Seq<EntityView>, more: Seq<EntityView>, e: EntityView|
            #[trigger] absorbed(g, more.push(e)) == inserted(absorbed(g, more), e),
        forall|g: Seq<EntityView>| #[trigger] absorbed(g, Seq::empty()) == g,
{
    reveal(Seq::filter);
    assert(entities.take(i + 1).drop_last() =~= entities.take(i));
    assert forall|g: Seq<EntityView>, more: Seq<EntityView>, e: EntityView|
        #[trigger] absorbed(g, more.push(e)) == inserted(absorbed(g, more), e) by {
        assert(more.push(e).drop_last() =~= more);
    }
}

} // verus!
