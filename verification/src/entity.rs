//! Entities, the atomic tokens of a reaction network, and sets of them.

use crate::ground::{interned, Ground};
use crate::source::{projected, Source};
use crate::state::State;
use std::collections::HashSet;
use vstd::prelude::*;

verus! {

broadcast use vstd::std_specs::hash::group_hash_axioms;

/// An atomic token of a reaction network.
#[derive(Clone, PartialEq, Eq, PartialOrd, Ord, Hash, Debug)]
pub enum Entity {
    /// A numeric token.
    Number(u32),
    /// A name token.  Names and numbers never coincide.
    Name(String),
    /// A reference to a group of entities declared elsewhere.  It carries no
    /// resolved value: sets and grounds do not store it.
    Identifier(String),
}

/// The mathematical value of an [`Entity`].
pub enum EntityView {
    Number(u32),
    Name(Seq<char>),
    Identifier(Seq<char>),
}

impl View for Entity {
    type V = EntityView;

    open spec fn view(&self) -> EntityView {
        match self {
            Entity::Number(n) => EntityView::Number(*n),
            Entity::Name(s) => EntityView::Name(s@),
            Entity::Identifier(s) => EntityView::Identifier(s@),
        }
    }
}

/// The values of a sequence of entities.
pub open spec fn entity_views(entities: Seq<Entity>) -> Seq<EntityView> {
    entities.map_values(|e: Entity| e@)
}

/// The texts of a sequence of strings.
pub open spec fn texts(names: Seq<String>) -> Seq<Seq<char>> {
    names.map_values(|s: String| s@)
}

/// The mathematical value of an [`EntitySet`]: a set of numbers and a set of
/// names.
pub struct EntitySetView {
    pub numbers: Set<u32>,
    pub names: Set<Seq<char>>,
}

impl EntitySetView {
    /// The set without elements.
    pub open spec fn empty() -> EntitySetView {
        EntitySetView { numbers: Set::empty(), names: Set::empty() }
    }

    /// Whether the entity is an element.  An identifier never is.
    pub open spec fn contains(self, entity: EntityView) -> bool {
        match entity {
            EntityView::Number(n) => self.numbers.contains(n),
            EntityView::Name(s) => self.names.contains(s),
            EntityView::Identifier(_) => false,
        }
    }

    /// The set with one more entity.  An identifier changes nothing.
    pub open spec fn insert(self, entity: EntityView) -> EntitySetView {
        match entity {
            EntityView::Number(n) => EntitySetView { numbers: self.numbers.insert(n), ..self },
            EntityView::Name(s) => EntitySetView { names: self.names.insert(s), ..self },
            EntityView::Identifier(_) => self,
        }
    }

    /// The set with every entity of a sequence added.
    pub open spec fn insert_all(self, entities: Seq<EntityView>) -> EntitySetView
        decreases entities.len(),
    {
        if entities.len() == 0 {
            self
        } else {
            self.insert_all(entities.drop_last()).insert(entities.last())
        }
    }

    /// The set of the numbers and names of a sequence of entities.
    pub open spec fn of(entities: Seq<EntityView>) -> EntitySetView {
        Self::empty().insert_all(entities)
    }
}

/// A set of entities, held by kind: the numbers and the names.
#[derive(Debug)]
pub struct EntitySet {
    numbers: HashSet<u32>,
    /// The names, each of them once.
    names: Vec<String>,
}

impl View for EntitySet {
    type V = EntitySetView;

    closed spec fn view(&self) -> EntitySetView {
        EntitySetView { numbers: self.numbers@, names: texts(self.names@).to_set() }
    }
}

/// Where a text stands in a sequence of strings, if it does.
fn find_text(names: &Vec<String>, name: &String) -> (found: Option<usize>)
    ensures
        match found {
            Some(i) => i < names.len() && names[i as int]@ == name@,
            None => !texts(names@).contains(name@),
        },
{
    let mut i: usize = 0;
    while i < names.len()
        invariant
            i <= names.len(),
            forall|j: int| 0 <= j < i ==> names[j]@ != name@,
        decreases names.len() - i,
    {
        if names[i] == *name {
            return Some(i);
        }
        i += 1;
    }
    None
}

/// A copy of a set of numbers.
fn copy_numbers(numbers: &HashSet<u32>) -> (copy: HashSet<u32>)
    ensures
        copy@ == numbers@,
{
    let mut copy: HashSet<u32> = HashSet::new();
    for n in it: numbers.iter()
        invariant
            copy@ == it.seq().take(it.index() as int).unref().to_set(),
            it.seq().unref().to_set() == numbers@,
            it.index() == it.seq().len() ==> copy@ == numbers@,
    {
        let ghost before = it.seq().take(it.index() as int).unref();
        copy.insert(*n);
        assert(it.seq().take(it.index() + 1).unref() =~= before.push(*n));
        proof {
            before.lemma_push_to_set_commute(*n);
        }
        assert(it.index() + 1 == it.seq().len() ==> it.seq().take(it.index() + 1) =~= it.seq());
    }
    copy
}

/// A copy of a sequence of strings.
fn copy_names(names: &Vec<String>) -> (copy: Vec<String>)
    ensures
        texts(copy@) == texts(names@),
{
    let mut copy: Vec<String> = Vec::new();
    let mut i: usize = 0;
    while i < names.len()
        invariant
            i <= names.len(),
            copy@ == names@.take(i as int),
        decreases names.len() - i,
    {
        copy.push(names[i].clone());
        assert(copy@ =~= names@.take(i + 1));
        i += 1;
    }
    assert(names@.take(names.len() as int) =~= names@);
    copy
}

impl Clone for EntitySet {
    fn clone(&self) -> (copy: EntitySet)
        ensures
            copy@ == self@,
            self.wf() ==> copy.wf(),
    {
        EntitySet { numbers: copy_numbers(&self.numbers), names: copy_names(&self.names) }
    }
}

/// The positions at which a ground holds one of the given numbers.
spec fn ids_of_numbers(ground: Seq<EntityView>, numbers: Set<u32>) -> Set<usize> {
    Set::new(
        |id: usize|
            id < ground.len() && ground[id as int] is Number && numbers.contains(
                ground[id as int]->Number_0,
            ),
    )
}

/// The positions at which a ground holds one of the given names.
spec fn ids_of_names(ground: Seq<EntityView>, names: Set<Seq<char>>) -> Set<usize> {
    Set::new(
        |id: usize|
            id < ground.len() && ground[id as int] is Name && names.contains(
                ground[id as int]->Name_0,
            ),
    )
}

/// One more number adds its identifier, if it has one.
proof fn lemma_ids_with_number(
    ground: Seq<EntityView>,
    numbers: Set<u32>,
    num: u32,
    id: Option<usize>,
)
    requires
        interned(ground),
        match id {
            Some(i) => i < ground.len() && ground[i as int] == EntityView::Number(num),
            None => !ground.contains(EntityView::Number(num)),
        },
    ensures
        ids_of_numbers(ground, numbers.insert(num)) == match id {
            Some(i) => ids_of_numbers(ground, numbers).insert(i),
            None => ids_of_numbers(ground, numbers),
        },
{
    let grown = ids_of_numbers(ground, numbers.insert(num));
    let before = ids_of_numbers(ground, numbers);
    match id {
        Some(i) => {
            assert(grown =~= before.insert(i));
        },
        None => {
            assert forall|k: usize| grown.contains(k) implies before.contains(k) by {
                if ground[k as int] == EntityView::Number(num) {
                    assert(ground.contains(EntityView::Number(num)));
                }
            }
            assert(grown =~= before);
        },
    }
}

/// One more name adds its identifier, if it has one.
proof fn lemma_ids_with_name(
    ground: Seq<EntityView>,
    names: Set<Seq<char>>,
    name: Seq<char>,
    id: Option<usize>,
)
    requires
        interned(ground),
        match id {
            Some(i) => i < ground.len() && ground[i as int] == EntityView::Name(name),
            None => !ground.contains(EntityView::Name(name)),
        },
    ensures
        ids_of_names(ground, names.insert(name)) == match id {
            Some(i) => ids_of_names(ground, names).insert(i),
            None => ids_of_names(ground, names),
        },
{
    let grown = ids_of_names(ground, names.insert(name));
    let before = ids_of_names(ground, names);
    match id {
        Some(i) => {
            assert(grown =~= before.insert(i));
        },
        None => {
            assert forall|k: usize| grown.contains(k) implies before.contains(k) by {
                if ground[k as int] == EntityView::Name(name) {
                    assert(ground.contains(EntityView::Name(name)));
                }
            }
            assert(grown =~= before);
        },
    }
}

impl Source for EntitySet {
    open spec fn projection(&self, ground: Seq<EntityView>) -> Set<usize> {
        projected(self@, ground)
    }

    fn emit(&mut self, ground: &Ground) -> (state: State)
        ensures
            *final(self) == *old(self),
    {
        let mut state = State::new();
        let ghost numbers = self.numbers@;
        proof {
            ground.lemma_bounded();
            assert(ids_of_numbers(ground@, Set::empty()) =~= Set::empty());
        }
        for num in it: self.numbers.iter()
            invariant
                ground.wf(),
                ground@.len() <= usize::MAX,
                it.seq().unref().to_set() == numbers,
                it.index() == it.seq().len() ==> state@ == ids_of_numbers(ground@, numbers),
                state@ == ids_of_numbers(
                    ground@,
                    it.seq().take(it.index() as int).unref().to_set(),
                ),
        {
            let ghost before = it.seq().take(it.index() as int).unref();
            assert(it.seq().take(it.index() + 1).unref() =~= before.push(*num));
            assert(it.index() + 1 == it.seq().len() ==> it.seq().take(it.index() + 1)
                =~= it.seq());
            let id = ground.get_number_id(num);
            proof {
                before.lemma_push_to_set_commute(*num);
                lemma_ids_with_number(ground@, before.to_set(), *num, id);
            }
            match id {
                Some(id) => {
                    state.insert(id);
                },
                None => {},
            }
        }
        let ghost of_numbers = state@;
        assert(ids_of_names(ground@, Set::empty()) =~= Set::empty());
        assert(of_numbers.union(Set::empty()) =~= of_numbers);
        let mut i: usize = 0;
        while i < self.names.len()
            invariant
                ground.wf(),
                ground@.len() <= usize::MAX,
                i <= self.names.len(),
                state@ == of_numbers.union(
                    ids_of_names(ground@, texts(self.names@.take(i as int)).to_set()),
                ),
            decreases self.names.len() - i,
        {
            let ghost before = texts(self.names@.take(i as int));
            assert(texts(self.names@.take(i + 1)) =~= before.push(self.names[i as int]@));
            let id = ground.get_name_id(self.names[i].as_str());
            proof {
                before.lemma_push_to_set_commute(self.names[i as int]@);
                lemma_ids_with_name(ground@, before.to_set(), self.names[i as int]@, id);
            }
            match id {
                Some(id) => {
                    state.insert(id);
                    assert(state@ =~= of_numbers.union(
                        ids_of_names(ground@, texts(self.names@.take(i + 1)).to_set()),
                    ));
                },
                None => {},
            }
            i += 1;
        }
        assert(self.names@.take(self.names.len() as int) =~= self.names@);
        assert(state@ =~= projected(self@, ground@));
        state
    }
}

impl Default for EntitySet {
    fn default() -> (set: EntitySet)
        ensures
            set.wf(),
            set@ == EntitySetView::empty(),
    {
        EntitySet::new()
    }
}

impl EntitySet {
    /// The invariant of the representation: no name is held twice.
    pub closed spec fn wf(&self) -> bool {
        texts(self.names@).no_duplicates()
    }

    /// The empty set.
    #[inline]
    pub fn new() -> (set: EntitySet)
        ensures
            set.wf(),
            set@ == EntitySetView::empty(),
    {
        let set = EntitySet { numbers: HashSet::new(), names: Vec::new() };
        assert(texts(set.names@).to_set() =~= Set::empty());
        set
    }

    /// Removes every element.
    #[inline]
    pub fn clear(&mut self)
        ensures
            final(self).wf(),
            final(self)@ == EntitySetView::empty(),
    {
        self.numbers.clear();
        self.names.clear();
        assert(texts(self.names@).to_set() =~= Set::empty());
    }

    /// Adds every number of `nums`.
    pub fn extend_numbers(&mut self, nums: Vec<u32>)
        requires
            old(self).wf(),
        ensures
            final(self).wf(),
            final(self)@ == (EntitySetView {
                numbers: old(self)@.numbers.union(nums@.to_set()),
                names: old(self)@.names,
            }),
    {
        let mut i: usize = 0;
        while i < nums.len()
            invariant
                i <= nums.len(),
                self.names == old(self).names,
                self.numbers@ == old(self).numbers@.union(nums@.take(i as int).to_set()),
            decreases nums.len() - i,
        {
            self.numbers.insert(nums[i]);
            assert(nums@.take(i + 1) =~= nums@.take(i as int).push(nums[i as int]));
            proof {
                nums@.take(i as int).lemma_push_to_set_commute(nums[i as int]);
            }
            i += 1;
        }
        assert(nums@.take(nums.len() as int) =~= nums@);
    }

    /// Moves every number out, each once, and leaves the names in place.
    pub fn drain_numbers(&mut self) -> (drained: Vec<u32>)
        requires
            old(self).wf(),
        ensures
            final(self).wf(),
            final(self)@ == (EntitySetView { numbers: Set::empty(), names: old(self)@.names }),
            drained@.to_set() == old(self)@.numbers,
            drained@.no_duplicates(),
    {
        let mut drained: Vec<u32> = Vec::new();
        for n in it: self.numbers.iter()
            invariant
                drained@ == it.seq().take(it.index() as int).unref(),
                it.seq().unref().to_set() == self.numbers@,
                it.seq().no_duplicates(),
                it.index() == it.seq().len() ==> drained@ == it.seq().unref(),
        {
            drained.push(*n);
            assert(it.index() + 1 == it.seq().len() ==> it.seq().take(it.index() + 1)
                =~= it.seq());
        }
        self.numbers.clear();
        drained
    }

    /// Adds every name of `names`.
    pub fn extend_names(&mut self, names: Vec<String>)
        requires
            old(self).wf(),
        ensures
            final(self).wf(),
            final(self)@ == (EntitySetView {
                numbers: old(self)@.numbers,
                names: old(self)@.names.union(texts(names@).to_set()),
            }),
    {
        let mut i: usize = 0;
        while i < names.len()
            invariant
                i <= names.len(),
                self.wf(),
                self.numbers == old(self).numbers,
                texts(self.names@).to_set() == texts(old(self).names@).to_set().union(
                    texts(names@.take(i as int)).to_set(),
                ),
            decreases names.len() - i,
        {
            self.insert_name(names[i].clone());
            assert(texts(names@.take(i + 1)) =~= texts(names@.take(i as int)).push(
                names[i as int]@,
            ));
            proof {
                texts(names@.take(i as int)).lemma_push_to_set_commute(names[i as int]@);
            }
            i += 1;
        }
        assert(names@.take(names.len() as int) =~= names@);
    }

    /// Moves every name out, each once, and leaves the numbers in place.
    pub fn drain_names(&mut self) -> (drained: Vec<String>)
        requires
            old(self).wf(),
        ensures
            final(self).wf(),
            final(self)@ == (EntitySetView { numbers: old(self)@.numbers, names: Set::empty() }),
            texts(drained@).to_set() == old(self)@.names,
            texts(drained@).no_duplicates(),
    {
        let mut drained: Vec<String> = Vec::new();
        std::mem::swap(&mut drained, &mut self.names);
        assert(texts(self.names@).to_set() =~= Set::empty());
        drained
    }

    /// Adds one number.
    fn insert_number(&mut self, num: u32)
        requires
            old(self).wf(),
        ensures
            final(self).wf(),
            final(self)@ == old(self)@.insert(EntityView::Number(num)),
    {
        self.numbers.insert(num);
    }

    /// Adds one name, unless it is an element already.
    fn insert_name(&mut self, name: String)
        requires
            old(self).wf(),
        ensures
            final(self).wf(),
            final(self)@ == old(self)@.insert(EntityView::Name(name@)),
            final(self).numbers == old(self).numbers,
    {
        let found = find_text(&self.names, &name);
        if found.is_none() {
            let ghost before = texts(self.names@);
            self.names.push(name);
            assert(texts(self.names@) =~= before.push(name@));
            proof {
                before.lemma_push_to_set_commute(name@);
            }
        } else {
            assert(texts(self.names@)[found.unwrap() as int] == name@);
            assert(texts(self.names@).to_set().insert(name@) =~= texts(self.names@).to_set());
        }
    }

    /// Adds every number and name of `ents`.  Identifiers are passed over:
    /// they are neither stored nor reported.
    pub fn extend(&mut self, ents: Vec<Entity>)
        requires
            old(self).wf(),
        ensures
            final(self).wf(),
            final(self)@ == old(self)@.insert_all(entity_views(ents@)),
    {
        let mut i: usize = 0;
        while i < ents.len()
            invariant
                i <= ents.len(),
                self.wf(),
                self@ == old(self)@.insert_all(entity_views(ents@.take(i as int))),
            decreases ents.len() - i,
        {
            assert(entity_views(ents@.take(i + 1)).drop_last() =~= entity_views(
                ents@.take(i as int),
            ));
            match &ents[i] {
                Entity::Number(n) => {
                    self.insert_number(*n);
                },
                Entity::Name(s) => {
                    self.insert_name(s.clone());
                },
                Entity::Identifier(_) => {},
            }
            i += 1;
        }
        assert(ents@.take(ents.len() as int) =~= ents@);
    }

    /// The set of the numbers and names of `ents`.
    pub fn from_entities(ents: Vec<Entity>) -> (set: EntitySet)
        ensures
            set.wf(),
            set@ == EntitySetView::of(entity_views(ents@)),
    {
        let mut set = EntitySet::new();
        set.extend(ents);
        set
    }

    /// Whether the entity is an element.  An identifier never is.
    pub fn contains(&self, entity: &Entity) -> (found: bool)
        ensures
            found == self@.contains(entity@),
    {
        match entity {
            Entity::Number(n) => self.numbers.contains(n),
            Entity::Name(s) => {
                let found = find_text(&self.names, s);
                assert(found is Some ==> texts(self.names@)[found.unwrap() as int] == s@);
                found.is_some()
            },
            Entity::Identifier(_) => false,
        }
    }

    /// Whether the set has no element.
    pub fn is_empty(&self) -> (empty: bool)
        ensures
            empty == (self@ == EntitySetView::empty()),
    {
        let empty = self.numbers.is_empty() && self.names.len() == 0;
        proof {
            if self.names.len() > 0 {
                assert(texts(self.names@).to_set().contains(texts(self.names@)[0]));
            } else {
                assert(texts(self.names@).to_set() =~= Set::empty());
            }
            if self.numbers@.is_empty() {
                assert(self.numbers@ =~= Set::empty());
            }
        }
        empty
    }

    /// How many numbers the set holds.
    pub fn number_count(&self) -> (count: usize)
        ensures
            count == self@.numbers.len(),
    {
        self.numbers.len()
    }

    /// How many names the set holds.
    pub fn name_count(&self) -> (count: usize)
        requires
            self.wf(),
        ensures
            count == self@.names.len(),
    {
        proof {
            texts(self.names@).unique_seq_to_set();
        }
        self.names.len()
    }
}

} // verus!
