//! The abstract syntax of a specification and its compilation into
//! reactions.

use crate::entity::{entity_views, Entity, EntitySetView, EntityView};
use crate::ground::Ground;
use crate::reaction::{reaction_views, Reaction, ReactionView};
use crate::site::{reactions_wf, Site, SiteView};
use vstd::prelude::*;

verus! {

/// The value of a name that may be absent.
pub open spec fn name_view(name: Option<String>) -> Option<Seq<char>> {
    match name {
        Some(s) => Some(s@),
        None => None,
    }
}

/// The value of a reaction that may be absent.
pub open spec fn reaction_view(reaction: Option<Reaction>) -> Option<ReactionView> {
    match reaction {
        Some(r) => Some(r@),
        None => None,
    }
}

/// The value of a list of reactions that may be absent.
pub open spec fn compiled_view(reactions: Option<Vec<Reaction>>) -> Option<Seq<ReactionView>> {
    match reactions {
        Some(r) => Some(reaction_views(r@)),
        None => None,
    }
}

/// The values of the terms of a sequence.
pub open spec fn term_views(terms: Seq<Vec<Entity>>) -> Seq<Seq<EntityView>> {
    terms.map_values(|t: Vec<Entity>| entity_views(t@))
}

/// The reaction of a trigger: from nothing, it produces the entities.
pub open spec fn trigger_reaction(entities: Seq<EntityView>) -> ReactionView {
    ReactionView { products: EntitySetView::of(entities), ..ReactionView::empty() }
}

/// The reactions of a sequence: the first produces the first term from
/// nothing, and each later one consumes the term before its own, that term
/// exactly, and produces its own.  No reaction has inhibitors.
pub open spec fn chain(terms: Seq<Seq<EntityView>>) -> Seq<ReactionView> {
    Seq::new(
        terms.len(),
        |i: int|
            ReactionView {
                reactants: if i == 0 {
                    EntitySetView::empty()
                } else {
                    EntitySetView::of(terms[i - 1])
                },
                inhibitors: EntitySetView::empty(),
                products: EntitySetView::of(terms[i]),
            },
    )
}

/// A sequence is a pipeline: it has one reaction for each term, the first
/// consumes nothing, and every later one consumes exactly what the one
/// before it produces.  No reaction has inhibitors.
pub proof fn lemma_chain_links(terms: Seq<Seq<EntityView>>)
    ensures
        chain(terms).len() == terms.len(),
        terms.len() > 0 ==> chain(terms)[0].reactants == EntitySetView::empty(),
        forall|i: int|
            0 < i < terms.len() ==> (#[trigger] chain(terms)[i]).reactants == chain(terms)[i
                - 1].products,
        forall|i: int|
            0 <= i < terms.len() ==> (#[trigger] chain(terms)[i]).products == EntitySetView::of(
                terms[i],
            ) && chain(terms)[i].inhibitors == EntitySetView::empty(),
{
}

/// `(trigger [name] (entity…))`: the entities are produced once, from
/// nothing.
#[derive(Debug)]
pub struct TriggerAst {
    pub id: Option<String>,
    pub entities: Vec<Entity>,
    pub compiled: Option<Reaction>,
}

/// The mathematical value of a [`TriggerAst`].
pub struct TriggerView {
    pub id: Option<Seq<char>>,
    pub entities: Seq<EntityView>,
    pub compiled: Option<ReactionView>,
}

impl View for TriggerAst {
    type V = TriggerView;

    open spec fn view(&self) -> TriggerView {
        TriggerView {
            id: name_view(self.id),
            entities: entity_views(self.entities@),
            compiled: reaction_view(self.compiled),
        }
    }
}

impl TriggerView {
    /// The trigger after its compilation: compiled before, it is unchanged;
    /// else its entities have moved into its reaction.
    pub open spec fn compiled(self) -> TriggerView {
        if self.compiled is Some {
            self
        } else {
            TriggerView {
                id: self.id,
                entities: Seq::empty(),
                compiled: Some(trigger_reaction(self.entities)),
            }
        }
    }

    /// The reaction that the trigger stands for.
    pub open spec fn reaction(self) -> ReactionView {
        match self.compiled {
            Some(r) => r,
            None => trigger_reaction(self.entities),
        }
    }
}

impl TriggerAst {
    /// The invariant of a trigger: that of its reaction, if it has one.
    pub open spec fn wf(&self) -> bool {
        self.compiled matches Some(r) ==> r.wf()
    }

    /// Compiles the trigger, unless it is compiled already.  The ground is
    /// handed in and stays as it is: the reaction keeps the entities as they
    /// were written, without identifiers.
    pub fn compile(&mut self, ground: &mut Ground)
        requires
            old(self).wf(),
        ensures
            final(self).wf(),
            final(self)@ == old(self)@.compiled(),
            *final(ground) == *old(ground),
    {
        if self.compiled.is_none() {
            let mut entities: Vec<Entity> = Vec::new();
            std::mem::swap(&mut entities, &mut self.entities);
            let reaction = Reaction::new().with_products(entities);
            self.compiled = Some(reaction);
            assert(self@.entities =~= Seq::empty());
        }
    }

    /// The reaction that the trigger stands for, compiled or not.
    pub fn into_reaction(self) -> (reaction: Reaction)
        requires
            self.wf(),
        ensures
            reaction.wf(),
            reaction@ == self@.reaction(),
    {
        match self.compiled {
            Some(reaction) => reaction,
            None => Reaction::new().with_products(self.entities),
        }
    }
}

/// `(sequence [name] (entity…) (entity…) …)`: a pipeline in which each term
/// is consumed to produce the next.
#[derive(Debug)]
pub struct SequenceAst {
    pub id: Option<String>,
    pub terms: Vec<Vec<Entity>>,
    pub compiled: Option<Vec<Reaction>>,
}

/// The mathematical value of a [`SequenceAst`].
pub struct SequenceView {
    pub id: Option<Seq<char>>,
    pub terms: Seq<Seq<EntityView>>,
    pub compiled: Option<Seq<ReactionView>>,
}

impl View for SequenceAst {
    type V = SequenceView;

    open spec fn view(&self) -> SequenceView {
        SequenceView {
            id: name_view(self.id),
            terms: term_views(self.terms@),
            compiled: compiled_view(self.compiled),
        }
    }
}

impl SequenceView {
    /// The sequence after its compilation: compiled before, it is unchanged;
    /// else its terms have moved into its reactions.
    pub open spec fn compiled(self) -> SequenceView {
        if self.compiled is Some {
            self
        } else {
            SequenceView { id: self.id, terms: Seq::empty(), compiled: Some(chain(self.terms)) }
        }
    }

    /// The reactions that the sequence stands for.
    pub open spec fn reactions(self) -> Seq<ReactionView> {
        match self.compiled {
            Some(r) => r,
            None => chain(self.terms),
        }
    }
}

/// The reactions of a sequence of terms.
fn chain_of(terms: Vec<Vec<Entity>>) -> (reactions: Vec<Reaction>)
    ensures
        reactions_wf(reactions@),
        reaction_views(reactions@) == chain(term_views(terms@)),
{
    let ghost all = term_views(terms@);
    let mut reactions: Vec<Reaction> = Vec::new();
    let mut rn = Reaction::new();
    for term in it: terms
        invariant
            term_views(it.seq()) == all,
            rn.wf(),
            rn@.inhibitors == EntitySetView::empty(),
            rn@.products == EntitySetView::empty(),
            rn@.reactants == if it.index() == 0 {
                EntitySetView::empty()
            } else {
                EntitySetView::of(all[it.index() - 1])
            },
            reactions_wf(reactions@),
            reactions@.len() == it.index(),
            forall|k: int| 0 <= k < it.index() ==> (#[trigger] reactions@[k])@ == chain(all)[k],
    {
        let ghost i = reactions@.len();
        assert(all[i as int] == entity_views(term@));
        rn.p.extend(term);
        reactions.push(rn.clone());
        rn.r.clear();
        let numbers = rn.p.drain_numbers();
        rn.r.extend_numbers(numbers);
        let names = rn.p.drain_names();
        rn.r.extend_names(names);
        assert(rn@.reactants.numbers =~= EntitySetView::of(all[i as int]).numbers);
        assert(rn@.reactants.names =~= EntitySetView::of(all[i as int]).names);
    }
    assert(reaction_views(reactions@) =~= chain(all));
    reactions
}

impl SequenceAst {
    /// The invariant of a sequence: that of its reactions, if it has any.
    pub open spec fn wf(&self) -> bool {
        self.compiled matches Some(r) ==> reactions_wf(r@)
    }

    /// Compiles the sequence, unless it is compiled already.  The ground is
    /// handed in and stays as it is.
    pub fn compile(&mut self, ground: &mut Ground)
        requires
            old(self).wf(),
        ensures
            final(self).wf(),
            final(self)@ == old(self)@.compiled(),
            *final(ground) == *old(ground),
    {
        if self.compiled.is_none() {
            let mut terms: Vec<Vec<Entity>> = Vec::new();
            std::mem::swap(&mut terms, &mut self.terms);
            self.compiled = Some(chain_of(terms));
            assert(self@.terms =~= Seq::empty());
        }
    }

    /// The reactions that the sequence stands for, compiled or not.
    pub fn into_reactions(self) -> (reactions: Vec<Reaction>)
        requires
            self.wf(),
        ensures
            reactions_wf(reactions@),
            reaction_views(reactions@) == self@.reactions(),
    {
        match self.compiled {
            Some(reactions) => reactions,
            None => chain_of(self.terms),
        }
    }
}


/// `(entities [name] (entity…))`: a named group of entities.  It compiles to
/// no reaction.
#[derive(Debug)]
pub struct EntitiesAst {
    pub id: Option<String>,
    pub entities: Vec<Entity>,
}

/// `(choice [name] (card…) (entity…))`: cardinalities and a base group of
/// entities.  It compiles to no reaction.
#[derive(Debug)]
pub struct ChoiceAst {
    pub id: Option<String>,
    pub cards: Vec<u32>,
    pub base: Vec<Entity>,
}

/// A declarative construct of the language.
#[derive(Debug)]
pub enum Trope {
    Trigger(TriggerAst),
    Sequence(SequenceAst),
    Entities(EntitiesAst),
    Choice(ChoiceAst),
}

/// The mathematical value of a [`Trope`].
pub enum TropeView {
    Trigger(TriggerView),
    Sequence(SequenceView),
    Entities { id: Option<Seq<char>>, entities: Seq<EntityView> },
    Choice { id: Option<Seq<char>>, cards: Seq<u32>, base: Seq<EntityView> },
}

impl View for Trope {
    type V = TropeView;

    open spec fn view(&self) -> TropeView {
        match self {
            Trope::Trigger(ast) => TropeView::Trigger(ast@),
            Trope::Sequence(ast) => TropeView::Sequence(ast@),
            Trope::Entities(ast) => TropeView::Entities {
                id: name_view(ast.id),
                entities: entity_views(ast.entities@),
            },
            Trope::Choice(ast) => TropeView::Choice {
                id: name_view(ast.id),
                cards: ast.cards@,
                base: entity_views(ast.base@),
            },
        }
    }
}

/// The values of a sequence of tropes.
pub open spec fn trope_views(tropes: Seq<Trope>) -> Seq<TropeView> {
    tropes.map_values(|t: Trope| t@)
}

/// Whether every trope of a sequence meets its invariant.
pub open spec fn tropes_wf(tropes: Seq<Trope>) -> bool {
    forall|i: int| 0 <= i < tropes.len() ==> (#[trigger] tropes[i]).wf()
}

impl TropeView {
    /// Whether the trope compiles to reactions: a trigger or a sequence.
    pub open spec fn compiles(self) -> bool {
        self is Trigger || self is Sequence
    }

    /// The trope after its compilation.
    pub open spec fn compiled(self) -> TropeView {
        match self {
            TropeView::Trigger(t) => TropeView::Trigger(t.compiled()),
            TropeView::Sequence(s) => TropeView::Sequence(s.compiled()),
            _ => self,
        }
    }

    /// The reactions that the trope stands for: one for a trigger, one for
    /// each term of a sequence, none for a group of entities or a choice.
    pub open spec fn reactions(self) -> Seq<ReactionView> {
        match self {
            TropeView::Trigger(t) => seq![t.reaction()],
            TropeView::Sequence(s) => s.reactions(),
            _ => Seq::empty(),
        }
    }
}

impl Trope {
    /// The invariant of a trope.
    pub open spec fn wf(&self) -> bool {
        match self {
            Trope::Trigger(ast) => ast.wf(),
            Trope::Sequence(ast) => ast.wf(),
            _ => true,
        }
    }

    /// Compiles a trigger or a sequence; any other trope stays as it is.
    pub fn compile(&mut self, ground: &mut Ground)
        requires
            old(self).wf(),
        ensures
            final(self).wf(),
            final(self)@ == old(self)@.compiled(),
            *final(ground) == *old(ground),
    {
        match self {
            Trope::Trigger(ast) => ast.compile(ground),
            Trope::Sequence(ast) => ast.compile(ground),
            _ => {},
        }
    }
}

/// The reactions of the tropes of a site, in the order of the tropes, those
/// of one trope in the order of its compilation.
pub open spec fn site_reactions(tropes: Seq<TropeView>) -> Seq<ReactionView>
    decreases tropes.len(),
{
    if tropes.len() == 0 {
        Seq::empty()
    } else {
        site_reactions(tropes.drop_last()) + tropes.last().reactions()
    }
}

/// The tropes that a compilation leaves in a site: those that compile to no
/// reaction.
pub open spec fn kept(tropes: Seq<TropeView>) -> Seq<TropeView> {
    tropes.filter(|t: TropeView| !t.compiles())
}

/// `(site trope…)`: a site and the tropes declared in it.
#[derive(Debug)]
pub struct SiteAst {
    pub tropes: Vec<Trope>,
    pub compiled: Option<Vec<Reaction>>,
}

/// The mathematical value of a [`SiteAst`].
pub struct SiteAstView {
    pub tropes: Seq<TropeView>,
    pub compiled: Option<Seq<ReactionView>>,
}

impl View for SiteAst {
    type V = SiteAstView;

    open spec fn view(&self) -> SiteAstView {
        SiteAstView { tropes: trope_views(self.tropes@), compiled: compiled_view(self.compiled) }
    }
}

impl SiteAstView {
    /// The site after its compilation: compiled before, it is unchanged;
    /// else its triggers and sequences have moved into its reactions.
    pub open spec fn compiled(self) -> SiteAstView {
        if self.compiled is Some {
            self
        } else {
            SiteAstView { tropes: kept(self.tropes), compiled: Some(site_reactions(self.tropes)) }
        }
    }

    /// The site that the declaration stands for: its reactions, none if it
    /// was not compiled, in the empty state.
    pub open spec fn site(self) -> SiteView {
        SiteView {
            reactions: match self.compiled {
                Some(r) => r,
                None => Seq::empty(),
            },
            state: Set::empty(),
        }
    }
}

impl SiteAst {
    /// The invariant of a site declaration.
    pub open spec fn wf(&self) -> bool {
        &&& tropes_wf(self.tropes@)
        &&& self.compiled matches Some(r) ==> reactions_wf(r@)
    }

    /// Compiles the site, unless it is compiled already: its triggers and
    /// sequences become its reactions, in the order of their declaration,
    /// and leave the list of tropes.  The ground is handed in and stays as
    /// it is.
    pub fn compile(&mut self, ground: &mut Ground)
        requires
            old(self).wf(),
        ensures
            final(self).wf(),
            final(self)@ == old(self)@.compiled(),
            *final(ground) == *old(ground),
    {
        if self.compiled.is_none() {
            let mut tropes: Vec<Trope> = Vec::new();
            std::mem::swap(&mut tropes, &mut self.tropes);
            let ghost all = trope_views(tropes@);
            let mut reactions: Vec<Reaction> = Vec::new();
            proof {
                reveal(Seq::filter);
                assert(trope_views(tropes@.take(0)) =~= Seq::empty());
            }
            for trope in it: tropes
                invariant
                    *ground == *old(ground),
                    trope_views(it.seq()) == all,
                    tropes_wf(it.seq()),
                    tropes_wf(self.tropes@),
                    reactions_wf(reactions@),
                    trope_views(self.tropes@) == kept(all.take(it.index() as int)),
                    reaction_views(reactions@) == site_reactions(all.take(it.index() as int)),
            {
                let ghost done = all.take(it.index() as int);
                let ghost i = it.index() as int;
                assert(all[i] == trope@);
                assert(all.take(i + 1).drop_last() =~= done);
                assert(trope.wf()) by {
                    assert(it.seq()[i].wf());
                }
                proof {
                    reveal(Seq::filter);
                }
                let mut trope = trope;
                trope.compile(ground);
                match trope {
                    Trope::Trigger(ast) => {
                        let ghost before = reaction_views(reactions@);
                        reactions.push(ast.into_reaction());
                        assert(reaction_views(reactions@) =~= before + all[i].reactions());
                    },
                    Trope::Sequence(ast) => {
                        let ghost before = reaction_views(reactions@);
                        let mut more = ast.into_reactions();
                        let ghost added = more@;
                        reactions.append(&mut more);
                        assert(reaction_views(reactions@) =~= before + reaction_views(added));
                    },
                    other => {
                        let ghost before = trope_views(self.tropes@);
                        self.tropes.push(other);
                        assert(trope_views(self.tropes@) =~= before.push(all[i]));
                        assert(site_reactions(done) + all[i].reactions() =~= site_reactions(
                            done,
                        ));
                    },
                }
            }
            assert(all.take(all.len() as int) =~= all);
            self.compiled = Some(reactions);
        }
    }

    /// The site that the declaration stands for.
    pub fn into_site(self) -> (site: Site)
        requires
            self.wf(),
        ensures
            site.wf(),
            site@ == self@.site(),
    {
        let reactions = match self.compiled {
            Some(reactions) => reactions,
            None => Vec::new(),
        };
        let ghost views = reaction_views(reactions@);
        let site = Site::new().with_reactions(reactions);
        assert(Seq::<ReactionView>::empty() + views =~= views);
        site
    }
}

} // verus!
