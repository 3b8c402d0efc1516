//! Reactions: rewrite rules over sets of entities.

use crate::entity::{entity_views, Entity, EntitySet, EntitySetView};
use vstd::prelude::*;

verus! {

/// The mathematical value of a [`Reaction`].
pub struct ReactionView {
    pub reactants: EntitySetView,
    pub inhibitors: EntitySetView,
    pub products: EntitySetView,
}

impl ReactionView {
    /// The reaction without entities.
    pub open spec fn empty() -> ReactionView {
        ReactionView {
            reactants: EntitySetView::empty(),
            inhibitors: EntitySetView::empty(),
            products: EntitySetView::empty(),
        }
    }
}

/// A rewrite rule: the reactants `r` are consumed, the inhibitors `i` must be
/// absent, the products `p` are produced.
#[derive(Debug)]
pub struct Reaction {
    pub r: EntitySet,
    pub i: EntitySet,
    pub p: EntitySet,
}

impl View for Reaction {
    type V = ReactionView;

    open spec fn view(&self) -> ReactionView {
        ReactionView { reactants: self.r@, inhibitors: self.i@, products: self.p@ }
    }
}

/// The values of a sequence of reactions.
pub open spec fn reaction_views(reactions: Seq<Reaction>) -> Seq<ReactionView> {
    reactions.map_values(|r: Reaction| r@)
}

impl Clone for Reaction {
    fn clone(&self) -> (copy: Reaction)
        ensures
            copy@ == self@,
            self.wf() ==> copy.wf(),
    {
        Reaction { r: self.r.clone(), i: self.i.clone(), p: self.p.clone() }
    }
}

impl Default for Reaction {
    fn default() -> (reaction: Reaction)
        ensures
            reaction.wf(),
            reaction@ == ReactionView::empty(),
    {
        Reaction::new()
    }
}

impl Reaction {
    /// The invariant of a reaction: that of its three sets.
    pub open spec fn wf(&self) -> bool {
        self.r.wf() && self.i.wf() && self.p.wf()
    }

    /// The reaction without entities.
    #[inline]
    pub fn new() -> (reaction: Reaction)
        ensures
            reaction.wf(),
            reaction@ == ReactionView::empty(),
    {
        Reaction { r: EntitySet::new(), i: EntitySet::new(), p: EntitySet::new() }
    }

    /// The reaction with the numbers and names of `ents` added to its
    /// reactants.  Inhibitors and products stay as they are.
    pub fn with_reactants(self, ents: Vec<Entity>) -> (reaction: Reaction)
        requires
            self.wf(),
        ensures
            reaction.wf(),
            reaction@ == (ReactionView {
                reactants: self@.reactants.insert_all(entity_views(ents@)),
                ..self@
            }),
    {
        let mut reaction = self;
        reaction.r.extend(ents);
        reaction
    }

    /// The reaction with the numbers and names of `ents` added to its
    /// inhibitors.  Reactants and products stay as they are.
    pub fn with_inhibitors(self, ents: Vec<Entity>) -> (reaction: Reaction)
        requires
            self.wf(),
        ensures
            reaction.wf(),
            reaction@ == (ReactionView {
                inhibitors: self@.inhibitors.insert_all(entity_views(ents@)),
                ..self@
            }),
    {
        let mut reaction = self;
        reaction.i.extend(ents);
        reaction
    }

    /// The reaction with the numbers and names of `ents` added to its
    /// products.  Reactants and inhibitors stay as they are.
    pub fn with_products(self, ents: Vec<Entity>) -> (reaction: Reaction)
        requires
            self.wf(),
        ensures
            reaction.wf(),
            reaction@ == (ReactionView {
                products: self@.products.insert_all(entity_views(ents@)),
                ..self@
            }),
    {
        let mut reaction = self;
        reaction.p.extend(ents);
        reaction
    }
}

} // verus!
