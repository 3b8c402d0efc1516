//! Sites: the compiled reactions of one declared site, with its state.

use crate::reaction::{reaction_views, Reaction, ReactionView};
use crate::state::State;
use vstd::prelude::*;

verus! {

/// The mathematical value of a [`Site`].
pub struct SiteView {
    pub reactions: Seq<ReactionView>,
    pub state: Set<usize>,
}

/// A list of compiled reactions, in the order of their compilation, and one
/// state.
#[derive(Debug)]
pub struct Site {
    reactions: Vec<Reaction>,
    state: State,
}

impl View for Site {
    type V = SiteView;

    closed spec fn view(&self) -> SiteView {
        SiteView { reactions: reaction_views(self.reactions@), state: self.state@ }
    }
}

/// The values of a sequence of sites.
pub open spec fn site_views(sites: Seq<Site>) -> Seq<SiteView> {
    sites.map_values(|s: Site| s@)
}

/// Whether every reaction of a sequence meets its invariant.
pub open spec fn reactions_wf(reactions: Seq<Reaction>) -> bool {
    forall|i: int| 0 <= i < reactions.len() ==> (#[trigger] reactions[i]).wf()
}

impl Default for Site {
    fn default() -> (site: Site)
        ensures
            site.wf(),
            site@ == (SiteView { reactions: Seq::empty(), state: Set::empty() }),
    {
        Site::new()
    }
}

impl Site {
    /// The invariant of a site: that of its reactions.
    pub closed spec fn wf(&self) -> bool {
        reactions_wf(self.reactions@)
    }

    /// The site without reactions, in the empty state.
    pub fn new() -> (site: Site)
        ensures
            site.wf(),
            site@ == (SiteView { reactions: Seq::empty(), state: Set::empty() }),
    {
        let site = Site { reactions: Vec::new(), state: State::new() };
        assert(site@.reactions =~= Seq::empty());
        site
    }

    /// The site with `reactions` appended to its own.
    pub fn with_reactions(self, reactions: Vec<Reaction>) -> (site: Site)
        requires
            self.wf(),
            reactions_wf(reactions@),
        ensures
            site.wf(),
            site@ == (SiteView {
                reactions: self@.reactions + reaction_views(reactions@),
                state: self@.state,
            }),
    {
        let mut site = self;
        let mut more = reactions;
        site.reactions.append(&mut more);
        assert(site@.reactions =~= self@.reactions + reaction_views(reactions@));
        site
    }

    /// The reactions of the site.
    pub fn reactions(&self) -> (reactions: &Vec<Reaction>)
        ensures
            reaction_views(reactions@) == self@.reactions,
            self.wf() ==> reactions_wf(reactions@),
    {
        &self.reactions
    }

    /// The state of the site.
    pub fn state(&self) -> (state: &State)
        ensures
            state@ == self@.state,
    {
        &self.state
    }
}

} // verus!
