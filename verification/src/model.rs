//! The model: one ground, the sites, and the configuration.

use crate::entity::EntityView;
use crate::ground::{interned, merged, Ground};
use crate::ground_laws::lemma_merge_same_entities;
use crate::lexer::bytes_of;
use crate::parser::{
    form_views, forms_of, forms_wf, parse_forms, Form, FormView, SyntaxError, SyntaxErrorView,
};
use crate::site::{site_views, Site, SiteView};
use crate::token::{tokens, tokens_of, StreamView, TokenStream};
use vstd::prelude::*;

verus! {

/// The mathematical value of an [`Ersatz`].
pub struct ErsatzView {
    pub ground: Seq<EntityView>,
    pub sites: Seq<SiteView>,
    pub max_steps: Option<usize>,
}

impl ErsatzView {
    /// The model without entities, sites or step bound.
    pub open spec fn empty() -> ErsatzView {
        ErsatzView { ground: Seq::empty(), sites: Seq::empty(), max_steps: None }
    }

    /// The model after it has absorbed another: its ground has absorbed the
    /// other ground, the other sites follow its own, unchanged, and the step
    /// bound of the other is taken only where it has none of its own.
    pub open spec fn merged(self, other: ErsatzView) -> ErsatzView {
        ErsatzView {
            ground: merged(self.ground, other.ground),
            sites: self.sites + other.sites,
            max_steps: if self.max_steps is Some {
                self.max_steps
            } else {
                other.max_steps
            },
        }
    }
}

/// The sites that the forms of a specification compile to, in the order of
/// their declaration.  A trope outside any site adds none.
pub open spec fn compiled_sites(forms: Seq<FormView>) -> Seq<SiteView>
    decreases forms.len(),
{
    if forms.len() == 0 {
        Seq::empty()
    } else {
        let before = compiled_sites(forms.drop_last());
        match forms.last() {
            FormView::Site(site) => before.push(site.compiled().site()),
            FormView::Trope(_) => before,
        }
    }
}

/// The model that the forms of a specification compile to.  Its ground is
/// empty: compilation keeps the entities symbolic and interns none.
pub open spec fn model_of(forms: Seq<FormView>) -> ErsatzView {
    ErsatzView { ground: Seq::empty(), sites: compiled_sites(forms), max_steps: None }
}

/// The model that a stream of tokens stands for, or the first syntax error.
pub open spec fn parsed_model(stream: StreamView) -> Result<ErsatzView, SyntaxErrorView> {
    match forms_of(stream) {
        Ok(forms) => Ok(model_of(forms)),
        Err(e) => Err(e),
    }
}

/// Whether every site of a sequence meets its invariant.
pub open spec fn sites_wf(sites: Seq<Site>) -> bool {
    forall|i: int| 0 <= i < sites.len() ==> (#[trigger] sites[i]).wf()
}

/// A model: the ground of its entities, its sites in the order of their
/// declaration, and an optional bound on the number of steps.
#[derive(Debug)]
pub struct Ersatz {
    ground: Ground,
    sites: Vec<Site>,
    max_steps: Option<usize>,
}

impl View for Ersatz {
    type V = ErsatzView;

    closed spec fn view(&self) -> ErsatzView {
        ErsatzView {
            ground: self.ground@,
            sites: site_views(self.sites@),
            max_steps: self.max_steps,
        }
    }
}

impl Default for Ersatz {
    fn default() -> (model: Ersatz)
        ensures
            model.wf(),
            model@ == ErsatzView::empty(),
    {
        Ersatz::new()
    }
}

impl Ersatz {
    /// The invariant of a model: that of its ground and of its sites.
    pub closed spec fn wf(&self) -> bool {
        self.ground.wf() && sites_wf(self.sites@)
    }

    /// The ground of a model holds every entity once.
    pub proof fn lemma_ground_interned(&self)
        requires
            self.wf(),
        ensures
            interned(self@.ground),
    {
    }

    /// The empty model.
    pub fn new() -> (model: Ersatz)
        ensures
            model.wf(),
            model@ == ErsatzView::empty(),
    {
        let model = Ersatz { ground: Ground::new(), sites: Vec::new(), max_steps: None };
        assert(model@.sites =~= Seq::empty());
        model
    }

    /// Sets the bound on the number of steps.
    pub fn set_max_steps(&mut self, val: usize)
        ensures
            final(self)@ == (ErsatzView { max_steps: Some(val), ..old(self)@ }),
            old(self).wf() ==> final(self).wf(),
    {
        self.max_steps = Some(val);
    }

    /// The model with `sites` appended to its own.
    pub fn with_sites(self, sites: Vec<Site>) -> (model: Ersatz)
        ensures
            model@ == (ErsatzView { sites: self@.sites + site_views(sites@), ..self@ }),
            self.wf() && sites_wf(sites@) ==> model.wf(),
    {
        let mut model = self;
        let mut more = sites;
        model.sites.append(&mut more);
        assert(model@.sites =~= self@.sites + site_views(sites@));
        model
    }

    /// Absorbs another model.  The step bound is taken from `other` only if
    /// this model has none; the ground absorbs the ground of `other`; the
    /// sites of `other` are appended as they are.
    pub fn merge(&mut self, other: Ersatz)
        requires
            old(self).wf(),
            other.wf(),
        ensures
            final(self).wf(),
            final(self)@ == old(self)@.merged(other@),
    {
        if self.max_steps.is_none() {
            self.max_steps = other.max_steps;
        }
        let Ersatz { ground, sites, max_steps: _ } = other;
        self.ground.merge(ground);
        let mut more = sites;
        self.sites.append(&mut more);
        assert(self@.sites =~= old(self)@.sites + other@.sites);
    }

    /// The ground of the model.
    pub fn ground(&self) -> (ground: &Ground)
        ensures
            ground@ == self@.ground,
            self.wf() ==> ground.wf(),
    {
        &self.ground
    }

    /// The sites of the model.
    pub fn sites(&self) -> (sites: &Vec<Site>)
        ensures
            site_views(sites@) == self@.sites,
            self.wf() ==> sites_wf(sites@),
    {
        &self.sites
    }

    /// The bound on the number of steps, if one is set.
    pub fn max_steps(&self) -> (bound: Option<usize>)
        ensures
            bound == self@.max_steps,
    {
        self.max_steps
    }

    /// Compiles the forms of a specification into a model.  Every trope is
    /// compiled with the model's ground in hand; the sites take their
    /// reactions, and the tropes outside any site leave nothing behind.
    pub fn from_forms(forms: Vec<Form>) -> (model: Ersatz)
        requires
            forms_wf(forms@),
        ensures
            model.wf(),
            model@ == model_of(form_views(forms@)),
    {
        let ghost all = form_views(forms@);
        let mut ground = Ground::new();
        let mut sites: Vec<Site> = Vec::new();
        proof {
            assert(site_views(sites@) =~= compiled_sites(all.take(0)));
        }
        for form in it: forms
            invariant
                form_views(it.seq()) == all,
                forms_wf(it.seq()),
                ground.wf(),
                ground@ == Seq::<EntityView>::empty(),
                sites_wf(sites@),
                site_views(sites@) == compiled_sites(all.take(it.index() as int)),
        {
            let ghost i = it.index() as int;
            assert(all[i] == form@);
            assert(all.take(i + 1).drop_last() =~= all.take(i));
            assert(form.wf()) by {
                assert(it.seq()[i].wf());
            }
            match form {
                Form::Trope(trope) => {
                    let mut trope = trope;
                    trope.compile(&mut ground);
                },
                Form::Site(site) => {
                    let mut site = site;
                    site.compile(&mut ground);
                    let ghost before = site_views(sites@);
                    let compiled = site.into_site();
                    sites.push(compiled);
                    assert(site_views(sites@) =~= before.push(compiled@));
                },
            }
        }
        assert(all.take(all.len() as int) =~= all);
        let model = Ersatz { ground, sites, max_steps: None };
        model
    }

    /// The model that a stream of tokens stands for, or the first syntax
    /// error.
    pub fn from_tokens(stream: &TokenStream) -> (result: Result<Ersatz, SyntaxError>)
        ensures
            match result {
                Ok(model) => model.wf() && parsed_model(stream@) == Ok::<
                    ErsatzView,
                    SyntaxErrorView,
                >(model@),
                Err(e) => parsed_model(stream@) == Err::<ErsatzView, SyntaxErrorView>(e@),
            },
    {
        match parse_forms(stream) {
            Ok(forms) => Ok(Ersatz::from_forms(forms)),
            Err(e) => Err(e),
        }
    }

    /// The model that a specification text stands for, or the first syntax
    /// error.  A token is counted in 32 bits, so the text has to be shorter
    /// than 4 GiB.
    pub fn from_str(spec: &str) -> (result: Result<Ersatz, SyntaxError>)
        requires
            bytes_of(spec@).len() <= u32::MAX,
        ensures
            match result {
                Ok(model) => model.wf() && parsed_model(tokens_of(spec@)) == Ok::<
                    ErsatzView,
                    SyntaxErrorView,
                >(model@),
                Err(e) => parsed_model(tokens_of(spec@)) == Err::<ErsatzView, SyntaxErrorView>(
                    e@,
                ),
            },
    {
        let stream = tokens(spec);
        Ersatz::from_tokens(&stream)
    }

    /// Parses a specification text and absorbs its model.  On a syntax error
    /// the model stays as it is.
    pub fn add_from_str(&mut self, spec: &str) -> (result: Result<(), SyntaxError>)
        requires
            old(self).wf(),
            bytes_of(spec@).len() <= u32::MAX,
        ensures
            final(self).wf(),
            match result {
                Ok(()) => parsed_model(tokens_of(spec@)) matches Ok(other) && final(self)@ == old(
                    self,
                )@.merged(other),
                Err(e) => parsed_model(tokens_of(spec@)) == Err::<ErsatzView, SyntaxErrorView>(
                    e@,
                ) && *final(self) == *old(self),
            },
    {
        match Ersatz::from_str(spec) {
            Ok(other) => {
                self.merge(other);
                Ok(())
            },
            Err(e) => Err(e),
        }
    }
}

/// Merging is idempotent on the ground: a model that absorbs a model with
/// the same entities keeps its ground, so that a text parsed twice and
/// merged gives as many distinct entities as the text parsed once.
pub proof fn lemma_merge_same_ground(model: ErsatzView, other: ErsatzView)
    requires
        interned(other.ground),
        other.ground.to_set() == model.ground.to_set(),
    ensures
        model.merged(other).ground == model.ground,
        model.merged(other).ground.len() == model.ground.len(),
{
    lemma_merge_same_entities(model.ground, other.ground);
}

/// A text parsed twice gives the same model twice, and the two merged hold
/// the entities of one.
pub proof fn lemma_parse_twice_and_merge(stream: StreamView)
    requires
        parsed_model(stream) is Ok,
    ensures
        ({
            let once = parsed_model(stream)->Ok_0;
            once.merged(once).ground == once.ground
        }),
{
    let once = parsed_model(stream)->Ok_0;
    lemma_merge_same_entities(once.ground, once.ground);
}

} // verus!
