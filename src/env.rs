use vstd::prelude::*;

use std::rc::Rc;

use crate::problem::Problem;
use crate::region::Located;
use crate::variants::VariantTable;

verus! {

/// What an environment holds, as mathematical values.
pub struct EnvView {
    /// The module's path.
    pub home: Seq<char>,
    /// The variants in scope, by the name of their symbol.
    pub variants: Map<Seq<char>, Located<Box<str>>>,
    /// The problems recorded so far, in the order they were found.
    pub problems: Seq<Problem>,
}

impl EnvView {
    /// The environment as it is right after construction.
    pub open spec fn fresh(home: Seq<char>, variants: Map<Seq<char>, Located<Box<str>>>) -> EnvView {
        EnvView { home, variants, problems: Seq::empty() }
    }

    /// The environment after one more problem has been recorded.
    pub open spec fn with_problem(self, p: Problem) -> EnvView {
        EnvView { problems: self.problems.push(p), ..self }
    }

    /// The environment after the problems of `ps` have been recorded, one
    /// call at a time, first to last.
    pub open spec fn with_problems(self, ps: Seq<Problem>) -> EnvView
        decreases ps.len(),
    {
        if ps.len() == 0 {
            self
        } else {
            self.with_problems(ps.drop_last()).with_problem(ps.last())
        }
    }
}

/// The canonicalization environment for one module.
pub struct Env {
    /// The module's path. Unqualified references to identifiers and variant
    /// names are taken to be relative to it.
    home: Box<str>,
    /// Problems found along the way, to be reported at the end.
    problems: Vec<Problem>,
    /// Variants either declared in this module or imported into it.
    variants: Rc<VariantTable>,
}

impl View for Env {
    type V = EnvView;

    closed spec fn view(&self) -> EnvView {
        EnvView { home: self.home@, variants: self.variants@, problems: self.problems@ }
    }
}

impl Env {
    /// A fresh environment for the module `home`, with the given variants in
    /// scope and no problems yet. The table is shared, never copied.
    pub fn new(home: Box<str>, declared_variants: Rc<VariantTable>) -> (env: Env)
        ensures
            env@ == EnvView::fresh(home@, declared_variants@),
    {
        Env { home, variants: declared_variants, problems: Vec::new() }
    }

    /// Records a problem after those already found. Nothing is dropped,
    /// merged or reordered.
    pub fn problem(&mut self, problem: Problem)
        ensures
            final(self)@ == old(self)@.with_problem(problem),
    {
        self.problems.push(problem)
    }

    /// The module's path.
    pub fn home(&self) -> (r: &str)
        ensures
            r@ == self@.home,
    {
        &self.home
    }

    /// The variants in scope.
    pub fn variants(&self) -> (r: &VariantTable)
        ensures
            r@ == self@.variants,
    {
        &self.variants
    }

    /// The problems recorded so far, in the order they were found.
    pub fn problems(&self) -> (r: &Vec<Problem>)
        ensures
            r@ == self@.problems,
    {
        &self.problems
    }

    /// Ends the environment's life, handing over the problems it recorded.
    pub fn into_problems(self) -> (r: Vec<Problem>)
        ensures
            r@ == self@.problems,
    {
        self.problems
    }
}

/// Recording problems one after another yields exactly those problems, after
/// the ones already there, in call order: none is lost, merged or moved, and
/// equal problems are kept as often as they were recorded.
pub proof fn lemma_recording_appends_in_order(start: EnvView, ps: Seq<Problem>)
    ensures
        start.with_problems(ps).problems == start.problems + ps,
    decreases ps.len(),
{
    if ps.len() > 0 {
        lemma_recording_appends_in_order(start, ps.drop_last());
        assert(start.problems + ps =~= (start.problems + ps.drop_last()).push(ps.last()));
    } else {
        assert(start.problems + ps =~= start.problems);
    }
}

/// A fresh environment that records the problems of `ps`, one call at a
/// time, holds exactly `ps`.
pub proof fn lemma_fresh_recording_holds_exactly(
    home: Seq<char>,
    variants: Map<Seq<char>, Located<Box<str>>>,
    ps: Seq<Problem>,
)
    ensures
        EnvView::fresh(home, variants).with_problems(ps).problems == ps,
{
    lemma_recording_appends_in_order(EnvView::fresh(home, variants), ps);
    assert(Seq::<Problem>::empty() + ps =~= ps);
}

/// Two environments built from the same variants table each hold exactly the
/// problems recorded into them: what one records, the other never sees.
pub proof fn lemma_environments_keep_separate_problems(
    first_home: Seq<char>,
    second_home: Seq<char>,
    variants: Map<Seq<char>, Located<Box<str>>>,
    first_ps: Seq<Problem>,
    second_ps: Seq<Problem>,
)
    ensures
        EnvView::fresh(first_home, variants).with_problems(first_ps).problems == first_ps,
        EnvView::fresh(second_home, variants).with_problems(second_ps).problems == second_ps,
{
    lemma_fresh_recording_holds_exactly(first_home, variants, first_ps);
    lemma_fresh_recording_holds_exactly(second_home, variants, second_ps);
}

/// Recording problems leaves the module's path and the variants in scope as
/// they were.
pub proof fn lemma_recording_keeps_scope(start: EnvView, ps: Seq<Problem>)
    ensures
        start.with_problems(ps).home == start.home,
        start.with_problems(ps).variants == start.variants,
    decreases ps.len(),
{
    if ps.len() > 0 {
        lemma_recording_keeps_scope(start, ps.drop_last());
    }
}

} // verus!
