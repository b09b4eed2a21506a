//! Constraints inferred from the guard conditions of a template tag's compile
//! function, with the boolean composition of guards.
use vstd::prelude::*;

verus! {

/// A constraint on the number of arguments of a tag.
#[derive(Clone, Debug, PartialEq, Eq)]
pub enum ArgumentCountConstraint {
    Exact(usize),
    Min(usize),
    Max(usize),
    OneOf(Vec<usize>),
}

/// A keyword that must stand at an argument position.
#[derive(Clone, Debug, PartialEq, Eq)]
pub struct RequiredKeyword {
    pub position: i64,
    pub value: String,
}

/// The argument at a position must be one of `values`.
#[derive(Clone, Debug, PartialEq, Eq)]
pub struct ChoiceAt {
    pub position: i64,
    pub values: Vec<String>,
}

/// Constraints inferred from a guard condition.
///
/// `or`: an error when either side holds, so each constraint stands on its own.
/// `and`: an error only when both hold, so length constraints are dropped and
/// keyword and choice constraints are kept.
#[derive(Debug, Clone)]
pub struct ConstraintSet {
    pub arg_constraints: Vec<ArgumentCountConstraint>,
    pub required_keywords: Vec<RequiredKeyword>,
    pub choice_at_constraints: Vec<ChoiceAt>,
}

/// The three lists of a constraint set.
pub struct ConstraintSetView {
    pub arg_constraints: Seq<ArgumentCountConstraint>,
    pub required_keywords: Seq<RequiredKeyword>,
    pub choice_at_constraints: Seq<ChoiceAt>,
}

impl View for ConstraintSet {
    type V = ConstraintSetView;

    open spec fn view(&self) -> ConstraintSetView {
        ConstraintSetView {
            arg_constraints: self.arg_constraints@,
            required_keywords: self.required_keywords@,
            choice_at_constraints: self.choice_at_constraints@,
        }
    }
}

/// Disjunction of constraint sets: all constraints of both.
pub open spec fn or_view(a: ConstraintSetView, b: ConstraintSetView) -> ConstraintSetView {
    ConstraintSetView {
        arg_constraints: a.arg_constraints + b.arg_constraints,
        required_keywords: a.required_keywords + b.required_keywords,
        choice_at_constraints: a.choice_at_constraints + b.choice_at_constraints,
    }
}

/// Conjunction of constraint sets: no length constraints; keywords and choices of both.
pub open spec fn and_view(a: ConstraintSetView, b: ConstraintSetView) -> ConstraintSetView {
    ConstraintSetView {
        arg_constraints: Seq::empty(),
        required_keywords: a.required_keywords + b.required_keywords,
        choice_at_constraints: a.choice_at_constraints + b.choice_at_constraints,
    }
}

impl Default for ConstraintSet {
    fn default() -> (r: ConstraintSet)
        ensures
            r@.arg_constraints == Seq::<ArgumentCountConstraint>::empty(),
            r@.required_keywords == Seq::<RequiredKeyword>::empty(),
            r@.choice_at_constraints == Seq::<ChoiceAt>::empty(),
    {
        ConstraintSet {
            arg_constraints: Vec::new(),
            required_keywords: Vec::new(),
            choice_at_constraints: Vec::new(),
        }
    }
}

impl ConstraintSet {
    /// The set holding only the length constraint `c`.
    pub fn single_length(c: ArgumentCountConstraint) -> (r: ConstraintSet)
        ensures
            r@.arg_constraints == seq![c],
            r@.required_keywords == Seq::<RequiredKeyword>::empty(),
            r@.choice_at_constraints == Seq::<ChoiceAt>::empty(),
    {
        let mut r = ConstraintSet::default();
        r.arg_constraints.push(c);
        r
    }

    /// The set holding only the keyword constraint `k`.
    pub fn single_keyword(k: RequiredKeyword) -> (r: ConstraintSet)
        ensures
            r@.arg_constraints == Seq::<ArgumentCountConstraint>::empty(),
            r@.required_keywords == seq![k],
            r@.choice_at_constraints == Seq::<ChoiceAt>::empty(),
    {
        let mut r = ConstraintSet::default();
        r.required_keywords.push(k);
        r
    }

    /// The set holding only the choice constraint `c`.
    pub fn single_choice(c: ChoiceAt) -> (r: ConstraintSet)
        ensures
            r@.arg_constraints == Seq::<ArgumentCountConstraint>::empty(),
            r@.required_keywords == Seq::<RequiredKeyword>::empty(),
            r@.choice_at_constraints == seq![c],
    {
        let mut r = ConstraintSet::default();
        r.choice_at_constraints.push(c);
        r
    }

    /// Disjunction: an error when either side holds.
    pub fn or(self, other: ConstraintSet) -> (r: ConstraintSet)
        ensures
            r@ == or_view(self@, other@),
    {
        let mut a = self;
        let mut b = other;
        a.arg_constraints.append(&mut b.arg_constraints);
        a.required_keywords.append(&mut b.required_keywords);
        a.choice_at_constraints.append(&mut b.choice_at_constraints);
        a
    }

    /// Conjunction: an error only when both hold.
    pub fn and(self, other: ConstraintSet) -> (r: ConstraintSet)
        ensures
            r@ == and_view(self@, other@),
    {
        let mut a = self;
        let mut b = other;
        let mut required_keywords = Vec::new();
        required_keywords.append(&mut a.required_keywords);
        required_keywords.append(&mut b.required_keywords);
        let mut choice_at_constraints = Vec::new();
        choice_at_constraints.append(&mut a.choice_at_constraints);
        choice_at_constraints.append(&mut b.choice_at_constraints);
        ConstraintSet { arg_constraints: Vec::new(), required_keywords, choice_at_constraints }
    }

    /// Adds the constraints of `other` to these, as `or` does.
    pub fn extend(&mut self, other: ConstraintSet)
        ensures
            final(self)@ == or_view(old(self)@, other@),
    {
        let mut b = other;
        self.arg_constraints.append(&mut b.arg_constraints);
        self.required_keywords.append(&mut b.required_keywords);
        self.choice_at_constraints.append(&mut b.choice_at_constraints);
    }
}

/// Disjunction is associative.
pub proof fn law_or_associative(a: ConstraintSetView, b: ConstraintSetView, c: ConstraintSetView)
    ensures
        or_view(or_view(a, b), c) == or_view(a, or_view(b, c)),
{
    assert(or_view(or_view(a, b), c).arg_constraints =~= or_view(a, or_view(b, c)).arg_constraints);
    assert(or_view(or_view(a, b), c).required_keywords =~= or_view(
        a,
        or_view(b, c),
    ).required_keywords);
    assert(or_view(or_view(a, b), c).choice_at_constraints =~= or_view(
        a,
        or_view(b, c),
    ).choice_at_constraints);
}

/// Conjunction is associative.
pub proof fn law_and_associative(a: ConstraintSetView, b: ConstraintSetView, c: ConstraintSetView)
    ensures
        and_view(and_view(a, b), c) == and_view(a, and_view(b, c)),
{
    assert(and_view(and_view(a, b), c).required_keywords =~= and_view(
        a,
        and_view(b, c),
    ).required_keywords);
    assert(and_view(and_view(a, b), c).choice_at_constraints =~= and_view(
        a,
        and_view(b, c),
    ).choice_at_constraints);
}

/// Conjunction keeps what disjunction keeps, except the length constraints.
pub proof fn law_and_is_or_without_lengths(a: ConstraintSetView, b: ConstraintSetView)
    ensures
        and_view(a, b).arg_constraints.len() == 0,
        and_view(a, b).required_keywords == or_view(a, b).required_keywords,
        and_view(a, b).choice_at_constraints == or_view(a, b).choice_at_constraints,
{
}

} // verus!
