//! Composable specifications: leaf conditions combined with "all of",
//! "any of" and "not".
use vstd::prelude::*;

verus! {

/// A leaf condition on entities of type `E`.
pub trait LeafSpecification<E: View>: Sized {
    /// Whether the entity satisfies the condition.
    spec fn spec_matches(&self, e: E::V) -> bool;

    /// Whether the entity satisfies the condition.
    fn matches(&self, e: &E) -> (r: bool)
        ensures
            r == self.spec_matches(e@),
    ;
}

/// A specification expression over leaf conditions `S`.
#[derive(Debug)]
pub enum SpecificationExpression<S> {
    /// A single condition.
    Leaf(S),
    /// Every sub-expression holds (true when there is none).
    All(Vec<SpecificationExpression<S>>),
    /// Some sub-expression holds (false when there is none).
    Any(Vec<SpecificationExpression<S>>),
    /// The sub-expression does not hold.
    Not(Box<SpecificationExpression<S>>),
}

/// Whether the entity satisfies the expression.
pub open spec fn eval<S: LeafSpecification<E>, E: View>(x: SpecificationExpression<S>, e: E::V) -> bool
    decreases x, 0int,
{
    match x {
        SpecificationExpression::Leaf(l) => l.spec_matches(e),
        SpecificationExpression::All(v) => eval_all(v@, e),
        SpecificationExpression::Any(v) => eval_any(v@, e),
        SpecificationExpression::Not(b) => !eval(*b, e),
    }
}

/// Whether the entity satisfies every expression of the sequence.
pub open spec fn eval_all<S: LeafSpecification<E>, E: View>(
    v: Seq<SpecificationExpression<S>>,
    e: E::V,
) -> bool
    decreases v, v.len(),
{
    if v.len() == 0 {
        true
    } else {
        eval(v[v.len() - 1], e) && eval_all(v.subrange(0, v.len() - 1), e)
    }
}

/// Whether the entity satisfies some expression of the sequence.
pub open spec fn eval_any<S: LeafSpecification<E>, E: View>(
    v: Seq<SpecificationExpression<S>>,
    e: E::V,
) -> bool
    decreases v, v.len(),
{
    if v.len() == 0 {
        false
    } else {
        eval(v[v.len() - 1], e) || eval_any(v.subrange(0, v.len() - 1), e)
    }
}

/// `eval_all` holds exactly when every expression holds.
pub proof fn lemma_eval_all<S: LeafSpecification<E>, E: View>(
    v: Seq<SpecificationExpression<S>>,
    e: E::V,
)
    ensures
        eval_all(v, e) <==> forall|k: int| 0 <= k < v.len() ==> eval(#[trigger] v[k], e),
    decreases v.len(),
{
    if v.len() > 0 {
        let p = v.subrange(0, v.len() - 1);
        lemma_eval_all(p, e);
        assert forall|k: int| 0 <= k < p.len() implies p[k] == v[k] by {}
    }
}

/// `eval_any` holds exactly when some expression holds.
pub proof fn lemma_eval_any<S: LeafSpecification<E>, E: View>(
    v: Seq<SpecificationExpression<S>>,
    e: E::V,
)
    ensures
        eval_any(v, e) <==> exists|k: int| 0 <= k < v.len() && eval(#[trigger] v[k], e),
    decreases v.len(),
{
    if v.len() > 0 {
        let p = v.subrange(0, v.len() - 1);
        lemma_eval_any(p, e);
        assert forall|k: int| 0 <= k < p.len() implies p[k] == v[k] by {}
        if exists|k: int| 0 <= k < v.len() && eval(#[trigger] v[k], e) {
            let k = choose|k: int| 0 <= k < v.len() && eval(#[trigger] v[k], e);
            if k < v.len() - 1 {
                assert(eval(p[k], e));
            }
        }
    }
}

impl<S> SpecificationExpression<S> {
    /// Whether the entity satisfies this expression.
    pub fn evaluate<E: View>(&self, e: &E) -> (r: bool) where S: LeafSpecification<E>
        ensures
            r == eval::<S, E>(*self, e@),
        decreases self,
    {
        match self {
            SpecificationExpression::Leaf(l) => l.matches(e),
            SpecificationExpression::All(v) => {
                proof {
                    lemma_eval_all::<S, E>(v@, e@);
                }
                let n = v.len();
                let mut i: usize = 0;
                while i < n
                    invariant
                        n == v@.len(),
                        i <= n,
                        forall|k: int| 0 <= k < i ==> eval::<S, E>(#[trigger] v@[k], e@),
                        *self == SpecificationExpression::All(*v),
                        eval::<S, E>(*self, e@) == eval_all::<S, E>(v@, e@),
                        eval_all::<S, E>(v@, e@) <==> forall|k: int|
                            0 <= k < v@.len() ==> eval::<S, E>(#[trigger] v@[k], e@),
                    decreases n - i,
                {
                    proof {
                        assert(decreases_to!(*self => *v));
                        assert(decreases_to!(*v => v@));
                        assert(decreases_to!(v@ => v@[i as int]));
                    }
                    if !v[i].evaluate(e) {
                        return false;
                    }
                    i = i + 1;
                }
                true
            },
            SpecificationExpression::Any(v) => {
                proof {
                    lemma_eval_any::<S, E>(v@, e@);
                }
                let n = v.len();
                let mut i: usize = 0;
                while i < n
                    invariant
                        n == v@.len(),
                        i <= n,
                        forall|k: int| 0 <= k < i ==> !eval::<S, E>(#[trigger] v@[k], e@),
                        *self == SpecificationExpression::Any(*v),
                        eval::<S, E>(*self, e@) == eval_any::<S, E>(v@, e@),
                        eval_any::<S, E>(v@, e@) <==> exists|k: int|
                            0 <= k < v@.len() && eval::<S, E>(#[trigger] v@[k], e@),
                    decreases n - i,
                {
                    proof {
                        assert(decreases_to!(*self => *v));
                        assert(decreases_to!(*v => v@));
                        assert(decreases_to!(v@ => v@[i as int]));
                    }
                    if v[i].evaluate(e) {
                        return true;
                    }
                    i = i + 1;
                }
                false
            },
            SpecificationExpression::Not(b) => !b.evaluate(e),
        }
    }

    /// Both expressions hold.
    pub fn and(self, other: SpecificationExpression<S>) -> (r: SpecificationExpression<S>)
        ensures
            r matches SpecificationExpression::All(v) && v@ == seq![self, other],
    {
        let v = vec![self, other];
        SpecificationExpression::All(v)
    }

    /// Either expression holds.
    pub fn or(self, other: SpecificationExpression<S>) -> (r: SpecificationExpression<S>)
        ensures
            r matches SpecificationExpression::Any(v) && v@ == seq![self, other],
    {
        let v = vec![self, other];
        SpecificationExpression::Any(v)
    }

    /// The expression does not hold.
    pub fn negate(self) -> (r: SpecificationExpression<S>)
        ensures
            r matches SpecificationExpression::Not(b) && *b == self,
    {
        SpecificationExpression::Not(Box::new(self))
    }
}

} // verus!
