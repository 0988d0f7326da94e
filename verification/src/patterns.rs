//! The sample language's patterns, as far as coverage analysis needs them.

use vstd::prelude::*;

use crate::ty_system::{Ty, TyV};

verus! {

/// The coverage-relevant shape of a match arm's pattern.
#[derive(Debug)]
pub enum Pattern {
    /// `_`: covers every value of its type.
    Discard { ty: Ty },
    /// A constructor pattern: matches exactly values built with the named
    /// constructor, recursively constraining its fields.
    Constructor { name: String, args: Vec<Pattern> },
}

/// Mathematical model of a [`Pattern`].
#[verifier::ext_equal]
pub enum PatternV {
    Discard { ty: TyV },
    Constructor { name: Seq<char>, args: Seq<PatternV> },
}

/// The model of one pattern.
pub open spec fn pattern_view(p: Pattern) -> PatternV
    decreases p,
{
    match p {
        Pattern::Discard { ty } => PatternV::Discard { ty: ty@ },
        Pattern::Constructor { name, args } => PatternV::Constructor {
            name: name@,
            args: patterns_view(args@),
        },
    }
}

/// The models of a sequence of patterns, elementwise.
pub open spec fn patterns_view(ps: Seq<Pattern>) -> Seq<PatternV>
    decreases ps,
{
    if ps.len() == 0 {
        Seq::empty()
    } else {
        patterns_view(ps.drop_last()).push(pattern_view(ps.last()))
    }
}

impl View for Pattern {
    type V = PatternV;

    open spec fn view(&self) -> PatternV {
        pattern_view(*self)
    }
}

/// `patterns_view` maps elementwise: same length, model at every index.
pub proof fn lemma_patterns_view(ps: Seq<Pattern>)
    ensures
        patterns_view(ps).len() == ps.len(),
        forall|i: int| 0 <= i < ps.len() ==> #[trigger] patterns_view(ps)[i] == pattern_view(ps[i]),
    decreases ps,
{
    if ps.len() > 0 {
        lemma_patterns_view(ps.drop_last());
    }
}

/// The same patterns again, as fresh owned values.
pub fn clone_patterns(v: &Vec<Pattern>) -> (r: Vec<Pattern>)
    ensures
        patterns_view(r@) == patterns_view(v@),
    decreases *v,
{
    let mut r: Vec<Pattern> = Vec::new();
    let n = v.len();
    for i in 0..n
        invariant
            n == v.len(),
            r@.len() == i,
            forall|k: int| 0 <= k < i ==> pattern_view(#[trigger] r@[k]) == pattern_view(v@[k]),
    {
        let c = v[i].deep_clone();
        r.push(c);
    }
    proof {
        lemma_patterns_view(r@);
        lemma_patterns_view(v@);
        assert(patterns_view(r@) =~= patterns_view(v@));
    }
    r
}

impl Pattern {
    /// The same pattern again, as a fresh owned value.
    pub fn deep_clone(&self) -> (r: Pattern)
        ensures
            r@ == self@,
        decreases *self,
    {
        match self {
            Pattern::Discard { ty } => Pattern::Discard { ty: ty.duplicate() },
            Pattern::Constructor { name, args } => Pattern::Constructor {
                name: name.clone(),
                args: clone_patterns(args),
            },
        }
    }
}

} // verus!
