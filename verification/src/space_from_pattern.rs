//! Making spaces out of patterns.

use vstd::prelude::*;

use crate::patterns::{lemma_patterns_view, pattern_view, patterns_view, Pattern, PatternV};
use crate::space::{lemma_spaces_view, space_view, spaces_view, Space, SpaceV};

verus! {

/// The space a pattern covers: a discard covers its whole type, a
/// constructor pattern covers the named constructor with each field
/// constrained by the corresponding sub-pattern's space.
pub open spec fn sp_from_pattern(p: PatternV) -> SpaceV
    decreases p,
{
    match p {
        PatternV::Discard { ty } => SpaceV::Ty(ty),
        PatternV::Constructor { name, args } => SpaceV::Constructor {
            name: name,
            args: sps_from_patterns(args),
        },
    }
}

/// The spaces of a sequence of patterns, elementwise.
pub open spec fn sps_from_patterns(ps: Seq<PatternV>) -> Seq<SpaceV>
    decreases ps,
{
    if ps.len() == 0 {
        Seq::empty()
    } else {
        sps_from_patterns(ps.drop_last()).push(sp_from_pattern(ps.last()))
    }
}

/// `sps_from_patterns` maps elementwise: same length, space at every index.
pub proof fn lemma_sps_from_patterns(ps: Seq<PatternV>)
    ensures
        sps_from_patterns(ps).len() == ps.len(),
        forall|i: int| 0 <= i < ps.len() ==> #[trigger] sps_from_patterns(ps)[i] == sp_from_pattern(ps[i]),
    decreases ps,
{
    if ps.len() > 0 {
        lemma_sps_from_patterns(ps.drop_last());
    }
}

/// The space covered by `pattern`.
pub fn space_from_pattern(pattern: Pattern) -> (r: Space)
    ensures
        r@ == sp_from_pattern(pattern@),
{
    space_from_pattern_ref(&pattern)
}

/// The space covered by the borrowed pattern.
fn space_from_pattern_ref(pattern: &Pattern) -> (r: Space)
    ensures
        r@ == sp_from_pattern(pattern@),
    decreases *pattern,
{
    match pattern {
        Pattern::Discard { ty } => Space::Ty(ty.duplicate()),
        Pattern::Constructor { name, args } => Space::Constructor {
            name: name.clone(),
            args: spaces_from_patterns(args),
        },
    }
}

/// The spaces covered by the borrowed patterns, elementwise.
fn spaces_from_patterns(v: &Vec<Pattern>) -> (r: Vec<Space>)
    ensures
        spaces_view(r@) == sps_from_patterns(patterns_view(v@)),
    decreases *v,
{
    let mut arg_spaces: Vec<Space> = Vec::new();
    let n = v.len();
    for i in 0..n
        invariant
            n == v.len(),
            arg_spaces@.len() == i,
            forall|k: int| 0 <= k < i ==> space_view(#[trigger] arg_spaces@[k])
                == sp_from_pattern(pattern_view(v@[k])),
    {
        let s = space_from_pattern_ref(&v[i]);
        arg_spaces.push(s);
    }
    proof {
        lemma_spaces_view(arg_spaces@);
        lemma_patterns_view(v@);
        lemma_sps_from_patterns(patterns_view(v@));
        assert(spaces_view(arg_spaces@) =~= sps_from_patterns(patterns_view(v@)));
    }
    arg_spaces
}

} // verus!
