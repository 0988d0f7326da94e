//! Exhaustiveness checking of one match expression.

use vstd::prelude::*;

use crate::expressions::{MatchArmV, MatchExpression, MatchExpressionV};
use crate::patterns::Pattern;
use crate::space::{
    lemma_new_union_wf, lemma_spaces_view, lemma_wf_from, sp_is_empty, sp_new_union, sp_wf,
    space_view, spaces_view, Space, SpaceV,
};
use crate::space_from_pattern::{sp_from_pattern, space_from_pattern};
use crate::space_from_ty::sp_from_ty;
use crate::space_from_ty::{ctor_ty_spaces, sp_decompose};
use crate::space_subtraction::{
    dec_ctors, lemma_dec_ctors, lemma_enum_fold, lemma_flatten_append, lemma_fold_append,
    lemma_fold_of_empty, lemma_sub_new_union, sp_sub, sp_sub_fold, space_subtraction,
};
use crate::space_to_pattern::pat_of_ctor_def;
use crate::space_to_pattern::{sp_to_pattern, space_to_pattern};
use crate::ty_system::{find_enum, TyDatabase, TyDefV, TyV};

verus! {

/// The spaces covered by the arms' patterns, in order.
pub open spec fn arm_spaces(arms: Seq<MatchArmV>) -> Seq<SpaceV>
    decreases arms,
{
    if arms.len() == 0 {
        Seq::empty()
    } else {
        arm_spaces(arms.drop_last()).push(sp_from_pattern(arms.last().pattern))
    }
}

/// `arm_spaces` maps elementwise.
pub proof fn lemma_arm_spaces(arms: Seq<MatchArmV>)
    ensures
        arm_spaces(arms).len() == arms.len(),
        forall|i: int| 0 <= i < arms.len()
            ==> #[trigger] arm_spaces(arms)[i] == sp_from_pattern(arms[i].pattern),
    decreases arms,
{
    if arms.len() > 0 {
        lemma_arm_spaces(arms.drop_last());
    }
}

/// The residual space of a match expression: the condition type's space
/// minus the union of the arm patterns' spaces.
pub open spec fn sp_leaked_space(m: MatchExpressionV, defs: Seq<TyDefV>) -> SpaceV {
    sp_sub(sp_from_ty(m.condition_ty), sp_new_union(arm_spaces(m.arms)), defs)
}

/// Is the match exhaustive: does no value of the condition type escape
/// the arms?
pub open spec fn sp_is_exhaustive(m: MatchExpressionV, defs: Seq<TyDefV>) -> bool {
    sp_is_empty(sp_leaked_space(m, defs))
}

/// A match expression is well-formed against a catalog when each arm
/// pattern's space is: every constructor pattern in it names a registered
/// constructor with its declared arity. The lowering pass only builds
/// such arms.
pub open spec fn match_expression_wf(m: MatchExpressionV, defs: Seq<TyDefV>) -> bool {
    forall|i: int| 0 <= i < m.arms.len() ==> sp_wf(sp_from_pattern(#[trigger] m.arms[i].pattern), defs)
}

/// Check one match expression for exhaustiveness: whether it covers every
/// value, and, when it does not, one example pattern that is not covered.
pub fn check_exhaustivity(expression: &MatchExpression, td: &TyDatabase) -> (r: (bool, Option<Pattern>))
    requires
        match_expression_wf(expression@, td@),
    ensures
        r.0 == sp_is_exhaustive(expression@, td@),
        match r.1 {
            Some(p) => sp_to_pattern(sp_leaked_space(expression@, td@), td@) == Some(p@),
            None => sp_to_pattern(sp_leaked_space(expression@, td@), td@) is None,
        },
{
    let ghost m = expression@;

    // The space of every value the condition's type can take.
    let ty_space = crate::space_from_ty::space_from_ty(expression.condition_ty.duplicate());

    // The space the arms' patterns cover together.
    let n = expression.arms.len();
    let mut covered: Vec<Space> = Vec::new();
    for i in 0..n
        invariant
            n == expression.arms.len(),
            m == expression@,
            m.arms.len() == n,
            match_expression_wf(m, td@),
            covered@.len() == i,
            forall|k: int| 0 <= k < i ==> space_view(#[trigger] covered@[k])
                == sp_from_pattern(m.arms[k].pattern),
    {
        proof {
            assert(m.arms[i as int] == expression.arms@[i as int]@);
        }
        let s = space_from_pattern(expression.arms[i].pattern.deep_clone());
        covered.push(s);
    }
    proof {
        lemma_spaces_view(covered@);
        lemma_arm_spaces(m.arms);
        assert(spaces_view(covered@) =~= arm_spaces(m.arms));
        assert(forall|k: int| 0 <= k < spaces_view(covered@).len()
            ==> sp_wf(#[trigger] spaces_view(covered@)[k], td@));
    }
    let pat_space = Space::new_union(covered);
    proof {
        lemma_new_union_wf(arm_spaces(m.arms), td@);
    }

    // What the arms fail to cover.
    let leaked_space = space_subtraction(ty_space, pat_space, td);

    // No residual space means the match is exhaustive.
    let ok = leaked_space.is_empty();

    // One example value that is not matched, if one can be built.
    let leaked_pattern = space_to_pattern(leaked_space, td);

    (ok, leaked_pattern)
}

/// Is the match expression exhaustive?
pub fn is_exhaustive(expression: &MatchExpression, td: &TyDatabase) -> (r: bool)
    requires
        match_expression_wf(expression@, td@),
    ensures
        r == sp_is_exhaustive(expression@, td@),
{
    let (ok, _) = check_exhaustivity(expression, td);
    ok
}

/// Arm spaces of a concatenation are the concatenated arm spaces.
pub proof fn lemma_arm_spaces_append(arms: Seq<MatchArmV>, extra: Seq<MatchArmV>)
    ensures
        arm_spaces(arms + extra) == arm_spaces(arms) + arm_spaces(extra),
    decreases extra.len(),
{
    if extra.len() == 0 {
        assert(arms + extra =~= arms);
        assert(arm_spaces(extra) =~= Seq::<SpaceV>::empty());
        assert(arm_spaces(arms) + arm_spaces(extra) =~= arm_spaces(arms));
    } else {
        assert((arms + extra).drop_last() =~= arms + extra.drop_last());
        assert((arms + extra).last() == extra.last());
        lemma_arm_spaces_append(arms, extra.drop_last());
        assert(arm_spaces(arms + extra) =~= arm_spaces(arms) + arm_spaces(extra));
    }
}

/// Law: exhaustiveness is monotonic in the arms. Adding arms to an
/// already exhaustive match keeps it exhaustive.
pub proof fn lemma_exhaustive_monotonic(m: MatchExpressionV, extra: Seq<MatchArmV>, defs: Seq<TyDefV>)
    requires
        sp_is_exhaustive(m, defs),
    ensures
        sp_is_exhaustive(MatchExpressionV { condition_ty: m.condition_ty, arms: m.arms + extra }, defs),
{
    let te = sp_from_ty(m.condition_ty);
    let s = arm_spaces(m.arms);
    let t = arm_spaces(extra);
    assert(!(te is Union));
    assert(!sp_is_empty(te));
    lemma_sub_new_union(te, s, defs);
    lemma_arm_spaces_append(m.arms, extra);
    lemma_sub_new_union(te, s + t, defs);
    lemma_flatten_append(s, t);
    lemma_fold_append(te, crate::space::sp_flatten(s), crate::space::sp_flatten(t), defs);
    lemma_fold_of_empty(sp_sub_fold(te, crate::space::sp_flatten(s), defs), crate::space::sp_flatten(t), defs);
}

/// The arms that enumerate the first `m` constructors of a list, each
/// applied to a placeholder for every field.
pub open spec fn enumeration_arms(cs: Seq<crate::ty_system::CtorDefV>, m: int) -> Seq<MatchArmV> {
    Seq::new(if m < 0 { 0 } else { m as nat }, |i: int| MatchArmV { pattern: pat_of_ctor_def(cs[i].name, cs[i]) })
}

/// The space of an enumeration arm is the decomposed constructor space of
/// its constructor.
pub proof fn lemma_enumeration_arm_spaces(defs: Seq<TyDefV>, ename: Seq<char>, m: int)
    requires
        crate::ty_system::td_wf(defs),
        find_enum(defs, ename) is Some,
        0 <= m <= find_enum(defs, ename)->Some_0.len(),
    ensures
        ({
            let cs = find_enum(defs, ename)->Some_0;
            let bs = arm_spaces(enumeration_arms(cs, m));
            &&& bs.len() == m
            &&& forall|q: int| 0 <= q < m ==> #[trigger] bs[q] == sp_decompose(
                SpaceV::Ty(TyV::Constructor { name: cs[q].name }),
                defs,
            )
        }),
{
    let cs = find_enum(defs, ename)->Some_0;
    let arms = enumeration_arms(cs, m);
    lemma_arm_spaces(arms);
    assert forall|q: int| 0 <= q < m implies #[trigger] arm_spaces(arms)[q] == sp_decompose(
        SpaceV::Ty(TyV::Constructor { name: cs[q].name }),
        defs,
    ) by {
        crate::ty_system::lemma_find_ctor_of(defs, ename, q);
        let p = pat_of_ctor_def(cs[q].name, cs[q]);
        let ps = p->Constructor_args;
        crate::space_from_pattern::lemma_sps_from_patterns(ps);
        assert(sp_from_pattern(p) matches SpaceV::Constructor { name, args }
            && name == cs[q].name
            && args =~= Seq::new(cs[q].arg_tys.len(), |w: int| SpaceV::Ty(cs[q].arg_tys[w])));
        assert(sp_from_pattern(p) == sp_decompose(SpaceV::Ty(TyV::Constructor { name: cs[q].name }), defs));
    }
}

/// Law: a match over an enum whose arms enumerate every constructor (each
/// with placeholder fields) is exhaustive, and dropping the last arm of
/// that enumeration makes it non-exhaustive.
pub proof fn lemma_enumeration_exhaustiveness(defs: Seq<TyDefV>, ename: Seq<char>)
    requires
        crate::ty_system::td_wf(defs),
        find_enum(defs, ename) is Some,
        find_enum(defs, ename)->Some_0.len() >= 1,
    ensures
        ({
            let cs = find_enum(defs, ename)->Some_0;
            let cond = TyV::Enum { name: ename };
            &&& sp_is_exhaustive(
                MatchExpressionV { condition_ty: cond, arms: enumeration_arms(cs, cs.len() as int) },
                defs,
            )
            &&& !sp_is_exhaustive(
                MatchExpressionV { condition_ty: cond, arms: enumeration_arms(cs, cs.len() - 1) },
                defs,
            )
        }),
{
    let cs = find_enum(defs, ename)->Some_0;
    let n = cs.len() as int;
    let te = SpaceV::Ty(TyV::Enum { name: ename });
    assert(!(te is Union));
    assert(!sp_is_empty(te));

    // The full enumeration covers everything.
    lemma_enumeration_arm_spaces(defs, ename, n);
    let bs = arm_spaces(enumeration_arms(cs, n));
    assert(forall|q: int| 0 <= q < n ==> !(#[trigger] bs[q] is Union)) by {
        assert(forall|q: int| 0 <= q < n ==> #[trigger] bs[q] == sp_decompose(
            SpaceV::Ty(TyV::Constructor { name: cs[q].name }),
            defs,
        ));
    }
    lemma_sub_new_union(te, bs, defs);
    crate::space_from_ty::lemma_flatten_id(bs);
    assert(bs.take(n) =~= bs);
    lemma_enum_fold(defs, ename, bs, n);
    lemma_dec_ctors(cs, n, defs);
    assert(dec_ctors(cs, n, defs).len() == 0);
    assert(crate::space::sp_flatten(dec_ctors(cs, n, defs)) =~= Seq::<SpaceV>::empty());
    assert(sp_is_empty(sp_sub(te, sp_new_union(bs), defs)));

    // Without the last arm, the last constructor's space leaks.
    lemma_enumeration_arm_spaces(defs, ename, n - 1);
    let ps = arm_spaces(enumeration_arms(cs, n - 1));
    assert(forall|q: int| 0 <= q < n - 1 ==> !(#[trigger] ps[q] is Union));
    lemma_sub_new_union(te, ps, defs);
    crate::space_from_ty::lemma_flatten_id(ps);
    assert(ps.take(n - 1) =~= ps);
    lemma_enum_fold(defs, ename, ps, n - 1);
    if n == 1 {
        assert(sp_sub(te, sp_new_union(ps), defs) == te);
        assert(!sp_is_empty(te));
    } else {
        let leaked = sp_new_union(dec_ctors(cs, n - 1, defs));
        lemma_dec_ctors(cs, n - 1, defs);
        assert(dec_ctors(cs, n - 1, defs).len() == 1);
        crate::space_subtraction::lemma_enum_case_sub(defs, ename, n - 1, n - 1);
        assert(!(dec_ctors(cs, n - 1, defs)[0] is Union));
        crate::space_from_ty::lemma_flatten_id(dec_ctors(cs, n - 1, defs));
        assert(leaked == dec_ctors(cs, n - 1, defs)[0]);
        assert(leaked is Constructor);
        assert(!sp_is_empty(leaked));
    }
}

} // verus!
