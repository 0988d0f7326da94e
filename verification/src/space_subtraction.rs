//! Subtraction of spaces: the central algorithm of the coverage check.
//! `space_subtraction(a, b)` computes the values in `a` not covered by `b`.

use vstd::prelude::*;

use crate::space::{
    lemma_new_union_wf, lemma_spaces_view, lemma_wf_from, sp_is_empty, sp_new_union, sp_wf,
    sp_wf_from, space_view, spaces_view, Space, SpaceV,
};
use crate::space_from_ty::{
    ctor_ty_spaces, lemma_decompose_wf, lemma_ph_decompose, ph, sp_can_decompose, sp_decompose,
    space_can_decompose, space_decompose,
};
use crate::ty_system::{
    find_ctor, find_enum, is_subtype_of_v, ty_is_constructor_of_name, Ty, TyDatabase, TyDefV, TyV,
};

verus! {

/// Subtrahend measure of a type: an enum type space on the right unfolds
/// into its constructor type spaces, so it must weigh more than all of
/// them together.
pub open spec fn m2_ty(t: TyV, defs: Seq<TyDefV>) -> nat {
    match t {
        TyV::Enum { name } => match find_enum(defs, name) {
            Some(ctors) => 3 * ctors.len() + 1,
            None => 1,
        },
        TyV::Constructor { .. } => 2,
    }
}

/// Subtrahend measure of a space: subtraction recurses into the right
/// operand's unions, constructor arguments and enum unfoldings, and each
/// of those steps strictly lowers this measure.
pub open spec fn m2(s: SpaceV, defs: Seq<TyDefV>) -> nat
    decreases s, 0int,
{
    match s {
        SpaceV::Ty(t) => m2_ty(t, defs),
        SpaceV::Union(parts) => 1 + m2_seq(parts, defs),
        SpaceV::Constructor { args, .. } => 1 + m2_seq(args, defs),
    }
}

/// Summed subtrahend measure of a sequence of spaces, counting one extra
/// per member so that every member weighs strictly less than the sequence.
pub open spec fn m2_seq(parts: Seq<SpaceV>, defs: Seq<TyDefV>) -> nat
    decreases parts, 1int,
{
    if parts.len() == 0 {
        0
    } else {
        m2_seq(parts.drop_last(), defs) + m2(parts.last(), defs) + 1
    }
}

/// Each member's measure lies strictly below the sequence's.
pub proof fn lemma_m2_member(parts: Seq<SpaceV>, i: int, defs: Seq<TyDefV>)
    requires
        0 <= i < parts.len(),
    ensures
        m2(parts[i], defs) < m2_seq(parts, defs),
    decreases parts.len(),
{
    if i < parts.len() - 1 {
        assert(parts.drop_last()[i] == parts[i]);
        lemma_m2_member(parts.drop_last(), i, defs);
    } else {
        assert(parts.last() == parts[i]);
    }
}

/// The constructor type spaces of an enum's constructor list weigh three
/// per constructor: strictly less than the enum type space itself.
pub proof fn lemma_m2_ctor_ty_spaces(ctors: Seq<crate::ty_system::CtorDefV>, defs: Seq<TyDefV>)
    ensures
        m2_seq(ctor_ty_spaces(ctors), defs) == 3 * ctors.len(),
    decreases ctors.len(),
{
    let ts = ctor_ty_spaces(ctors);
    if ctors.len() > 0 {
        lemma_m2_ctor_ty_spaces(ctors.drop_last(), defs);
        assert(ts.drop_last() =~= ctor_ty_spaces(ctors.drop_last()));
        assert(ts.last() == SpaceV::Ty(TyV::Constructor { name: ctors[ctors.len() - 1].name }));
        assert(m2(ts.last(), defs) == 2);
    } else {
        assert(ts.len() == 0);
    }
}

/// Subtraction of spaces: the values of `a` not covered by `b`.
///
/// An empty minuend gives the empty space; an empty subtrahend leaves the
/// minuend unchanged. A union on the left distributes; a union on the
/// right is subtracted member by member. A type space minus a covering
/// type space is empty, and so is a constructor space minus its own type.
/// Equal-named constructor spaces subtract field-wise. A decomposable type
/// space on either side is decomposed one step and the subtraction
/// retried; what remains unmatched is returned unchanged, conservatively
/// not covered.
pub open spec fn sp_sub(a: SpaceV, b: SpaceV, defs: Seq<TyDefV>) -> SpaceV
    decreases m2(b, defs), ph(a, defs), 1int,
{
    if sp_is_empty(a) {
        SpaceV::Union(Seq::empty())
    } else if sp_is_empty(b) {
        a
    } else {
        match (a, b) {
            // (x | y) \ z = (x \ z) | (y \ z)
            (SpaceV::Union(parts), _) => sp_new_union(sp_sub_each(parts, b, defs)),
            // x \ (y | z) = (x \ y) \ z
            (_, SpaceV::Union(parts)) => sp_sub_fold(a, parts, defs),
            (SpaceV::Ty(ta), SpaceV::Ty(tb)) => {
                if is_subtype_of_v(defs, ta, tb) {
                    SpaceV::Union(Seq::empty())
                } else if sp_can_decompose(a, defs) {
                    proof {
                        lemma_ph_decompose(a, defs);
                    }
                    sp_sub(sp_decompose(a, defs), b, defs)
                } else if sp_can_decompose(b, defs) {
                    sp_sub_unfold_rhs(a, tb, defs)
                } else {
                    a
                }
            },
            (SpaceV::Ty(ta), SpaceV::Constructor { .. }) => {
                // Splitting the left type space into constructor cases
                // covers both the narrowing step (the type space of the
                // subtrahend's own constructor) and the general retry.
                if sp_can_decompose(a, defs) {
                    proof {
                        lemma_ph_decompose(a, defs);
                    }
                    sp_sub(sp_decompose(a, defs), b, defs)
                } else {
                    a
                }
            },
            (SpaceV::Constructor { name: an, .. }, SpaceV::Ty(tb)) => {
                if ty_is_constructor_of_name(tb, an) {
                    // The whole constructor is covered by its own type.
                    SpaceV::Union(Seq::empty())
                } else if sp_can_decompose(b, defs) {
                    sp_sub_unfold_rhs(a, tb, defs)
                } else {
                    a
                }
            },
            (
                SpaceV::Constructor { name: an, args: aargs },
                SpaceV::Constructor { name: bn, args: bargs },
            ) => {
                if an == bn {
                    if sp_sub_covered(aargs, bargs, 0, defs) {
                        // Every field is covered, so the whole space is.
                        SpaceV::Union(Seq::empty())
                    } else {
                        // A value escapes if any single field escapes: one
                        // space per field position, the leftover at that
                        // position and the original minuend fields at the
                        // others, united.
                        sp_new_union(sp_sub_positions(an, aargs, bargs, 0, defs))
                    }
                } else {
                    a
                }
            },
        }
    }
}

/// Unfold a decomposable type space on the right of a subtraction.
///
/// For an enum type this subtracts the decomposition's constructor cases
/// in order, exactly as retrying against the decomposed union would. For a
/// constructor type the decomposed constructor space can match no earlier
/// case against the non-union, non-decomposable minuend that reaches this
/// point, so the retry returns the minuend unchanged.
pub open spec fn sp_sub_unfold_rhs(a: SpaceV, tb: TyV, defs: Seq<TyDefV>) -> SpaceV
    decreases m2(SpaceV::Ty(tb), defs), ph(a, defs), 0int,
{
    match tb {
        TyV::Enum { name } => match find_enum(defs, name) {
            Some(ctors) => {
                proof {
                    lemma_m2_ctor_ty_spaces(ctors, defs);
                }
                sp_sub_fold(a, ctor_ty_spaces(ctors), defs)
            },
            None => a,
        },
        TyV::Constructor { .. } => a,
    }
}

/// Memberwise subtraction of `b` from each part of a union.
pub open spec fn sp_sub_each(parts: Seq<SpaceV>, b: SpaceV, defs: Seq<TyDefV>) -> Seq<SpaceV>
    decreases m2(b, defs), crate::space_from_ty::ph_seq(parts, defs), parts.len() + 2,
{
    if parts.len() == 0 {
        Seq::empty()
    } else {
        sp_sub_each(parts.drop_last(), b, defs).push(sp_sub(parts.last(), b, defs))
    }
}

/// `sp_sub_each` maps elementwise.
pub proof fn lemma_sp_sub_each(parts: Seq<SpaceV>, b: SpaceV, defs: Seq<TyDefV>)
    ensures
        sp_sub_each(parts, b, defs).len() == parts.len(),
        forall|i: int| 0 <= i < parts.len()
            ==> #[trigger] sp_sub_each(parts, b, defs)[i] == sp_sub(parts[i], b, defs),
    decreases parts.len(),
{
    if parts.len() > 0 {
        lemma_sp_sub_each(parts.drop_last(), b, defs);
    }
}

/// Fold subtraction of every part over `a`, left to right.
pub open spec fn sp_sub_fold(a: SpaceV, parts: Seq<SpaceV>, defs: Seq<TyDefV>) -> SpaceV
    decreases m2_seq(parts, defs), parts.len(), 0int,
{
    if parts.len() == 0 {
        a
    } else {
        sp_sub(sp_sub_fold(a, parts.drop_last(), defs), parts.last(), defs)
    }
}

/// Are all fields of the first constructor covered by the second's,
/// position by position, from `j` on?
pub open spec fn sp_sub_covered(aargs: Seq<SpaceV>, bargs: Seq<SpaceV>, j: int, defs: Seq<TyDefV>) -> bool
    decreases m2_seq(bargs, defs), bargs.len() - j, 1int,
{
    if j < 0 {
        sp_sub_covered(aargs, bargs, 0, defs)
    } else if j >= aargs.len() || j >= bargs.len() {
        true
    } else {
        proof {
            lemma_m2_member(bargs, j, defs);
        }
        sp_is_empty(sp_sub(aargs[j], bargs[j], defs)) && sp_sub_covered(aargs, bargs, j + 1, defs)
    }
}

/// `sp_sub_covered` holds exactly when every position's leftover is empty.
pub proof fn lemma_sp_sub_covered(aargs: Seq<SpaceV>, bargs: Seq<SpaceV>, j: int, defs: Seq<TyDefV>)
    requires
        0 <= j,
        aargs.len() == bargs.len(),
    ensures
        sp_sub_covered(aargs, bargs, j, defs) <==> (forall|i: int|
            j <= i < aargs.len() ==> sp_is_empty(sp_sub(#[trigger] aargs[i], bargs[i], defs))),
    decreases aargs.len() - j,
{
    if j < aargs.len() {
        lemma_sp_sub_covered(aargs, bargs, j + 1, defs);
    }
}

/// The per-position leftover spaces of a field-wise subtraction, from
/// position `t` on: at position `t` the field's own leftover, at every
/// other position the original minuend field.
pub open spec fn sp_sub_positions(
    name: Seq<char>,
    aargs: Seq<SpaceV>,
    bargs: Seq<SpaceV>,
    t: int,
    defs: Seq<TyDefV>,
) -> Seq<SpaceV>
    decreases m2_seq(bargs, defs), aargs.len() - t, 1int,
{
    if t < 0 {
        sp_sub_positions(name, aargs, bargs, 0, defs)
    } else if t >= aargs.len() || t >= bargs.len() {
        Seq::empty()
    } else {
        proof {
            lemma_m2_member(bargs, t, defs);
        }
        seq![
            SpaceV::Constructor {
                name: name,
                args: aargs.update(t, sp_sub(aargs[t], bargs[t], defs)),
            },
        ] + sp_sub_positions(name, aargs, bargs, t + 1, defs)
    }
}

/// `sp_sub_positions` maps positions elementwise.
pub proof fn lemma_sp_sub_positions(
    name: Seq<char>,
    aargs: Seq<SpaceV>,
    bargs: Seq<SpaceV>,
    t: int,
    defs: Seq<TyDefV>,
)
    requires
        0 <= t <= aargs.len(),
        aargs.len() == bargs.len(),
    ensures
        sp_sub_positions(name, aargs, bargs, t, defs).len() == aargs.len() - t,
        forall|i: int| t <= i < aargs.len() ==> sp_sub_positions(name, aargs, bargs, t, defs)[i - t]
            == (SpaceV::Constructor {
                name: name,
                args: aargs.update(i, sp_sub(#[trigger] aargs[i], bargs[i], defs)),
            }),
    decreases aargs.len() - t,
{
    if t < aargs.len() {
        lemma_sp_sub_positions(name, aargs, bargs, t + 1, defs);
    }
}

/// The decomposed constructor space of each constructor from `j` on: the
/// constructor applied to the type spaces of its declared fields.
pub open spec fn dec_ctors(cs: Seq<crate::ty_system::CtorDefV>, j: int, defs: Seq<TyDefV>) -> Seq<SpaceV>
    decreases cs.len() - j,
{
    if j < 0 {
        dec_ctors(cs, 0, defs)
    } else if j >= cs.len() {
        Seq::empty()
    } else {
        seq![sp_decompose(SpaceV::Ty(TyV::Constructor { name: cs[j].name }), defs)]
            + dec_ctors(cs, j + 1, defs)
    }
}

/// `dec_ctors` maps positions elementwise.
pub proof fn lemma_dec_ctors(cs: Seq<crate::ty_system::CtorDefV>, j: int, defs: Seq<TyDefV>)
    requires
        0 <= j <= cs.len(),
    ensures
        dec_ctors(cs, j, defs).len() == cs.len() - j,
        forall|q: int| j <= q < cs.len() ==> dec_ctors(cs, j, defs)[q - j]
            == sp_decompose(SpaceV::Ty(TyV::Constructor { name: (#[trigger] cs[q]).name }), defs),
    decreases cs.len() - j,
{
    if j < cs.len() {
        lemma_dec_ctors(cs, j + 1, defs);
    }
}

/// Flattening a sequence whose head is the empty union and whose other
/// members are not unions drops the head.
pub proof fn lemma_flatten_head_empty(ss: Seq<SpaceV>)
    requires
        ss.len() >= 1,
        ss[0] == SpaceV::Union(Seq::<SpaceV>::empty()),
        forall|i: int| 1 <= i < ss.len() ==> !(#[trigger] ss[i] is Union),
    ensures
        crate::space::sp_flatten(ss) == ss.skip(1),
    decreases ss.len(),
{
    if ss.len() == 1 {
        assert(ss.last() == ss[0]);
        assert(ss.drop_last().len() == 0);
        assert(crate::space::sp_flatten(ss.drop_last()) =~= Seq::<SpaceV>::empty());
        assert(crate::space::sp_flatten(Seq::<SpaceV>::empty()) =~= Seq::<SpaceV>::empty());
        assert(crate::space::sp_flatten_one(ss.last()) == crate::space::sp_flatten(Seq::<SpaceV>::empty()));
        assert(crate::space::sp_flatten(ss) =~= ss.skip(1));
    } else {
        assert(ss.drop_last()[0] == ss[0]);
        assert(forall|i: int| 1 <= i < ss.drop_last().len() ==> !(#[trigger] ss.drop_last()[i] is Union));
        lemma_flatten_head_empty(ss.drop_last());
        assert(!(ss.last() is Union));
        assert(crate::space::sp_flatten_one(ss.last()) == seq![ss.last()]);
        assert(crate::space::sp_flatten(ss) =~= ss.skip(1));
    }
}

/// Flattening a sequence of empty unions leaves nothing.
pub proof fn lemma_flatten_empty_unions(ss: Seq<SpaceV>)
    requires
        forall|i: int| 0 <= i < ss.len() ==> (#[trigger] ss[i]) == SpaceV::Union(Seq::<SpaceV>::empty()),
    ensures
        crate::space::sp_flatten(ss) == Seq::<SpaceV>::empty(),
    decreases ss.len(),
{
    if ss.len() > 0 {
        assert(forall|i: int| 0 <= i < ss.drop_last().len()
            ==> (#[trigger] ss.drop_last()[i]) == SpaceV::Union(Seq::<SpaceV>::empty()));
        lemma_flatten_empty_unions(ss.drop_last());
        assert(ss.last() == ss[ss.len() - 1]);
        assert(crate::space::sp_flatten_one(ss.last()) =~= Seq::<SpaceV>::empty());
        assert(crate::space::sp_flatten(ss) =~= Seq::<SpaceV>::empty());
    }
}

/// Subtracting a type space from itself leaves nothing: every type is a
/// subtype of itself.
pub proof fn lemma_sub_ty_self(t: TyV, defs: Seq<TyDefV>)
    ensures
        sp_sub(SpaceV::Ty(t), SpaceV::Ty(t), defs) == SpaceV::Union(Seq::<SpaceV>::empty()),
{
    match t {
        TyV::Enum { name } => {
            assert(is_subtype_of_v(defs, t, t));
        },
        TyV::Constructor { name } => {
            assert(is_subtype_of_v(defs, t, t));
        },
    }
}

/// How one constructor case of an enum behaves under subtraction of
/// another case, in a well-formed catalog: the case subtracted from
/// itself (as a type space or a decomposed constructor space) leaves
/// nothing, and a different case leaves the decomposed constructor space
/// unchanged.
pub proof fn lemma_enum_case_sub(defs: Seq<TyDefV>, ename: Seq<char>, i: int, j: int)
    requires
        crate::ty_system::td_wf(defs),
        find_enum(defs, ename) is Some,
        0 <= i < find_enum(defs, ename)->Some_0.len(),
        0 <= j < find_enum(defs, ename)->Some_0.len(),
    ensures
        ({
            let cs = find_enum(defs, ename)->Some_0;
            let ti = SpaceV::Ty(TyV::Constructor { name: cs[i].name });
            let tj = SpaceV::Ty(TyV::Constructor { name: cs[j].name });
            let di = sp_decompose(ti, defs);
            let dj = sp_decompose(tj, defs);
            let none = SpaceV::Union(Seq::<SpaceV>::empty());
            &&& di matches SpaceV::Constructor { name, args } && name == cs[i].name
            &&& sp_sub(ti, tj, defs) == (if i == j { none } else { di })
            &&& sp_sub(di, tj, defs) == (if i == j { none } else { di })
            &&& sp_sub(di, dj, defs) == (if i == j { none } else { di })
            &&& sp_sub(ti, dj, defs) == (if i == j { none } else { di })
        }),
{
    let cs = find_enum(defs, ename)->Some_0;
    let ti = SpaceV::Ty(TyV::Constructor { name: cs[i].name });
    let tj = SpaceV::Ty(TyV::Constructor { name: cs[j].name });
    crate::ty_system::lemma_find_ctor_of(defs, ename, i);
    crate::ty_system::lemma_find_ctor_of(defs, ename, j);
    let di = sp_decompose(ti, defs);
    let dj = sp_decompose(tj, defs);
    let iargs = Seq::new(cs[i].arg_tys.len(), |q: int| SpaceV::Ty(cs[i].arg_tys[q]));
    assert(di == SpaceV::Constructor { name: cs[i].name, args: iargs });
    assert(sp_can_decompose(ti, defs));
    assert(sp_can_decompose(tj, defs));

    if i == j {
        assert(cs[i].name == cs[j].name);
        // The type space of the case minus itself: a subtype of itself.
        lemma_sub_ty_self(TyV::Constructor { name: cs[i].name }, defs);
        // The decomposed case minus its own type: the whole constructor
        // is covered.
        assert(ty_is_constructor_of_name(TyV::Constructor { name: cs[j].name }, cs[i].name));
        assert(sp_sub(di, tj, defs) == SpaceV::Union(Seq::<SpaceV>::empty()));
        // The decomposed case minus itself: every field position is
        // covered by itself.
        assert forall|q: int| 0 <= q < iargs.len()
            implies sp_is_empty(sp_sub(#[trigger] iargs[q], iargs[q], defs)) by {
            lemma_sub_ty_self(cs[i].arg_tys[q], defs);
        }
        lemma_sp_sub_covered(iargs, iargs, 0, defs);
        assert(sp_sub_covered(iargs, iargs, 0, defs));
        assert(sp_sub(di, dj, defs) == SpaceV::Union(Seq::<SpaceV>::empty()));
        // The type space of the case minus the decomposed case: the case
        // splits and is then covered field-wise.
        lemma_ph_decompose(ti, defs);
        assert(sp_sub(ti, dj, defs) == sp_sub(di, dj, defs));
    } else {
        // Distinct positions carry distinct names in a well-formed
        // catalog.
        crate::ty_system::lemma_find_enum_witness(defs, ename, 0);
        let w = choose|w: int| 0 <= w < defs.len() && (#[trigger] defs[w].name) == ename
            && defs[w].constructors == cs;
        assert(defs[w].constructors[i].name != defs[w].constructors[j].name);
        assert(cs[i].name != cs[j].name);
        assert(!is_subtype_of_v(defs, TyV::Constructor { name: cs[i].name }, TyV::Constructor { name: cs[j].name }));
        // The decomposed case minus the other case's type space: the
        // other case's constructor covers none of it.
        assert(!ty_is_constructor_of_name(TyV::Constructor { name: cs[j].name }, cs[i].name));
        assert(sp_sub(di, tj, defs) == sp_sub_unfold_rhs(di, TyV::Constructor { name: cs[j].name }, defs));
        assert(sp_sub(di, tj, defs) == di);
        // The decomposed case minus the other decomposed case: different
        // constructors are disjoint.
        assert(sp_sub(di, dj, defs) == di);
        // The type space splits first, then the cases above apply.
        assert(sp_sub(ti, tj, defs) == sp_sub(di, tj, defs));
        assert(sp_sub(ti, dj, defs) == sp_sub(di, dj, defs));
    }
}

/// One step of subtracting an enum's cases in declaration order: from the
/// union of the decomposed cases `j..`, subtracting case `j` (as a type
/// space or as its decomposed constructor space) leaves the union of the
/// cases `j + 1..`.
pub proof fn lemma_enum_fold_step(defs: Seq<TyDefV>, ename: Seq<char>, j: int, k_space: SpaceV)
    requires
        crate::ty_system::td_wf(defs),
        find_enum(defs, ename) is Some,
        0 <= j < find_enum(defs, ename)->Some_0.len(),
        k_space == SpaceV::Ty(TyV::Constructor { name: find_enum(defs, ename)->Some_0[j].name })
            || k_space == sp_decompose(
            SpaceV::Ty(TyV::Constructor { name: find_enum(defs, ename)->Some_0[j].name }),
            defs,
        ),
    ensures
        sp_sub(sp_new_union(dec_ctors(find_enum(defs, ename)->Some_0, j, defs)), k_space, defs)
            == sp_new_union(dec_ctors(find_enum(defs, ename)->Some_0, j + 1, defs)),
{
    let cs = find_enum(defs, ename)->Some_0;
    let n = cs.len() as int;
    let dcs = dec_ctors(cs, j, defs);
    lemma_dec_ctors(cs, j, defs);
    lemma_dec_ctors(cs, j + 1, defs);
    assert forall|q: int| 0 <= q < dcs.len() implies !(#[trigger] dcs[q] is Union)
        && !sp_is_empty(dcs[q]) by {
        lemma_enum_case_sub(defs, ename, j + q, j);
    }
    crate::space_from_ty::lemma_flatten_id(dcs);
    assert(!sp_is_empty(k_space));
    if dcs.len() == 1 {
        assert(sp_new_union(dcs) == dcs[0]);
        lemma_enum_case_sub(defs, ename, j, j);
        assert(sp_sub(dcs[0], k_space, defs) == SpaceV::Union(Seq::<SpaceV>::empty()));
        assert(dec_ctors(cs, j + 1, defs).len() == 0);
        assert(crate::space::sp_flatten(dec_ctors(cs, j + 1, defs)) =~= Seq::<SpaceV>::empty());
        assert(sp_new_union(dec_ctors(cs, j + 1, defs)) == SpaceV::Union(Seq::<SpaceV>::empty()));
    } else {
        assert(sp_new_union(dcs) == SpaceV::Union(dcs));
        assert(!sp_is_empty(dcs[0]));
        crate::space::lemma_all_empty_from(dcs, 0);
        assert(!sp_is_empty(SpaceV::Union(dcs)));
        let es = sp_sub_each(dcs, k_space, defs);
        lemma_sp_sub_each(dcs, k_space, defs);
        assert(sp_sub(SpaceV::Union(dcs), k_space, defs) == sp_new_union(es));
        assert forall|q: int| 0 <= q < es.len() implies #[trigger] es[q] == (if q == 0 {
            SpaceV::Union(Seq::<SpaceV>::empty())
        } else {
            dcs[q]
        }) by {
            lemma_enum_case_sub(defs, ename, j + q, j);
        }
        assert(es[0] == SpaceV::Union(Seq::<SpaceV>::empty()));
        assert(forall|q: int| 1 <= q < es.len() ==> !(#[trigger] es[q] is Union));
        lemma_flatten_head_empty(es);
        assert(crate::space::sp_flatten(es) =~= dec_ctors(cs, j + 1, defs));
        crate::space_from_ty::lemma_flatten_id(dec_ctors(cs, j + 1, defs));
        assert(sp_new_union(es) == sp_new_union(dec_ctors(cs, j + 1, defs)));
    }
}

/// Folding the first `m` case subtractions over the enum's own type
/// space, in declaration order, leaves the union of the decomposed cases
/// from `m` on.
pub proof fn lemma_enum_fold(defs: Seq<TyDefV>, ename: Seq<char>, bs: Seq<SpaceV>, m: int)
    requires
        crate::ty_system::td_wf(defs),
        find_enum(defs, ename) is Some,
        0 <= m <= bs.len(),
        bs.len() <= find_enum(defs, ename)->Some_0.len(),
        forall|q: int| 0 <= q < bs.len() ==> #[trigger] bs[q] == SpaceV::Ty(
            TyV::Constructor { name: find_enum(defs, ename)->Some_0[q].name },
        ) || bs[q] == sp_decompose(
            SpaceV::Ty(TyV::Constructor { name: find_enum(defs, ename)->Some_0[q].name }),
            defs,
        ),
    ensures
        sp_sub_fold(SpaceV::Ty(TyV::Enum { name: ename }), bs.take(m), defs) == (if m == 0 {
            SpaceV::Ty(TyV::Enum { name: ename })
        } else {
            sp_new_union(dec_ctors(find_enum(defs, ename)->Some_0, m, defs))
        }),
    decreases m,
{
    let cs = find_enum(defs, ename)->Some_0;
    let n = cs.len() as int;
    let te = SpaceV::Ty(TyV::Enum { name: ename });
    if m == 0 {
        assert(bs.take(0).len() == 0);
    } else {
        lemma_enum_fold(defs, ename, bs, m - 1);
        assert(bs.take(m).drop_last() =~= bs.take(m - 1));
        assert(bs.take(m).last() == bs[m - 1]);
        assert(sp_sub_fold(te, bs.take(m), defs)
            == sp_sub(sp_sub_fold(te, bs.take(m - 1), defs), bs[m - 1], defs));
        if m == 1 {
            // The first subtraction splits the enum type space into its
            // constructor cases.
            let ts = ctor_ty_spaces(cs);
            assert(sp_can_decompose(te, defs));
            assert(!sp_is_empty(te));
            assert(!sp_is_empty(bs[0]));
            lemma_ph_decompose(te, defs);
            assert(sp_sub(te, bs[0], defs) == sp_sub(sp_decompose(te, defs), bs[0], defs));
            assert(forall|q: int| 0 <= q < ts.len() ==> #[trigger] ts[q] == SpaceV::Ty(
                TyV::Constructor { name: cs[q].name },
            ));
            assert(forall|q: int| 0 <= q < ts.len() ==> !(#[trigger] ts[q] is Union));
            crate::space_from_ty::lemma_flatten_id(ts);
            if n == 1 {
                assert(sp_decompose(te, defs) == ts[0]);
                lemma_enum_case_sub(defs, ename, 0, 0);
                assert(sp_sub(ts[0], bs[0], defs) == SpaceV::Union(Seq::<SpaceV>::empty()));
                lemma_dec_ctors(cs, 1, defs);
                assert(dec_ctors(cs, 1, defs).len() == 0);
                assert(crate::space::sp_flatten(dec_ctors(cs, 1, defs)) =~= Seq::<SpaceV>::empty());
            } else {
                assert(sp_decompose(te, defs) == SpaceV::Union(ts));
                assert(!sp_is_empty(ts[0]));
                crate::space::lemma_all_empty_from(ts, 0);
                assert(!sp_is_empty(SpaceV::Union(ts)));
                let es = sp_sub_each(ts, bs[0], defs);
                lemma_sp_sub_each(ts, bs[0], defs);
                assert(sp_sub(SpaceV::Union(ts), bs[0], defs) == sp_new_union(es));
                lemma_dec_ctors(cs, 1, defs);
                assert forall|q: int| 0 <= q < es.len() implies #[trigger] es[q] == (if q == 0 {
                    SpaceV::Union(Seq::<SpaceV>::empty())
                } else {
                    sp_decompose(SpaceV::Ty(TyV::Constructor { name: cs[q].name }), defs)
                }) by {
                    lemma_enum_case_sub(defs, ename, q, 0);
                }
                assert forall|q: int| 1 <= q < es.len() implies !(#[trigger] es[q] is Union) by {
                    lemma_enum_case_sub(defs, ename, q, 0);
                }
                lemma_flatten_head_empty(es);
                assert(crate::space::sp_flatten(es) =~= dec_ctors(cs, 1, defs));
                assert forall|q: int| 0 <= q < dec_ctors(cs, 1, defs).len()
                    implies !(#[trigger] dec_ctors(cs, 1, defs)[q] is Union) by {
                    lemma_enum_case_sub(defs, ename, q + 1, 0);
                }
                crate::space_from_ty::lemma_flatten_id(dec_ctors(cs, 1, defs));
                assert(sp_new_union(es) == sp_new_union(dec_ctors(cs, 1, defs)));
            }
        } else {
            lemma_enum_fold_step(defs, ename, m - 1, bs[m - 1]);
        }
    }
}

/// Law: decomposition preserves meaning. For any registered enum with at
/// least one constructor, subtracting the decomposition of its type space
/// from the type space itself leaves nothing, and so does the subtraction
/// the other way around.
pub proof fn lemma_decompose_preserves_meaning(defs: Seq<TyDefV>, ename: Seq<char>)
    requires
        crate::ty_system::td_wf(defs),
        find_enum(defs, ename) is Some,
        find_enum(defs, ename)->Some_0.len() >= 1,
    ensures
        sp_is_empty(sp_sub(
            SpaceV::Ty(TyV::Enum { name: ename }),
            sp_decompose(SpaceV::Ty(TyV::Enum { name: ename }), defs),
            defs,
        )),
        sp_is_empty(sp_sub(
            sp_decompose(SpaceV::Ty(TyV::Enum { name: ename }), defs),
            SpaceV::Ty(TyV::Enum { name: ename }),
            defs,
        )),
{
    let cs = find_enum(defs, ename)->Some_0;
    let n = cs.len() as int;
    let te = SpaceV::Ty(TyV::Enum { name: ename });
    let ts = ctor_ty_spaces(cs);
    let d = sp_decompose(te, defs);
    assert(forall|q: int| 0 <= q < ts.len() ==> #[trigger] ts[q] == SpaceV::Ty(
        TyV::Constructor { name: cs[q].name },
    ));
    assert(forall|q: int| 0 <= q < ts.len() ==> !(#[trigger] ts[q] is Union));
    crate::space_from_ty::lemma_flatten_id(ts);

    // Every constructor case is a subtype of the enum itself.
    assert forall|q: int| 0 <= q < n implies is_subtype_of_v(
        defs,
        TyV::Constructor { name: cs[q].name },
        TyV::Enum { name: ename },
    ) by {
        crate::ty_system::lemma_find_ctor_in_present(cs, q, 0);
        assert(crate::ty_system::find_ctor_in(cs, cs[q].name, 0) is Some);
    }

    // The enum's type space minus its decomposition: subtract the cases
    // in order; every case removes itself.
    if n == 1 {
        assert(d == ts[0]);
        assert(sp_sub_fold(te, ts.take(0), defs) == te);
        assert(ts.take(1).drop_last() =~= ts.take(0));
        assert(ts.take(1).last() == ts[0]);
        lemma_enum_fold(defs, ename, ts, 1);
        assert(sp_sub_fold(te, ts.take(1), defs) == sp_sub(te, ts[0], defs));
        assert(sp_sub(te, d, defs) == sp_new_union(dec_ctors(cs, 1, defs)));
        lemma_dec_ctors(cs, 1, defs);
        assert(dec_ctors(cs, 1, defs).len() == 0);
        assert(crate::space::sp_flatten(dec_ctors(cs, 1, defs)) =~= Seq::<SpaceV>::empty());
        assert(sp_is_empty(sp_sub(te, d, defs)));
    } else {
        assert(d == SpaceV::Union(ts));
        assert(!sp_is_empty(te));
        assert(!sp_is_empty(ts[0]));
        crate::space::lemma_all_empty_from(ts, 0);
        assert(!sp_is_empty(d));
        assert(sp_sub(te, d, defs) == sp_sub_fold(te, ts, defs));
        assert(ts.take(n) =~= ts);
        lemma_enum_fold(defs, ename, ts, n);
        assert(sp_sub(te, d, defs) == sp_new_union(dec_ctors(cs, n, defs)));
        lemma_dec_ctors(cs, n, defs);
        assert(dec_ctors(cs, n, defs).len() == 0);
        assert(crate::space::sp_flatten(dec_ctors(cs, n, defs)) =~= Seq::<SpaceV>::empty());
        assert(sp_is_empty(sp_sub(te, d, defs)));
    }

    // The decomposition minus the enum's type space: every case is a
    // subtype of the enum and vanishes.
    if n == 1 {
        assert(sp_sub(d, te, defs) == SpaceV::Union(Seq::<SpaceV>::empty()));
    } else {
        let es = sp_sub_each(ts, te, defs);
        lemma_sp_sub_each(ts, te, defs);
        assert(sp_sub(d, te, defs) == sp_new_union(es));
        assert forall|q: int| 0 <= q < es.len() implies #[trigger] es[q] == SpaceV::Union(
            Seq::<SpaceV>::empty(),
        ) by {
            assert(es[q] == sp_sub(ts[q], te, defs));
        }
        lemma_flatten_empty_unions(es);
        assert(sp_new_union(es) == SpaceV::Union(Seq::<SpaceV>::empty()));
        assert(sp_is_empty(sp_sub(d, te, defs)));
    }
}

/// Folding subtractions over an empty minuend keeps it empty.
pub proof fn lemma_fold_of_empty(a: SpaceV, parts: Seq<SpaceV>, defs: Seq<TyDefV>)
    requires
        sp_is_empty(a),
    ensures
        sp_is_empty(sp_sub_fold(a, parts, defs)),
    decreases parts.len(),
{
    if parts.len() > 0 {
        lemma_fold_of_empty(a, parts.drop_last(), defs);
        let prev = sp_sub_fold(a, parts.drop_last(), defs);
        assert(sp_sub_fold(a, parts, defs) == sp_sub(prev, parts.last(), defs));
        assert(sp_sub(prev, parts.last(), defs) == SpaceV::Union(Seq::<SpaceV>::empty()));
        assert(sp_is_empty(SpaceV::Union(Seq::<SpaceV>::empty())));
    }
}

/// Folding over a concatenation folds over each piece in turn.
pub proof fn lemma_fold_append(a: SpaceV, s: Seq<SpaceV>, t: Seq<SpaceV>, defs: Seq<TyDefV>)
    ensures
        sp_sub_fold(a, s + t, defs) == sp_sub_fold(sp_sub_fold(a, s, defs), t, defs),
    decreases t.len(),
{
    if t.len() == 0 {
        assert(s + t =~= s);
    } else {
        assert((s + t).drop_last() =~= s + t.drop_last());
        assert((s + t).last() == t.last());
        lemma_fold_append(a, s, t.drop_last(), defs);
    }
}

/// Flattening a concatenation concatenates the flattenings.
pub proof fn lemma_flatten_append(s: Seq<SpaceV>, t: Seq<SpaceV>)
    ensures
        crate::space::sp_flatten(s + t) == crate::space::sp_flatten(s) + crate::space::sp_flatten(t),
    decreases t.len(),
{
    if t.len() == 0 {
        assert(s + t =~= s);
        assert(crate::space::sp_flatten(t) =~= Seq::<SpaceV>::empty());
        assert(crate::space::sp_flatten(s) + crate::space::sp_flatten(t) =~= crate::space::sp_flatten(s));
    } else {
        assert((s + t).drop_last() =~= s + t.drop_last());
        assert((s + t).last() == t.last());
        lemma_flatten_append(s, t.drop_last());
        assert(crate::space::sp_flatten(s + t) =~= crate::space::sp_flatten(s) + crate::space::sp_flatten(t));
    }
}

/// Subtracting a freshly built union from a non-union, non-empty space
/// folds the subtraction over the union's flattened members.
pub proof fn lemma_sub_new_union(a: SpaceV, ss: Seq<SpaceV>, defs: Seq<TyDefV>)
    requires
        !(a is Union),
        !sp_is_empty(a),
    ensures
        sp_sub(a, sp_new_union(ss), defs) == sp_sub_fold(a, crate::space::sp_flatten(ss), defs),
{
    let f = crate::space::sp_flatten(ss);
    crate::space::lemma_flatten_no_union(ss);
    if f.len() == 0 {
        assert(sp_new_union(ss) == SpaceV::Union(f));
        assert(sp_is_empty(sp_new_union(ss)));
        assert(sp_sub(a, sp_new_union(ss), defs) == a);
    } else if f.len() == 1 {
        assert(sp_new_union(ss) == f[0]);
        assert(f.drop_last().len() == 0);
        assert(f.last() == f[0]);
        assert(sp_sub_fold(a, f, defs) == sp_sub(sp_sub_fold(a, f.drop_last(), defs), f[0], defs));
        assert(sp_sub_fold(a, f.drop_last(), defs) == a);
    } else {
        assert(sp_new_union(ss) == SpaceV::Union(f));
        // A flattened member is never a union, and only unions can be
        // empty, so the union of one or more flattened members is not
        // empty.
        assert(!(f[0] is Union));
        assert(!sp_is_empty(f[0]));
        crate::space::lemma_all_empty_from(f, 0);
        assert(!sp_is_empty(SpaceV::Union(f)));
        assert(sp_sub(a, SpaceV::Union(f), defs) == sp_sub_fold(a, f, defs));
    }
}

/// Compute the subtraction of two well-formed spaces: the values in
/// `first` that `second` does not cover.
pub fn space_subtraction(first: Space, second: Space, td: &TyDatabase) -> (r: Space)
    requires
        sp_wf(first@, td@),
        sp_wf(second@, td@),
    ensures
        r@ == sp_sub(first@, second@, td@),
        sp_wf(r@, td@),
    decreases m2(second@, td@), ph(first@, td@), 1int,
{
    // Subtracting anything from an empty space leaves it empty.
    if first.is_empty() {
        return Space::new_empty();
    }
    // Subtracting an empty space changes nothing.
    if second.is_empty() {
        return first;
    }

    match (first, second) {
        // (x | y) \ z = (x \ z) | (y \ z)
        (Space::Union(parts), second) => {
            let results = sub_each(&parts, &second, td);
            proof {
                lemma_spaces_view(results@);
                lemma_wf_from(spaces_view(results@), 0, td@);
                lemma_new_union_wf(spaces_view(results@), td@);
            }
            Space::new_union(results)
        },
        // x \ (y | z) = (x \ y) \ z
        (first, Space::Union(parts)) => {
            sub_fold(first, &parts, td)
        },
        (Space::Ty(ta), Space::Ty(tb)) => {
            // A subtype's space minus its supertype's space is empty.
            if td.is_subtype_of(&ta, &tb) {
                Space::new_empty()
            } else {
                let a = Space::Ty(ta);
                if space_can_decompose(&a, td) {
                    proof {
                        lemma_ph_decompose(a@, td@);
                        lemma_decompose_wf(a@, td@);
                    }
                    space_subtraction(space_decompose(a, td), Space::Ty(tb), td)
                } else {
                    sub_unfold_rhs(a, tb, td)
                }
            }
        },
        (Space::Ty(ta), Space::Constructor { name, args }) => {
            // Split the left type space into its constructor cases and
            // retry; that also handles subtracting a constructor space
            // from its own constructor's type space.
            let a = Space::Ty(ta);
            let b = Space::Constructor { name, args };
            if space_can_decompose(&a, td) {
                proof {
                    lemma_ph_decompose(a@, td@);
                    lemma_decompose_wf(a@, td@);
                }
                space_subtraction(space_decompose(a, td), b, td)
            } else {
                a
            }
        },
        (Space::Constructor { name, args }, Space::Ty(tb)) => {
            // A constructor space minus the type that contains it is
            // empty.
            if tb.is_constructor_of_name(&name) {
                Space::new_empty()
            } else {
                sub_unfold_rhs(Space::Constructor { name, args }, tb, td)
            }
        },
        (
            Space::Constructor { name, args },
            Space::Constructor { name: second_name, args: second_args },
        ) => {
            if name == second_name {
                let ghost av = spaces_view(args@);
                let ghost bv = spaces_view(second_args@);
                proof {
                    lemma_spaces_view(args@);
                    lemma_spaces_view(second_args@);
                }
                // Same constructor, therefore the same declared arity.
                if sub_covered(&args, &second_args, td) {
                    Space::new_empty()
                } else {
                    let spaces = sub_positions(&name, &args, &second_args, td);
                    proof {
                        lemma_spaces_view(spaces@);
                        lemma_wf_from(spaces_view(spaces@), 0, td@);
                        lemma_new_union_wf(spaces_view(spaces@), td@);
                    }
                    Space::new_union(spaces)
                }
            } else {
                Space::Constructor { name, args }
            }
        },
    }
}

/// Unfold a decomposable type space on the right-hand side of a
/// subtraction and subtract its constructor cases in order. A constructor
/// type on the right, or an unregistered enum, leaves the minuend
/// unchanged, as the retry against the decomposed space would.
fn sub_unfold_rhs(a: Space, tb: Ty, td: &TyDatabase) -> (r: Space)
    requires
        sp_wf(a@, td@),
    ensures
        r@ == sp_sub_unfold_rhs(a@, tb@, td@),
        sp_wf(r@, td@),
    decreases m2(SpaceV::Ty(tb@), td@), ph(a@, td@), 0int,
{
    match tb {
        Ty::Enum { name } => {
            let constructor_definitions = match td.find_enum_definition(&name) {
                Some(x) => x,
                None => {
                    return a;
                },
            };
            let ghost ctors = find_enum(td@, name@)->Some_0;
            let n = constructor_definitions.len();
            let mut cases: Vec<Space> = Vec::new();
            for i in 0..n
                invariant
                    n == constructor_definitions.len(),
                    ctors =~= Seq::new(constructor_definitions@.len(), |q: int| constructor_definitions@[q]@),
                    cases@.len() == i,
                    forall|k: int| 0 <= k < i ==> space_view(#[trigger] cases@[k])
                        == SpaceV::Ty(TyV::Constructor { name: ctors[k].name }),
            {
                proof {
                    assert(ctors[i as int] == constructor_definitions@[i as int]@);
                }
                let kd_name = constructor_definitions[i].name.clone();
                cases.push(Space::Ty(Ty::Constructor { name: kd_name }));
            }
            proof {
                lemma_spaces_view(cases@);
                assert(spaces_view(cases@) =~= ctor_ty_spaces(ctors));
                lemma_wf_from(spaces_view(cases@), 0, td@);
                lemma_m2_ctor_ty_spaces(ctors, td@);
            }
            sub_fold(a, &cases, td)
        },
        Ty::Constructor { .. } => a,
    }
}

/// Subtract `b` from each part.
fn sub_each(parts: &Vec<Space>, b: &Space, td: &TyDatabase) -> (r: Vec<Space>)
    requires
        sp_wf_from(spaces_view(parts@), 0, td@),
        sp_wf(b@, td@),
    ensures
        spaces_view(r@) == sp_sub_each(spaces_view(parts@), b@, td@),
        sp_wf_from(spaces_view(r@), 0, td@),
    decreases m2(b@, td@), crate::space_from_ty::ph_seq(spaces_view(parts@), td@), parts@.len() + 2,
{
    let ghost pv = spaces_view(parts@);
    proof {
        lemma_spaces_view(parts@);
        lemma_wf_from(pv, 0, td@);
    }
    let mut results: Vec<Space> = Vec::new();
    let n = parts.len();
    for i in 0..n
        invariant
            n == parts.len(),
            pv == spaces_view(parts@),
            pv.len() == n,
            sp_wf(b@, td@),
            forall|k: int| 0 <= k < n ==> sp_wf(#[trigger] pv[k], td@),
            results@.len() == i,
            forall|k: int| 0 <= k < i ==> space_view(#[trigger] results@[k]) == sp_sub(pv[k], b@, td@),
            forall|k: int| 0 <= k < i ==> sp_wf(space_view(#[trigger] results@[k]), td@),
    {
        let m = parts[i].deep_clone();
        let s2 = b.deep_clone();
        proof {
            lemma_spaces_view(parts@);
            crate::space_from_ty::lemma_ph_member(pv, i as int, td@);
        }
        let r1 = space_subtraction(m, s2, td);
        results.push(r1);
    }
    proof {
        lemma_spaces_view(results@);
        lemma_sp_sub_each(pv, b@, td@);
        assert(spaces_view(results@) =~= sp_sub_each(pv, b@, td@));
        lemma_wf_from(spaces_view(results@), 0, td@);
    }
    results
}

/// Fold subtraction of every part over `first`, left to right.
fn sub_fold(first: Space, parts: &Vec<Space>, td: &TyDatabase) -> (r: Space)
    requires
        sp_wf(first@, td@),
        sp_wf_from(spaces_view(parts@), 0, td@),
    ensures
        r@ == sp_sub_fold(first@, spaces_view(parts@), td@),
        sp_wf(r@, td@),
    decreases m2_seq(spaces_view(parts@), td@), parts@.len(), 0int,
{
    let ghost pv = spaces_view(parts@);
    let ghost first0 = first@;
    proof {
        lemma_spaces_view(parts@);
        lemma_wf_from(pv, 0, td@);
        assert(pv.take(0) =~= Seq::<SpaceV>::empty());
    }
    let mut acc = first;
    let n = parts.len();
    for i in 0..n
        invariant
            n == parts.len(),
            pv == spaces_view(parts@),
            pv.len() == n,
            forall|k: int| 0 <= k < n ==> sp_wf(#[trigger] pv[k], td@),
            acc@ == sp_sub_fold(first0, pv.take(i as int), td@),
            sp_wf(acc@, td@),
    {
        proof {
            lemma_spaces_view(parts@);
            lemma_m2_member(pv, i as int, td@);
        }
        let p = parts[i].deep_clone();
        acc = space_subtraction(acc, p, td);
        proof {
            assert(pv.take(i + 1).drop_last() =~= pv.take(i as int));
            assert(pv.take(i + 1).last() == pv[i as int]);
        }
    }
    proof {
        assert(pv.take(n as int) =~= pv);
    }
    acc
}

/// Is each field of `aargs` covered by the corresponding field of
/// `bargs`?
fn sub_covered(aargs: &Vec<Space>, bargs: &Vec<Space>, td: &TyDatabase) -> (r: bool)
    requires
        aargs@.len() == bargs@.len(),
        sp_wf_from(spaces_view(aargs@), 0, td@),
        sp_wf_from(spaces_view(bargs@), 0, td@),
    ensures
        r == sp_sub_covered(spaces_view(aargs@), spaces_view(bargs@), 0, td@),
    decreases m2_seq(spaces_view(bargs@), td@), 0int, 0int,
{
    let ghost av = spaces_view(aargs@);
    let ghost bv = spaces_view(bargs@);
    proof {
        lemma_spaces_view(aargs@);
        lemma_spaces_view(bargs@);
        lemma_wf_from(av, 0, td@);
        lemma_wf_from(bv, 0, td@);
    }
    let n = aargs.len();
    for i in 0..n
        invariant
            n == aargs.len(),
            n == bargs.len(),
            av == spaces_view(aargs@),
            bv == spaces_view(bargs@),
            av.len() == n,
            bv.len() == n,
            forall|k: int| 0 <= k < n ==> sp_wf(#[trigger] av[k], td@),
            forall|k: int| 0 <= k < n ==> sp_wf(#[trigger] bv[k], td@),
            forall|k: int| 0 <= k < i ==> sp_is_empty(sp_sub(#[trigger] av[k], bv[k], td@)),
    {
        proof {
            lemma_spaces_view(aargs@);
            lemma_spaces_view(bargs@);
            lemma_m2_member(bv, i as int, td@);
        }
        let fa = aargs[i].deep_clone();
        let fb = bargs[i].deep_clone();
        proof {
            assert(fa@ == av[i as int]);
            assert(fb@ == bv[i as int]);
        }
        let leak = space_subtraction(fa, fb, td);
        if !leak.is_empty() {
            proof {
                assert(!sp_is_empty(sp_sub(av[i as int], bv[i as int], td@)));
                lemma_sp_sub_covered(av, bv, 0, td@);
            }
            return false;
        }
    }
    proof {
        lemma_sp_sub_covered(av, bv, 0, td@);
    }
    true
}

/// Build one space per field position: the field's leftover at that
/// position, the original minuend fields at the others.
fn sub_positions(name: &String, aargs: &Vec<Space>, bargs: &Vec<Space>, td: &TyDatabase) -> (r: Vec<Space>)
    requires
        aargs@.len() == bargs@.len(),
        sp_wf(SpaceV::Constructor { name: name@, args: spaces_view(aargs@) }, td@),
        sp_wf_from(spaces_view(bargs@), 0, td@),
    ensures
        spaces_view(r@) == sp_sub_positions(name@, spaces_view(aargs@), spaces_view(bargs@), 0, td@),
        sp_wf_from(spaces_view(r@), 0, td@),
    decreases m2_seq(spaces_view(bargs@), td@), 1int, 0int,
{
    let ghost av = spaces_view(aargs@);
    let ghost bv = spaces_view(bargs@);
    proof {
        lemma_spaces_view(aargs@);
        lemma_spaces_view(bargs@);
        lemma_wf_from(av, 0, td@);
        lemma_wf_from(bv, 0, td@);
    }
    let n = aargs.len();
    let mut spaces: Vec<Space> = Vec::new();
    for t in 0..n
        invariant
            n == aargs.len(),
            n == bargs.len(),
            av == spaces_view(aargs@),
            bv == spaces_view(bargs@),
            av.len() == n,
            bv.len() == n,
            sp_wf(SpaceV::Constructor { name: name@, args: av }, td@),
            forall|k: int| 0 <= k < n ==> sp_wf(#[trigger] av[k], td@),
            forall|k: int| 0 <= k < n ==> sp_wf(#[trigger] bv[k], td@),
            spaces@.len() == t,
            forall|k: int| 0 <= k < t ==> space_view(#[trigger] spaces@[k]) == (SpaceV::Constructor {
                name: name@,
                args: av.update(k, sp_sub(av[k], bv[k], td@)),
            }),
            forall|k: int| 0 <= k < t ==> sp_wf(space_view(#[trigger] spaces@[k]), td@),
    {
        let mut new_args: Vec<Space> = Vec::new();
        for idx in 0..n
            invariant
                n == aargs.len(),
                n == bargs.len(),
                av == spaces_view(aargs@),
                bv == spaces_view(bargs@),
                av.len() == n,
                bv.len() == n,
                0 <= t < n,
                forall|k: int| 0 <= k < n ==> sp_wf(#[trigger] av[k], td@),
                forall|k: int| 0 <= k < n ==> sp_wf(#[trigger] bv[k], td@),
                new_args@.len() == idx,
                forall|k: int| 0 <= k < idx ==> space_view(#[trigger] new_args@[k])
                    == av.update(t as int, sp_sub(av[t as int], bv[t as int], td@))[k],
                forall|k: int| 0 <= k < idx ==> sp_wf(space_view(#[trigger] new_args@[k]), td@),
        {
            proof {
                lemma_spaces_view(aargs@);
                lemma_spaces_view(bargs@);
            }
            if idx == t {
                proof {
                    lemma_m2_member(bv, t as int, td@);
                }
                let fa = aargs[idx].deep_clone();
                let fb = bargs[idx].deep_clone();
                proof {
                    assert(fa@ == av[idx as int]);
                    assert(fb@ == bv[idx as int]);
                }
                let leftover = space_subtraction(fa, fb, td);
                new_args.push(leftover);
                proof {
                    assert(space_view(new_args@[idx as int]) == sp_sub(av[t as int], bv[t as int], td@));
                    assert(sp_wf(space_view(new_args@[idx as int]), td@));
                }
            } else {
                let kept = aargs[idx].deep_clone();
                new_args.push(kept);
                proof {
                    assert(space_view(new_args@[idx as int]) == av[idx as int]);
                    assert(sp_wf(space_view(new_args@[idx as int]), td@));
                }
            }
        }
        proof {
            lemma_spaces_view(new_args@);
            assert(spaces_view(new_args@) =~= av.update(t as int, sp_sub(av[t as int], bv[t as int], td@)));
            lemma_wf_from(spaces_view(new_args@), 0, td@);
        }
        spaces.push(Space::Constructor { name: name.clone(), args: new_args });
        proof {
            lemma_spaces_view(spaces@);
        }
    }
    proof {
        lemma_spaces_view(spaces@);
        lemma_sp_sub_positions(name@, av, bv, 0, td@);
        assert(spaces_view(spaces@) =~= sp_sub_positions(name@, av, bv, 0, td@));
        lemma_wf_from(spaces_view(spaces@), 0, td@);
    }
    spaces
}

} // verus!
