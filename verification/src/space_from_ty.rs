//! Making spaces out of types, and decomposing type spaces.

use vstd::pervasive::unreached;
use vstd::prelude::*;

use crate::space::{lemma_new_union_wf, lemma_spaces_view, lemma_wf_from, sp_new_union, sp_wf, space_view, spaces_view, Space, SpaceV};
use crate::ty_system::{find_ctor, find_enum, lemma_find_ctor_name, CtorDefV, Ty, TyDatabase, TyDefV, TyV};

verus! {

/// The space of all values of the given type.
pub open spec fn sp_from_ty(ty: TyV) -> SpaceV {
    SpaceV::Ty(ty)
}

/// Can the space be decomposed? Exactly a type space whose enum (or
/// constructor) is registered in the catalog can.
pub open spec fn sp_can_decompose(s: SpaceV, defs: Seq<TyDefV>) -> bool {
    match s {
        SpaceV::Ty(TyV::Enum { name }) => find_enum(defs, name) is Some,
        SpaceV::Ty(TyV::Constructor { name }) => find_ctor(defs, name) is Some,
        _ => false,
    }
}

/// One decomposition step.
///
/// An enum type space splits into the union of one constructor type space
/// per declared constructor (the case split). A constructor type space
/// becomes a constructor space whose fields are undecomposed type spaces of
/// the declared field types (the field split). Any other space is left as
/// it is; executable code never asks for that case.
/// One constructor type space per constructor definition, in declaration
/// order.
pub open spec fn ctor_ty_spaces(ctors: Seq<CtorDefV>) -> Seq<SpaceV> {
    Seq::new(ctors.len(), |i: int| SpaceV::Ty(TyV::Constructor { name: ctors[i].name }))
}

pub open spec fn sp_decompose(s: SpaceV, defs: Seq<TyDefV>) -> SpaceV {
    match s {
        SpaceV::Ty(TyV::Enum { name }) => {
            let ctors = find_enum(defs, name)->Some_0;
            sp_new_union(ctor_ty_spaces(ctors))
        },
        SpaceV::Ty(TyV::Constructor { name }) => {
            let k = find_ctor(defs, name)->Some_0.1;
            SpaceV::Constructor {
                name: k.name,
                args: Seq::new(k.arg_tys.len(), |i: int| SpaceV::Ty(k.arg_tys[i])),
            }
        },
        _ => s,
    }
}

/// The space of all values of type `ty`.
pub fn space_from_ty(ty: Ty) -> (r: Space)
    ensures
        r@ == sp_from_ty(ty@),
{
    Space::Ty(ty)
}

/// Can `space` be decomposed against the catalog `td`?
pub fn space_can_decompose(space: &Space, td: &TyDatabase) -> (r: bool)
    ensures
        r == sp_can_decompose(space@, td@),
{
    match space {
        Space::Ty(Ty::Enum { name }) => td.find_enum_definition(name).is_some(),
        Space::Ty(Ty::Constructor { name }) => td.find_constructor_definition(name).is_some(),
        _ => false,
    }
}

/// Decompose a type space one step: the case split for an enum type, the
/// field split for a constructor type.
///
/// Asking to decompose a space that cannot be decomposed is a programming
/// contract violation, which the precondition rules out; callers check
/// [`space_can_decompose`] first.
pub fn space_decompose(space: Space, td: &TyDatabase) -> (r: Space)
    requires
        sp_can_decompose(space@, td@),
    ensures
        r@ == sp_decompose(space@, td@),
{
    match space {
        Space::Ty(Ty::Enum { name }) => {
            let constructor_definitions = match td.find_enum_definition(&name) {
                Some(x) => x,
                None => unreached(),
            };
            let ghost ctors = find_enum(td@, name@)->Some_0;
            let n = constructor_definitions.len();
            let mut spaces: Vec<Space> = Vec::new();
            for i in 0..n
                invariant
                    n == constructor_definitions.len(),
                    ctors =~= Seq::new(constructor_definitions@.len(), |q: int| constructor_definitions@[q]@),
                    spaces@.len() == i,
                    forall|k: int| 0 <= k < i ==> space_view(#[trigger] spaces@[k])
                        == SpaceV::Ty(TyV::Constructor { name: ctors[k].name }),
            {
                proof {
                    assert(ctors[i as int] == constructor_definitions@[i as int]@);
                }
                let kd_name = constructor_definitions[i].name.clone();
                spaces.push(Space::Ty(Ty::Constructor { name: kd_name }));
            }
            proof {
                lemma_spaces_view(spaces@);
                assert(spaces_view(spaces@) =~= ctor_ty_spaces(ctors));
            }
            Space::new_union(spaces)
        },
        Space::Ty(Ty::Constructor { name }) => {
            let constructor_definition = match td.find_constructor_definition(&name) {
                Some(x) => x,
                None => unreached(),
            };
            let ghost k = find_ctor(td@, name@)->Some_0.1;
            let m = constructor_definition.arg_tys.len();
            let mut args: Vec<Space> = Vec::new();
            for i in 0..m
                invariant
                    m == constructor_definition.arg_tys.len(),
                    k == constructor_definition@,
                    args@.len() == i,
                    forall|q: int| 0 <= q < i ==> space_view(#[trigger] args@[q])
                        == SpaceV::Ty(k.arg_tys[q]),
            {
                proof {
                    assert(k.arg_tys[i as int] == constructor_definition.arg_tys@[i as int]@);
                }
                let arg_ty = constructor_definition.arg_tys[i].duplicate();
                args.push(Space::Ty(arg_ty));
            }
            proof {
                lemma_spaces_view(args@);
                assert(spaces_view(args@) =~= Seq::new(k.arg_tys.len(), |i: int| SpaceV::Ty(k.arg_tys[i])));
            }
            Space::Constructor { name: constructor_definition.name.clone(), args }
        },
        _ => unreached(),
    }
}


/// Decomposition potential of a type: how many further decomposition steps
/// a type space can trigger. An enum type splits into its constructors and
/// each of those once more; an unregistered type cannot be decomposed.
pub open spec fn ph_ty(t: TyV, defs: Seq<TyDefV>) -> nat {
    match t {
        TyV::Enum { name } => match find_enum(defs, name) {
            Some(ctors) => ctors.len() + 2,
            None => 0,
        },
        TyV::Constructor { name } => if find_ctor(defs, name) is Some {
            1
        } else {
            0
        },
    }
}

/// Decomposition potential of a space: every decomposition step, and every
/// peeling of a union, strictly lowers it.
pub open spec fn ph(s: SpaceV, defs: Seq<TyDefV>) -> nat
    decreases s, 0int,
{
    match s {
        SpaceV::Ty(t) => ph_ty(t, defs),
        SpaceV::Constructor { .. } => 0,
        SpaceV::Union(parts) => 1 + ph_seq(parts, defs),
    }
}

/// Summed decomposition potential of a sequence of spaces.
pub open spec fn ph_seq(parts: Seq<SpaceV>, defs: Seq<TyDefV>) -> nat
    decreases parts, 1int,
{
    if parts.len() == 0 {
        0
    } else {
        ph_seq(parts.drop_last(), defs) + ph(parts.last(), defs)
    }
}

/// Each member's potential is bounded by the sequence's.
pub proof fn lemma_ph_member(parts: Seq<SpaceV>, i: int, defs: Seq<TyDefV>)
    requires
        0 <= i < parts.len(),
    ensures
        ph(parts[i], defs) <= ph_seq(parts, defs),
    decreases parts.len(),
{
    if i < parts.len() - 1 {
        assert(parts.drop_last()[i] == parts[i]);
        lemma_ph_member(parts.drop_last(), i, defs);
    } else {
        assert(parts.last() == parts[i]);
    }
}

/// A sequence whose members all have potential at most one has potential at
/// most its length.
pub proof fn lemma_ph_seq_of_small(parts: Seq<SpaceV>, defs: Seq<TyDefV>)
    requires
        forall|i: int| 0 <= i < parts.len() ==> ph(#[trigger] parts[i], defs) <= 1,
    ensures
        ph_seq(parts, defs) <= parts.len(),
    decreases parts.len(),
{
    if parts.len() > 0 {
        assert(forall|i: int| 0 <= i < parts.drop_last().len()
            ==> ph(#[trigger] parts.drop_last()[i], defs) <= 1);
        lemma_ph_seq_of_small(parts.drop_last(), defs);
        assert(parts.last() == parts[parts.len() - 1]);
    }
}

/// Flattening a sequence with no union members leaves it unchanged.
pub proof fn lemma_flatten_id(ss: Seq<SpaceV>)
    requires
        forall|i: int| 0 <= i < ss.len() ==> !(#[trigger] ss[i] is Union),
    ensures
        crate::space::sp_flatten(ss) == ss,
    decreases ss.len(),
{
    if ss.len() == 0 {
        assert(crate::space::sp_flatten(ss) =~= ss);
    } else {
        assert(forall|i: int| 0 <= i < ss.drop_last().len() ==> !(#[trigger] ss.drop_last()[i] is Union));
        lemma_flatten_id(ss.drop_last());
        assert(ss.last() == ss[ss.len() - 1]);
        assert(!(ss.last() is Union));
        assert(crate::space::sp_flatten_one(ss.last()) == seq![ss.last()]);
        assert(crate::space::sp_flatten(ss) =~= ss);
    }
}

/// Decomposing a well-formed, decomposable space yields a well-formed
/// space.
pub proof fn lemma_decompose_wf(s: SpaceV, defs: Seq<TyDefV>)
    requires
        sp_can_decompose(s, defs),
    ensures
        sp_wf(sp_decompose(s, defs), defs),
{
    match s {
        SpaceV::Ty(TyV::Enum { name }) => {
            let ctors = find_enum(defs, name)->Some_0;
            let ts = ctor_ty_spaces(ctors);
            assert(forall|i: int| 0 <= i < ts.len() ==> sp_wf(#[trigger] ts[i], defs));
            lemma_new_union_wf(ts, defs);
        },
        SpaceV::Ty(TyV::Constructor { name }) => {
            let k = find_ctor(defs, name)->Some_0.1;
            lemma_find_ctor_name(defs, name, 0);
            assert(k.name == name);
            let args = Seq::new(k.arg_tys.len(), |i: int| SpaceV::Ty(k.arg_tys[i]));
            assert(forall|i: int| 0 <= i < args.len() ==> sp_wf(#[trigger] args[i], defs));
            lemma_wf_from(args, 0, defs);
        },
        _ => {},
    }
}

/// Decomposing a decomposable space strictly lowers its decomposition
/// potential.
pub proof fn lemma_ph_decompose(s: SpaceV, defs: Seq<TyDefV>)
    requires
        sp_can_decompose(s, defs),
    ensures
        ph(sp_decompose(s, defs), defs) < ph(s, defs),
{
    match s {
        SpaceV::Ty(TyV::Enum { name }) => {
            let ctors = find_enum(defs, name)->Some_0;
            let n = ctors.len() as int;
            let ts = ctor_ty_spaces(ctors);
            assert(forall|i: int| 0 <= i < ts.len() ==> !(#[trigger] ts[i] is Union));
            lemma_flatten_id(ts);
            assert(forall|i: int| 0 <= i < ts.len() ==> ph(#[trigger] ts[i], defs) <= 1);
            lemma_ph_seq_of_small(ts, defs);
            if ts.len() == 1 {
                assert(sp_decompose(s, defs) == ts[0]);
            } else {
                assert(sp_decompose(s, defs) == SpaceV::Union(ts));
            }
        },
        SpaceV::Ty(TyV::Constructor { name }) => {
            assert(ph(sp_decompose(s, defs), defs) == 0);
        },
        _ => {},
    }
}

} // verus!
