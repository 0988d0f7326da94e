//! Making patterns out of spaces: used to present one example value that a
//! match fails to cover.

use vstd::prelude::*;

use crate::patterns::{lemma_patterns_view, pattern_view, patterns_view, Pattern, PatternV};
use crate::space::{space_view, spaces_view, Space, SpaceV};
use crate::ty_system::{
    find_ctor, find_enum, ConstructorDefinition, CtorDefV, Ty, TyDatabase, TyDefV, TyV,
};

verus! {

/// The representative pattern of one constructor definition: the
/// constructor applied to a placeholder for every field.
pub open spec fn pat_of_ctor_def(name: Seq<char>, k: CtorDefV) -> PatternV {
    PatternV::Constructor {
        name: name,
        args: Seq::new(k.arg_tys.len(), |i: int| PatternV::Discard { ty: k.arg_tys[i] }),
    }
}

/// One example pattern for a value of the given type: for a constructor
/// type, that constructor; for an enum type, its first declared
/// constructor; none if the type is unregistered or the enum has no
/// constructors.
pub open spec fn sp_ty_to_pattern(t: TyV, defs: Seq<TyDefV>) -> Option<PatternV> {
    match t {
        TyV::Constructor { name } => match find_ctor(defs, name) {
            Some(p) => Some(pat_of_ctor_def(name, p.1)),
            None => None,
        },
        TyV::Enum { name } => match find_enum(defs, name) {
            Some(ctors) => if ctors.len() == 0 {
                None
            } else {
                Some(pat_of_ctor_def(ctors[0].name, ctors[0]))
            },
            None => None,
        },
    }
}

/// One example pattern for a value in the space, if one can be built: for
/// a constructor space a pattern for every field, for a union the first
/// member that yields one, for a type space a representative of the type.
pub open spec fn sp_to_pattern(s: SpaceV, defs: Seq<TyDefV>) -> Option<PatternV>
    decreases s, 0int,
{
    match s {
        SpaceV::Constructor { name, args } => match sp_to_patterns_all(args, defs) {
            Some(ps) => Some(PatternV::Constructor { name: name, args: ps }),
            None => None,
        },
        SpaceV::Union(parts) => sp_first_pattern(parts, 0, defs),
        SpaceV::Ty(t) => sp_ty_to_pattern(t, defs),
    }
}

/// Example patterns for every space in the sequence; none if any space
/// yields none.
pub open spec fn sp_to_patterns_all(ss: Seq<SpaceV>, defs: Seq<TyDefV>) -> Option<Seq<PatternV>>
    decreases ss, 1int,
{
    if ss.len() == 0 {
        Some(Seq::empty())
    } else {
        match (sp_to_patterns_all(ss.drop_last(), defs), sp_to_pattern(ss.last(), defs)) {
            (Some(ps), Some(p)) => Some(ps.push(p)),
            _ => None,
        }
    }
}

/// The first member at or after `j` that yields an example pattern.
pub open spec fn sp_first_pattern(parts: Seq<SpaceV>, j: int, defs: Seq<TyDefV>) -> Option<PatternV>
    decreases parts, parts.len() - j,
{
    if j < 0 {
        sp_first_pattern(parts, 0, defs)
    } else if j >= parts.len() {
        None
    } else {
        match sp_to_pattern(parts[j], defs) {
            Some(p) => Some(p),
            None => sp_first_pattern(parts, j + 1, defs),
        }
    }
}

/// Build the representative pattern of a constructor definition: the
/// constructor with a placeholder for every declared field.
fn constructor_to_pattern(name: String, constructor_definition: &ConstructorDefinition) -> (r: Pattern)
    ensures
        r@ == pat_of_ctor_def(name@, constructor_definition@),
{
    let ghost k = constructor_definition@;
    let m = constructor_definition.arg_tys.len();
    let mut args: Vec<Pattern> = Vec::new();
    for i in 0..m
        invariant
            m == constructor_definition.arg_tys.len(),
            k == constructor_definition@,
            args@.len() == i,
            forall|q: int| 0 <= q < i ==> pattern_view(#[trigger] args@[q])
                == (PatternV::Discard { ty: k.arg_tys[q] }),
    {
        proof {
            assert(k.arg_tys[i as int] == constructor_definition.arg_tys@[i as int]@);
        }
        let ty = constructor_definition.arg_tys[i].duplicate();
        args.push(Pattern::Discard { ty });
    }
    proof {
        lemma_patterns_view(args@);
        assert(patterns_view(args@) =~= Seq::new(k.arg_tys.len(), |i: int| PatternV::Discard { ty: k.arg_tys[i] }));
    }
    Pattern::Constructor { name, args }
}

/// Build one example pattern for a value of type `ty`, if the catalog
/// knows one.
fn ty_to_pattern(ty: &Ty, td: &TyDatabase) -> (r: Option<Pattern>)
    ensures
        match r {
            Some(p) => sp_ty_to_pattern(ty@, td@) == Some(p@),
            None => sp_ty_to_pattern(ty@, td@) is None,
        },
{
    match ty {
        Ty::Constructor { name } => {
            match td.find_constructor_by_name(name) {
                Some((_, constructor_definition)) => {
                    Some(constructor_to_pattern(name.clone(), constructor_definition))
                },
                None => None,
            }
        },
        Ty::Enum { name } => {
            let constructor_definitions = match td.find_enum_definition(name) {
                Some(x) => x,
                None => {
                    return None;
                },
            };
            if constructor_definitions.len() == 0 {
                return None;
            }
            proof {
                let ctors = find_enum(td@, name@)->Some_0;
                assert(ctors[0] == constructor_definitions@[0]@);
            }
            let constructor_definition = &constructor_definitions[0];
            Some(constructor_to_pattern(constructor_definition.name.clone(), constructor_definition))
        },
    }
}

/// Build one example pattern for a value in `space`, if one can be built.
pub fn space_to_pattern(space: Space, td: &TyDatabase) -> (r: Option<Pattern>)
    ensures
        match r {
            Some(p) => sp_to_pattern(space@, td@) == Some(p@),
            None => sp_to_pattern(space@, td@) is None,
        },
{
    space_to_pattern_ref(&space, td)
}

/// Build one example pattern for a value in the borrowed space.
fn space_to_pattern_ref(space: &Space, td: &TyDatabase) -> (r: Option<Pattern>)
    ensures
        match r {
            Some(p) => sp_to_pattern(space@, td@) == Some(p@),
            None => sp_to_pattern(space@, td@) is None,
        },
    decreases *space, 0int,
{
    match space {
        Space::Constructor { name, args } => {
            match patterns_of_spaces(args, td) {
                Some(ps) => {
                    proof {
                        lemma_patterns_view(ps@);
                    }
                    Some(Pattern::Constructor { name: name.clone(), args: ps })
                },
                None => None,
            }
        },
        Space::Union(parts) => first_pattern_of(parts, td),
        Space::Ty(ty) => ty_to_pattern(ty, td),
    }
}

/// Example patterns for every space in `v`; none as soon as one space
/// yields none.
fn patterns_of_spaces(v: &Vec<Space>, td: &TyDatabase) -> (r: Option<Vec<Pattern>>)
    ensures
        match r {
            Some(ps) => sp_to_patterns_all(spaces_view(v@), td@) == Some(patterns_view(ps@)),
            None => sp_to_patterns_all(spaces_view(v@), td@) is None,
        },
    decreases *v, 1int,
{
    let ghost pv = spaces_view(v@);
    proof {
        crate::space::lemma_spaces_view(v@);
    }
    let mut out: Vec<Pattern> = Vec::new();
    let n = v.len();
    for i in 0..n
        invariant
            n == v.len(),
            pv == spaces_view(v@),
            pv.len() == n,
            sp_to_patterns_all(pv.take(i as int), td@) == Some(patterns_view(out@)),
    {
        proof {
            crate::space::lemma_spaces_view(v@);
        }
        match space_to_pattern_ref(&v[i], td) {
            Some(p) => {
                let ghost prev = out@;
                out.push(p);
                proof {
                    assert(pv.take(i + 1).drop_last() =~= pv.take(i as int));
                    assert(pv.take(i + 1).last() == pv[i as int]);
                    assert(out@.drop_last() =~= prev);
                    assert(patterns_view(out@) == patterns_view(prev).push(pattern_view(out@.last())));
                }
            },
            None => {
                proof {
                    lemma_to_patterns_all_prefix_none(pv, i as int, td@);
                }
                return None;
            },
        }
    }
    proof {
        assert(pv.take(n as int) =~= pv);
    }
    Some(out)
}

/// If every space in a prefix yields a pattern but the one at `i` yields
/// none, the whole sequence yields none.
proof fn lemma_to_patterns_all_prefix_none(ss: Seq<SpaceV>, i: int, defs: Seq<TyDefV>)
    requires
        0 <= i < ss.len(),
        sp_to_pattern(ss[i], defs) is None,
    ensures
        sp_to_patterns_all(ss, defs) is None,
    decreases ss.len(),
{
    if ss.len() > 0 {
        if i == ss.len() - 1 {
            assert(ss.last() == ss[i]);
        } else {
            assert(ss.drop_last()[i] == ss[i]);
            lemma_to_patterns_all_prefix_none(ss.drop_last(), i, defs);
        }
    }
}

/// The first member of `v` that yields an example pattern.
fn first_pattern_of(v: &Vec<Space>, td: &TyDatabase) -> (r: Option<Pattern>)
    ensures
        match r {
            Some(p) => sp_first_pattern(spaces_view(v@), 0, td@) == Some(p@),
            None => sp_first_pattern(spaces_view(v@), 0, td@) is None,
        },
    decreases *v, 1int,
{
    let ghost pv = spaces_view(v@);
    proof {
        crate::space::lemma_spaces_view(v@);
    }
    let n = v.len();
    for i in 0..n
        invariant
            n == v.len(),
            pv == spaces_view(v@),
            pv.len() == n,
            sp_first_pattern(pv, 0, td@) == sp_first_pattern(pv, i as int, td@),
    {
        proof {
            crate::space::lemma_spaces_view(v@);
        }
        match space_to_pattern_ref(&v[i], td) {
            Some(p) => {
                return Some(p);
            },
            None => {},
        }
    }
    None
}

} // verus!
