//! Intersection of spaces.

use vstd::prelude::*;

use crate::space::{lemma_spaces_view, sp_is_empty, sp_new_union, space_view, spaces_view, Space, SpaceV};
use crate::space_from_ty::{
    lemma_ph_decompose, lemma_ph_member, ph, ph_seq, sp_can_decompose, sp_decompose,
    space_can_decompose, space_decompose,
};
use crate::ty_system::{find_ctor_in, find_enum, is_subtype_of_constructor_v, is_subtype_of_v, TyDatabase, TyDefV, TyV};

verus! {

/// Which of the two symmetric rewriting steps still lies ahead: moving a
/// union to the left, then moving a decomposable space to the left. Each
/// swap lowers this, which bounds the swapping.
pub open spec fn int_bits(a: SpaceV, b: SpaceV, defs: Seq<TyDefV>) -> nat {
    (if !(a is Union) && b is Union {
        2nat
    } else {
        0nat
    }) + (if !sp_can_decompose(a, defs) && sp_can_decompose(b, defs) {
        1nat
    } else {
        0nat
    })
}

/// The intersection of two spaces.
///
/// An empty operand gives the empty space. Two type spaces in a subtype
/// relation give the subtype's space; a type space and a constructor space
/// of one of its constructors give the constructor space. A union
/// distributes memberwise. Two constructor spaces of the same name give the
/// first operand unchanged (fields are not intersected). A decomposable
/// type space is decomposed and the intersection retried. Anything else is
/// disjoint: empty.
pub open spec fn sp_intersection(a: SpaceV, b: SpaceV, defs: Seq<TyDefV>) -> SpaceV
    decreases ph(a, defs) + ph(b, defs), int_bits(a, b, defs), 0int,
{
    if sp_is_empty(a) || sp_is_empty(b) {
        SpaceV::Union(Seq::empty())
    } else {
        match (a, b) {
            (SpaceV::Union(parts), _) => sp_new_union(sp_int_each(parts, b, defs)),
            (_, SpaceV::Union(..)) => sp_intersection(b, a, defs),
            (SpaceV::Ty(ta), SpaceV::Ty(tb)) => {
                if is_subtype_of_v(defs, ta, tb) {
                    a
                } else if is_subtype_of_v(defs, tb, ta) {
                    b
                } else if sp_can_decompose(a, defs) {
                    proof {
                        lemma_ph_decompose(a, defs);
                    }
                    sp_intersection(sp_decompose(a, defs), b, defs)
                } else if sp_can_decompose(b, defs) {
                    sp_intersection(b, a, defs)
                } else {
                    SpaceV::Union(Seq::empty())
                }
            },
            (SpaceV::Ty(t), SpaceV::Constructor { name, .. }) => {
                if is_subtype_of_constructor_v(t, name) {
                    b
                } else if sp_can_decompose(a, defs) {
                    proof {
                        lemma_ph_decompose(a, defs);
                    }
                    sp_intersection(sp_decompose(a, defs), b, defs)
                } else {
                    SpaceV::Union(Seq::empty())
                }
            },
            (SpaceV::Constructor { name, .. }, SpaceV::Ty(t)) => {
                if is_subtype_of_constructor_v(t, name) {
                    a
                } else if sp_can_decompose(b, defs) {
                    sp_intersection(b, a, defs)
                } else {
                    SpaceV::Union(Seq::empty())
                }
            },
            (SpaceV::Constructor { name: an, .. }, SpaceV::Constructor { name: bn, .. }) => {
                if an == bn {
                    a
                } else {
                    SpaceV::Union(Seq::empty())
                }
            },
        }
    }
}

/// Memberwise intersection of a union's parts with `b`.
pub open spec fn sp_int_each(parts: Seq<SpaceV>, b: SpaceV, defs: Seq<TyDefV>) -> Seq<SpaceV>
    decreases ph_seq(parts, defs) + ph(b, defs), parts.len() + 4, 0int,
{
    if parts.len() == 0 {
        Seq::empty()
    } else {
        sp_int_each(parts.drop_last(), b, defs).push(sp_intersection(parts.last(), b, defs))
    }
}

/// `sp_int_each` maps elementwise.
pub proof fn lemma_sp_int_each(parts: Seq<SpaceV>, b: SpaceV, defs: Seq<TyDefV>)
    ensures
        sp_int_each(parts, b, defs).len() == parts.len(),
        forall|i: int| 0 <= i < parts.len()
            ==> #[trigger] sp_int_each(parts, b, defs)[i] == sp_intersection(parts[i], b, defs),
    decreases parts.len(),
{
    if parts.len() > 0 {
        lemma_sp_int_each(parts.drop_last(), b, defs);
    }
}

/// Compute the intersection (the set of common values) of two spaces.
pub fn space_intersection(first: Space, second: Space, td: &TyDatabase) -> (r: Space)
    ensures
        r@ == sp_intersection(first@, second@, td@),
    decreases ph(first@, td@) + ph(second@, td@), int_bits(first@, second@, td@), 0int,
{
    // The intersection with an empty space is always empty.
    if first.is_empty() || second.is_empty() {
        return Space::new_empty();
    }

    match (first, second) {
        // Distribute the union on the left.
        (Space::Union(parts), second) => {
            let results = intersect_each(&parts, &second, td);
            Space::new_union(results)
        },
        // A union on the right: swap, then the arm above distributes it.
        (first, Space::Union(parts)) => space_intersection(Space::Union(parts), first, td),
        // Two type spaces with a subtype relation intersect to the
        // subtype's space.
        (Space::Ty(ta), Space::Ty(tb)) => {
            if td.is_subtype_of(&ta, &tb) {
                Space::Ty(ta)
            } else if td.is_subtype_of(&tb, &ta) {
                Space::Ty(tb)
            } else {
                let a = Space::Ty(ta);
                let b = Space::Ty(tb);
                if space_can_decompose(&a, td) {
                    proof {
                        lemma_ph_decompose(a@, td@);
                    }
                    space_intersection(space_decompose(a, td), b, td)
                } else if space_can_decompose(&b, td) {
                    space_intersection(b, a, td)
                } else {
                    Space::new_empty()
                }
            }
        },
        // A type space narrowed by a constructor space of one of its
        // constructors is that constructor space.
        (Space::Ty(t), Space::Constructor { name, args }) => {
            if td.is_subtype_of_constructor(&t, &name) {
                Space::Constructor { name, args }
            } else {
                let a = Space::Ty(t);
                if space_can_decompose(&a, td) {
                    proof {
                        lemma_ph_decompose(a@, td@);
                    }
                    space_intersection(space_decompose(a, td), Space::Constructor { name, args }, td)
                } else {
                    Space::new_empty()
                }
            }
        },
        (Space::Constructor { name, args }, Space::Ty(t)) => {
            if td.is_subtype_of_constructor(&t, &name) {
                Space::Constructor { name, args }
            } else {
                let b = Space::Ty(t);
                if space_can_decompose(&b, td) {
                    space_intersection(b, Space::Constructor { name, args }, td)
                } else {
                    Space::new_empty()
                }
            }
        },
        // Equal-named constructor spaces intersect to the first operand
        // unchanged; the fields are not intersected.
        (Space::Constructor { name, args }, Space::Constructor { name: second_name, .. }) => {
            if name == second_name {
                Space::Constructor { name, args }
            } else {
                Space::new_empty()
            }
        },
    }
}

/// Intersect each part with `b`.
fn intersect_each(parts: &Vec<Space>, b: &Space, td: &TyDatabase) -> (r: Vec<Space>)
    ensures
        spaces_view(r@) == sp_int_each(spaces_view(parts@), b@, td@),
    decreases ph_seq(spaces_view(parts@), td@) + ph(b@, td@), parts@.len() + 4, 0int,
{
    let mut results: Vec<Space> = Vec::new();
    let n = parts.len();
    for i in 0..n
        invariant
            n == parts.len(),
            results@.len() == i,
            forall|k: int| 0 <= k < i ==> space_view(#[trigger] results@[k])
                == sp_intersection(space_view(parts@[k]), b@, td@),
    {
        let m = parts[i].deep_clone();
        let s2 = b.deep_clone();
        proof {
            lemma_spaces_view(parts@);
            lemma_ph_member(spaces_view(parts@), i as int, td@);
        }
        let r1 = space_intersection(m, s2, td);
        results.push(r1);
    }
    proof {
        lemma_spaces_view(results@);
        lemma_spaces_view(parts@);
        lemma_sp_int_each(spaces_view(parts@), b@, td@);
        assert(spaces_view(results@) =~= sp_int_each(spaces_view(parts@), b@, td@));
    }
    results
}

/// Law: subtype absorption. For a constructor `k` declared by enum `E`,
/// the intersection of the whole enum's type space with the constructor's
/// type space is exactly the constructor's type space.
pub proof fn lemma_subtype_absorption(defs: Seq<TyDefV>, enum_name: Seq<char>, ctor_name: Seq<char>)
    requires
        find_enum(defs, enum_name) matches Some(ctors) && find_ctor_in(ctors, ctor_name, 0) is Some,
    ensures
        sp_intersection(
            SpaceV::Ty(TyV::Enum { name: enum_name }),
            SpaceV::Ty(TyV::Constructor { name: ctor_name }),
            defs,
        ) == SpaceV::Ty(TyV::Constructor { name: ctor_name }),
{
    let a = SpaceV::Ty(TyV::Enum { name: enum_name });
    let b = SpaceV::Ty(TyV::Constructor { name: ctor_name });
    assert(!sp_is_empty(a));
    assert(!sp_is_empty(b));
    assert(is_subtype_of_v(defs, TyV::Constructor { name: ctor_name }, TyV::Enum { name: enum_name }));
    assert(!is_subtype_of_v(defs, TyV::Enum { name: enum_name }, TyV::Constructor { name: ctor_name }));
}

} // verus!
