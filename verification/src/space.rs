//! Spaces: representations of sets of possible values.

use vstd::prelude::*;

use crate::ty_system::{find_ctor, Ty, TyDefV, TyV};

verus! {

/// A space stands for a set of values.
#[derive(Debug)]
pub enum Space {
    /// The set of values built with the named constructor whose fields lie
    /// in the corresponding argument spaces. The arity of `args` always
    /// equals the constructor's declared field count.
    Constructor { name: String, args: Vec<Space> },
    /// A union of spaces, kept flattened: a `Union` never directly contains
    /// another `Union`, and a union of zero spaces denotes the empty set.
    Union(Vec<Space>),
    /// All values of a type; may be decomposed into constructor spaces.
    Ty(Ty),
}

/// Mathematical model of a [`Space`].
#[verifier::ext_equal]
pub enum SpaceV {
    Constructor { name: Seq<char>, args: Seq<SpaceV> },
    Union(Seq<SpaceV>),
    Ty(TyV),
}

/// The model of one space.
pub open spec fn space_view(s: Space) -> SpaceV
    decreases s,
{
    match s {
        Space::Constructor { name, args } => SpaceV::Constructor {
            name: name@,
            args: spaces_view(args@),
        },
        Space::Union(parts) => SpaceV::Union(spaces_view(parts@)),
        Space::Ty(ty) => SpaceV::Ty(ty@),
    }
}

/// The models of a sequence of spaces, elementwise.
pub open spec fn spaces_view(ss: Seq<Space>) -> Seq<SpaceV>
    decreases ss,
{
    if ss.len() == 0 {
        Seq::empty()
    } else {
        spaces_view(ss.drop_last()).push(space_view(ss.last()))
    }
}

impl View for Space {
    type V = SpaceV;

    open spec fn view(&self) -> SpaceV {
        space_view(*self)
    }
}

/// `spaces_view` maps elementwise: same length, model at every index.
pub proof fn lemma_spaces_view(ss: Seq<Space>)
    ensures
        spaces_view(ss).len() == ss.len(),
        forall|i: int| 0 <= i < ss.len() ==> #[trigger] spaces_view(ss)[i] == space_view(ss[i]),
    decreases ss,
{
    if ss.len() > 0 {
        lemma_spaces_view(ss.drop_last());
    }
}

/// Is every part at or after index `j` an empty space?
pub open spec fn sp_all_empty_from(parts: Seq<SpaceV>, j: int) -> bool
    decreases parts, parts.len() - j,
{
    if j < 0 {
        sp_all_empty_from(parts, 0)
    } else if j >= parts.len() {
        true
    } else {
        sp_is_empty(parts[j]) && sp_all_empty_from(parts, j + 1)
    }
}

/// Does the space denote the empty set, as far as the algebra can see?
///
/// A union is empty exactly when all its members are; a constructor space
/// and a bare type space are never considered empty on their own.
pub open spec fn sp_is_empty(s: SpaceV) -> bool
    decreases s, 0int,
{
    match s {
        SpaceV::Constructor { .. } => false,
        SpaceV::Ty(..) => false,
        SpaceV::Union(parts) => sp_all_empty_from(parts, 0),
    }
}

/// `sp_all_empty_from` holds exactly when every member from `j` on is empty.
pub proof fn lemma_all_empty_from(parts: Seq<SpaceV>, j: int)
    requires
        0 <= j <= parts.len(),
    ensures
        sp_all_empty_from(parts, j) <==> (forall|i: int| j <= i < parts.len() ==> sp_is_empty(#[trigger] parts[i])),
    decreases parts.len() - j,
{
    if j < parts.len() {
        lemma_all_empty_from(parts, j + 1);
    }
}

/// Well-formedness of a space against a catalog: every constructor space
/// in it names a registered constructor and carries exactly its declared
/// field count.
pub open spec fn sp_wf(s: SpaceV, defs: Seq<TyDefV>) -> bool
    decreases s, 0int,
{
    match s {
        SpaceV::Ty(..) => true,
        SpaceV::Union(parts) => sp_wf_from(parts, 0, defs),
        SpaceV::Constructor { name, args } => {
            &&& (match find_ctor(defs, name) {
                Some(p) => p.1.arg_tys.len() == args.len(),
                None => false,
            })
            &&& sp_wf_from(args, 0, defs)
        },
    }
}

/// Is every part at or after index `j` well-formed?
pub open spec fn sp_wf_from(parts: Seq<SpaceV>, j: int, defs: Seq<TyDefV>) -> bool
    decreases parts, parts.len() - j,
{
    if j < 0 {
        sp_wf_from(parts, 0, defs)
    } else if j >= parts.len() {
        true
    } else {
        sp_wf(parts[j], defs) && sp_wf_from(parts, j + 1, defs)
    }
}

/// `sp_wf_from` holds exactly when every member from `j` on is well-formed.
pub proof fn lemma_wf_from(parts: Seq<SpaceV>, j: int, defs: Seq<TyDefV>)
    requires
        0 <= j <= parts.len(),
    ensures
        sp_wf_from(parts, j, defs) <==> (forall|i: int| j <= i < parts.len() ==> sp_wf(#[trigger] parts[i], defs)),
    decreases parts.len() - j,
{
    if j < parts.len() {
        lemma_wf_from(parts, j + 1, defs);
    }
}

/// A space well-formed against a catalog stays well-formed when the
/// catalog grows beyond that prefix.
pub proof fn lemma_sp_wf_prefix(s: SpaceV, d1: Seq<TyDefV>, d2: Seq<TyDefV>)
    requires
        d1.len() <= d2.len(),
        forall|k: int| 0 <= k < d1.len() ==> d2[k] == d1[k],
        sp_wf(s, d1),
    ensures
        sp_wf(s, d2),
    decreases s,
{
    match s {
        SpaceV::Ty(..) => {},
        SpaceV::Union(parts) => {
            lemma_wf_from(parts, 0, d1);
            assert forall|i: int| 0 <= i < parts.len() implies sp_wf(#[trigger] parts[i], d2) by {
                lemma_sp_wf_prefix(parts[i], d1, d2);
            }
            lemma_wf_from(parts, 0, d2);
        },
        SpaceV::Constructor { name, args } => {
            crate::ty_system::lemma_find_ctor_at_prefix(d1, d2, name, 0);
            lemma_wf_from(args, 0, d1);
            assert forall|i: int| 0 <= i < args.len() implies sp_wf(#[trigger] args[i], d2) by {
                lemma_sp_wf_prefix(args[i], d1, d2);
            }
            lemma_wf_from(args, 0, d2);
        },
    }
}

/// One flattening step: a union contributes its (recursively flattened)
/// members, any other space contributes itself.
pub open spec fn sp_flatten_one(s: SpaceV) -> Seq<SpaceV>
    decreases s, 0int,
{
    match s {
        SpaceV::Union(parts) => sp_flatten(parts),
        _ => seq![s],
    }
}

/// Flatten a sequence of spaces: concatenate the flattening of each.
pub open spec fn sp_flatten(ss: Seq<SpaceV>) -> Seq<SpaceV>
    decreases ss, 1int,
{
    if ss.len() == 0 {
        Seq::empty()
    } else {
        sp_flatten(ss.drop_last()) + sp_flatten_one(ss.last())
    }
}

/// The union of the given spaces: flattened, and collapsed to its single
/// member when exactly one space remains.
pub open spec fn sp_new_union(ss: Seq<SpaceV>) -> SpaceV {
    let parts = sp_flatten(ss);
    if parts.len() == 1 {
        parts[0]
    } else {
        SpaceV::Union(parts)
    }
}

/// Flattening one step further along a prefix: `take(j + 1)` flattens to
/// `take(j)` plus the flattening of the element at `j`.
pub proof fn lemma_flatten_take_step(ss: Seq<SpaceV>, j: int)
    requires
        0 <= j < ss.len(),
    ensures
        sp_flatten(ss.take(j + 1)) == sp_flatten(ss.take(j)) + sp_flatten_one(ss[j]),
{
    assert(ss.take(j + 1).drop_last() =~= ss.take(j));
    assert(ss.take(j + 1).last() == ss[j]);
}

/// No member of a flattened sequence is itself a union.
pub proof fn lemma_flatten_no_union(ss: Seq<SpaceV>)
    ensures
        forall|i: int| 0 <= i < sp_flatten(ss).len() ==> !(#[trigger] sp_flatten(ss)[i] is Union),
    decreases ss, 1int,
{
    if ss.len() > 0 {
        lemma_flatten_no_union(ss.drop_last());
        lemma_flatten_one_no_union(ss.last());
    }
}

/// No member of one space's flattening is a union.
pub proof fn lemma_flatten_one_no_union(s: SpaceV)
    ensures
        forall|i: int| 0 <= i < sp_flatten_one(s).len() ==> !(#[trigger] sp_flatten_one(s)[i] is Union),
    decreases s, 0int,
{
    match s {
        SpaceV::Union(parts) => {
            lemma_flatten_no_union(parts);
        },
        _ => {},
    }
}

/// Flattening well-formed spaces yields well-formed spaces.
pub proof fn lemma_flatten_wf(ss: Seq<SpaceV>, defs: Seq<TyDefV>)
    requires
        forall|i: int| 0 <= i < ss.len() ==> sp_wf(#[trigger] ss[i], defs),
    ensures
        forall|i: int| 0 <= i < sp_flatten(ss).len() ==> sp_wf(#[trigger] sp_flatten(ss)[i], defs),
    decreases ss, 1int,
{
    if ss.len() > 0 {
        assert(forall|i: int| 0 <= i < ss.drop_last().len() ==> sp_wf(#[trigger] ss.drop_last()[i], defs));
        lemma_flatten_wf(ss.drop_last(), defs);
        assert(ss.last() == ss[ss.len() - 1]);
        lemma_flatten_one_wf(ss.last(), defs);
        let a = sp_flatten(ss.drop_last());
        let b = sp_flatten_one(ss.last());
        assert(sp_flatten(ss) == a + b);
        assert forall|i: int| 0 <= i < sp_flatten(ss).len() implies sp_wf(#[trigger] sp_flatten(ss)[i], defs) by {
            if i < a.len() {
                assert(sp_flatten(ss)[i] == a[i]);
            } else {
                assert(sp_flatten(ss)[i] == b[i - a.len()]);
            }
        }
    }
}

/// Flattening one well-formed space yields well-formed spaces.
pub proof fn lemma_flatten_one_wf(s: SpaceV, defs: Seq<TyDefV>)
    requires
        sp_wf(s, defs),
    ensures
        forall|i: int| 0 <= i < sp_flatten_one(s).len() ==> sp_wf(#[trigger] sp_flatten_one(s)[i], defs),
    decreases s, 0int,
{
    match s {
        SpaceV::Union(parts) => {
            lemma_wf_from(parts, 0, defs);
            lemma_flatten_wf(parts, defs);
            assert(sp_flatten_one(s) == sp_flatten(parts));
            assert forall|i: int| 0 <= i < sp_flatten_one(s).len()
                implies sp_wf(#[trigger] sp_flatten_one(s)[i], defs) by {
                assert(sp_flatten_one(s)[i] == sp_flatten(parts)[i]);
            }
        },
        _ => {
            assert(sp_flatten_one(s) == seq![s]);
            assert(sp_flatten_one(s)[0] == s);
        },
    }
}

/// A union built from well-formed spaces is well-formed.
pub proof fn lemma_new_union_wf(ss: Seq<SpaceV>, defs: Seq<TyDefV>)
    requires
        forall|i: int| 0 <= i < ss.len() ==> sp_wf(#[trigger] ss[i], defs),
    ensures
        sp_wf(sp_new_union(ss), defs),
{
    lemma_flatten_wf(ss, defs);
    let parts = sp_flatten(ss);
    if parts.len() == 1 {
    } else {
        lemma_wf_from(parts, 0, defs);
    }
}

/// Law: building a union flattens it. Whatever nesting of unions goes in,
/// the result is never a union that directly contains another union, and a
/// union built from exactly one non-union space is that space itself.
pub proof fn lemma_new_union_flattens(ss: Seq<SpaceV>)
    ensures
        sp_new_union(ss) matches SpaceV::Union(parts) ==> forall|i: int|
            0 <= i < parts.len() ==> !(#[trigger] parts[i] is Union),
        ss.len() == 1 && !(ss[0] is Union) ==> sp_new_union(ss) == ss[0],
{
    lemma_flatten_no_union(ss);
    if ss.len() == 1 && !(ss[0] is Union) {
        assert(ss.drop_last().len() == 0);
        assert(sp_flatten(ss.drop_last()) == Seq::<SpaceV>::empty());
        assert(ss.last() == ss[0]);
        assert(sp_flatten_one(ss[0]) == seq![ss[0]]);
        assert(sp_flatten(ss) =~= seq![ss[0]]);
    }
}

/// The same spaces again, as fresh owned values.
fn clone_spaces(v: &Vec<Space>) -> (r: Vec<Space>)
    ensures
        spaces_view(r@) == spaces_view(v@),
    decreases *v,
{
    let mut r: Vec<Space> = Vec::new();
    let n = v.len();
    for i in 0..n
        invariant
            n == v.len(),
            r@.len() == i,
            forall|k: int| 0 <= k < i ==> space_view(#[trigger] r@[k]) == space_view(v@[k]),
    {
        let c = v[i].deep_clone();
        r.push(c);
    }
    proof {
        lemma_spaces_view(r@);
        lemma_spaces_view(v@);
        assert(spaces_view(r@) =~= spaces_view(v@));
    }
    r
}

/// Append the flattening of every space in `v` to `out`.
fn flatten_list_into(v: &Vec<Space>, out: &mut Vec<Space>)
    ensures
        spaces_view(final(out)@) == spaces_view(old(out)@) + sp_flatten(spaces_view(v@)),
    decreases *v,
{
    proof {
        lemma_spaces_view(v@);
        assert(spaces_view(v@).take(0) =~= Seq::<SpaceV>::empty());
        assert(spaces_view(out@) =~= spaces_view(out@) + sp_flatten(spaces_view(v@).take(0)));
    }
    let n = v.len();
    for i in 0..n
        invariant
            n == v.len(),
            spaces_view(v@).len() == n,
            spaces_view(out@) == spaces_view(old(out)@) + sp_flatten(spaces_view(v@).take(i as int)),
    {
        proof {
            lemma_spaces_view(v@);
        }
        v[i].flatten_into(out);
        proof {
            let pv = spaces_view(v@);
            lemma_flatten_take_step(pv, i as int);
            assert(spaces_view(out@) =~= spaces_view(old(out)@) + sp_flatten(pv.take(i + 1)));
        }
    }
    proof {
        assert(spaces_view(v@).take(n as int) =~= spaces_view(v@));
    }
}

impl Space {
    /// The empty space: a union of nothing.
    pub fn new_empty() -> (r: Space)
        ensures
            r@ == SpaceV::Union(Seq::<SpaceV>::empty()),
    {
        let r = Space::Union(Vec::new());
        proof {
            assert(r@ =~= SpaceV::Union(Seq::<SpaceV>::empty()));
        }
        r
    }

    /// The same space again, as a fresh owned value.
    pub fn deep_clone(&self) -> (r: Space)
        ensures
            r@ == self@,
        decreases *self,
    {
        match self {
            Space::Ty(ty) => Space::Ty(ty.duplicate()),
            Space::Constructor { name, args } => Space::Constructor {
                name: name.clone(),
                args: clone_spaces(args),
            },
            Space::Union(parts) => Space::Union(clone_spaces(parts)),
        }
    }

    /// Append the flattening of `self` to `out`.
    fn flatten_into(&self, out: &mut Vec<Space>)
        ensures
            spaces_view(final(out)@) == spaces_view(old(out)@) + sp_flatten_one(self@),
        decreases *self,
    {
        match self {
            Space::Union(parts) => {
                flatten_list_into(parts, out);
            },
            _ => {
                let c = self.deep_clone();
                let ghost prev = out@;
                out.push(c);
                proof {
                    assert(out@.drop_last() =~= prev);
                    assert(out@.last() == out@[out@.len() - 1]);
                    assert(spaces_view(out@) == spaces_view(prev).push(space_view(out@.last())));
                    assert(sp_flatten_one(self@) == seq![self@]);
                    assert(spaces_view(out@) =~= spaces_view(prev) + sp_flatten_one(self@));
                }
            },
        }
    }

    /// Build the union of the given spaces, flattening nested unions and
    /// collapsing a union of exactly one space to that space.
    pub fn new_union(spaces: Vec<Space>) -> (r: Space)
        ensures
            r@ == sp_new_union(spaces_view(spaces@)),
    {
        let mut union: Vec<Space> = Vec::new();
        proof {
            lemma_spaces_view(spaces@);
            assert(spaces_view(union@) =~= Seq::<SpaceV>::empty());
            assert(spaces_view(spaces@).take(0) =~= Seq::<SpaceV>::empty());
        }
        let n = spaces.len();
        for i in 0..n
            invariant
                n == spaces.len(),
                spaces_view(spaces@).len() == n,
                spaces_view(union@) == sp_flatten(spaces_view(spaces@).take(i as int)),
        {
            proof {
                lemma_spaces_view(spaces@);
            }
            spaces[i].flatten_into(&mut union);
            proof {
                let sv = spaces_view(spaces@);
                lemma_flatten_take_step(sv, i as int);
                assert(spaces_view(union@) =~= sp_flatten(sv.take(i + 1)));
            }
        }
        proof {
            assert(spaces_view(spaces@).take(n as int) =~= spaces_view(spaces@));
        }

        // A union of exactly one space is needless structure: return the
        // space itself.
        if union.len() == 1 {
            proof {
                lemma_spaces_view(union@);
            }
            let r = match union.pop() {
                Some(s) => s,
                None => {
                    proof {
                        assert(false);
                    }
                    Space::new_empty()
                },
            };
            proof {
                assert(r@ == sp_flatten(spaces_view(spaces@))[0]);
            }
            return r;
        }

        proof {
            lemma_spaces_view(union@);
        }
        Space::Union(union)
    }

    /// Does this space denote the empty set, as far as the algebra checks?
    ///
    /// A union is empty exactly when all members are. A constructor space
    /// is never considered empty by itself, and neither is a bare type
    /// space (even for an enum with no constructors).
    pub fn is_empty(&self) -> (r: bool)
        ensures
            r == sp_is_empty(self@),
        decreases *self,
    {
        match self {
            Space::Constructor { .. } => false,
            Space::Ty(..) => false,
            Space::Union(parts) => all_spaces_empty(parts),
        }
    }
}

/// Is every space in `v` empty?
fn all_spaces_empty(v: &Vec<Space>) -> (r: bool)
    ensures
        r == sp_all_empty_from(spaces_view(v@), 0),
    decreases *v,
{
    let ghost pv = spaces_view(v@);
    proof {
        lemma_spaces_view(v@);
        lemma_all_empty_from(pv, 0);
    }
    let n = v.len();
    for i in 0..n
        invariant
            n == v.len(),
            pv == spaces_view(v@),
            pv.len() == n,
            forall|k: int| 0 <= k < i ==> sp_is_empty(#[trigger] pv[k]),
    {
        proof {
            lemma_spaces_view(v@);
        }
        if !v[i].is_empty() {
            proof {
                assert(!sp_is_empty(pv[i as int]));
                lemma_all_empty_from(pv, 0);
            }
            return false;
        }
    }
    proof {
        lemma_all_empty_from(pv, 0);
    }
    true
}

} // verus!
