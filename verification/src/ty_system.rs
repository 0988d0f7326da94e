//! The sample language's type system: enum definitions, constructor
//! definitions, and the catalog (`TyDatabase`) that answers lookup and
//! subtype queries.

use vstd::prelude::*;

verus! {

/// The type of a value under test.
#[derive(Clone, Debug)]
pub enum Ty {
    /// The singleton type inhabited by values built with exactly the named
    /// constructor (a "narrowed" enum case).
    Constructor { name: String },
    /// The sum of all constructors declared under the named enum.
    Enum { name: String },
}

/// Mathematical model of a [`Ty`]: the same two cases over character
/// sequences.
#[verifier::ext_equal]
pub enum TyV {
    Constructor { name: Seq<char> },
    Enum { name: Seq<char> },
}

impl View for Ty {
    type V = TyV;

    open spec fn view(&self) -> TyV {
        match self {
            Ty::Constructor { name } => TyV::Constructor { name: name@ },
            Ty::Enum { name } => TyV::Enum { name: name@ },
        }
    }
}

/// Does the model type name exactly the given constructor?
pub open spec fn ty_is_constructor_of_name(t: TyV, constructor_name: Seq<char>) -> bool {
    match t {
        TyV::Constructor { name } => name == constructor_name,
        TyV::Enum { .. } => false,
    }
}

impl Ty {
    /// Is this type the constructor type of name `constructor_name`?
    pub fn is_constructor_of_name(&self, constructor_name: &String) -> (r: bool)
        ensures
            r == ty_is_constructor_of_name(self@, constructor_name@),
    {
        match self {
            Ty::Constructor { name } => *name == *constructor_name,
            Ty::Enum { .. } => false,
        }
    }

    /// The same value again, as a fresh owned type.
    pub fn duplicate(&self) -> (r: Ty)
        ensures
            r@ == self@,
    {
        match self {
            Ty::Constructor { name } => Ty::Constructor { name: name.clone() },
            Ty::Enum { name } => Ty::Enum { name: name.clone() },
        }
    }
}

impl Default for Ty {
    /// The default type is a constructor type with an empty name.
    fn default() -> (r: Ty)
        ensures
            r@ == (TyV::Constructor { name: Seq::<char>::empty() }),
    {
        let r = Ty::Constructor { name: String::new() };
        proof {
            assert(r@ =~= TyV::Constructor { name: Seq::<char>::empty() });
        }
        r
    }
}

/// A constructor definition: its name and the declared types of its ordered
/// tuple fields.
pub struct ConstructorDefinition {
    pub name: String,
    pub arg_tys: Vec<Ty>,
}

/// Mathematical model of a [`ConstructorDefinition`].
#[verifier::ext_equal]
pub struct CtorDefV {
    pub name: Seq<char>,
    pub arg_tys: Seq<TyV>,
}

impl View for ConstructorDefinition {
    type V = CtorDefV;

    open spec fn view(&self) -> CtorDefV {
        CtorDefV { name: self.name@, arg_tys: Seq::new(self.arg_tys@.len(), |i: int| self.arg_tys@[i]@) }
    }
}

/// A type definition. Only enums of named constructors exist in the sample
/// language.
pub enum TyDefinition {
    Enum { name: String, constructors: Vec<ConstructorDefinition> },
}

/// Mathematical model of a [`TyDefinition`].
#[verifier::ext_equal]
pub struct TyDefV {
    pub name: Seq<char>,
    pub constructors: Seq<CtorDefV>,
}

impl View for TyDefinition {
    type V = TyDefV;

    open spec fn view(&self) -> TyDefV {
        match self {
            TyDefinition::Enum { name, constructors } => TyDefV {
                name: name@,
                constructors: Seq::new(constructors@.len(), |i: int| constructors@[i]@),
            },
        }
    }
}

/// The catalog of type definitions built from one analysis run's
/// declarations, in insertion order.
pub struct TyDatabase {
    pub definitions: Vec<TyDefinition>,
}

impl View for TyDatabase {
    type V = Seq<TyDefV>;

    open spec fn view(&self) -> Seq<TyDefV> {
        Seq::new(self.definitions@.len(), |i: int| self.definitions@[i]@)
    }
}

/// First enum definition named `name` at or after index `i`, if any:
/// its constructor list.
pub open spec fn find_enum_at(defs: Seq<TyDefV>, name: Seq<char>, i: int) -> Option<Seq<CtorDefV>>
    decreases defs.len() - i,
{
    if i < 0 || i >= defs.len() {
        None
    } else if defs[i].name == name {
        Some(defs[i].constructors)
    } else {
        find_enum_at(defs, name, i + 1)
    }
}

/// The constructor list of the enum definition named `name`, if one exists.
pub open spec fn find_enum(defs: Seq<TyDefV>, name: Seq<char>) -> Option<Seq<CtorDefV>> {
    find_enum_at(defs, name, 0)
}

/// First constructor named `name` in `ctors` at or after index `j`, if any.
pub open spec fn find_ctor_in(ctors: Seq<CtorDefV>, name: Seq<char>, j: int) -> Option<CtorDefV>
    decreases ctors.len() - j,
{
    if j < 0 || j >= ctors.len() {
        None
    } else if ctors[j].name == name {
        Some(ctors[j])
    } else {
        find_ctor_in(ctors, name, j + 1)
    }
}

/// First constructor named `name` declared by a definition at or after
/// index `i`, together with the owning enum's name.
pub open spec fn find_ctor_at(defs: Seq<TyDefV>, name: Seq<char>, i: int) -> Option<(Seq<char>, CtorDefV)>
    decreases defs.len() - i,
{
    if i < 0 || i >= defs.len() {
        None
    } else {
        match find_ctor_in(defs[i].constructors, name, 0) {
            Some(k) => Some((defs[i].name, k)),
            None => find_ctor_at(defs, name, i + 1),
        }
    }
}

/// The constructor named `name` with its owning enum's name, if declared
/// anywhere in the catalog.
pub open spec fn find_ctor(defs: Seq<TyDefV>, name: Seq<char>) -> Option<(Seq<char>, CtorDefV)> {
    find_ctor_at(defs, name, 0)
}

/// What `find_ctor_in` returns is named as asked.
pub proof fn lemma_find_ctor_in_name(ctors: Seq<CtorDefV>, name: Seq<char>, j: int)
    ensures
        find_ctor_in(ctors, name, j) matches Some(k) ==> k.name == name,
    decreases ctors.len() - j,
{
    if 0 <= j < ctors.len() && ctors[j].name != name {
        lemma_find_ctor_in_name(ctors, name, j + 1);
    }
}

/// What `find_ctor` returns is named as asked.
pub proof fn lemma_find_ctor_name(defs: Seq<TyDefV>, name: Seq<char>, i: int)
    ensures
        find_ctor_at(defs, name, i) matches Some(p) ==> p.1.name == name,
    decreases defs.len() - i,
{
    if 0 <= i < defs.len() {
        lemma_find_ctor_in_name(defs[i].constructors, name, 0);
        lemma_find_ctor_name(defs, name, i + 1);
    }
}

/// Is `sub` a subtype of the enum named `enum_name`?
pub open spec fn is_subtype_of_enum_v(defs: Seq<TyDefV>, sub: TyV, enum_name: Seq<char>) -> bool {
    match sub {
        TyV::Enum { name } => name == enum_name,
        TyV::Constructor { name } => match find_enum(defs, enum_name) {
            Some(ctors) => find_ctor_in(ctors, name, 0) is Some,
            None => false,
        },
    }
}

/// Is `sub` a subtype of the constructor type named `constructor_name`?
/// Only that constructor type itself is.
pub open spec fn is_subtype_of_constructor_v(sub: TyV, constructor_name: Seq<char>) -> bool {
    match sub {
        TyV::Constructor { name } => name == constructor_name,
        TyV::Enum { .. } => false,
    }
}

/// Is `sub` a subtype of `sup`?
pub open spec fn is_subtype_of_v(defs: Seq<TyDefV>, sub: TyV, sup: TyV) -> bool {
    match sup {
        TyV::Enum { name } => is_subtype_of_enum_v(defs, sub, name),
        TyV::Constructor { name } => is_subtype_of_constructor_v(sub, name),
    }
}


/// Global well-formedness of a catalog: enum names are unique across the
/// catalog, and so are constructor names (no two enums may declare
/// constructors of the same name).
pub open spec fn td_wf(defs: Seq<TyDefV>) -> bool {
    &&& (forall|i: int, j: int|
        0 <= i < j < defs.len() ==> (#[trigger] defs[i].name) != (#[trigger] defs[j].name))
    &&& (forall|i1: int, j1: int, i2: int, j2: int|
        0 <= i1 < defs.len() && 0 <= j1 < defs[i1].constructors.len() && 0 <= i2 < defs.len()
            && 0 <= j2 < defs[i2].constructors.len() && (i1 != i2 || j1 != j2)
            ==> (#[trigger] defs[i1].constructors[j1].name)
            != (#[trigger] defs[i2].constructors[j2].name))
}

/// A found enum definition sits at some index of the catalog.
pub proof fn lemma_find_enum_witness(defs: Seq<TyDefV>, name: Seq<char>, i: int)
    requires
        0 <= i,
        find_enum_at(defs, name, i) is Some,
    ensures
        exists|w: int| i <= w < defs.len() && (#[trigger] defs[w].name) == name
            && defs[w].constructors == find_enum_at(defs, name, i)->Some_0,
    decreases defs.len() - i,
{
    if i < defs.len() {
        if defs[i].name == name {
        } else {
            lemma_find_enum_witness(defs, name, i + 1);
        }
    }
}

/// If no constructor from `m` on bears the name, the search finds none.
pub proof fn lemma_find_ctor_in_none(ctors: Seq<CtorDefV>, name: Seq<char>, m: int)
    requires
        0 <= m,
        forall|l: int| m <= l < ctors.len() ==> (#[trigger] ctors[l].name) != name,
    ensures
        find_ctor_in(ctors, name, m) is None,
    decreases ctors.len() - m,
{
    if m < ctors.len() {
        lemma_find_ctor_in_none(ctors, name, m + 1);
    }
}

/// A constructor present at some index is found, starting anywhere at or
/// before it.
pub proof fn lemma_find_ctor_in_present(ctors: Seq<CtorDefV>, q: int, m: int)
    requires
        0 <= m <= q < ctors.len(),
    ensures
        find_ctor_in(ctors, ctors[q].name, m) is Some,
    decreases q - m,
{
    if m < q && ctors[m].name != ctors[q].name {
        lemma_find_ctor_in_present(ctors, q, m + 1);
    }
}

/// If exactly the constructor at `j` bears the name, the search finds it.
pub proof fn lemma_find_ctor_in_unique(ctors: Seq<CtorDefV>, name: Seq<char>, j: int, m: int)
    requires
        0 <= m <= j < ctors.len(),
        ctors[j].name == name,
        forall|l: int| 0 <= l < ctors.len() && l != j ==> (#[trigger] ctors[l].name) != name,
    ensures
        find_ctor_in(ctors, name, m) == Some(ctors[j]),
    decreases j - m,
{
    if m < j {
        lemma_find_ctor_in_unique(ctors, name, j, m + 1);
    }
}

/// In a well-formed catalog, looking up the name of the constructor at
/// `(i, j)` finds exactly that constructor under its enum, starting the
/// search anywhere at or before `i`.
pub proof fn lemma_find_ctor_of_at(defs: Seq<TyDefV>, i: int, j: int, k: int)
    requires
        td_wf(defs),
        0 <= i < defs.len(),
        0 <= j < defs[i].constructors.len(),
        0 <= k <= i,
    ensures
        find_ctor_at(defs, defs[i].constructors[j].name, k)
            == Some((defs[i].name, defs[i].constructors[j])),
    decreases i - k,
{
    let name = defs[i].constructors[j].name;
    if k < i {
        assert(forall|l: int| 0 <= l < defs[k].constructors.len()
            ==> (#[trigger] defs[k].constructors[l].name) != name);
        lemma_find_ctor_in_none(defs[k].constructors, name, 0);
        lemma_find_ctor_of_at(defs, i, j, k + 1);
    } else {
        assert(forall|l: int| 0 <= l < defs[i].constructors.len() && l != j
            ==> (#[trigger] defs[i].constructors[l].name) != name);
        lemma_find_ctor_in_unique(defs[i].constructors, name, j, 0);
    }
}

/// In a well-formed catalog, each constructor of a registered enum is
/// found globally under its own enum's name.
pub proof fn lemma_find_ctor_of(defs: Seq<TyDefV>, ename: Seq<char>, j: int)
    requires
        td_wf(defs),
        find_enum(defs, ename) is Some,
        0 <= j < find_enum(defs, ename)->Some_0.len(),
    ensures
        find_ctor(defs, find_enum(defs, ename)->Some_0[j].name)
            == Some((ename, find_enum(defs, ename)->Some_0[j])),
{
    lemma_find_enum_witness(defs, ename, 0);
    let w = choose|w: int| 0 <= w < defs.len() && (#[trigger] defs[w].name) == ename
        && defs[w].constructors == find_enum(defs, ename)->Some_0;
    lemma_find_ctor_of_at(defs, w, j, 0);
}

/// A catalog extended beyond a prefix finds everything the prefix found,
/// unchanged: the search takes the first hit, and the prefix's entries
/// keep their places.
pub proof fn lemma_find_enum_at_prefix(d1: Seq<TyDefV>, d2: Seq<TyDefV>, name: Seq<char>, i: int)
    requires
        d1.len() <= d2.len(),
        forall|k: int| 0 <= k < d1.len() ==> d2[k] == d1[k],
        find_enum_at(d1, name, i) is Some,
    ensures
        find_enum_at(d2, name, i) == find_enum_at(d1, name, i),
    decreases d1.len() - i,
{
    if 0 <= i < d1.len() {
        if d1[i].name == name {
        } else {
            lemma_find_enum_at_prefix(d1, d2, name, i + 1);
        }
    }
}

/// As [`lemma_find_enum_at_prefix`], for constructor lookup.
pub proof fn lemma_find_ctor_at_prefix(d1: Seq<TyDefV>, d2: Seq<TyDefV>, name: Seq<char>, i: int)
    requires
        d1.len() <= d2.len(),
        forall|k: int| 0 <= k < d1.len() ==> d2[k] == d1[k],
        find_ctor_at(d1, name, i) is Some,
    ensures
        find_ctor_at(d2, name, i) == find_ctor_at(d1, name, i),
    decreases d1.len() - i,
{
    if 0 <= i < d1.len() {
        if find_ctor_in(d1[i].constructors, name, 0) is Some {
        } else {
            lemma_find_ctor_at_prefix(d1, d2, name, i + 1);
        }
    }
}

impl TyDatabase {
    /// The constructor list of the enum named `enum_name`, if registered.
    ///
    /// "None" is not itself an error: callers classify it at the use site.
    pub fn find_enum_definition(&self, enum_name: &String) -> (r: Option<&Vec<ConstructorDefinition>>)
        ensures
            match r {
                Some(cs) => find_enum(self@, enum_name@) == Some(Seq::new(cs@.len(), |i: int| cs@[i]@)),
                None => find_enum(self@, enum_name@) is None,
            },
    {
        let n = self.definitions.len();
        for i in 0..n
            invariant
                n == self.definitions.len(),
                find_enum(self@, enum_name@) == find_enum_at(self@, enum_name@, i as int),
        {
            let TyDefinition::Enum { name, constructors } = &self.definitions[i];
            if *name == *enum_name {
                return Some(constructors);
            }
        }
        None
    }

    /// The definition of the constructor named `constructor_name`, if any
    /// definition in the catalog declares it.
    pub fn find_constructor_definition(&self, constructor_name: &String) -> (r: Option<&ConstructorDefinition>)
        ensures
            match r {
                Some(k) => find_ctor(self@, constructor_name@) matches Some(p) && p.1 == k@,
                None => find_ctor(self@, constructor_name@) is None,
            },
    {
        match self.find_constructor_by_name(constructor_name) {
            Some((_, k)) => Some(k),
            None => None,
        }
    }

    /// The constructor named `constructor_name` together with the name of
    /// the enum that declares it, if any.
    pub fn find_constructor_by_name(&self, constructor_name: &String) -> (r: Option<(&String, &ConstructorDefinition)>)
        ensures
            match r {
                Some(p) => find_ctor(self@, constructor_name@) == Some((p.0@, p.1@)),
                None => find_ctor(self@, constructor_name@) is None,
            },
    {
        let n = self.definitions.len();
        for i in 0..n
            invariant
                n == self.definitions.len(),
                find_ctor(self@, constructor_name@) == find_ctor_at(self@, constructor_name@, i as int),
        {
            let TyDefinition::Enum { name, constructors } = &self.definitions[i];
            proof {
                assert(self@[i as int] == self.definitions@[i as int]@);
            }
            let m = constructors.len();
            for j in 0..m
                invariant
                    m == constructors.len(),
                    0 <= i < self@.len(),
                    self@[i as int].name == name@,
                    self@[i as int].constructors =~= Seq::new(constructors@.len(), |q: int| constructors@[q]@),
                    find_ctor(self@, constructor_name@) == find_ctor_at(self@, constructor_name@, i as int),
                    find_ctor_in(self@[i as int].constructors, constructor_name@, 0)
                        == find_ctor_in(self@[i as int].constructors, constructor_name@, j as int),
            {
                if constructors[j].name == *constructor_name {
                    proof {
                        let ctors = self@[i as int].constructors;
                        assert(ctors[j as int] == constructors@[j as int]@);
                        assert(find_ctor_in(ctors, constructor_name@, j as int) == Some(ctors[j as int]));
                        assert(find_ctor_at(self@, constructor_name@, i as int)
                            == Some((self@[i as int].name, ctors[j as int])));
                    }
                    return Some((name, &constructors[j]));
                }
                proof {
                    let ctors = self@[i as int].constructors;
                    assert(ctors[j as int] == constructors@[j as int]@);
                    assert(find_ctor_in(ctors, constructor_name@, j as int)
                        == find_ctor_in(ctors, constructor_name@, j + 1));
                }
            }
            proof {
                assert(find_ctor_in(self@[i as int].constructors, constructor_name@, m as int) is None);
                assert(find_ctor_at(self@, constructor_name@, i as int)
                    == find_ctor_at(self@, constructor_name@, i + 1));
            }
        }
        None
    }

    /// Is `subty` a subtype of `super_ty`?
    pub fn is_subtype_of(&self, subty: &Ty, super_ty: &Ty) -> (r: bool)
        ensures
            r == is_subtype_of_v(self@, subty@, super_ty@),
    {
        match super_ty {
            Ty::Enum { name } => self.is_subtype_of_enum(subty, name),
            Ty::Constructor { name } => self.is_subtype_of_constructor(subty, name),
        }
    }

    /// Is `subty` a subtype of the enum named `enum_name`?
    ///
    /// The same enum is; a constructor type declared under that enum is;
    /// nothing else is.
    pub fn is_subtype_of_enum(&self, subty: &Ty, enum_name: &String) -> (r: bool)
        ensures
            r == is_subtype_of_enum_v(self@, subty@, enum_name@),
    {
        match subty {
            Ty::Enum { name } => *name == *enum_name,
            Ty::Constructor { name } => {
                let constructor_definitions = match self.find_enum_definition(enum_name) {
                    Some(x) => x,
                    None => {
                        return false;
                    },
                };
                let m = constructor_definitions.len();
                let ghost ctors = find_enum(self@, enum_name@)->Some_0;
                for j in 0..m
                    invariant
                        m == constructor_definitions.len(),
                        ctors =~= Seq::new(constructor_definitions@.len(), |q: int| constructor_definitions@[q]@),
                        subty@ == (TyV::Constructor { name: name@ }),
                        find_enum(self@, enum_name@) == Some(ctors),
                        find_ctor_in(ctors, name@, 0) == find_ctor_in(ctors, name@, j as int),
                {
                    if constructor_definitions[j].name == *name {
                        proof {
                            assert(ctors[j as int] == constructor_definitions@[j as int]@);
                            assert(find_ctor_in(ctors, name@, j as int) is Some);
                        }
                        return true;
                    }
                    proof {
                        assert(ctors[j as int] == constructor_definitions@[j as int]@);
                        assert(find_ctor_in(ctors, name@, j as int) == find_ctor_in(ctors, name@, j + 1));
                    }
                }
                false
            },
        }
    }

    /// Is `subty` a subtype of the constructor type named
    /// `constructor_name`? Constructor names are unique across the catalog,
    /// so comparing the name suffices; constructor types have no further
    /// subtypes.
    pub fn is_subtype_of_constructor(&self, subty: &Ty, constructor_name: &String) -> (r: bool)
        ensures
            r == is_subtype_of_constructor_v(subty@, constructor_name@),
    {
        match subty {
            Ty::Constructor { name } => *name == *constructor_name,
            Ty::Enum { .. } => false,
        }
    }
}

} // verus!
