//! Lowering: walk the abstract syntax tree once, build the type catalog
//! and the match expressions, report name, type and arity errors, and run
//! the exhaustiveness check on every match.

use vstd::prelude::*;

use crate::ast;
use crate::space::SpaceV;
use crate::ast::{pat_view, PatV, TextRange};
use crate::expressions::{MatchArm, MatchArmV, MatchExpression, MatchExpressionV};
use crate::patterns::{pattern_view, Pattern, PatternV};
use crate::ty_system::{
    find_ctor, find_enum, ConstructorDefinition, CtorDefV, Ty, TyDatabase, TyDefV, TyDefinition,
    TyV,
};

verus! {

/// One reported problem. The front end renders these for the user.
#[derive(Debug)]
pub enum Diagnostic {
    /// A name that is not registered in the catalog.
    UndefinedName,
    /// A name that resolves, but not to what the context requires.
    TypeMismatch,
    /// A constructor pattern whose field count differs from the
    /// declaration.
    ArityMismatch { given: usize, expected: usize },
    /// A match that does not cover every value, with one uncovered
    /// example if one could be built.
    NonExhaustiveMatch { example: Option<Pattern> },
}

/// Model of a [`Diagnostic`].
#[verifier::ext_equal]
pub enum DiagnosticV {
    UndefinedName,
    TypeMismatch,
    ArityMismatch { given: int, expected: int },
    NonExhaustiveMatch { example: Option<PatternV> },
}

impl View for Diagnostic {
    type V = DiagnosticV;

    open spec fn view(&self) -> DiagnosticV {
        match self {
            Diagnostic::UndefinedName => DiagnosticV::UndefinedName,
            Diagnostic::TypeMismatch => DiagnosticV::TypeMismatch,
            Diagnostic::ArityMismatch { given, expected } => DiagnosticV::ArityMismatch {
                given: *given as int,
                expected: *expected as int,
            },
            Diagnostic::NonExhaustiveMatch { example } => DiagnosticV::NonExhaustiveMatch {
                example: match example {
                    Some(p) => Some(pattern_view(*p)),
                    None => None,
                },
            },
        }
    }
}

/// The models of accumulated diagnostics, elementwise.
pub open spec fn errs_view(es: Seq<(TextRange, Diagnostic)>) -> Seq<(TextRange, DiagnosticV)>
    decreases es,
{
    if es.len() == 0 {
        Seq::empty()
    } else {
        errs_view(es.drop_last()).push((es.last().0, es.last().1@))
    }
}

/// The models of queued match expressions, elementwise.
pub open spec fn matches_view(ms: Seq<(MatchExpression, TextRange)>) -> Seq<(MatchExpressionV, TextRange)>
    decreases ms,
{
    if ms.len() == 0 {
        Seq::empty()
    } else {
        matches_view(ms.drop_last()).push((ms.last().0@, ms.last().1))
    }
}

/// `matches_view` maps elementwise.
pub proof fn lemma_matches_view(ms: Seq<(MatchExpression, TextRange)>)
    ensures
        matches_view(ms).len() == ms.len(),
        forall|i: int| 0 <= i < ms.len() ==> #[trigger] matches_view(ms)[i] == (ms[i].0@, ms[i].1),
    decreases ms,
{
    if ms.len() > 0 {
        lemma_matches_view(ms.drop_last());
    }
}

/// One analysis run's working state: the catalog under construction, the
/// match expressions waiting for the coverage check, and the diagnostics
/// gathered so far.
pub struct MatchExhaustivityModel {
    pub ty_database: TyDatabase,
    pub match_expressions: Vec<(MatchExpression, TextRange)>,
    pub errors: Vec<(TextRange, Diagnostic)>,
}

/// Model of the working state.
#[verifier::ext_equal]
pub struct ModelV {
    pub defs: Seq<TyDefV>,
    pub matches: Seq<(MatchExpressionV, TextRange)>,
    pub errors: Seq<(TextRange, DiagnosticV)>,
}

impl View for MatchExhaustivityModel {
    type V = ModelV;

    open spec fn view(&self) -> ModelV {
        ModelV {
            defs: self.ty_database@,
            matches: matches_view(self.match_expressions@),
            errors: errs_view(self.errors@),
        }
    }
}

/// Resolving a type mention: a missing name resolves to nothing; a
/// present name always resolves to the enum type of that name, and is
/// additionally reported as undefined when the catalog has no such enum.
pub open spec fn spec_resolve_ty(t: ast::TyV, defs: Seq<TyDefV>) -> (Option<TyV>, Seq<(TextRange, DiagnosticV)>) {
    match t.name_opt {
        None => (None, Seq::empty()),
        Some(nm) => if find_enum(defs, nm) is None {
            (Some(TyV::Enum { name: nm }), seq![(t.range, DiagnosticV::UndefinedName)])
        } else {
            (Some(TyV::Enum { name: nm }), Seq::empty())
        },
    }
}

/// Analyzing a pattern against the condition's type: a discard always
/// covers the whole type; a constructor pattern must name a constructor
/// of that enum type (else a mismatch or undefined report) and supply the
/// declared field count (else an arity report); its fields are analyzed
/// recursively against the declared field types, a failed field falling
/// back to a discard of its declared type.
pub open spec fn spec_analyze_pat(p: PatV, ty: TyV, defs: Seq<TyDefV>) -> (Option<PatternV>, Seq<(TextRange, DiagnosticV)>)
    decreases p, 0int, 0int,
{
    match p {
        PatV::Discard { .. } => (Some(PatternV::Discard { ty: ty }), Seq::empty()),
        PatV::Ctor { name_opt: None, .. } => (None, Seq::empty()),
        PatV::Ctor { name_opt: Some(nm), tuple_opt, range } => {
            let found = find_ctor(defs, nm);
            if !(found matches Some(pr) && ty matches TyV::Enum { name } && pr.0 == name) {
                let d = if found is Some {
                    DiagnosticV::TypeMismatch
                } else {
                    DiagnosticV::UndefinedName
                };
                (None, seq![(range, d)])
            } else {
                let kd = found->Some_0.1;
                let arity = kd.arg_tys.len() as int;
                let given = (match tuple_opt {
                    Some(ps) => ps.len(),
                    None => 0,
                }) as int;
                if given != arity {
                    (None, seq![(range, DiagnosticV::ArityMismatch { given: given, expected: arity })])
                } else {
                    match tuple_opt {
                        None => (Some(PatternV::Constructor { name: nm, args: Seq::empty() }), Seq::empty()),
                        Some(ps) => {
                            let (args, errs) = spec_analyze_pats(ps, kd.arg_tys, 0, defs);
                            (Some(PatternV::Constructor { name: nm, args: args }), errs)
                        },
                    }
                }
            }
        },
    }
}

/// Analyzing the fields of a constructor pattern pairwise against the
/// declared field types, from position `j` on.
pub open spec fn spec_analyze_pats(ps: Seq<PatV>, tys: Seq<TyV>, j: int, defs: Seq<TyDefV>) -> (Seq<PatternV>, Seq<(TextRange, DiagnosticV)>)
    decreases ps, 1int, ps.len() - j,
{
    if j < 0 || j >= ps.len() || j >= tys.len() {
        (Seq::empty(), Seq::empty())
    } else {
        let (p0, e0) = spec_analyze_pat(ps[j], tys[j], defs);
        let (rest, erest) = spec_analyze_pats(ps, tys, j + 1, defs);
        let first = match p0 {
            Some(q) => q,
            None => PatternV::Discard { ty: tys[j] },
        };
        (seq![first] + rest, e0 + erest)
    }
}

/// Analyzing a condition expression: only a constructor expression with a
/// recovered name resolves, to the enum type owning that constructor; an
/// unknown constructor is reported as undefined.
pub open spec fn spec_analyze_expr(e: ast::ExprV, defs: Seq<TyDefV>) -> (Option<TyV>, Seq<(TextRange, DiagnosticV)>) {
    match e {
        ast::ExprV::Ctor { name_opt: None, .. } => (None, Seq::empty()),
        ast::ExprV::Ctor { name_opt: Some(nm), range, .. } => match find_ctor(defs, nm) {
            None => (None, seq![(range, DiagnosticV::UndefinedName)]),
            Some(pr) => (Some(TyV::Enum { name: pr.0 }), Seq::empty()),
        },
    }
}

/// Analyzing one arm: an arm without a pattern contributes nothing; an
/// arm whose pattern fails to resolve is dropped from coverage but keeps
/// its reports.
pub open spec fn spec_analyze_match_arm(arm: ast::MatchArmV, ty: TyV, defs: Seq<TyDefV>) -> (Option<MatchArmV>, Seq<(TextRange, DiagnosticV)>) {
    match arm.pat_opt {
        None => (None, Seq::empty()),
        Some(p) => {
            let (r, errs) = spec_analyze_pat(p, ty, defs);
            (match r {
                Some(pattern) => Some(MatchArmV { pattern: pattern }),
                None => None,
            }, errs)
        },
    }
}

/// Analyzing the arms of a match statement in order, from `j` on,
/// dropping arms that fail to resolve.
pub open spec fn spec_analyze_arms(arms: Seq<ast::MatchArmV>, ty: TyV, j: int, defs: Seq<TyDefV>) -> (Seq<MatchArmV>, Seq<(TextRange, DiagnosticV)>)
    decreases arms.len() - j,
{
    if j < 0 || j >= arms.len() {
        (Seq::empty(), Seq::empty())
    } else {
        let (a0, e0) = spec_analyze_match_arm(arms[j], ty, defs);
        let (rest, erest) = spec_analyze_arms(arms, ty, j + 1, defs);
        (match a0 {
            Some(a) => seq![a] + rest,
            None => rest,
        }, e0 + erest)
    }
}

/// Resolving the declared field types of one constructor, from `j` on: a
/// field that fails to resolve stands in as an enum type named `???`.
pub open spec fn spec_resolve_fields(fields: Seq<ast::TyV>, j: int, defs: Seq<TyDefV>) -> (Seq<TyV>, Seq<(TextRange, DiagnosticV)>)
    decreases fields.len() - j,
{
    if j < 0 || j >= fields.len() {
        (Seq::empty(), Seq::empty())
    } else {
        let (t0, e0) = spec_resolve_ty(fields[j], defs);
        let (rest, erest) = spec_resolve_fields(fields, j + 1, defs);
        let first = match t0 {
            Some(t) => t,
            None => TyV::Enum { name: "???"@ },
        };
        (seq![first] + rest, e0 + erest)
    }
}

/// Resolving the constructor declarations of one enum, from `j` on: a
/// declaration without a name is dropped, though its fields' reports are
/// kept.
pub open spec fn spec_resolve_ctors(cds: Seq<ast::CtorDeclV>, j: int, defs: Seq<TyDefV>) -> (Seq<CtorDefV>, Seq<(TextRange, DiagnosticV)>)
    decreases cds.len() - j,
{
    if j < 0 || j >= cds.len() {
        (Seq::empty(), Seq::empty())
    } else {
        let cd = cds[j];
        let (tys, terrs) = (match cd.tuple_decl_opt {
            None => (Seq::<TyV>::empty(), Seq::<(TextRange, DiagnosticV)>::empty()),
            Some(td) => spec_resolve_fields(td.fields, 0, defs),
        });
        let (rest, rerrs) = spec_resolve_ctors(cds, j + 1, defs);
        (match cd.name_opt {
            Some(knm) => seq![CtorDefV { name: knm, arg_tys: tys }] + rest,
            None => rest,
        }, terrs + rerrs)
    }
}

/// Analyzing one statement against the working state.
///
/// A match statement with a resolvable condition queues a match
/// expression; an enum declaration registers its name at once (so that
/// field types may refer to the enum being declared) and then fills in
/// the resolved constructor list.
pub open spec fn spec_analyze_stmt(s: ast::StmtV, st: ModelV) -> ModelV {
    match s {
        ast::StmtV::Match(ms) => match ms.cond_opt {
            None => st,
            Some(cond) => {
                let (ty_opt, e1) = spec_analyze_expr(cond, st.defs);
                match ty_opt {
                    None => ModelV { defs: st.defs, matches: st.matches, errors: st.errors + e1 },
                    Some(ty) => {
                        let (arms, e2) = spec_analyze_arms(ms.arms, ty, 0, st.defs);
                        ModelV {
                            defs: st.defs,
                            matches: st.matches.push(
                                (MatchExpressionV { condition_ty: ty, arms: arms }, ms.range),
                            ),
                            errors: st.errors + e1 + e2,
                        }
                    },
                }
            },
        },
        ast::StmtV::Enum(ed) => match ed.name_opt {
            None => st,
            Some(nm) => {
                let defs1 = st.defs.push(TyDefV { name: nm, constructors: Seq::empty() });
                let (ctors, errs) = spec_resolve_ctors(ed.ctors, 0, defs1);
                ModelV {
                    defs: defs1.update(defs1.len() - 1, TyDefV { name: nm, constructors: ctors }),
                    matches: st.matches,
                    errors: st.errors + errs,
                }
            },
        },
    }
}

/// Analyzing a program's statements in order, starting from `st`.
pub open spec fn spec_run(stmts: Seq<ast::StmtV>, st: ModelV) -> ModelV
    decreases stmts,
{
    if stmts.len() == 0 {
        st
    } else {
        spec_analyze_stmt(stmts.last(), spec_run(stmts.drop_last(), st))
    }
}

/// The empty working state.
pub open spec fn spec_empty_model() -> ModelV {
    ModelV { defs: Seq::empty(), matches: Seq::empty(), errors: Seq::empty() }
}

/// The working state after one walk of the whole program.
pub open spec fn spec_from_ast(root: ast::RootV) -> ModelV {
    spec_run(root.stmts, spec_empty_model())
}

/// The coverage diagnostics of the queued match expressions, in order:
/// one report per non-exhaustive match, carrying an example uncovered
/// pattern when one could be built.
pub open spec fn spec_check_errs(ms: Seq<(MatchExpressionV, TextRange)>, defs: Seq<TyDefV>) -> Seq<(TextRange, DiagnosticV)>
    decreases ms,
{
    if ms.len() == 0 {
        Seq::empty()
    } else {
        let prev = spec_check_errs(ms.drop_last(), defs);
        let (m, range) = ms.last();
        if crate::use_cases::sp_is_exhaustive(m, defs) {
            prev
        } else {
            prev.push((range, DiagnosticV::NonExhaustiveMatch {
                example: crate::space_to_pattern::sp_to_pattern(
                    crate::use_cases::sp_leaked_space(m, defs),
                    defs,
                ),
            }))
        }
    }
}

/// Every queued match expression is well-formed against the catalog:
/// the walk only queues arms whose patterns resolved.
pub open spec fn model_wf(st: ModelV) -> bool {
    forall|i: int| 0 <= i < st.matches.len()
        ==> crate::use_cases::match_expression_wf((#[trigger] st.matches[i]).0, st.defs)
}

/// The models of a sequence of catalog types, elementwise.
pub open spec fn tys_view(ts: Seq<Ty>) -> Seq<TyV> {
    Seq::new(ts.len(), |i: int| ts[i]@)
}

/// Appending one diagnostic appends its model.
pub proof fn lemma_errs_view_push(es: Seq<(TextRange, Diagnostic)>, e: (TextRange, Diagnostic))
    ensures
        errs_view(es.push(e)) == errs_view(es).push((e.0, e.1@)),
{
    assert(es.push(e).drop_last() =~= es);
    assert(es.push(e).last() == e);
}

/// Appending one queued match appends its model.
pub proof fn lemma_matches_view_push(ms: Seq<(MatchExpression, TextRange)>, m: (MatchExpression, TextRange))
    ensures
        matches_view(ms.push(m)) == matches_view(ms).push((m.0@, m.1)),
{
    assert(ms.push(m).drop_last() =~= ms);
    assert(ms.push(m).last() == m);
}

/// The same catalog types again, as fresh owned values.
fn clone_tys(v: &Vec<Ty>) -> (r: Vec<Ty>)
    ensures
        r@.len() == v@.len(),
        forall|i: int| 0 <= i < v@.len() ==> (#[trigger] r@[i])@ == v@[i]@,
{
    let mut r: Vec<Ty> = Vec::new();
    let n = v.len();
    for i in 0..n
        invariant
            n == v.len(),
            r@.len() == i,
            forall|k: int| 0 <= k < i ==> (#[trigger] r@[k])@ == v@[k]@,
    {
        let c = v[i].duplicate();
        r.push(c);
    }
    r
}

/// Resolve a type mention against the catalog built so far. A type whose
/// name is not registered is still used under that name, but reported as
/// undefined once, at the use site.
pub fn resolve_ty(ty: &ast::Ty, m: &mut MatchExhaustivityModel) -> (r: Option<Ty>)
    ensures
        ({
            let (r0, e0) = spec_resolve_ty(ty@, old(m)@.defs);
            &&& final(m)@.defs == old(m)@.defs
            &&& final(m)@.matches == old(m)@.matches
            &&& final(m)@.errors == old(m)@.errors + e0
            &&& (match r {
                Some(t) => r0 == Some(t@),
                None => r0 is None,
            })
        }),
{
    let ty_name = match &ty.name_opt {
        Some(n) => n,
        None => {
            proof {
                assert(old(m)@.errors + Seq::<(TextRange, DiagnosticV)>::empty() =~= old(m)@.errors);
            }
            return None;
        },
    };

    if m.ty_database.find_enum_definition(ty_name).is_none() {
        let ghost prev = m@;
        m.errors.push((ty.range, Diagnostic::UndefinedName));
        proof {
            lemma_errs_view_push(old(m).errors@, (ty.range, Diagnostic::UndefinedName));
            assert(m@.errors =~= old(m)@.errors + spec_resolve_ty(ty@, old(m)@.defs).1);
        }
    } else {
        proof {
            assert(old(m)@.errors + Seq::<(TextRange, DiagnosticV)>::empty() =~= old(m)@.errors);
        }
    }

    Some(Ty::Enum { name: ty_name.clone() })
}

/// Resolve a condition expression's type. Only constructor expressions
/// are supported: the type is the enum owning the named constructor; an
/// unknown constructor is reported as undefined.
pub fn analyze_expr(expr: &ast::Expr, m: &mut MatchExhaustivityModel) -> (r: Option<Ty>)
    ensures
        ({
            let (r0, e0) = spec_analyze_expr(expr@, old(m)@.defs);
            &&& final(m)@.defs == old(m)@.defs
            &&& final(m)@.matches == old(m)@.matches
            &&& final(m)@.errors == old(m)@.errors + e0
            &&& (match r {
                Some(t) => r0 == Some(t@),
                None => r0 is None,
            })
        }),
{
    let ast::Expr::Ctor(c) = expr;
    let name = match &c.name_opt {
        Some(n) => n,
        None => {
            proof {
                assert(old(m)@.errors + Seq::<(TextRange, DiagnosticV)>::empty() =~= old(m)@.errors);
            }
            return None;
        },
    };

    let enum_name = match m.ty_database.find_constructor_by_name(name) {
        Some((enum_name, _)) => enum_name.clone(),
        None => {
            let ghost prev = m@;
            m.errors.push((c.range, Diagnostic::UndefinedName));
            proof {
                lemma_errs_view_push(old(m).errors@, (c.range, Diagnostic::UndefinedName));
                assert(m@.errors =~= old(m)@.errors + spec_analyze_expr(expr@, old(m)@.defs).1);
            }
            return None;
        },
    };

    proof {
        assert(old(m)@.errors + Seq::<(TextRange, DiagnosticV)>::empty() =~= old(m)@.errors);
    }
    Some(Ty::Enum { name: enum_name })
}

/// Analyze one arm's pattern against the condition's type. A discard
/// always succeeds; a constructor pattern must name a constructor of the
/// condition's enum type with the declared field count. A pattern that
/// fails to resolve contributes no coverage but keeps its reports.
pub fn analyze_pat(pat: &ast::Pat, ty: &Ty, m: &mut MatchExhaustivityModel) -> (r: Option<Pattern>)
    ensures
        ({
            let (r0, e0) = spec_analyze_pat(pat@, ty@, old(m)@.defs);
            &&& final(m)@.defs == old(m)@.defs
            &&& final(m)@.matches == old(m)@.matches
            &&& final(m)@.errors == old(m)@.errors + e0
            &&& (match r {
                Some(p) => r0 == Some(p@),
                None => r0 is None,
            })
        }),
    decreases *pat, 0int,
{
    let ghost defs0 = old(m)@.defs;
    match pat {
        ast::Pat::Discard(..) => {
            proof {
                assert(old(m)@.errors + Seq::<(TextRange, DiagnosticV)>::empty() =~= old(m)@.errors);
            }
            Some(Pattern::Discard { ty: ty.duplicate() })
        },
        ast::Pat::Ctor(c) => {
            let name = match &c.name_opt {
                Some(n) => n,
                None => {
                    proof {
                        assert(old(m)@.errors + Seq::<(TextRange, DiagnosticV)>::empty() =~= old(m)@.errors);
                    }
                    return None;
                },
            };

            // The constructor must be declared, and must belong to the
            // condition's enum type.
            let ghost found = find_ctor(defs0, name@);
            let mut arg_tys_opt: Option<Vec<Ty>> = None;
            let mut found_any = false;
            match m.ty_database.find_constructor_by_name(name) {
                Some((enum_name, kd)) => {
                    found_any = true;
                    let matches_ty = match ty {
                        Ty::Enum { name: tyname } => *enum_name == *tyname,
                        _ => false,
                    };
                    if matches_ty {
                        arg_tys_opt = Some(clone_tys(&kd.arg_tys));
                    }
                },
                None => {},
            }

            let arg_tys = match arg_tys_opt {
                Some(a) => a,
                None => {
                    let message = if found_any {
                        Diagnostic::TypeMismatch
                    } else {
                        Diagnostic::UndefinedName
                    };
                    let ghost mv = m@;
                    proof {
                        assert(!(found matches Some(pr) && ty@ matches TyV::Enum { name } && pr.0 == name));
                    }
                    m.errors.push((c.range, message));
                    proof {
                        lemma_errs_view_push(old(m).errors@, (c.range, message));
                        assert(m@.errors == old(m)@.errors.push((c.range, message@)));
                        assert(pat@ matches PatV::Ctor { name_opt: Some(nm), range, .. }
                            && nm == name@ && range == c.range);
                        assert(spec_analyze_pat(pat@, ty@, defs0).1 =~= seq![(c.range, message@)]);
                        assert(old(m)@.errors + spec_analyze_pat(pat@, ty@, defs0).1
                            =~= old(m)@.errors.push((c.range, message@)));
                        assert(m@.errors == old(m)@.errors + spec_analyze_pat(pat@, ty@, defs0).1);
                    }
                    return None;
                },
            };
            let ghost kd_tys = found->Some_0.1.arg_tys;
            proof {
                assert(kd_tys.len() == arg_tys@.len());
                assert(tys_view(arg_tys@) =~= kd_tys);
            }

            let arity = arg_tys.len();
            let given = match &c.tuple_opt {
                Some(t) => t.len(),
                None => 0,
            };
            proof {
                if c.tuple_opt is Some {
                    crate::ast::lemma_pats_view(c.tuple_opt->Some_0@);
                }
            }
            if arity != given {
                let message = Diagnostic::ArityMismatch { given: given, expected: arity };
                m.errors.push((c.range, message));
                proof {
                    lemma_errs_view_push(old(m).errors@, (c.range, message));
                    assert(m@.errors =~= old(m)@.errors + spec_analyze_pat(pat@, ty@, defs0).1);
                }
                return None;
            }

            match &c.tuple_opt {
                None => {
                    proof {
                        assert(old(m)@.errors + Seq::<(TextRange, DiagnosticV)>::empty() =~= old(m)@.errors);
                        assert(crate::patterns::patterns_view(Seq::<Pattern>::empty()) =~= Seq::<PatternV>::empty());
                    }
                    Some(Pattern::Constructor { name: name.clone(), args: Vec::new() })
                },
                Some(field_pats) => {
                    proof {
                        assert(decreases_to!(*pat => *field_pats));
                    }
                    let args = analyze_pats(field_pats, &arg_tys, m);
                    proof {
                        assert(spec_analyze_pats(crate::ast::pats_view(field_pats@), tys_view(arg_tys@), 0, defs0)
                            == spec_analyze_pats(crate::ast::pats_view(field_pats@), kd_tys, 0, defs0));
                    }
                    Some(Pattern::Constructor { name: name.clone(), args: args })
                },
            }
        },
    }
}

/// Analyze the fields of a constructor pattern pairwise against the
/// declared field types. A field that fails to resolve stands in as a
/// discard of its declared type.
fn analyze_pats(fields: &Vec<ast::Pat>, tys: &Vec<Ty>, m: &mut MatchExhaustivityModel) -> (r: Vec<Pattern>)
    requires
        fields@.len() == tys@.len(),
    ensures
        ({
            let (ps0, e0) = spec_analyze_pats(crate::ast::pats_view(fields@), tys_view(tys@), 0, old(m)@.defs);
            &&& final(m)@.defs == old(m)@.defs
            &&& final(m)@.matches == old(m)@.matches
            &&& final(m)@.errors == old(m)@.errors + e0
            &&& crate::patterns::patterns_view(r@) == ps0
        }),
    decreases *fields, 1int,
{
    let ghost defs0 = old(m)@.defs;
    let ghost psv = crate::ast::pats_view(fields@);
    let ghost tysv = tys_view(tys@);
    proof {
        crate::ast::lemma_pats_view(fields@);
        assert(crate::patterns::patterns_view(Seq::<Pattern>::empty()) =~= Seq::<PatternV>::empty());
        assert(Seq::<PatternV>::empty() + spec_analyze_pats(psv, tysv, 0, defs0).0
            =~= spec_analyze_pats(psv, tysv, 0, defs0).0);
        assert(old(m)@.errors + Seq::<(TextRange, DiagnosticV)>::empty() =~= old(m)@.errors);
    }
    let mut out: Vec<Pattern> = Vec::new();
    let n = fields.len();
    for i in 0..n
        invariant
            n == fields.len(),
            n == tys.len(),
            psv == crate::ast::pats_view(fields@),
            tysv == tys_view(tys@),
            psv.len() == n,
            tysv.len() == n,
            defs0 == old(m)@.defs,
            m@.defs == defs0,
            m@.matches == old(m)@.matches,
            crate::patterns::patterns_view(out@) + spec_analyze_pats(psv, tysv, i as int, defs0).0
                == spec_analyze_pats(psv, tysv, 0, defs0).0,
            m@.errors + spec_analyze_pats(psv, tysv, i as int, defs0).1
                == old(m)@.errors + spec_analyze_pats(psv, tysv, 0, defs0).1,
    {
        proof {
            crate::ast::lemma_pats_view(fields@);
            assert(psv[i as int] == crate::ast::pat_view(fields@[i as int]));
            assert(tysv[i as int] == tys@[i as int]@);
        }
        let ghost m_pre = m@;
        let ghost out_pre = out@;
        let p = analyze_pat(&fields[i], &tys[i], m);
        let q = match p {
            Some(q) => q,
            None => Pattern::Discard { ty: tys[i].duplicate() },
        };
        out.push(q);
        proof {
            let (p0, e0) = spec_analyze_pat(psv[i as int], tysv[i as int], defs0);
            let (rest, erest) = spec_analyze_pats(psv, tysv, i + 1, defs0);
            assert(spec_analyze_pats(psv, tysv, i as int, defs0).0 == seq![match p0 {
                Some(qq) => qq,
                None => PatternV::Discard { ty: tysv[i as int] },
            }] + rest);
            assert(spec_analyze_pats(psv, tysv, i as int, defs0).1 == e0 + erest);
            assert(out@.drop_last() =~= out_pre);
            assert(crate::patterns::patterns_view(out@)
                == crate::patterns::patterns_view(out_pre).push(crate::patterns::pattern_view(q)));
            assert(crate::patterns::patterns_view(out_pre).push(crate::patterns::pattern_view(q)) + rest
                =~= crate::patterns::patterns_view(out_pre) + (seq![crate::patterns::pattern_view(q)] + rest));
            assert(m_pre.errors + e0 + erest =~= m_pre.errors + (e0 + erest));
        }
    }
    proof {
        assert(spec_analyze_pats(psv, tysv, n as int, defs0).0 =~= Seq::<PatternV>::empty());
        assert(spec_analyze_pats(psv, tysv, n as int, defs0).1 =~= Seq::<(TextRange, DiagnosticV)>::empty());
        assert(crate::patterns::patterns_view(out@) + Seq::<PatternV>::empty()
            =~= crate::patterns::patterns_view(out@));
        assert(m@.errors + Seq::<(TextRange, DiagnosticV)>::empty() =~= m@.errors);
    }
    out
}

/// Analyze one arm: an arm without a pattern, or whose pattern fails to
/// resolve, contributes no coverage; its reports are kept.
pub fn analyze_match_arm(arm: &ast::MatchArm, ty: &Ty, m: &mut MatchExhaustivityModel) -> (r: Option<MatchArm>)
    ensures
        ({
            let (r0, e0) = spec_analyze_match_arm(arm@, ty@, old(m)@.defs);
            &&& final(m)@.defs == old(m)@.defs
            &&& final(m)@.matches == old(m)@.matches
            &&& final(m)@.errors == old(m)@.errors + e0
            &&& (match r {
                Some(a) => r0 == Some(a@),
                None => r0 is None,
            })
        }),
{
    let pat = match &arm.pat_opt {
        Some(p) => p,
        None => {
            proof {
                assert(old(m)@.errors + Seq::<(TextRange, DiagnosticV)>::empty() =~= old(m)@.errors);
            }
            return None;
        },
    };
    match analyze_pat(pat, ty, m) {
        Some(pattern) => Some(MatchArm { pattern }),
        None => None,
    }
}

/// Analyze one statement.
///
/// A match statement with a resolvable condition has its arms analyzed
/// and is queued for the coverage check. An enum declaration registers
/// its name at once with an empty constructor list (so that field types
/// may refer to the enum being declared), resolves its constructors, and
/// then replaces the placeholder entry with the resolved list.
pub fn analyze_stmt(stmt: &ast::Stmt, m: &mut MatchExhaustivityModel)
    ensures
        final(m)@ == spec_analyze_stmt(stmt@, old(m)@),
{
    let ghost st0 = old(m)@;
    match stmt {
        ast::Stmt::Match(ms) => {
            let ghost msv = ms@;
            let cond = match &ms.cond_opt {
                Some(c) => c,
                None => {
                    return;
                },
            };
            let cond_ty = match analyze_expr(cond, m) {
                Some(ty) => ty,
                None => {
                    proof {
                        assert(m@ =~~= spec_analyze_stmt(stmt@, st0));
                    }
                    return;
                },
            };
            let ghost tyv = cond_ty@;
            let ghost m1 = m@;

            let mut arms: Vec<MatchArm> = Vec::new();
            let n = ms.arms.len();
            for i in 0..n
                invariant
                    n == ms.arms.len(),
                    msv == ms@,
                    msv.arms.len() == n,
                    tyv == cond_ty@,
                    m@.defs == m1.defs,
                    m@.matches == m1.matches,
                    Seq::new(arms@.len(), |k: int| arms@[k]@)
                        + spec_analyze_arms(msv.arms, tyv, i as int, m1.defs).0
                        == spec_analyze_arms(msv.arms, tyv, 0, m1.defs).0,
                    m@.errors + spec_analyze_arms(msv.arms, tyv, i as int, m1.defs).1
                        == m1.errors + spec_analyze_arms(msv.arms, tyv, 0, m1.defs).1,
            {
                proof {
                    assert(msv.arms[i as int] == ms.arms@[i as int]@);
                }
                let ghost arms_pre = arms@;
                let ghost m_pre = m@;
                let r = analyze_match_arm(&ms.arms[i], &cond_ty, m);
                match r {
                    Some(a) => {
                        arms.push(a);
                    },
                    None => {},
                }
                proof {
                    let (a0, e0) = spec_analyze_match_arm(msv.arms[i as int], tyv, m1.defs);
                    let (rest, erest) = spec_analyze_arms(msv.arms, tyv, i + 1, m1.defs);
                    assert(spec_analyze_arms(msv.arms, tyv, i as int, m1.defs).1 == e0 + erest);
                    if a0 is Some {
                        assert(arms@.drop_last() =~= arms_pre);
                        assert(arms@.last()@ == a0->Some_0);
                        assert(Seq::new(arms@.len(), |k: int| arms@[k]@)
                            =~= Seq::new(arms_pre.len(), |k: int| arms_pre[k]@).push(arms@.last()@));
                        assert(Seq::new(arms_pre.len(), |k: int| arms_pre[k]@).push(arms@.last()@) + rest
                            =~= Seq::new(arms_pre.len(), |k: int| arms_pre[k]@) + (seq![arms@.last()@] + rest));
                    }
                    assert(m_pre.errors + e0 + erest =~= m_pre.errors + (e0 + erest));
                }
            }

            let ghost m2 = m@;
            let ghost armsv = Seq::new(arms@.len(), |k: int| arms@[k]@);
            let ghost mx_pre = m.match_expressions@;
            let range = ms.range;
            m.match_expressions.push((MatchExpression { condition_ty: cond_ty, arms }, range));
            proof {
                let (sarms, e2) = spec_analyze_arms(msv.arms, tyv, 0, m1.defs);
                assert(spec_analyze_arms(msv.arms, tyv, n as int, m1.defs).0 =~= Seq::<MatchArmV>::empty());
                assert(spec_analyze_arms(msv.arms, tyv, n as int, m1.defs).1
                    =~= Seq::<(TextRange, DiagnosticV)>::empty());
                assert(armsv + Seq::<MatchArmV>::empty() =~= armsv);
                assert(m2.errors + Seq::<(TextRange, DiagnosticV)>::empty() =~= m2.errors);
                assert(armsv == sarms);
                assert(m2.errors == m1.errors + e2);
                assert(m.match_expressions@.drop_last() =~= mx_pre);
                assert(m.match_expressions@.last().0@ =~= (MatchExpressionV { condition_ty: tyv, arms: sarms }));
                assert(matches_view(m.match_expressions@) == matches_view(mx_pre).push(
                    (m.match_expressions@.last().0@, range),
                ));
                let (ty0, e1) = spec_analyze_expr(msv.cond_opt->Some_0, st0.defs);
                assert(m1.errors == st0.errors + e1);
                assert(m1.errors + e2 =~= st0.errors + e1 + e2);
                assert(m@ =~~= spec_analyze_stmt(stmt@, st0));
            }
        },
        ast::Stmt::Enum(ed) => {
            let ghost edv = ed@;
            let name = match &ed.name_opt {
                Some(n) => n,
                None => {
                    return;
                },
            };
            // Register the enum at once, so that its own constructors'
            // field types may name it.
            m.ty_database.definitions.push(TyDefinition::Enum {
                name: name.clone(),
                constructors: Vec::new(),
            });
            let ghost defs1 = st0.defs.push(TyDefV { name: name@, constructors: Seq::empty() });
            proof {
                assert(m.ty_database.definitions@.drop_last() =~= old(m).ty_database.definitions@);
                assert(m@.defs =~~= defs1);
                assert(m@.matches == st0.matches);
                assert(m@.errors == st0.errors);
            }

            let mut constructors: Vec<ConstructorDefinition> = Vec::new();
            let nc = ed.ctors.len();
            let ghost m1 = m@;
            for ci in 0..nc
                invariant
                    nc == ed.ctors.len(),
                    edv == ed@,
                    edv.ctors.len() == nc,
                    m@.defs == defs1,
                    defs1 == m1.defs,
                    m@.matches == m1.matches,
                    Seq::new(constructors@.len(), |k: int| constructors@[k]@)
                        + spec_resolve_ctors(edv.ctors, ci as int, defs1).0
                        == spec_resolve_ctors(edv.ctors, 0, defs1).0,
                    m@.errors + spec_resolve_ctors(edv.ctors, ci as int, defs1).1
                        == m1.errors + spec_resolve_ctors(edv.ctors, 0, defs1).1,
            {
                proof {
                    assert(edv.ctors[ci as int] == ed.ctors@[ci as int]@);
                }
                let ctor = &ed.ctors[ci];
                let ghost ctors_pre = constructors@;
                let ghost m_pre = m@;

                let mut arg_tys: Vec<Ty> = Vec::new();
                let ghost cdv = edv.ctors[ci as int];
                match &ctor.tuple_decl_opt {
                    Some(tuple_decl) => {
                        let nf = tuple_decl.fields.len();
                        let ghost fieldsv = cdv.tuple_decl_opt->Some_0.fields;
                        proof {
                            assert(fieldsv.len() == nf);
                            assert(Seq::<TyV>::empty()
                                + spec_resolve_fields(fieldsv, 0, defs1).0
                                =~= spec_resolve_fields(fieldsv, 0, defs1).0);
                            assert(m@.errors + Seq::<(TextRange, DiagnosticV)>::empty() =~= m@.errors);
                        }
                        for fi in 0..nf
                            invariant
                                nf == tuple_decl.fields.len(),
                                fieldsv.len() == nf,
                                forall|k: int| 0 <= k < nf ==> fieldsv[k] == tuple_decl.fields@[k]@,
                                m@.defs == defs1,
                                m@.matches == m_pre.matches,
                                Seq::new(arg_tys@.len(), |k: int| arg_tys@[k]@)
                                    + spec_resolve_fields(fieldsv, fi as int, defs1).0
                                    == spec_resolve_fields(fieldsv, 0, defs1).0,
                                m@.errors + spec_resolve_fields(fieldsv, fi as int, defs1).1
                                    == m_pre.errors + spec_resolve_fields(fieldsv, 0, defs1).1,
                        {
                            let ghost tys_pre = arg_tys@;
                            let ghost mf_pre = m@;
                            let rt = resolve_ty(&tuple_decl.fields[fi], m);
                            let t = match rt {
                                Some(t) => t,
                                None => Ty::Enum { name: "???".to_owned() },
                            };
                            arg_tys.push(t);
                            proof {
                                let (t0, e0) = spec_resolve_ty(fieldsv[fi as int], defs1);
                                let (rest, erest) = spec_resolve_fields(fieldsv, fi + 1, defs1);
                                assert(spec_resolve_fields(fieldsv, fi as int, defs1).1 == e0 + erest);
                                assert(arg_tys@.drop_last() =~= tys_pre);
                                assert(Seq::new(arg_tys@.len(), |k: int| arg_tys@[k]@)
                                    =~= Seq::new(tys_pre.len(), |k: int| tys_pre[k]@).push(t@));
                                assert(Seq::new(tys_pre.len(), |k: int| tys_pre[k]@).push(t@) + rest
                                    =~= Seq::new(tys_pre.len(), |k: int| tys_pre[k]@) + (seq![t@] + rest));
                                assert(mf_pre.errors + e0 + erest =~= mf_pre.errors + (e0 + erest));
                            }
                        }
                        proof {
                            assert(spec_resolve_fields(fieldsv, nf as int, defs1).0 =~= Seq::<TyV>::empty());
                            assert(spec_resolve_fields(fieldsv, nf as int, defs1).1
                                =~= Seq::<(TextRange, DiagnosticV)>::empty());
                            assert(Seq::new(arg_tys@.len(), |k: int| arg_tys@[k]@)
                                + Seq::<TyV>::empty() =~= Seq::new(arg_tys@.len(), |k: int| arg_tys@[k]@));
                            assert(m@.errors + Seq::<(TextRange, DiagnosticV)>::empty() =~= m@.errors);
                        }
                    },
                    None => {
                        proof {
                            assert(Seq::new(arg_tys@.len(), |k: int| arg_tys@[k]@) =~= Seq::<TyV>::empty());
                            assert(m@.errors + Seq::<(TextRange, DiagnosticV)>::empty() =~= m@.errors);
                        }
                    },
                }

                match &ctor.name_opt {
                    Some(kname) => {
                        constructors.push(ConstructorDefinition { name: kname.clone(), arg_tys });
                    },
                    None => {},
                }
                proof {
                    let cd = edv.ctors[ci as int];
                    let (tys0, terrs) = (match cd.tuple_decl_opt {
                        None => (Seq::<TyV>::empty(), Seq::<(TextRange, DiagnosticV)>::empty()),
                        Some(td) => spec_resolve_fields(td.fields, 0, defs1),
                    });
                    let (rest, rerrs) = spec_resolve_ctors(edv.ctors, ci + 1, defs1);
                    assert(spec_resolve_ctors(edv.ctors, ci as int, defs1).1 == terrs + rerrs);
                    match ctor.name_opt {
                        Some(_) => {
                            assert(constructors@.drop_last() =~= ctors_pre);
                            assert(Seq::new(constructors@.len(), |k: int| constructors@[k]@)
                                =~= Seq::new(ctors_pre.len(), |k: int| ctors_pre[k]@).push(
                                constructors@.last()@,
                            ));
                            assert(Seq::new(ctors_pre.len(), |k: int| ctors_pre[k]@).push(
                                constructors@.last()@,
                            ) + rest =~= Seq::new(ctors_pre.len(), |k: int| ctors_pre[k]@) + (seq![
                                constructors@.last()@,
                            ] + rest));
                        },
                        None => {},
                    }
                    assert(m_pre.errors + terrs + rerrs =~= m_pre.errors + (terrs + rerrs));
                }
            }

            // Replace the placeholder entry, which is the last one, with
            // the fully resolved definition.
            let _ = m.ty_database.definitions.pop();
            m.ty_database.definitions.push(TyDefinition::Enum {
                name: name.clone(),
                constructors,
            });
            proof {
                assert(spec_resolve_ctors(edv.ctors, nc as int, defs1).0 =~= Seq::<CtorDefV>::empty());
                assert(spec_resolve_ctors(edv.ctors, nc as int, defs1).1
                    =~= Seq::<(TextRange, DiagnosticV)>::empty());
                assert(m@ =~~= spec_analyze_stmt(stmt@, st0));
            }
        },
    }
}

/// Build the working state from one walk of the program.
pub fn from_ast(root: &ast::Root) -> (r: MatchExhaustivityModel)
    ensures
        r@ == spec_from_ast(root@),
        model_wf(r@),
{
    let ghost rsv = root@.stmts;
    let mut m = MatchExhaustivityModel {
        ty_database: TyDatabase { definitions: Vec::new() },
        match_expressions: Vec::new(),
        errors: Vec::new(),
    };
    proof {
        assert(m@ =~~= spec_empty_model());
        assert(rsv.take(0) =~= Seq::<ast::StmtV>::empty());
    }

    let n = root.stmts.len();
    for i in 0..n
        invariant
            n == root.stmts.len(),
            rsv == root@.stmts,
            rsv.len() == n,
            m@ == spec_run(rsv.take(i as int), spec_empty_model()),
    {
        proof {
            assert(rsv[i as int] == root.stmts@[i as int]@);
        }
        analyze_stmt(&root.stmts[i], &mut m);
        proof {
            assert(rsv.take(i + 1).drop_last() =~= rsv.take(i as int));
            assert(rsv.take(i + 1).last() == rsv[i as int]);
        }
    }
    proof {
        assert(rsv.take(n as int) =~= rsv);
        lemma_run_wf(rsv, spec_empty_model());
    }
    m
}

/// Run the coverage check on every queued match expression, in order,
/// and report each non-exhaustive match, with one example uncovered
/// pattern when one could be built.
pub fn check(model: &mut MatchExhaustivityModel)
    requires
        model_wf(old(model)@),
    ensures
        final(model)@.defs == old(model)@.defs,
        final(model)@.matches == old(model)@.matches,
        final(model)@.errors == old(model)@.errors + spec_check_errs(old(model)@.matches, old(model)@.defs),
{
    let ghost msv = old(model)@.matches;
    let ghost defs0 = old(model)@.defs;
    proof {
        lemma_matches_view(model.match_expressions@);
        assert(msv.take(0) =~= Seq::<(MatchExpressionV, TextRange)>::empty());
        assert(old(model)@.errors + Seq::<(TextRange, DiagnosticV)>::empty() =~= old(model)@.errors);
    }
    let n = model.match_expressions.len();
    for i in 0..n
        invariant
            n == model.match_expressions.len(),
            model_wf(old(model)@),
            msv == old(model)@.matches,
            defs0 == old(model)@.defs,
            msv.len() == n,
            model@.defs == defs0,
            model@.matches == msv,
            model@.errors == old(model)@.errors + spec_check_errs(msv.take(i as int), defs0),
    {
        proof {
            lemma_matches_view(model.match_expressions@);
            assert(msv[i as int] == (model.match_expressions@[i as int].0@, model.match_expressions@[i as int].1));
            assert(crate::use_cases::match_expression_wf(msv[i as int].0, defs0));
        }
        let (ok, pattern) = crate::use_cases::check_exhaustivity(
            &model.match_expressions[i].0,
            &model.ty_database,
        );
        let ghost m_pre = model@;
        let ghost errs_pre = model.errors@;
        if !ok {
            let range = model.match_expressions[i].1;
            let message = Diagnostic::NonExhaustiveMatch { example: pattern };
            model.errors.push((range, message));
            proof {
                lemma_errs_view_push(errs_pre, model.errors@.last());
                assert(model.errors@.drop_last() =~= errs_pre);
            }
        }
        proof {
            assert(msv.take(i + 1).drop_last() =~= msv.take(i as int));
            assert(msv.take(i + 1).last() == msv[i as int]);
            if !ok {
                assert(model@.errors == m_pre.errors.push(
                    (msv[i as int].1, DiagnosticV::NonExhaustiveMatch {
                        example: crate::space_to_pattern::sp_to_pattern(
                            crate::use_cases::sp_leaked_space(msv[i as int].0, defs0),
                            defs0,
                        ),
                    }),
                ));
                assert(old(model)@.errors + spec_check_errs(msv.take(i + 1), defs0)
                    =~= model@.errors);
            } else {
                assert(old(model)@.errors + spec_check_errs(msv.take(i + 1), defs0)
                    =~= model@.errors);
            }
        }
    }
    proof {
        assert(msv.take(n as int) =~= msv);
    }
}

/// A pattern the analysis accepted covers a well-formed space: its
/// constructors are registered with their declared arities.
pub proof fn lemma_analyze_pat_wf(p: PatV, ty: TyV, defs: Seq<TyDefV>)
    ensures
        spec_analyze_pat(p, ty, defs).0 matches Some(pat)
            ==> crate::space::sp_wf(crate::space_from_pattern::sp_from_pattern(pat), defs),
    decreases p, 0int, 0int,
{
    match p {
        PatV::Discard { .. } => {},
        PatV::Ctor { name_opt: None, .. } => {},
        PatV::Ctor { name_opt: Some(nm), tuple_opt, range } => {
            let found = find_ctor(defs, nm);
            if found matches Some(pr) && ty matches TyV::Enum { name } && pr.0 == name {
                let kd = found->Some_0.1;
                let arity = kd.arg_tys.len() as int;
                let given = (match tuple_opt {
                    Some(ps) => ps.len(),
                    None => 0,
                }) as int;
                if given == arity {
                    match tuple_opt {
                        None => {
                            let pat = spec_analyze_pat(p, ty, defs).0->Some_0;
                            assert(crate::space_from_pattern::sp_from_pattern(pat)
                                matches SpaceV::Constructor { name: n2, args } && n2 == nm
                                && args =~= Seq::<SpaceV>::empty());
                            assert(crate::space::sp_wf_from(Seq::<SpaceV>::empty(), 0, defs));
                        },
                        Some(ps) => {
                            lemma_analyze_pats_wf(ps, kd.arg_tys, 0, defs);
                            let args = spec_analyze_pats(ps, kd.arg_tys, 0, defs).0;
                            let pat = PatternV::Constructor { name: nm, args: args };
                            let sargs = crate::space_from_pattern::sps_from_patterns(args);
                            crate::space_from_pattern::lemma_sps_from_patterns(args);
                            assert(sargs.len() == arity);
                            assert forall|k: int| 0 <= k < sargs.len()
                                implies crate::space::sp_wf(#[trigger] sargs[k], defs) by {
                                assert(sargs[k] == crate::space_from_pattern::sp_from_pattern(args[k]));
                            }
                            crate::space::lemma_wf_from(sargs, 0, defs);
                        },
                    }
                }
            }
        },
    }
}

/// Every field pattern the analysis produced covers a well-formed space,
/// and there is one per analyzed position.
pub proof fn lemma_analyze_pats_wf(ps: Seq<PatV>, tys: Seq<TyV>, j: int, defs: Seq<TyDefV>)
    ensures
        spec_analyze_pats(ps, tys, j, defs).0.len() == (if j < 0 {
            0
        } else if ps.len() <= tys.len() {
            if j <= ps.len() { ps.len() - j } else { 0 }
        } else {
            if j <= tys.len() { tys.len() - j } else { 0 }
        }),
        forall|k: int| 0 <= k < spec_analyze_pats(ps, tys, j, defs).0.len()
            ==> crate::space::sp_wf(crate::space_from_pattern::sp_from_pattern(
                #[trigger] spec_analyze_pats(ps, tys, j, defs).0[k],
            ), defs),
    decreases ps, 1int, ps.len() - j,
{
    if !(j < 0 || j >= ps.len() || j >= tys.len()) {
        lemma_analyze_pat_wf(ps[j], tys[j], defs);
        lemma_analyze_pats_wf(ps, tys, j + 1, defs);
        let (p0, e0) = spec_analyze_pat(ps[j], tys[j], defs);
        let first = match p0 {
            Some(q) => q,
            None => PatternV::Discard { ty: tys[j] },
        };
        let rest = spec_analyze_pats(ps, tys, j + 1, defs).0;
        assert(spec_analyze_pats(ps, tys, j, defs).0 == seq![first] + rest);
        assert(crate::space::sp_wf(crate::space_from_pattern::sp_from_pattern(first), defs));
        assert forall|k: int| 0 <= k < spec_analyze_pats(ps, tys, j, defs).0.len()
            implies crate::space::sp_wf(crate::space_from_pattern::sp_from_pattern(
            #[trigger] spec_analyze_pats(ps, tys, j, defs).0[k],
        ), defs) by {
            if k == 0 {
                assert(spec_analyze_pats(ps, tys, j, defs).0[0] == first);
            } else {
                assert(spec_analyze_pats(ps, tys, j, defs).0[k] == rest[k - 1]);
            }
        }
    }
}

/// Every arm the analysis kept has a pattern covering a well-formed
/// space.
pub proof fn lemma_analyze_arms_wf(arms: Seq<ast::MatchArmV>, ty: TyV, j: int, defs: Seq<TyDefV>)
    ensures
        forall|k: int| 0 <= k < spec_analyze_arms(arms, ty, j, defs).0.len()
            ==> crate::space::sp_wf(crate::space_from_pattern::sp_from_pattern(
                (#[trigger] spec_analyze_arms(arms, ty, j, defs).0[k]).pattern,
            ), defs),
    decreases arms.len() - j,
{
    if !(j < 0 || j >= arms.len()) {
        lemma_analyze_arms_wf(arms, ty, j + 1, defs);
        let (a0, e0) = spec_analyze_match_arm(arms[j], ty, defs);
        let rest = spec_analyze_arms(arms, ty, j + 1, defs).0;
        if a0 is Some {
            match arms[j].pat_opt {
                Some(p) => {
                    lemma_analyze_pat_wf(p, ty, defs);
                },
                None => {},
            }
            assert(spec_analyze_arms(arms, ty, j, defs).0 == seq![a0->Some_0] + rest);
            assert forall|k: int| 0 <= k < spec_analyze_arms(arms, ty, j, defs).0.len()
                implies crate::space::sp_wf(crate::space_from_pattern::sp_from_pattern(
                (#[trigger] spec_analyze_arms(arms, ty, j, defs).0[k]).pattern,
            ), defs) by {
                if k == 0 {
                    assert(spec_analyze_arms(arms, ty, j, defs).0[0] == a0->Some_0);
                } else {
                    assert(spec_analyze_arms(arms, ty, j, defs).0[k] == rest[k - 1]);
                }
            }
        }
    }
}

/// Analyzing one statement preserves the working state's invariant:
/// every queued match stays well-formed against the (possibly grown)
/// catalog.
pub proof fn lemma_analyze_stmt_wf(s: ast::StmtV, st: ModelV)
    requires
        model_wf(st),
    ensures
        model_wf(spec_analyze_stmt(s, st)),
{
    let st1 = spec_analyze_stmt(s, st);
    match s {
        ast::StmtV::Match(ms) => match ms.cond_opt {
            None => {},
            Some(cond) => {
                let (ty_opt, e1) = spec_analyze_expr(cond, st.defs);
                match ty_opt {
                    None => {},
                    Some(ty) => {
                        lemma_analyze_arms_wf(ms.arms, ty, 0, st.defs);
                        let (arms, e2) = spec_analyze_arms(ms.arms, ty, 0, st.defs);
                        let newm = MatchExpressionV { condition_ty: ty, arms: arms };
                        assert(crate::use_cases::match_expression_wf(newm, st.defs));
                        assert forall|i: int| 0 <= i < st1.matches.len()
                            implies crate::use_cases::match_expression_wf(
                            (#[trigger] st1.matches[i]).0,
                            st1.defs,
                        ) by {
                            if i < st.matches.len() {
                                assert(st1.matches[i] == st.matches[i]);
                            } else {
                                assert(st1.matches[i] == (newm, ms.range));
                            }
                        }
                    },
                }
            },
        },
        ast::StmtV::Enum(ed) => match ed.name_opt {
            None => {},
            Some(nm) => {
                // The catalog grows by one entry; the first entries keep
                // their places, so earlier matches stay well-formed.
                assert(st1.defs.len() == st.defs.len() + 1);
                assert(forall|k: int| 0 <= k < st.defs.len() ==> st1.defs[k] == st.defs[k]);
                assert forall|i: int| 0 <= i < st1.matches.len()
                    implies crate::use_cases::match_expression_wf(
                    (#[trigger] st1.matches[i]).0,
                    st1.defs,
                ) by {
                    assert(st1.matches[i] == st.matches[i]);
                    let mi = st.matches[i].0;
                    assert(crate::use_cases::match_expression_wf(mi, st.defs));
                    assert forall|k: int| 0 <= k < mi.arms.len() implies crate::space::sp_wf(
                        crate::space_from_pattern::sp_from_pattern(
                            (#[trigger] mi.arms[k]).pattern,
                        ),
                        st1.defs,
                    ) by {
                        crate::space::lemma_sp_wf_prefix(
                            crate::space_from_pattern::sp_from_pattern(mi.arms[k].pattern),
                            st.defs,
                            st1.defs,
                        );
                    }
                }
            },
        },
    }
}

/// The state after a whole walk satisfies the invariant.
pub proof fn lemma_run_wf(stmts: Seq<ast::StmtV>, st: ModelV)
    requires
        model_wf(st),
    ensures
        model_wf(spec_run(stmts, st)),
    decreases stmts,
{
    if stmts.len() > 0 {
        lemma_run_wf(stmts.drop_last(), st);
        lemma_analyze_stmt_wf(stmts.last(), spec_run(stmts.drop_last(), st));
    }
}

} // verus!
