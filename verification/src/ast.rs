//! The abstract syntax tree the analysis walks, as plain owned values.
//!
//! The front end (lexing, parsing, tree projection) is a separate
//! component; it hands the analysis this tree, with a best-effort source
//! range attached to each node for diagnostic anchoring.

use vstd::prelude::*;

verus! {

/// A position in the source text: 1-based line and column.
#[derive(Clone, Copy, Debug, PartialEq, Eq, Structural)]
pub struct TextPosition {
    pub line: usize,
    pub character: usize,
}

/// A range of source text.
#[derive(Clone, Copy, Debug, PartialEq, Eq, Structural)]
pub struct TextRange {
    pub start: TextPosition,
    pub end: TextPosition,
}

impl TextRange {
    /// The empty range: used when no better anchor is known.
    pub fn empty() -> (r: TextRange)
        ensures
            r == (TextRange {
                start: TextPosition { line: 0, character: 0 },
                end: TextPosition { line: 0, character: 0 },
            }),
    {
        TextRange {
            start: TextPosition { line: 0, character: 0 },
            end: TextPosition { line: 0, character: 0 },
        }
    }
}

/// A type mention: a name, if the parser recovered one.
#[derive(Debug)]
pub struct Ty {
    pub name_opt: Option<String>,
    pub range: TextRange,
}

/// Model of a type mention.
#[verifier::ext_equal]
pub struct TyV {
    pub name_opt: Option<Seq<char>>,
    pub range: TextRange,
}

impl View for Ty {
    type V = TyV;

    open spec fn view(&self) -> TyV {
        TyV { name_opt: match self.name_opt {
            Some(ref n) => Some(n@),
            None => None,
        }, range: self.range }
    }
}

/// A discard pattern: `_`.
#[derive(Debug)]
pub struct DiscardPat {
    pub range: TextRange,
}

/// A constructor pattern: a name and, possibly, a tuple of sub-patterns.
#[derive(Debug)]
pub struct CtorPat {
    pub name_opt: Option<String>,
    pub tuple_opt: Option<Vec<Pat>>,
    pub range: TextRange,
}

/// A pattern.
#[derive(Debug)]
pub enum Pat {
    Discard(DiscardPat),
    Ctor(CtorPat),
}

/// Model of a pattern.
#[verifier::ext_equal]
pub enum PatV {
    Discard { range: TextRange },
    Ctor { name_opt: Option<Seq<char>>, tuple_opt: Option<Seq<PatV>>, range: TextRange },
}

/// The model of one pattern.
pub open spec fn pat_view(p: Pat) -> PatV
    decreases p,
{
    match p {
        Pat::Discard(d) => PatV::Discard { range: d.range },
        Pat::Ctor(c) => PatV::Ctor {
            name_opt: match c.name_opt {
                Some(n) => Some(n@),
                None => None,
            },
            tuple_opt: match c.tuple_opt {
                Some(ps) => Some(pats_view(ps@)),
                None => None,
            },
            range: c.range,
        },
    }
}

/// The models of a sequence of patterns, elementwise.
pub open spec fn pats_view(ps: Seq<Pat>) -> Seq<PatV>
    decreases ps,
{
    if ps.len() == 0 {
        Seq::empty()
    } else {
        pats_view(ps.drop_last()).push(pat_view(ps.last()))
    }
}

impl View for Pat {
    type V = PatV;

    open spec fn view(&self) -> PatV {
        pat_view(*self)
    }
}

/// `pats_view` maps elementwise.
pub proof fn lemma_pats_view(ps: Seq<Pat>)
    ensures
        pats_view(ps).len() == ps.len(),
        forall|i: int| 0 <= i < ps.len() ==> #[trigger] pats_view(ps)[i] == pat_view(ps[i]),
    decreases ps,
{
    if ps.len() > 0 {
        lemma_pats_view(ps.drop_last());
    }
}

/// A constructor expression: a name and, possibly, a tuple of arguments.
#[derive(Debug)]
pub struct CtorExpr {
    pub name_opt: Option<String>,
    pub tuple_opt: Option<Vec<Expr>>,
    pub range: TextRange,
}

/// An expression. Only constructor expressions reach the analysis.
#[derive(Debug)]
pub enum Expr {
    Ctor(CtorExpr),
}

/// Model of an expression.
#[verifier::ext_equal]
pub enum ExprV {
    Ctor { name_opt: Option<Seq<char>>, tuple_opt: Option<Seq<ExprV>>, range: TextRange },
}

/// The model of one expression.
pub open spec fn expr_view(e: Expr) -> ExprV
    decreases e,
{
    match e {
        Expr::Ctor(c) => ExprV::Ctor {
            name_opt: match c.name_opt {
                Some(n) => Some(n@),
                None => None,
            },
            tuple_opt: match c.tuple_opt {
                Some(es) => Some(exprs_view(es@)),
                None => None,
            },
            range: c.range,
        },
    }
}

/// The models of a sequence of expressions, elementwise.
pub open spec fn exprs_view(es: Seq<Expr>) -> Seq<ExprV>
    decreases es,
{
    if es.len() == 0 {
        Seq::empty()
    } else {
        exprs_view(es.drop_last()).push(expr_view(es.last()))
    }
}

impl View for Expr {
    type V = ExprV;

    open spec fn view(&self) -> ExprV {
        expr_view(*self)
    }
}

/// One arm of a match statement.
#[derive(Debug)]
pub struct MatchArm {
    pub pat_opt: Option<Pat>,
    pub range: TextRange,
}

/// Model of a match arm.
#[verifier::ext_equal]
pub struct MatchArmV {
    pub pat_opt: Option<PatV>,
    pub range: TextRange,
}

impl View for MatchArm {
    type V = MatchArmV;

    open spec fn view(&self) -> MatchArmV {
        MatchArmV { pat_opt: match self.pat_opt {
            Some(ref p) => Some(pat_view(*p)),
            None => None,
        }, range: self.range }
    }
}

/// A match statement; its range anchors at the `match` keyword.
#[derive(Debug)]
pub struct MatchStmt {
    pub cond_opt: Option<Expr>,
    pub arms: Vec<MatchArm>,
    pub range: TextRange,
}

/// Model of a match statement.
#[verifier::ext_equal]
pub struct MatchStmtV {
    pub cond_opt: Option<ExprV>,
    pub arms: Seq<MatchArmV>,
    pub range: TextRange,
}

impl View for MatchStmt {
    type V = MatchStmtV;

    open spec fn view(&self) -> MatchStmtV {
        MatchStmtV {
            cond_opt: match self.cond_opt {
                Some(ref e) => Some(expr_view(*e)),
                None => None,
            },
            arms: Seq::new(self.arms@.len(), |i: int| self.arms@[i]@),
            range: self.range,
        }
    }
}

/// The declared tuple of field types of one constructor.
#[derive(Debug)]
pub struct TupleDecl {
    pub fields: Vec<Ty>,
}

/// Model of a tuple declaration.
#[verifier::ext_equal]
pub struct TupleDeclV {
    pub fields: Seq<TyV>,
}

impl View for TupleDecl {
    type V = TupleDeclV;

    open spec fn view(&self) -> TupleDeclV {
        TupleDeclV { fields: Seq::new(self.fields@.len(), |i: int| self.fields@[i]@) }
    }
}

/// One constructor declaration: `K`, or `K(...)`.
#[derive(Debug)]
pub struct CtorDecl {
    pub name_opt: Option<String>,
    pub tuple_decl_opt: Option<TupleDecl>,
}

/// Model of a constructor declaration.
#[verifier::ext_equal]
pub struct CtorDeclV {
    pub name_opt: Option<Seq<char>>,
    pub tuple_decl_opt: Option<TupleDeclV>,
}

impl View for CtorDecl {
    type V = CtorDeclV;

    open spec fn view(&self) -> CtorDeclV {
        CtorDeclV { name_opt: match self.name_opt {
            Some(ref n) => Some(n@),
            None => None,
        }, tuple_decl_opt: match self.tuple_decl_opt {
            Some(ref t) => Some(t@),
            None => None,
        } }
    }
}

/// An enum declaration: a name and its constructor declarations.
#[derive(Debug)]
pub struct EnumDecl {
    pub name_opt: Option<String>,
    pub ctors: Vec<CtorDecl>,
    pub range: TextRange,
}

/// Model of an enum declaration.
#[verifier::ext_equal]
pub struct EnumDeclV {
    pub name_opt: Option<Seq<char>>,
    pub ctors: Seq<CtorDeclV>,
    pub range: TextRange,
}

impl View for EnumDecl {
    type V = EnumDeclV;

    open spec fn view(&self) -> EnumDeclV {
        EnumDeclV {
            name_opt: match self.name_opt {
                Some(ref n) => Some(n@),
                None => None,
            },
            ctors: Seq::new(self.ctors@.len(), |i: int| self.ctors@[i]@),
            range: self.range,
        }
    }
}

/// A statement.
#[derive(Debug)]
pub enum Stmt {
    Match(MatchStmt),
    Enum(EnumDecl),
}

/// Model of a statement.
#[verifier::ext_equal]
pub enum StmtV {
    Match(MatchStmtV),
    Enum(EnumDeclV),
}

impl View for Stmt {
    type V = StmtV;

    open spec fn view(&self) -> StmtV {
        match self {
            Stmt::Match(m) => StmtV::Match(m@),
            Stmt::Enum(e) => StmtV::Enum(e@),
        }
    }
}

/// The root of a program: its statements in order.
#[derive(Debug)]
pub struct Root {
    pub stmts: Vec<Stmt>,
}

/// Model of a program root.
#[verifier::ext_equal]
pub struct RootV {
    pub stmts: Seq<StmtV>,
}

impl View for Root {
    type V = RootV;

    open spec fn view(&self) -> RootV {
        RootV { stmts: Seq::new(self.stmts@.len(), |i: int| self.stmts@[i]@) }
    }
}

} // verus!
