//! Kinds of syntax nodes of the sample language's concrete tree.

use vstd::prelude::*;

verus! {

/// The kind of a syntax node.
#[derive(Clone, Copy, Debug, PartialEq, Eq, Structural, Hash)]
pub enum Node {
    Name,
    NumberLiteral,
    Group,
    StructLiteral,
    StructBody,
    StructField,
    ExprStmt,
    LetStmt,
    MatchStmt,
    MatchArm,
    EnumDecl,
    StructDecl,
    /// `K`, `K(...)` or `K {...}`
    CtorDecl,
    Root,
    NotSpecified,
}

impl Node {
    /// Can a node of this kind stand as a pattern?
    pub fn is_pat(self) -> (r: bool)
        ensures
            r == (self == Node::Name || self == Node::Group),
    {
        self == Node::Name || self == Node::Group
    }

    /// Can a node of this kind stand as an expression?
    pub fn is_expr(self) -> (r: bool)
        ensures
            r == (self == Node::Name || self == Node::Group),
    {
        self == Node::Name || self == Node::Group
    }

    /// Can a node of this kind stand as a statement?
    pub fn is_stmt(self) -> (r: bool)
        ensures
            r == (self == Node::MatchStmt || self == Node::EnumDecl),
    {
        self == Node::MatchStmt || self == Node::EnumDecl
    }
}

} // verus!
