//! Static analyzer for a small sample language: checks that every `match`
//! over an enum-like algebraic type covers all possible values.
//!
//! The core is a catalog of enum types ([`ty_system`]), a "space" algebra
//! over sets of values ([`space`], with decomposition, intersection and
//! subtraction in their own modules), counterexample synthesis
//! ([`space_to_pattern`]), and a lowering pass ([`lower`]) that walks an
//! abstract syntax tree ([`ast`]), builds the catalog, and reports
//! diagnostics. A tokenizer ([`tokenize_rules`]) and highlighting helpers
//! ([`highlight`]) serve the editor-facing front end.

pub mod ast;
pub mod display;
pub mod expressions;
pub mod highlight;
pub mod keyword;
pub mod lower;
pub mod node;
pub mod patterns;
pub mod pun;
pub mod space;
pub mod space_from_pattern;
pub mod space_from_ty;
pub mod space_intersection;
pub mod space_subtraction;
pub mod space_to_pattern;
pub mod token;
pub mod tokenize;
pub mod tokenize_rules;
pub mod ty_system;
pub mod use_cases;
