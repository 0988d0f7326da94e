//! Tests of the lowering pass: building the catalog from declarations,
//! resolving match statements, and reporting diagnostics.

use pmxc_analyzer::ast;
use pmxc_analyzer::ast::{TextPosition, TextRange};
use pmxc_analyzer::display::render_pattern;
use pmxc_analyzer::lower::{check, from_ast, Diagnostic};

fn range(line: usize) -> TextRange {
    TextRange {
        start: TextPosition { line, character: 1 },
        end: TextPosition { line, character: 2 },
    }
}

/// `enum Boolean { False, True }`
fn boolean_decl(line: usize) -> ast::Stmt {
    ast::Stmt::Enum(ast::EnumDecl {
        name_opt: Some("Boolean".to_string()),
        ctors: vec![
            ast::CtorDecl {
                name_opt: Some("False".to_string()),
                tuple_decl_opt: None,
            },
            ast::CtorDecl {
                name_opt: Some("True".to_string()),
                tuple_decl_opt: None,
            },
        ],
        range: range(line),
    })
}

/// `enum Pair { Pair(Boolean, Boolean) }`
fn pair_decl(line: usize) -> ast::Stmt {
    ast::Stmt::Enum(ast::EnumDecl {
        name_opt: Some("Pair".to_string()),
        ctors: vec![ast::CtorDecl {
            name_opt: Some("Pair".to_string()),
            tuple_decl_opt: Some(ast::TupleDecl {
                fields: vec![
                    ast::Ty {
                        name_opt: Some("Boolean".to_string()),
                        range: range(line),
                    },
                    ast::Ty {
                        name_opt: Some("Boolean".to_string()),
                        range: range(line),
                    },
                ],
            }),
        }],
        range: range(line),
    })
}

fn ctor_expr(name: &str, line: usize) -> ast::Expr {
    ast::Expr::Ctor(ast::CtorExpr {
        name_opt: Some(name.to_string()),
        tuple_opt: None,
        range: range(line),
    })
}

fn ctor_pat(name: &str, args: Option<Vec<ast::Pat>>, line: usize) -> ast::Pat {
    ast::Pat::Ctor(ast::CtorPat {
        name_opt: Some(name.to_string()),
        tuple_opt: args,
        range: range(line),
    })
}

fn arm(pat: ast::Pat, line: usize) -> ast::MatchArm {
    ast::MatchArm {
        pat_opt: Some(pat),
        range: range(line),
    }
}

fn match_stmt(cond: ast::Expr, arms: Vec<ast::MatchArm>, line: usize) -> ast::Stmt {
    ast::Stmt::Match(ast::MatchStmt {
        cond_opt: Some(cond),
        arms,
        range: range(line),
    })
}

fn run(stmts: Vec<ast::Stmt>) -> Vec<(TextRange, Diagnostic)> {
    let root = ast::Root { stmts };
    let mut model = from_ast(&root);
    check(&mut model);
    model.errors
}

#[test]
fn test_exhaustive_match_reports_nothing() {
    // match True { True => .., False => .. }
    let errors = run(vec![
        boolean_decl(1),
        match_stmt(
            ctor_expr("True", 2),
            vec![
                arm(ctor_pat("True", None, 3), 3),
                arm(ctor_pat("False", None, 4), 4),
            ],
            2,
        ),
    ]);
    assert!(errors.is_empty());
}

#[test]
fn test_nonexhaustive_match_reports_example() {
    // match True { True => .. } leaks False.
    let errors = run(vec![
        boolean_decl(1),
        match_stmt(ctor_expr("True", 2), vec![arm(ctor_pat("True", None, 3), 3)], 2),
    ]);
    assert_eq!(errors.len(), 1);
    assert_eq!(errors[0].0, range(2));
    match &errors[0].1 {
        Diagnostic::NonExhaustiveMatch { example } => {
            let example = example.as_ref().expect("a leaked example pattern");
            let rendered: String = render_pattern(example).into_iter().collect();
            assert_eq!(rendered, "False");
        },
        _ => unreachable!("網羅性の診断のはず"),
    }
}

#[test]
fn test_undefined_constructor_in_pattern() {
    // A pattern naming an unknown constructor: exactly one undefined-name
    // report, and no coverage report for that match, since the condition
    // is still covered by the discard arm.
    let errors = run(vec![
        boolean_decl(1),
        match_stmt(
            ctor_expr("True", 2),
            vec![
                arm(ctor_pat("Bogus", None, 3), 3),
                arm(
                    ast::Pat::Discard(ast::DiscardPat { range: range(4) }),
                    4,
                ),
            ],
            2,
        ),
    ]);
    assert_eq!(errors.len(), 1);
    assert_eq!(errors[0].0, range(3));
    assert!(matches!(errors[0].1, Diagnostic::UndefinedName));
}

#[test]
fn test_wrong_arity_reports_given_and_expected() {
    // `Pair()` against the 2-ary `Pair`: an arity report naming 0 and 2,
    // and the arm contributes no coverage, so the match also leaks.
    let errors = run(vec![
        boolean_decl(1),
        pair_decl(2),
        match_stmt(
            ctor_expr("Pair", 3),
            vec![arm(ctor_pat("Pair", Some(vec![]), 4), 4)],
            3,
        ),
    ]);
    assert_eq!(errors.len(), 2);
    assert_eq!(errors[0].0, range(4));
    match errors[0].1 {
        Diagnostic::ArityMismatch { given, expected } => {
            assert_eq!(given, 0);
            assert_eq!(expected, 2);
        },
        _ => unreachable!("引数の数の診断のはず"),
    }
    assert!(matches!(errors[1].1, Diagnostic::NonExhaustiveMatch { .. }));
}

#[test]
fn test_type_mismatch_for_foreign_constructor() {
    // A constructor that exists, but under another enum than the
    // condition's type.
    let errors = run(vec![
        boolean_decl(1),
        pair_decl(2),
        match_stmt(
            ctor_expr("True", 3),
            vec![
                arm(ctor_pat("Pair", None, 4), 4),
                arm(
                    ast::Pat::Discard(ast::DiscardPat { range: range(5) }),
                    5,
                ),
            ],
            3,
        ),
    ]);
    assert_eq!(errors.len(), 1);
    assert!(matches!(errors[0].1, Diagnostic::TypeMismatch));
}

#[test]
fn test_undefined_condition_skips_match() {
    // A condition naming an unknown constructor: one undefined-name
    // report, and the match is skipped entirely.
    let errors = run(vec![
        boolean_decl(1),
        match_stmt(ctor_expr("Bogus", 2), vec![arm(ctor_pat("True", None, 3), 3)], 2),
    ]);
    assert_eq!(errors.len(), 1);
    assert_eq!(errors[0].0, range(2));
    assert!(matches!(errors[0].1, Diagnostic::UndefinedName));
}

#[test]
fn test_undefined_field_type_reported_once() {
    // A constructor field naming an unregistered type is reported at the
    // use site.
    let field = ast::Ty {
        name_opt: Some("Missing".to_string()),
        range: range(1),
    };
    let ctor = ast::CtorDecl {
        name_opt: Some("Wrap".to_string()),
        tuple_decl_opt: Some(ast::TupleDecl { fields: vec![field] }),
    };
    let decl = ast::EnumDecl {
        name_opt: Some("Wrapper".to_string()),
        ctors: vec![ctor],
        range: range(1),
    };
    let errors = run(vec![ast::Stmt::Enum(decl)]);
    assert_eq!(errors.len(), 1);
    assert!(matches!(errors[0].1, Diagnostic::UndefinedName));
}

#[test]
fn test_self_referential_enum_is_accepted() {
    // An enum whose constructor field names the enum itself resolves
    // without reports: the name is registered before the fields are.
    let end_ctor = ast::CtorDecl {
        name_opt: Some("End".to_string()),
        tuple_decl_opt: None,
    };
    let self_field = ast::Ty {
        name_opt: Some("Chain".to_string()),
        range: range(1),
    };
    let link_ctor = ast::CtorDecl {
        name_opt: Some("Link".to_string()),
        tuple_decl_opt: Some(ast::TupleDecl { fields: vec![self_field] }),
    };
    let decl = ast::EnumDecl {
        name_opt: Some("Chain".to_string()),
        ctors: vec![end_ctor, link_ctor],
        range: range(1),
    };
    let errors = run(vec![ast::Stmt::Enum(decl)]);
    assert!(errors.is_empty());
}

#[test]
fn test_pair_render_of_leaked_pattern() {
    // match Pair-value { Pair(True, True) } leaks, and the example is a
    // Pair-shaped pattern.
    let errors = run(vec![
        boolean_decl(1),
        pair_decl(2),
        match_stmt(
            ctor_expr("Pair", 3),
            vec![arm(
                ctor_pat(
                    "Pair",
                    Some(vec![ctor_pat("True", None, 4), ctor_pat("True", None, 4)]),
                    4,
                ),
                4,
            )],
            3,
        ),
    ]);
    assert_eq!(errors.len(), 1);
    match &errors[0].1 {
        Diagnostic::NonExhaustiveMatch { example } => {
            let example = example.as_ref().expect("a leaked example pattern");
            let rendered: String = render_pattern(example).into_iter().collect();
            assert!(rendered.starts_with("Pair("));
            assert!(rendered.ends_with(')'));
        },
        _ => unreachable!("網羅性の診断のはず"),
    }
}
