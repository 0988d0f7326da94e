//! Tests of the exhaustiveness check on hand-built match expressions.

use pmxc_analyzer::display::render_pattern;
use pmxc_analyzer::expressions::{MatchArm, MatchExpression};
use pmxc_analyzer::patterns::Pattern;
use pmxc_analyzer::ty_system::{ConstructorDefinition, Ty, TyDatabase, TyDefinition};
use pmxc_analyzer::use_cases::{check_exhaustivity, is_exhaustive};

fn new_ty_database() -> TyDatabase {
    let mut td = TyDatabase {
        definitions: vec![],
    };

    td.definitions.push(TyDefinition::Enum {
        name: "Boolean".to_string(),
        constructors: vec![
            ConstructorDefinition {
                name: "False".to_string(),
                arg_tys: vec![],
            },
            ConstructorDefinition {
                name: "True".to_string(),
                arg_tys: vec![],
            },
        ],
    });

    td
}

/// A catalog with `Boolean` and a `Pair` enum whose single constructor
/// takes two booleans.
fn pair_ty_database() -> TyDatabase {
    let mut td = new_ty_database();
    td.definitions.push(TyDefinition::Enum {
        name: "Pair".to_string(),
        constructors: vec![ConstructorDefinition {
            name: "Pair".to_string(),
            arg_tys: vec![
                Ty::Enum {
                    name: "Boolean".to_string(),
                },
                Ty::Enum {
                    name: "Boolean".to_string(),
                },
            ],
        }],
    });
    td
}

fn boolean_ty() -> Ty {
    Ty::Enum {
        name: "Boolean".to_string(),
    }
}

fn ctor_pat(name: &str, args: Vec<Pattern>) -> Pattern {
    Pattern::Constructor {
        name: name.to_string(),
        args,
    }
}

fn bool_arm(name: &str) -> MatchArm {
    MatchArm {
        pattern: ctor_pat(name, vec![]),
    }
}

#[test]
fn test_boolean_exhaustive_by_enumeration() {
    let td = new_ty_database();
    let boolean_ty = Ty::Enum {
        name: "Boolean".to_string(),
    };

    // match bool_value { true => {}, false => {} }
    let match_expression = MatchExpression {
        condition_ty: boolean_ty,
        arms: vec![
            MatchArm {
                pattern: Pattern::Constructor {
                    name: "True".to_string(),
                    args: vec![],
                },
            },
            MatchArm {
                pattern: Pattern::Constructor {
                    name: "False".to_string(),
                    args: vec![],
                },
            },
        ],
    };

    assert!(is_exhaustive(&match_expression, &td));
}

#[test]
fn test_boolean_exhaustive_by_discard() {
    let td = new_ty_database();
    let boolean_ty = Ty::Enum {
        name: "Boolean".to_string(),
    };

    // match bool_value { true => {}, _ => {} }
    let match_expression = MatchExpression {
        condition_ty: boolean_ty.clone(),
        arms: vec![
            MatchArm {
                pattern: Pattern::Constructor {
                    name: "True".to_string(),
                    args: vec![],
                },
            },
            MatchArm {
                pattern: Pattern::Discard {
                    ty: boolean_ty.clone(),
                },
            },
        ],
    };

    assert!(is_exhaustive(&match_expression, &td));
}

#[test]
fn test_boolean_nonexhaustive_leaking_false() {
    let td = new_ty_database();
    let boolean_ty = Ty::Enum {
        name: "Boolean".to_string(),
    };

    // match bool_value { true => {} }
    let match_expression = MatchExpression {
        condition_ty: boolean_ty.clone(),
        arms: vec![MatchArm {
            pattern: Pattern::Constructor {
                name: "True".to_string(),
                args: vec![],
            },
        }],
    };

    assert!(!is_exhaustive(&match_expression, &td));
}

#[test]
fn test_nonexhaustive_example_mentions_false() {
    // Arms [True] leave False uncovered, and the diagnostic example
    // renders as exactly that constructor.
    let td = new_ty_database();
    let match_expression = MatchExpression {
        condition_ty: boolean_ty(),
        arms: vec![bool_arm("True")],
    };

    let (ok, example) = check_exhaustivity(&match_expression, &td);
    assert!(!ok);
    let example = example.expect("a leaked example pattern");
    let rendered: String = render_pattern(&example).into_iter().collect();
    assert_eq!(rendered, "False");
}

#[test]
fn test_adding_arms_keeps_exhaustive() {
    // Exhaustiveness is monotonic in the arms.
    let td = new_ty_database();
    let match_expression = MatchExpression {
        condition_ty: boolean_ty(),
        arms: vec![
            bool_arm("True"),
            bool_arm("False"),
            MatchArm {
                pattern: Pattern::Discard { ty: boolean_ty() },
            },
            bool_arm("True"),
        ],
    };
    assert!(is_exhaustive(&match_expression, &td));
}

#[test]
fn test_pair_field_patterns_leave_unrecognized_residual() {
    // match pair { Pair(True, True), Pair(True, False), Pair(False, _) }
    // covers every value, but the algebra does not see it: the field-wise
    // subtraction builds one space per field position even where that
    // position's leftover is empty, and a constructor space with an empty
    // field space is never considered empty. The residual is one of those
    // semantically empty spaces, so the check conservatively reports the
    // match as non-exhaustive.
    let td = pair_ty_database();
    let pair_ty = Ty::Enum {
        name: "Pair".to_string(),
    };

    let match_expression = MatchExpression {
        condition_ty: pair_ty,
        arms: vec![
            MatchArm {
                pattern: ctor_pat("Pair", vec![ctor_pat("True", vec![]), ctor_pat("True", vec![])]),
            },
            MatchArm {
                pattern: ctor_pat("Pair", vec![ctor_pat("True", vec![]), ctor_pat("False", vec![])]),
            },
            MatchArm {
                pattern: ctor_pat(
                    "Pair",
                    vec![ctor_pat("False", vec![]), Pattern::Discard { ty: boolean_ty() }],
                ),
            },
        ],
    };

    assert!(!is_exhaustive(&match_expression, &td));
}

#[test]
fn test_pair_exhaustive_by_discard_fields() {
    // match pair { Pair(_, _) } covers everything, and the algebra sees
    // it: each field's leftover is empty, so the constructor is covered.
    let td = pair_ty_database();
    let pair_ty = Ty::Enum {
        name: "Pair".to_string(),
    };

    let match_expression = MatchExpression {
        condition_ty: pair_ty,
        arms: vec![MatchArm {
            pattern: ctor_pat(
                "Pair",
                vec![
                    Pattern::Discard { ty: boolean_ty() },
                    Pattern::Discard { ty: boolean_ty() },
                ],
            ),
        }],
    };

    assert!(is_exhaustive(&match_expression, &td));
}

#[test]
fn test_pair_nonexhaustive_names_pair_shape() {
    let td = pair_ty_database();
    let pair_ty = Ty::Enum {
        name: "Pair".to_string(),
    };

    // match pair { Pair(True, True) }
    let match_expression = MatchExpression {
        condition_ty: pair_ty,
        arms: vec![MatchArm {
            pattern: ctor_pat("Pair", vec![ctor_pat("True", vec![]), ctor_pat("True", vec![])]),
        }],
    };

    let (ok, example) = check_exhaustivity(&match_expression, &td);
    assert!(!ok);
    let example = example.expect("a leaked example pattern");
    match &example {
        Pattern::Constructor { name, args } => {
            assert_eq!(name, "Pair");
            assert_eq!(args.len(), 2);
        },
        _ => unreachable!("Pair 形のパターンのはず"),
    }
}

#[test]
fn test_match_without_arms_is_nonexhaustive() {
    let td = new_ty_database();
    let match_expression = MatchExpression {
        condition_ty: boolean_ty(),
        arms: vec![],
    };
    assert!(!is_exhaustive(&match_expression, &td));
}
