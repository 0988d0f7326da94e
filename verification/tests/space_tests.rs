//! Tests of the space algebra: decomposition, union flattening,
//! emptiness, intersection and subtraction.

use pmxc_analyzer::space::Space;
use pmxc_analyzer::space_from_ty::{space_can_decompose, space_decompose, space_from_ty};
use pmxc_analyzer::space_intersection::space_intersection;
use pmxc_analyzer::space_subtraction::space_subtraction;
use pmxc_analyzer::ty_system::{ConstructorDefinition, Ty, TyDatabase, TyDefinition};

fn new_ty_database() -> TyDatabase {
    TyDatabase {
        definitions: vec![TyDefinition::Enum {
            name: "Boolean".to_string(),
            constructors: vec![
                ConstructorDefinition {
                    name: "False".to_string(),
                    arg_tys: vec![],
                },
                ConstructorDefinition {
                    name: "True".to_string(),
                    arg_tys: vec![],
                },
            ],
        }],
    }
}

#[test]
fn test_decompose_boolean() {
    let td = new_ty_database();

    let boolean_ty = Ty::Enum {
        name: "Boolean".to_string(),
    };
    let ty_space = space_from_ty(boolean_ty);
    let decomposed_space = space_decompose(ty_space, &td);

    let spaces = match decomposed_space {
        Space::Union(spaces) => spaces,
        _ => unreachable!("ユニオンスペースのはず"),
    };

    let mut constructor_names = spaces
        .iter()
        .map(|s| match s {
            Space::Ty(Ty::Constructor { name }) => name.as_str(),
            _ => unreachable!("コンストラクタ型スペースのはず"),
        })
        .collect::<Vec<_>>();

    constructor_names.sort();
    assert_eq!(constructor_names, vec!["False", "True"]);
}

#[test]
fn test_decompose_true() {
    let td = new_ty_database();

    let true_ty = Ty::Constructor {
        name: "True".to_string(),
    };
    let ty_space = space_from_ty(true_ty);
    let decomposed_space = space_decompose(ty_space, &td);

    let name = match decomposed_space {
        Space::Constructor { ref name, .. } => name.as_str(),
        _ => unreachable!("コンストラクタスペースのはず"),
    };
    assert_eq!(name, "True");
}

fn boolean_ty() -> Ty {
    Ty::Enum {
        name: "Boolean".to_string(),
    }
}

fn true_ty_space() -> Space {
    Space::Ty(Ty::Constructor {
        name: "True".to_string(),
    })
}

fn false_ty_space() -> Space {
    Space::Ty(Ty::Constructor {
        name: "False".to_string(),
    })
}

#[test]
fn test_new_union_flattens_nesting() {
    // Any nesting of unions flattens: no member of the result is a
    // union.
    let nested = vec![
        Space::Union(vec![true_ty_space()]),
        Space::Union(vec![Space::Union(vec![false_ty_space()])]),
    ];
    let union = Space::new_union(nested);
    match union {
        Space::Union(members) => {
            assert_eq!(members.len(), 2);
            for member in &members {
                assert!(!matches!(member, Space::Union(..)));
            }
        },
        _ => unreachable!("ユニオンスペースのはず"),
    }
}

#[test]
fn test_new_union_of_one_space_is_that_space() {
    let union = Space::new_union(vec![true_ty_space()]);
    match union {
        Space::Ty(Ty::Constructor { name }) => assert_eq!(name, "True"),
        _ => unreachable!("単独のスペースのはず"),
    }
}

#[test]
fn test_empty_space_is_empty() {
    assert!(Space::new_empty().is_empty());
    assert!(Space::new_union(vec![]).is_empty());
    assert!(!true_ty_space().is_empty());
    assert!(!Space::Ty(boolean_ty()).is_empty());
    assert!(!Space::Constructor {
        name: "True".to_string(),
        args: vec![],
    }
    .is_empty());
}

#[test]
fn test_can_decompose() {
    let td = new_ty_database();
    assert!(space_can_decompose(&Space::Ty(boolean_ty()), &td));
    assert!(space_can_decompose(&true_ty_space(), &td));
    assert!(!space_can_decompose(
        &Space::Ty(Ty::Enum {
            name: "Missing".to_string(),
        }),
        &td,
    ));
    assert!(!space_can_decompose(&Space::new_empty(), &td));
}

#[test]
fn test_intersection_absorbs_subtype() {
    // The intersection of an enum's type space with one of its
    // constructor's type spaces is the constructor's type space.
    let td = new_ty_database();
    let r = space_intersection(Space::Ty(boolean_ty()), true_ty_space(), &td);
    match r {
        Space::Ty(Ty::Constructor { name }) => assert_eq!(name, "True"),
        _ => unreachable!("コンストラクタ型スペースのはず"),
    }
}

#[test]
fn test_intersection_of_disjoint_constructors_is_empty() {
    let td = new_ty_database();
    let r = space_intersection(true_ty_space(), false_ty_space(), &td);
    assert!(r.is_empty());
}

#[test]
fn test_subtraction_of_decomposition_is_empty_both_ways() {
    // Decomposition preserves meaning: the enum's type space and its own
    // decomposition subtract to nothing in either order.
    let td = new_ty_database();

    let d = space_decompose(Space::Ty(boolean_ty()), &td);
    let leak = space_subtraction(Space::Ty(boolean_ty()), d, &td);
    assert!(leak.is_empty());

    let d = space_decompose(Space::Ty(boolean_ty()), &td);
    let leak = space_subtraction(d, Space::Ty(boolean_ty()), &td);
    assert!(leak.is_empty());
}

#[test]
fn test_subtraction_leaves_uncovered_case() {
    let td = new_ty_database();
    let leak = space_subtraction(Space::Ty(boolean_ty()), true_ty_space(), &td);
    assert!(!leak.is_empty());
}

#[test]
fn test_subtraction_of_supertype_is_empty() {
    let td = new_ty_database();
    let leak = space_subtraction(true_ty_space(), Space::Ty(boolean_ty()), &td);
    assert!(leak.is_empty());
}
