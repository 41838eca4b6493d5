use jawk_typing::lattice::ScalarType::{Float, String, Variable};
use jawk_typing::lattice::{merge_types, ScalarType, VarType};

const ALL: [ScalarType; 3] = [Float, String, Variable];

#[test]
fn join_table() {
    assert_eq!(merge_types(&Float, &Float), Float);
    assert_eq!(merge_types(&String, &String), String);
    assert_eq!(merge_types(&Variable, &Variable), Variable);
    assert_eq!(merge_types(&Float, &String), Variable);
    assert_eq!(merge_types(&String, &Float), Variable);
    assert_eq!(merge_types(&Float, &Variable), Variable);
    assert_eq!(merge_types(&Variable, &Float), Variable);
    assert_eq!(merge_types(&String, &Variable), Variable);
    assert_eq!(merge_types(&Variable, &String), Variable);
}

#[test]
fn join_is_commutative() {
    for a in ALL {
        for b in ALL {
            assert_eq!(merge_types(&a, &b), merge_types(&b, &a));
        }
    }
}

#[test]
fn join_is_idempotent() {
    for a in ALL {
        assert_eq!(merge_types(&a, &a), a);
    }
}

#[test]
fn join_is_associative() {
    for a in ALL {
        for b in ALL {
            for c in ALL {
                assert_eq!(
                    merge_types(&merge_types(&a, &b), &c),
                    merge_types(&a, &merge_types(&b, &c))
                );
            }
        }
    }
}

#[test]
fn scalar_types_are_kinds_of_variable() {
    let float: VarType = Float.into();
    let string: VarType = String.into();
    let variable: VarType = Variable.into();
    assert_eq!(float, VarType::Float);
    assert_eq!(string, VarType::String);
    assert_eq!(variable, VarType::Variable);
    assert_ne!(VarType::from(Float), VarType::Array);
    assert_ne!(VarType::from(String), VarType::Array);
    assert_ne!(VarType::from(Variable), VarType::Array);
}
