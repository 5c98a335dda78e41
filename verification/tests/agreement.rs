use apollo_values::diagnostic::{DiagnosticData, Location};
use apollo_values::document::{validate_values2, Name, Node, Value};
use apollo_values::hir::{validate_values, Argument, ValueData};
use apollo_values::types::{Database, DeclaredType, EnumType, ScalarType, Schema, Type, TypeDefinition};

fn loc(start: u32) -> Location {
    Location { file_id: 9, start, end: start + 1 }
}

fn kind(d: &DiagnosticData) -> u8 {
    match d {
        DiagnosticData::UnsupportedValueType { .. } => 0,
        DiagnosticData::IntCoercionError { .. } => 1,
        DiagnosticData::UndefinedValue { .. } => 2,
        DiagnosticData::RequiredArgument { .. } => 3,
    }
}

#[test]
fn both_validators_report_the_same_kinds() {
    let db = Database {
        schema: Schema {
            types: vec![
                TypeDefinition::Scalar(ScalarType { name: "Int".to_string(), built_in: true }),
                TypeDefinition::Enum(EnumType { name: "E".to_string(), values: vec!["A".to_string()] }),
            ],
        },
    };
    let ty = DeclaredType { ty: Type::List(Box::new(Type::Named("Int".to_string()))), location: Some(loc(50)) };
    let syntax = Node {
        value: Value::List(vec![
            Node { value: Value::BigInt("4000000000".to_string()), location: Some(loc(1)) },
            Node { value: Value::Enum(Name { text: "A".to_string(), location: Some(loc(2)) }), location: Some(loc(2)) },
            Node { value: Value::Int(7), location: Some(loc(3)) },
        ]),
        location: Some(loc(0)),
    };
    let resolved = Argument {
        name: "a".to_string(),
        value: apollo_values::hir::Value {
            data: ValueData::List(vec![
                apollo_values::hir::Value { data: ValueData::Int("4000000000".to_string()), loc: loc(1) },
                apollo_values::hir::Value { data: ValueData::Enum("A".to_string()), loc: loc(2) },
                apollo_values::hir::Value { data: ValueData::Int("7".to_string()), loc: loc(3) },
            ]),
            loc: loc(0),
        },
    };
    let arg_name = Name { text: "a".to_string(), location: None };
    let from_syntax: Vec<u8> = validate_values2(&db, &ty, (&arg_name, syntax), &[]).iter().map(|d| kind(&d.data)).collect();
    let from_resolved: Vec<u8> = validate_values(&db, &ty, &resolved, &[]).unwrap_err().iter().map(|d| kind(&d.data)).collect();
    assert_eq!(from_syntax, vec![1, 0]);
    assert_eq!(from_syntax, from_resolved);
}
