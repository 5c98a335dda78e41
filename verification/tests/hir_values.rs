use apollo_values::diagnostic::{DiagnosticData, Location};
use apollo_values::hir::{try_validate_values, validate_values, value_of_correct_type, Argument, Value, ValueData, VariableDefinition};
use apollo_values::types::{
    Database, DeclaredType, EnumType, InputField, InputObjectType, ScalarType, Schema, Type, TypeDefinition,
};

fn loc(start: u32) -> Location {
    Location { file_id: 2, start, end: start + 2 }
}

fn database() -> Database {
    let scalar = |name: &str, built_in: bool| TypeDefinition::Scalar(ScalarType { name: name.to_string(), built_in });
    Database {
        schema: Schema {
            types: vec![
                scalar("Int", true),
                scalar("Float", true),
                scalar("String", true),
                scalar("Boolean", true),
                scalar("ID", true),
                scalar("Json", false),
                TypeDefinition::Enum(EnumType { name: "Size".to_string(), values: vec!["SMALL".to_string()] }),
                TypeDefinition::InputObject(InputObjectType {
                    name: "Filter".to_string(),
                    fields: vec![InputField {
                        name: "limit".to_string(),
                        ty: DeclaredType { ty: Type::NonNullNamed("Int".to_string()), location: Some(loc(300)) },
                        has_default: false,
                        location: Some(loc(310)),
                    }],
                }),
                TypeDefinition::Union("Result".to_string()),
            ],
        },
    }
}

fn ty(name: &str) -> DeclaredType {
    DeclaredType { ty: Type::NonNullNamed(name.to_string()), location: Some(loc(100)) }
}

fn value(data: ValueData, start: u32) -> Value {
    Value { data, loc: loc(start) }
}

fn arg(data: ValueData) -> Argument {
    Argument { name: "a".to_string(), value: value(data, 7) }
}

#[test]
fn valid_argument_is_ok() {
    let db = database();
    assert!(validate_values(&db, &ty("Int"), &arg(ValueData::Int("-2147483648".to_string())), &[]).is_ok());
    assert!(validate_values(&db, &ty("Json"), &arg(ValueData::Boolean(true)), &[]).is_ok());
    assert!(validate_values(&db, &ty("Size"), &arg(ValueData::Enum("SMALL".to_string())), &[]).is_ok());
}

#[test]
fn int_out_of_range_is_an_error() {
    let db = database();
    let r = validate_values(&db, &ty("Int"), &arg(ValueData::Int("2147483648".to_string())), &[]);
    let d = r.unwrap_err();
    assert_eq!(d.len(), 1);
    match &d[0].data {
        DiagnosticData::IntCoercionError { value } => assert_eq!(value, "2147483648"),
        _ => panic!("expected an int coercion error"),
    }
    assert_eq!(d[0].labels[0].text, "cannot be coerced to an 32-bit integer");
}

#[test]
fn unsupported_type_names_the_inner_type() {
    let db = database();
    let d = validate_values(&db, &ty("Int"), &arg(ValueData::String("1".to_string())), &[]).unwrap_err();
    match &d[0].data {
        DiagnosticData::UnsupportedValueType { value, ty } => {
            assert_eq!(value, "String");
            assert_eq!(ty, "Int");
        },
        _ => panic!("expected an unsupported type"),
    }
    assert_eq!(d[0].labels[0].text, "field declared here as Int type");
    assert_eq!(d[0].labels[1].text, "argument declared here is of String type");
    assert_eq!(d[0].location, loc(7));
}

#[test]
fn boolean_is_accepted_only_for_boolean_and_custom() {
    let db = database();
    assert!(validate_values(&db, &ty("Boolean"), &arg(ValueData::Boolean(false)), &[]).is_ok());
    assert!(validate_values(&db, &ty("Float"), &arg(ValueData::Boolean(false)), &[]).is_err());
    assert!(validate_values(&db, &ty("ID"), &arg(ValueData::Int("12".to_string())), &[]).is_ok());
    assert!(validate_values(&db, &ty("ID"), &arg(ValueData::Int("2147483648".to_string())), &[]).is_ok());
    assert!(validate_values(&db, &ty("Float"), &arg(ValueData::Int("2147483648".to_string())), &[]).is_ok());
    assert!(validate_values(&db, &ty("ID"), &arg(ValueData::Float("1.2".to_string())), &[]).is_err());
}

#[test]
fn undefined_enum_value_names_the_enum() {
    let db = database();
    let d = validate_values(&db, &ty("Size"), &arg(ValueData::Enum("HUGE".to_string())), &[]).unwrap_err();
    match &d[0].data {
        DiagnosticData::UndefinedValue { value, definition } => {
            assert_eq!(value, "HUGE");
            assert_eq!(definition, "Size");
        },
        _ => panic!("expected an undefined value"),
    }
    assert_eq!(d[0].location, loc(7));
    assert_eq!(d[0].labels[0].location, loc(7));
}

#[test]
fn required_field_points_at_its_type() {
    let db = database();
    let d = validate_values(&db, &ty("Filter"), &arg(ValueData::Object(vec![])), &[]).unwrap_err();
    assert_eq!(d.len(), 1);
    match &d[0].data {
        DiagnosticData::RequiredArgument { name } => assert_eq!(name, "limit"),
        _ => panic!("expected a required argument"),
    }
    assert_eq!(d[0].labels[0].text, "missing value for argument `limit`");
    assert_eq!(d[0].labels[1].location, loc(300));
}

#[test]
fn nested_values_are_checked() {
    let db = database();
    let obj = ValueData::Object(vec![
        ("limit".to_string(), value(ValueData::String("ten".to_string()), 20)),
        ("other".to_string(), value(ValueData::Int("1".to_string()), 22)),
    ]);
    let d = validate_values(&db, &ty("Filter"), &arg(obj), &[]).unwrap_err();
    assert_eq!(d.len(), 2);
    assert!(matches!(d[0].data, DiagnosticData::UndefinedValue { .. }));
    assert_eq!(d[0].location, loc(22));
    assert!(matches!(d[1].data, DiagnosticData::UnsupportedValueType { .. }));
    assert_eq!(d[1].location, loc(20));
}

#[test]
fn list_and_union() {
    let db = database();
    let list = ValueData::List(vec![value(ValueData::Int("1".to_string()), 30), value(ValueData::Null, 31)]);
    assert!(validate_values(&db, &ty("Int"), &arg(list), &[]).is_ok());
    let d = validate_values(&db, &ty("Result"), &arg(ValueData::List(vec![])), &[]).unwrap_err();
    assert!(matches!(d[0].data, DiagnosticData::UnsupportedValueType { .. }));
}

#[test]
fn variable_default_is_checked() {
    let db = database();
    let var_defs = vec![VariableDefinition {
        name: "n".to_string(),
        ty: DeclaredType { ty: Type::Named("Int".to_string()), location: Some(loc(400)) },
        default_value: Some(value(ValueData::Int("99999999999".to_string()), 401)),
    }];
    let d = validate_values(&db, &ty("Int"), &arg(ValueData::Variable("n".to_string())), &var_defs).unwrap_err();
    assert_eq!(d[0].location, loc(401));
    assert!(matches!(d[0].data, DiagnosticData::IntCoercionError { .. }));
    let mut more = Vec::new();
    value_of_correct_type(&db, &ty("String"), &value(ValueData::Variable("n".to_string()), 5), &var_defs, &mut more);
    assert_eq!(more.len(), 1);
    assert_eq!(more[0].location, loc(5));
}

#[test]
fn total_variant_for_resolved_values() {
    let db = database();
    let r = try_validate_values(&db, &ty("Int"), &arg(ValueData::Int("5".to_string())), &[]);
    assert!(matches!(r, Some(Ok(()))));
    let unlocated = DeclaredType { ty: Type::Named("Int".to_string()), location: None };
    assert!(try_validate_values(&db, &unlocated, &arg(ValueData::String("5".to_string())), &[]).is_none());
    let cycle = vec![
        VariableDefinition {
            name: "p".to_string(),
            ty: DeclaredType { ty: Type::Named("Int".to_string()), location: Some(loc(1)) },
            default_value: Some(value(ValueData::Variable("q".to_string()), 2)),
        },
        VariableDefinition {
            name: "q".to_string(),
            ty: DeclaredType { ty: Type::Named("Int".to_string()), location: Some(loc(3)) },
            default_value: Some(value(ValueData::List(vec![value(ValueData::Variable("p".to_string()), 4)]), 4)),
        },
    ];
    assert!(try_validate_values(&db, &ty("Int"), &arg(ValueData::Variable("p".to_string())), &cycle).is_none());
}
