use apollo_values::diagnostic::{Diagnostic, DiagnosticData, Location};
use apollo_values::document::{completes_within, try_validate_values2, validate_values2, value_of_correct_type2, Name, Node, Value, VariableDefinition};
use apollo_values::types::{
    Database, DeclaredType, EnumType, InputField, InputObjectType, ScalarType, Schema, Type, TypeDefinition,
};

fn loc(start: u32) -> Location {
    Location { file_id: 1, start, end: start + 1 }
}

fn scalar(name: &str, built_in: bool) -> TypeDefinition {
    TypeDefinition::Scalar(ScalarType { name: name.to_string(), built_in })
}

fn named(name: &str) -> DeclaredType {
    DeclaredType { ty: Type::Named(name.to_string()), location: Some(loc(100)) }
}

fn non_null(name: &str) -> DeclaredType {
    DeclaredType { ty: Type::NonNullNamed(name.to_string()), location: Some(loc(100)) }
}

fn database() -> Database {
    Database {
        schema: Schema {
            types: vec![
                scalar("Int", true),
                scalar("Float", true),
                scalar("String", true),
                scalar("Boolean", true),
                scalar("ID", true),
                scalar("Date", false),
                TypeDefinition::Enum(EnumType {
                    name: "Color".to_string(),
                    values: vec!["RED".to_string(), "GREEN".to_string()],
                }),
                TypeDefinition::InputObject(InputObjectType {
                    name: "Point".to_string(),
                    fields: vec![
                        InputField {
                            name: "x".to_string(),
                            ty: DeclaredType { ty: Type::NonNullNamed("Int".to_string()), location: Some(loc(200)) },
                            has_default: false,
                            location: Some(loc(210)),
                        },
                        InputField {
                            name: "y".to_string(),
                            ty: DeclaredType { ty: Type::NonNullNamed("Int".to_string()), location: Some(loc(220)) },
                            has_default: true,
                            location: Some(loc(230)),
                        },
                        InputField {
                            name: "label".to_string(),
                            ty: DeclaredType { ty: Type::Named("String".to_string()), location: Some(loc(240)) },
                            has_default: false,
                            location: None,
                        },
                    ],
                }),
                TypeDefinition::Object("Query".to_string()),
            ],
        },
    }
}

fn node(value: Value, start: u32) -> Node {
    Node { value, location: Some(loc(start)) }
}

fn name(text: &str, start: u32) -> Name {
    Name { text: text.to_string(), location: Some(loc(start)) }
}

fn check(ty: &DeclaredType, value: Node, var_defs: &[VariableDefinition]) -> Vec<Diagnostic> {
    let db = database();
    let arg_name = name("arg", 0);
    validate_values2(&db, ty, (&arg_name, value), var_defs)
}

fn unsupported(d: &Diagnostic) -> (String, String) {
    match &d.data {
        DiagnosticData::UnsupportedValueType { value, ty } => (value.clone(), ty.clone()),
        _ => panic!("not an unsupported-type diagnostic"),
    }
}

#[test]
fn int_literal_is_accepted_for_int() {
    assert!(check(&named("Int"), node(Value::Int(42), 5), &[]).is_empty());
}

#[test]
fn big_int_is_reported_for_int() {
    let d = check(&named("Int"), node(Value::BigInt("3000000000".to_string()), 5), &[]);
    assert_eq!(d.len(), 1);
    match &d[0].data {
        DiagnosticData::IntCoercionError { value } => assert_eq!(value, "3000000000"),
        _ => panic!("expected an int coercion error"),
    }
    assert_eq!(d[0].location, loc(5));
    assert_eq!(d[0].labels.len(), 1);
    assert_eq!(d[0].labels[0].text, "cannot be coerced to an 32-bit integer");
    assert_eq!(d[0].labels[0].location, loc(5));
}

#[test]
fn big_int_is_accepted_for_float_id_and_custom() {
    for ty in ["Float", "ID", "Date"] {
        assert!(check(&named(ty), node(Value::BigInt("-2147483649".to_string()), 5), &[]).is_empty());
    }
    assert_eq!(check(&named("String"), node(Value::BigInt("99999999999".to_string()), 5), &[]).len(), 1);
}

#[test]
fn string_for_non_null_int_names_the_full_type() {
    let d = check(&non_null("Int"), node(Value::String("4".to_string()), 7), &[]);
    assert_eq!(d.len(), 1);
    assert_eq!(unsupported(&d[0]), ("String".to_string(), "Int!".to_string()));
    assert_eq!(d[0].location, loc(7));
    assert_eq!(d[0].labels.len(), 2);
    assert_eq!(d[0].labels[0].text, "field declared here as Int! type");
    assert_eq!(d[0].labels[0].location, loc(100));
    assert_eq!(d[0].labels[1].text, "argument declared here is of String type");
    assert_eq!(d[0].labels[1].location, loc(7));
}

#[test]
fn list_type_text_in_diagnostic() {
    let ty = DeclaredType {
        ty: Type::NonNullList(Box::new(Type::NonNullNamed("Int".to_string()))),
        location: Some(loc(100)),
    };
    assert_eq!(ty.ty.to_text(), "[Int!]!");
    let d = check(&ty, node(Value::Boolean(true), 3), &[]);
    assert_eq!(unsupported(&d[0]), ("Boolean".to_string(), "[Int!]!".to_string()));
}

#[test]
fn float_accepts_integers_and_floats() {
    assert!(check(&named("Float"), node(Value::Int(1), 1), &[]).is_empty());
    assert!(check(&named("Float"), node(Value::Float("1.5".to_string()), 1), &[]).is_empty());
    assert_eq!(check(&named("Float"), node(Value::String("1.5".to_string()), 1), &[]).len(), 1);
    assert_eq!(check(&named("Int"), node(Value::Float("1.5".to_string()), 1), &[]).len(), 1);
}

#[test]
fn id_accepts_strings_and_integers() {
    assert!(check(&named("ID"), node(Value::String("abc".to_string()), 1), &[]).is_empty());
    assert!(check(&named("ID"), node(Value::Int(4), 1), &[]).is_empty());
    assert_eq!(check(&named("ID"), node(Value::Boolean(false), 1), &[]).len(), 1);
}

#[test]
fn boolean_accepts_booleans_only() {
    assert!(check(&named("Boolean"), node(Value::Boolean(true), 1), &[]).is_empty());
    assert_eq!(check(&named("Boolean"), node(Value::Int(1), 1), &[]).len(), 1);
    let d = check(&named("Int"), node(Value::Boolean(true), 1), &[]);
    assert_eq!(unsupported(&d[0]), ("Boolean".to_string(), "Int".to_string()));
    assert_eq!(check(&named("String"), node(Value::Boolean(true), 1), &[]).len(), 1);
}

#[test]
fn string_accepts_strings_only() {
    assert!(check(&named("String"), node(Value::String("s".to_string()), 1), &[]).is_empty());
    assert_eq!(check(&named("String"), node(Value::Int(3), 1), &[]).len(), 1);
    assert_eq!(check(&named("String"), node(Value::BigInt("3000000000".to_string()), 1), &[]).len(), 1);
}

#[test]
fn custom_scalar_accepts_any_literal() {
    for v in [
        Value::Int(1),
        Value::Float("2.0".to_string()),
        Value::String("2024-01-01".to_string()),
        Value::Boolean(false),
        Value::Null,
        Value::Object(vec![(name("any", 2), node(Value::Int(1), 3))]),
    ] {
        assert!(check(&named("Date"), node(v, 1), &[]).is_empty());
    }
}

#[test]
fn object_for_built_in_scalar_is_reported() {
    let d = check(&named("Int"), node(Value::Object(vec![]), 1), &[]);
    assert_eq!(unsupported(&d[0]), ("Object".to_string(), "Int".to_string()));
}

#[test]
fn enum_value_must_be_defined() {
    assert!(check(&named("Color"), node(Value::Enum(name("RED", 4)), 3), &[]).is_empty());
    let d = check(&named("Color"), node(Value::Enum(name("BLUE", 4)), 3), &[]);
    assert_eq!(d.len(), 1);
    match &d[0].data {
        DiagnosticData::UndefinedValue { value, definition } => {
            assert_eq!(value, "BLUE");
            assert_eq!(definition, "Color");
        },
        _ => panic!("expected an undefined value"),
    }
    assert_eq!(d[0].location, loc(4));
    assert_eq!(d[0].labels[0].text, "does not exist on `Color` type");
    assert_eq!(d[0].labels[0].location, loc(3));
}

#[test]
fn string_literal_is_not_an_enum_value() {
    let d = check(&named("Color"), node(Value::String("RED".to_string()), 3), &[]);
    assert_eq!(unsupported(&d[0]), ("String".to_string(), "Color".to_string()));
}

#[test]
fn null_is_accepted_for_scalars_and_enums_only() {
    assert!(check(&non_null("Int"), node(Value::Null, 1), &[]).is_empty());
    assert!(check(&named("Color"), node(Value::Null, 1), &[]).is_empty());
    let d = check(&named("Point"), node(Value::Null, 1), &[]);
    assert_eq!(unsupported(&d[0]), ("Null".to_string(), "Point".to_string()));
}

#[test]
fn list_items_are_checked_in_order() {
    let ty = DeclaredType { ty: Type::List(Box::new(Type::Named("Int".to_string()))), location: Some(loc(100)) };
    let list = node(
        Value::List(vec![
            node(Value::Int(1), 10),
            node(Value::String("x".to_string()), 11),
            node(Value::Int(2), 12),
            node(Value::BigInt("9999999999".to_string()), 13),
        ]),
        9,
    );
    let d = check(&ty, list, &[]);
    assert_eq!(d.len(), 2);
    assert_eq!(d[0].location, loc(11));
    assert_eq!(unsupported(&d[0]), ("String".to_string(), "[Int]".to_string()));
    assert_eq!(d[1].location, loc(13));
    assert!(matches!(d[1].data, DiagnosticData::IntCoercionError { .. }));
    let ok = node(Value::List(vec![node(Value::Int(1), 10)]), 9);
    assert!(check(&ty, ok, &[]).is_empty());
}

#[test]
fn list_for_object_type_is_reported() {
    let d = check(&named("Query"), node(Value::List(vec![]), 1), &[]);
    assert_eq!(unsupported(&d[0]), ("List".to_string(), "Query".to_string()));
}

#[test]
fn missing_required_field_is_reported() {
    let obj = node(Value::Object(vec![(name("label", 2), node(Value::String("p".to_string()), 3))]), 1);
    let d = check(&named("Point"), obj, &[]);
    assert_eq!(d.len(), 1);
    match &d[0].data {
        DiagnosticData::RequiredArgument { name } => assert_eq!(name, "x"),
        _ => panic!("expected a required argument"),
    }
    assert_eq!(d[0].location, loc(1));
    assert_eq!(d[0].labels.len(), 2);
    assert_eq!(d[0].labels[0].text, "missing value for argument `x`");
    assert_eq!(d[0].labels[1].text, "argument defined here");
    assert_eq!(d[0].labels[1].location, loc(210));
}

#[test]
fn null_for_required_field_is_reported_and_checked() {
    let obj = node(Value::Object(vec![(name("x", 2), node(Value::Null, 3))]), 1);
    let d = check(&named("Point"), obj, &[]);
    assert_eq!(d.len(), 1);
    assert!(matches!(d[0].data, DiagnosticData::RequiredArgument { .. }));
}

#[test]
fn field_values_are_checked_against_field_types() {
    let obj = node(
        Value::Object(vec![
            (name("x", 2), node(Value::Int(1), 3)),
            (name("label", 4), node(Value::Int(5), 5)),
        ]),
        1,
    );
    let d = check(&named("Point"), obj, &[]);
    assert_eq!(d.len(), 1);
    assert_eq!(unsupported(&d[0]), ("Int".to_string(), "String".to_string()));
    assert_eq!(d[0].labels[0].location, loc(240));
}

#[test]
fn undefined_field_is_reported_first() {
    let obj = node(
        Value::Object(vec![
            (name("z", 2), node(Value::Int(1), 3)),
            (name("w", 4), node(Value::Int(1), 5)),
        ]),
        1,
    );
    let d = check(&named("Point"), obj, &[]);
    assert_eq!(d.len(), 2);
    match &d[0].data {
        DiagnosticData::UndefinedValue { value, definition } => {
            assert_eq!(value, "z");
            assert_eq!(definition, "Point");
        },
        _ => panic!("expected an undefined field"),
    }
    assert_eq!(d[0].location, loc(3));
    assert_eq!(d[0].labels[0].text, "does not exist on `Point` type");
    assert!(matches!(d[1].data, DiagnosticData::RequiredArgument { .. }));
}

#[test]
fn variables_are_checked_through_their_declaration() {
    let var_defs = vec![
        VariableDefinition { name: name("a", 50), ty: named("Int"), default_value: Some(node(Value::String("no".to_string()), 51)) },
        VariableDefinition { name: name("b", 52), ty: named("String"), default_value: None },
        VariableDefinition { name: name("c", 53), ty: non_null("Int"), default_value: Some(node(Value::Null, 54)) },
    ];
    let d = check(&named("Int"), node(Value::Variable(name("a", 9)), 9), &var_defs);
    assert_eq!(d.len(), 1);
    assert_eq!(d[0].location, loc(51));
    assert_eq!(unsupported(&d[0]), ("String".to_string(), "Int".to_string()));

    let d = check(&named("Int"), node(Value::Variable(name("b", 9)), 9), &var_defs);
    assert_eq!(unsupported(&d[0]), ("Variable".to_string(), "Int".to_string()));

    let d = check(&named("Int"), node(Value::Variable(name("c", 9)), 9), &var_defs);
    assert_eq!(d[0].location, loc(54));
    assert_eq!(unsupported(&d[0]), ("Null".to_string(), "Int!".to_string()));

    assert!(check(&named("Int"), node(Value::Variable(name("undeclared", 9)), 9), &var_defs).is_empty());
}

#[test]
fn unknown_type_has_no_diagnostic() {
    assert!(check(&named("Nope"), node(Value::Boolean(true), 1), &[]).is_empty());
}

#[test]
fn earlier_diagnostics_are_kept() {
    let db = database();
    let mut diagnostics = check(&named("Int"), node(Value::String("a".to_string()), 1), &[]);
    value_of_correct_type2(&db, &named("Int"), &node(Value::Float("1.0".to_string()), 2), &[], &mut diagnostics);
    assert_eq!(diagnostics.len(), 2);
    assert_eq!(diagnostics[0].location, loc(1));
    assert_eq!(diagnostics[1].location, loc(2));
}

#[test]
fn total_variant_matches_the_validator() {
    let db = database();
    let arg_name = name("arg", 0);
    let value = node(Value::String("4".to_string()), 7);
    let d = try_validate_values2(&db, &named("Int"), (&arg_name, value), &[]).unwrap();
    assert_eq!(d.len(), 1);
    assert_eq!(unsupported(&d[0]), ("String".to_string(), "Int".to_string()));
}

#[test]
fn total_variant_refuses_a_cycle_of_defaults() {
    let db = database();
    let arg_name = name("arg", 0);
    let var_defs = vec![VariableDefinition {
        name: name("a", 50),
        ty: named("Int"),
        default_value: Some(node(Value::Variable(name("a", 51)), 51)),
    }];
    let value = node(Value::Variable(name("a", 9)), 9);
    assert!(!completes_within(&db.schema, &named("Int"), &value, &var_defs, 5));
    assert!(try_validate_values2(&db, &named("Int"), (&arg_name, value), &var_defs).is_none());
}

#[test]
fn total_variant_refuses_missing_locations() {
    let db = database();
    let arg_name = name("arg", 0);
    let unlocated = Node { value: Value::String("x".to_string()), location: None };
    assert!(try_validate_values2(&db, &named("Int"), (&arg_name, unlocated), &[]).is_none());
    let fine = Node { value: Value::Int(3), location: None };
    assert_eq!(try_validate_values2(&db, &named("Int"), (&arg_name, fine), &[]).map(|d| d.len()), Some(0));
}

#[test]
fn total_variant_refuses_a_schema_naming_a_type_twice() {
    let mut db = database();
    assert!(db.schema.is_well_formed());
    db.schema.types.push(scalar("Int", true));
    assert!(!db.schema.is_well_formed());
    let arg_name = name("arg", 0);
    assert!(try_validate_values2(&db, &named("Int"), (&arg_name, node(Value::Int(1), 1)), &[]).is_none());
}

#[test]
fn schema_naming_a_field_or_enum_value_twice_is_not_well_formed() {
    let mut db = database();
    db.schema.types.push(TypeDefinition::Enum(EnumType {
        name: "Twice".to_string(),
        values: vec!["A".to_string(), "A".to_string()],
    }));
    assert!(!db.schema.is_well_formed());
    let mut db = database();
    db.schema.types.push(TypeDefinition::InputObject(InputObjectType {
        name: "Dup".to_string(),
        fields: vec![
            InputField { name: "f".to_string(), ty: named("Int"), has_default: false, location: None },
            InputField { name: "f".to_string(), ty: named("Int"), has_default: false, location: None },
        ],
    }));
    assert!(!db.schema.is_well_formed());
}
