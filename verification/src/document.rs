//! Validation of syntax-level values, as the parser produces them.
//!
//! Integer literals that fit in 32 bits are [`Value::Int`]; those that do not
//! are [`Value::BigInt`] and keep their text.

use vstd::prelude::*;
use vstd::string::StringExecFns;
use crate::diagnostic::{
    argument_kind_label, argument_kind_text, defined_here_label, defined_here_text,
    diagnostic_views, does_not_exist_label, does_not_exist_text, field_declared_label,
    field_declared_text, int_coercion_label, int_coercion_text, label_views, lemma_append_nothing,
    missing_value_label, missing_value_text, nothing, push_diagnostic, single, followed_by, DataView,
    Diagnostic, DiagnosticData, DiagnosticView, Label, LabelView, Location,
};
use crate::int_literal::{
    parses_as_i32, parses_as_i32_text,
};
use crate::types::{
    schema_wf,    defines_field, enum_defines, enum_has, first_index, has_field, inner_name,
    lemma_first_index_found, lemma_first_index_none, lookup_type, spec_is_non_null, text_eq,
    type_text, Database, DeclaredType, InputField, Schema, TypeDefinition,
};

verus! {

/// A name written in the source, with where it was written if known.
#[derive(Debug)]
pub struct Name {
    pub text: String,
    pub location: Option<Location>,
}

/// An input value as written in the source.
#[derive(Debug)]
pub enum Value {
    Null,
    Enum(Name),
    Variable(Name),
    String(String),
    /// A float literal, by its text.
    Float(String),
    Int(i32),
    /// An integer literal that does not fit in `i32`, by its text.
    BigInt(String),
    Boolean(bool),
    List(Vec<Node>),
    Object(Vec<(Name, Node)>),
}

/// A value with where it was written, if known.
#[derive(Debug)]
pub struct Node {
    pub value: Value,
    pub location: Option<Location>,
}

/// A variable declared by an operation.
#[derive(Debug)]
pub struct VariableDefinition {
    pub name: Name,
    pub ty: DeclaredType,
    pub default_value: Option<Node>,
}

/// The kind of a value, as diagnostics name it.
pub open spec fn kind_text(v: Value) -> Seq<char> {
    match v {
        Value::Null => "Null"@,
        Value::Enum(_) => "Enum"@,
        Value::Variable(_) => "Variable"@,
        Value::String(_) => "String"@,
        Value::Float(_) => "Float"@,
        Value::Int(_) => "Int"@,
        Value::BigInt(_) => "Int"@,
        Value::Boolean(_) => "Boolean"@,
        Value::List(_) => "List"@,
        Value::Object(_) => "Object"@,
    }
}

impl Value {
    /// The kind of this value, as diagnostics name it.
    pub fn kind(&self) -> (k: &'static str)
        ensures
            k@ == kind_text(*self),
    {
        match self {
            Value::Null => "Null",
            Value::Enum(_) => "Enum",
            Value::Variable(_) => "Variable",
            Value::String(_) => "String",
            Value::Float(_) => "Float",
            Value::Int(_) => "Int",
            Value::BigInt(_) => "Int",
            Value::Boolean(_) => "Boolean",
            Value::List(_) => "List",
            Value::Object(_) => "Object",
        }
    }
}

/// The diagnostic for a value of the wrong kind for `declared`; it cannot be
/// made where the value's or the type's location is unknown.
pub open spec fn unsupported_view(value: Node, declared: DeclaredType) -> Option<DiagnosticView> {
    match (value.location, declared.location) {
        (Some(vl), Some(tl)) => Some(
            DiagnosticView {
                location: vl,
                data: DataView::UnsupportedValueType {
                    value: kind_text(value.value),
                    ty: type_text(declared.ty),
                },
                labels: seq![
                    LabelView { location: tl, text: field_declared_text(type_text(declared.ty)) },
                    LabelView { location: vl, text: argument_kind_text(kind_text(value.value)) },
                ],
            },
        ),
        _ => None,
    }
}

/// The diagnostic for an integer literal `text` out of 32-bit range.
pub open spec fn int_coercion_view(value: Node, text: Seq<char>) -> Option<DiagnosticView> {
    match value.location {
        Some(l) => Some(
            DiagnosticView {
                location: l,
                data: DataView::IntCoercionError { value: text },
                labels: seq![LabelView { location: l, text: int_coercion_text() }],
            },
        ),
        None => None,
    }
}

/// The diagnostic for the enum value `name` that the enum type `ty` lacks.
pub open spec fn undefined_enum_view(value: Node, name: Name, ty: Seq<char>) -> Option<DiagnosticView> {
    match (name.location, value.location) {
        (Some(nl), Some(vl)) => Some(
            DiagnosticView {
                location: nl,
                data: DataView::UndefinedValue { value: name.text@, definition: ty },
                labels: seq![LabelView { location: vl, text: does_not_exist_text(ty) }],
            },
        ),
        _ => None,
    }
}

/// The diagnostic for the object field `name`, given the value `field_value`,
/// that the input-object type `ty` does not define.
pub open spec fn undefined_field_view(name: Name, field_value: Node, ty: Seq<char>) -> Option<
    DiagnosticView,
> {
    match field_value.location {
        Some(l) => Some(
            DiagnosticView {
                location: l,
                data: DataView::UndefinedValue { value: name.text@, definition: ty },
                labels: seq![LabelView { location: l, text: does_not_exist_text(ty) }],
            },
        ),
        None => None,
    }
}

/// The diagnostic for the object `value` that lacks the required field `f`.
pub open spec fn required_view(value: Node, f: InputField) -> Option<DiagnosticView> {
    match value.location {
        Some(l) => Some(
            DiagnosticView {
                location: l,
                data: DataView::RequiredArgument { name: f.name@ },
                labels: seq![LabelView { location: l, text: missing_value_text(f.name@) }] + match f.location {
                    Some(fl) => seq![LabelView { location: fl, text: defined_here_text() }],
                    None => Seq::empty(),
                },
            },
        ),
        None => None,
    }
}

/// Whether an object entry is named `name`.
pub open spec fn entry_named(name: Seq<char>) -> spec_fn((Name, Node)) -> bool {
    |e: (Name, Node)| e.0.text@ == name
}

/// Whether an object entry names no field of `fields`.
pub open spec fn entry_undefined(fields: Seq<InputField>) -> spec_fn((Name, Node)) -> bool {
    |e: (Name, Node)| !defines_field(fields, e.0.text@)
}

/// Whether a variable definition declares `name`.
pub open spec fn declares(name: Seq<char>) -> spec_fn(VariableDefinition) -> bool {
    |d: VariableDefinition| d.name.text@ == name
}

/// Whether an object gives no entry for `name`.
pub open spec fn is_missing(entries: Seq<(Name, Node)>, name: Seq<char>) -> bool {
    !exists|j: int| 0 <= j < entries.len() && #[trigger] entries[j].0.text@ == name
}

/// Whether an object gives `null` for `name`.
pub open spec fn is_null_given(entries: Seq<(Name, Node)>, name: Seq<char>) -> bool {
    exists|j: int|
        0 <= j < entries.len() && #[trigger] entries[j].0.text@ == name && entries[j].1.value is Null
}

/// The diagnostics for the value `v` expected as `ty`, found with at most
/// `fuel` steps from a variable to its default value; `None` where the
/// checking fails: it runs out of fuel, or a diagnostic is due at a location
/// that is unknown.
pub open spec fn diags(
    fuel: nat,
    schema: Schema,
    ty: DeclaredType,
    v: Node,
    var_defs: Seq<VariableDefinition>,
) -> Option<Seq<DiagnosticView>>
    decreases fuel, v, 1nat, 0nat,
{
    let name = inner_name(ty.ty);
    match lookup_type(schema.types@, name) {
        None => nothing(),
        Some(def) => match v.value {
            Value::Int(_) => match def {
                TypeDefinition::Scalar(s) => if s.built_in && (name == "String"@ || name
                    == "Boolean"@) {
                    single(unsupported_view(v, ty))
                } else {
                    nothing()
                },
                _ => single(unsupported_view(v, ty)),
            },
            Value::BigInt(text) => match def {
                TypeDefinition::Scalar(s) => if s.built_in && name == "Int"@ {
                    if parses_as_i32(text@) {
                        nothing()
                    } else {
                        single(int_coercion_view(v, text@))
                    }
                } else if s.built_in && (name == "String"@ || name == "Boolean"@) {
                    single(unsupported_view(v, ty))
                } else {
                    nothing()
                },
                _ => single(unsupported_view(v, ty)),
            },
            Value::Float(_) => match def {
                TypeDefinition::Scalar(s) => if s.built_in && name != "Float"@ {
                    single(unsupported_view(v, ty))
                } else {
                    nothing()
                },
                _ => single(unsupported_view(v, ty)),
            },
            Value::String(_) => match def {
                TypeDefinition::Scalar(s) => if s.built_in && !(name == "String"@ || name
                    == "ID"@) {
                    single(unsupported_view(v, ty))
                } else {
                    nothing()
                },
                _ => single(unsupported_view(v, ty)),
            },
            Value::Boolean(_) => match def {
                TypeDefinition::Scalar(s) => if s.built_in && name != "Boolean"@ {
                    single(unsupported_view(v, ty))
                } else {
                    nothing()
                },
                _ => single(unsupported_view(v, ty)),
            },
            Value::Null => if def is Enum || def is Scalar {
                nothing()
            } else {
                single(unsupported_view(v, ty))
            },
            Value::Variable(var) => if def is Scalar || def is Enum || def is InputObject {
                match first_index(var_defs, declares(var.text@)) {
                    None => nothing(),
                    Some(i) => {
                        let vd = var_defs[i];
                        if inner_name(vd.ty.ty) != name {
                            single(unsupported_view(v, ty))
                        } else {
                            match vd.default_value {
                                None => nothing(),
                                Some(dv) => if spec_is_non_null(vd.ty.ty) && dv.value is Null {
                                    single(unsupported_view(dv, vd.ty))
                                } else if fuel == 0 {
                                    None
                                } else {
                                    diags((fuel - 1) as nat, schema, vd.ty, dv, var_defs)
                                },
                            }
                        }
                    },
                }
            } else {
                single(unsupported_view(v, ty))
            },
            Value::Enum(e) => match def {
                TypeDefinition::Enum(en) => if enum_defines(en.values@, e.text@) {
                    nothing()
                } else {
                    single(undefined_enum_view(v, e, name))
                },
                _ => single(unsupported_view(v, ty)),
            },
            Value::List(items) => if def is Scalar || def is Enum || def is InputObject {
                list_diags(fuel, schema, ty, v, items@.len(), var_defs)
            } else {
                single(unsupported_view(v, ty))
            },
            Value::Object(entries) => match def {
                TypeDefinition::Scalar(s) => if !s.built_in {
                    nothing()
                } else {
                    single(unsupported_view(v, ty))
                },
                TypeDefinition::InputObject(io) => followed_by(
                    match first_index(entries@, entry_undefined(io.fields@)) {
                        None => nothing(),
                        Some(j) => single(undefined_field_view(entries@[j].0, entries@[j].1, name)),
                    },
                    fields_diags(fuel, schema, v, io.fields@, io.fields@.len(), var_defs),
                ),
                _ => single(unsupported_view(v, ty)),
            },
        },
    }
}

/// The diagnostics for the first `n` items of the list `v`, each expected
/// as `ty`.
pub open spec fn list_diags(
    fuel: nat,
    schema: Schema,
    ty: DeclaredType,
    v: Node,
    n: nat,
    var_defs: Seq<VariableDefinition>,
) -> Option<Seq<DiagnosticView>>
    decreases fuel, v, 0nat, n,
{
    match v.value {
        Value::List(items) => if n == 0 || n > items@.len() {
            nothing()
        } else {
            followed_by(
                list_diags(fuel, schema, ty, v, (n - 1) as nat, var_defs),
                diags(fuel, schema, ty, items@[n - 1], var_defs),
            )
        },
        _ => nothing(),
    }
}

/// The diagnostics for the object `v` and the first `k` of the input-object
/// fields `fields`: a required field without a value, then the diagnostics
/// of the value given for it.
pub open spec fn fields_diags(
    fuel: nat,
    schema: Schema,
    v: Node,
    fields: Seq<InputField>,
    k: nat,
    var_defs: Seq<VariableDefinition>,
) -> Option<Seq<DiagnosticView>>
    decreases fuel, v, 0nat, k,
{
    match v.value {
        Value::Object(entries) => if k == 0 || k > fields.len() {
            nothing()
        } else {
            let f = fields[k - 1];
            let required = spec_is_non_null(f.ty.ty) && !f.has_default && (is_missing(
                entries@,
                f.name@,
            ) || is_null_given(entries@, f.name@));
            followed_by(
                followed_by(
                    fields_diags(fuel, schema, v, fields, (k - 1) as nat, var_defs),
                    if required {
                        single(required_view(v, f))
                    } else {
                        nothing()
                    },
                ),
                match first_index(entries@, entry_named(f.name@)) {
                    None => nothing(),
                    Some(j) => diags(fuel, schema, f.ty, entries@[j].1, var_defs),
                },
            )
        },
        _ => nothing(),
    }
}

broadcast use lemma_append_nothing;

impl Node {
    /// Whether this is the `null` value.
    pub fn is_null(&self) -> (b: bool)
        ensures
            b == (self.value is Null),
    {
        match self.value {
            Value::Null => true,
            _ => false,
        }
    }
}

/// The diagnostic for a value of the wrong kind for the declared type.
pub fn unsupported_type(value: &Node, declared_type: &DeclaredType) -> (d: Diagnostic)
    requires
        value.location is Some,
        declared_type.location is Some,
    ensures
        unsupported_view(*value, *declared_type) == Some(d@),
{
    let vl = value.location.unwrap();
    let tl = declared_type.location.unwrap();
    let ty_text = declared_type.ty.to_text();
    let kind = value.value.kind();
    let mut labels: Vec<Label> = Vec::new();
    labels.push(field_declared_label(tl, ty_text.as_str()));
    labels.push(argument_kind_label(vl, kind));
    let d = Diagnostic {
        location: vl,
        data: DiagnosticData::UnsupportedValueType { value: String::from_str(kind), ty: ty_text },
        labels,
    };
    proof {
        assert(label_views(d.labels@) =~= seq![
            LabelView { location: tl, text: field_declared_text(type_text(declared_type.ty)) },
            LabelView { location: vl, text: argument_kind_text(kind_text(value.value)) },
        ]);
    }
    d
}

/// The diagnostic for an integer literal out of 32-bit range.
fn int_coercion_diagnostic(value: &Node, text: &String) -> (d: Diagnostic)
    requires
        value.location is Some,
    ensures
        int_coercion_view(*value, text@) == Some(d@),
{
    let l = value.location.unwrap();
    let mut labels: Vec<Label> = Vec::new();
    labels.push(int_coercion_label(l));
    let d = Diagnostic {
        location: l,
        data: DiagnosticData::IntCoercionError { value: text.clone() },
        labels,
    };
    proof {
        assert(label_views(d.labels@) =~= seq![LabelView { location: l, text: int_coercion_text() }]);
    }
    d
}

/// The diagnostic for an undefined name: of an enum value, at `at`, or of an
/// object field, with the label at `label_at`.
fn undefined_diagnostic(name: &String, at: Location, label_at: Location, ty: &String) -> (d: Diagnostic)
    ensures
        d@ == (DiagnosticView {
            location: at,
            data: DataView::UndefinedValue { value: name@, definition: ty@ },
            labels: seq![LabelView { location: label_at, text: does_not_exist_text(ty@) }],
        }),
{
    let mut labels: Vec<Label> = Vec::new();
    labels.push(does_not_exist_label(label_at, ty.as_str()));
    let d = Diagnostic {
        location: at,
        data: DiagnosticData::UndefinedValue { value: name.clone(), definition: ty.clone() },
        labels,
    };
    proof {
        assert(label_views(d.labels@) =~= seq![
            LabelView { location: label_at, text: does_not_exist_text(ty@) },
        ]);
    }
    d
}

/// The diagnostic for an object that lacks the required field `f`.
fn required_diagnostic(value: &Node, f: &InputField) -> (d: Diagnostic)
    requires
        value.location is Some,
    ensures
        required_view(*value, *f) == Some(d@),
{
    let l = value.location.unwrap();
    let mut labels: Vec<Label> = Vec::new();
    labels.push(missing_value_label(l, f.name.as_str()));
    match f.location {
        Some(fl) => labels.push(defined_here_label(fl)),
        None => {},
    }
    let d = Diagnostic {
        location: l,
        data: DiagnosticData::RequiredArgument { name: f.name.clone() },
        labels,
    };
    proof {
        let expected = seq![LabelView { location: l, text: missing_value_text(f.name@) }]
            + match f.location {
            Some(fl) => seq![LabelView { location: fl, text: defined_here_text() }],
            None => Seq::empty(),
        };
        assert(label_views(d.labels@) =~= expected);
    }
    d
}

/// The first variable definition that declares `name`.
fn find_variable(var_defs: &[VariableDefinition], name: &String) -> (r: Option<usize>)
    ensures
        r matches Some(i) ==> first_index(var_defs@, declares(name@)) == Some(i as int),
        r is None ==> first_index(var_defs@, declares(name@)) is None,
{
    let mut i: usize = 0;
    while i < var_defs.len()
        invariant
            i <= var_defs@.len(),
            forall|j: int| 0 <= j < i ==> !declares(name@)(#[trigger] var_defs@[j]),
        decreases var_defs.len() - i,
    {
        if var_defs[i].name.text == *name {
            proof {
                lemma_first_index_found(var_defs@, declares(name@), i as int);
            }
            return Some(i);
        }
        i = i + 1;
    }
    proof {
        lemma_first_index_none(var_defs@, declares(name@));
    }
    None
}

/// The first object entry named `name`.
fn find_entry(entries: &Vec<(Name, Node)>, name: &String) -> (r: Option<usize>)
    ensures
        r matches Some(i) ==> first_index(entries@, entry_named(name@)) == Some(i as int),
        r is None ==> first_index(entries@, entry_named(name@)) is None,
{
    let mut i: usize = 0;
    while i < entries.len()
        invariant
            i <= entries@.len(),
            forall|j: int| 0 <= j < i ==> !entry_named(name@)(#[trigger] entries@[j]),
        decreases entries.len() - i,
    {
        if entries[i].0.text == *name {
            proof {
                lemma_first_index_found(entries@, entry_named(name@), i as int);
            }
            return Some(i);
        }
        i = i + 1;
    }
    proof {
        lemma_first_index_none(entries@, entry_named(name@));
    }
    None
}

/// The first object entry that names no field of the input-object type.
fn find_undefined_entry(entries: &Vec<(Name, Node)>, fields: &Vec<InputField>) -> (r: Option<usize>)
    ensures
        r matches Some(i) ==> first_index(entries@, entry_undefined(fields@)) == Some(i as int),
        r is None ==> first_index(entries@, entry_undefined(fields@)) is None,
{
    let mut i: usize = 0;
    while i < entries.len()
        invariant
            i <= entries@.len(),
            forall|j: int| 0 <= j < i ==> !entry_undefined(fields@)(#[trigger] entries@[j]),
        decreases entries.len() - i,
    {
        if !has_field(fields, &entries[i].0.text) {
            proof {
                lemma_first_index_found(entries@, entry_undefined(fields@), i as int);
            }
            return Some(i);
        }
        i = i + 1;
    }
    proof {
        lemma_first_index_none(entries@, entry_undefined(fields@));
    }
    None
}

/// Whether an object gives no entry for `name`, and whether it gives `null`
/// for it.
fn presence(entries: &Vec<(Name, Node)>, name: &String) -> (r: (bool, bool))
    ensures
        r.0 == is_missing(entries@, name@),
        r.1 == is_null_given(entries@, name@),
{
    let mut missing = true;
    let mut null = false;
    let mut i: usize = 0;
    while i < entries.len()
        invariant
            i <= entries@.len(),
            missing == !exists|j: int| 0 <= j < i && #[trigger] entries@[j].0.text@ == name@,
            null == exists|j: int|
                0 <= j < i && #[trigger] entries@[j].0.text@ == name@ && entries@[j].1.value is Null,
        decreases entries.len() - i,
    {
        if entries[i].0.text == *name {
            missing = false;
            if entries[i].1.is_null() {
                null = true;
            }
        }
        i = i + 1;
    }
    (missing, null)
}

/// A prefix of a list whose diagnostics can be found has diagnostics too.
proof fn lemma_list_prefix(
    fuel: nat,
    schema: Schema,
    ty: DeclaredType,
    v: Node,
    k: nat,
    m: nat,
    var_defs: Seq<VariableDefinition>,
)
    requires
        k <= m,
        v.value matches Value::List(items) && m <= items@.len(),
        list_diags(fuel, schema, ty, v, m, var_defs) is Some,
    ensures
        list_diags(fuel, schema, ty, v, k, var_defs) is Some,
    decreases m - k,
{
    if k < m {
        lemma_list_prefix(fuel, schema, ty, v, k, (m - 1) as nat, var_defs);
    }
}

/// A prefix of the fields whose diagnostics can be found has diagnostics too.
proof fn lemma_fields_prefix(
    fuel: nat,
    schema: Schema,
    v: Node,
    fields: Seq<InputField>,
    k: nat,
    m: nat,
    var_defs: Seq<VariableDefinition>,
)
    requires
        k <= m <= fields.len(),
        fields_diags(fuel, schema, v, fields, m, var_defs) is Some,
    ensures
        fields_diags(fuel, schema, v, fields, k, var_defs) is Some,
    decreases m - k,
{
    if k < m {
        lemma_fields_prefix(fuel, schema, v, fields, k, (m - 1) as nat, var_defs);
    }
}

/// Appends to `diagnostics` the diagnostics for `arg_value` expected as
/// `ty`, following variables to their default values at most `fuel` times.
#[verifier::loop_isolation(false)]
fn check(
    schema: &Schema,
    ty: &DeclaredType,
    arg_value: &Node,
    var_defs: &[VariableDefinition],
    diagnostics: &mut Vec<Diagnostic>,
    Ghost(fuel): Ghost<nat>,
)
    requires
        diags(fuel, *schema, *ty, *arg_value, var_defs@) is Some,
    ensures
        diagnostic_views(final(diagnostics)@) == diagnostic_views(old(diagnostics)@) + diags(
            fuel,
            *schema,
            *ty,
            *arg_value,
            var_defs@,
        )->0,
    decreases fuel, *arg_value,
{
    let ghost before = diagnostic_views(diagnostics@);
    let name = ty.ty.inner_named_type();
    let def = match schema.get(name) {
        Some(d) => d,
        None => return ,
    };
    match &arg_value.value {
        Value::Int(_) => match def {
            TypeDefinition::Scalar(s) => {
                if s.built_in && (text_eq(name, "String") || text_eq(name, "Boolean")) {
                    push_diagnostic(diagnostics, unsupported_type(arg_value, ty));
                }
            },
            _ => push_diagnostic(diagnostics, unsupported_type(arg_value, ty)),
        },
        Value::BigInt(digits) => match def {
            TypeDefinition::Scalar(s) => {
                if s.built_in && text_eq(name, "Int") {
                    if !parses_as_i32_text(digits.as_str()) {
                        push_diagnostic(diagnostics, int_coercion_diagnostic(arg_value, digits));
                    }
                } else if s.built_in && (text_eq(name, "String") || text_eq(name, "Boolean")) {
                    push_diagnostic(diagnostics, unsupported_type(arg_value, ty));
                }
            },
            _ => push_diagnostic(diagnostics, unsupported_type(arg_value, ty)),
        },
        Value::Float(_) => match def {
            TypeDefinition::Scalar(s) => {
                if s.built_in && !text_eq(name, "Float") {
                    push_diagnostic(diagnostics, unsupported_type(arg_value, ty));
                }
            },
            _ => push_diagnostic(diagnostics, unsupported_type(arg_value, ty)),
        },
        Value::String(_) => match def {
            TypeDefinition::Scalar(s) => {
                if s.built_in && !(text_eq(name, "String") || text_eq(name, "ID")) {
                    push_diagnostic(diagnostics, unsupported_type(arg_value, ty));
                }
            },
            _ => push_diagnostic(diagnostics, unsupported_type(arg_value, ty)),
        },
        Value::Boolean(_) => match def {
            TypeDefinition::Scalar(s) => {
                if s.built_in && !text_eq(name, "Boolean") {
                    push_diagnostic(diagnostics, unsupported_type(arg_value, ty));
                }
            },
            _ => push_diagnostic(diagnostics, unsupported_type(arg_value, ty)),
        },
        Value::Null => match def {
            TypeDefinition::Enum(_) | TypeDefinition::Scalar(_) => {},
            _ => push_diagnostic(diagnostics, unsupported_type(arg_value, ty)),
        },
        Value::Variable(var) => match def {
            TypeDefinition::Scalar(_) | TypeDefinition::Enum(_) | TypeDefinition::InputObject(_) => {
                match find_variable(var_defs, &var.text) {
                    None => {},
                    Some(i) => {
                        let var_def = &var_defs[i];
                        if *var_def.ty.ty.inner_named_type() != *name {
                            push_diagnostic(diagnostics, unsupported_type(arg_value, ty));
                        } else {
                            match &var_def.default_value {
                                None => {},
                                Some(default_value) => {
                                    if var_def.ty.ty.is_non_null() && default_value.is_null() {
                                        push_diagnostic(
                                            diagnostics,
                                            unsupported_type(default_value, &var_def.ty),
                                        );
                                    } else {
                                        check(
                                            schema,
                                            &var_def.ty,
                                            default_value,
                                            var_defs,
                                            diagnostics,
                                            Ghost((fuel - 1) as nat),
                                        );
                                    }
                                },
                            }
                        }
                    },
                }
            },
            _ => push_diagnostic(diagnostics, unsupported_type(arg_value, ty)),
        },
        Value::Enum(value) => match def {
            TypeDefinition::Enum(enum_) => {
                if !enum_has(&enum_.values, &value.text) {
                    push_diagnostic(
                        diagnostics,
                        undefined_diagnostic(
                            &value.text,
                            value.location.unwrap(),
                            arg_value.location.unwrap(),
                            name,
                        ),
                    );
                }
            },
            _ => push_diagnostic(diagnostics, unsupported_type(arg_value, ty)),
        },
        Value::List(li) => match def {
            TypeDefinition::Scalar(_) | TypeDefinition::Enum(_) | TypeDefinition::InputObject(_) => {
                let mut i: usize = 0;
                while i < li.len()
                    invariant
                        i <= li@.len(),
                        diagnostic_views(diagnostics@) == before + list_diags(
                            fuel,
                            *schema,
                            *ty,
                            *arg_value,
                            i as nat,
                            var_defs@,
                        )->0,
                    decreases li.len() - i,
                {
                    proof {
                        lemma_list_prefix(
                            fuel,
                            *schema,
                            *ty,
                            *arg_value,
                            (i + 1) as nat,
                            li@.len(),
                            var_defs@,
                        );
                    }
                    check(schema, ty, &li[i], var_defs, diagnostics, Ghost(fuel));
                    i = i + 1;
                }
            },
            _ => push_diagnostic(diagnostics, unsupported_type(arg_value, ty)),
        },
        Value::Object(obj) => match def {
            TypeDefinition::Scalar(scalar) => {
                if scalar.built_in {
                    push_diagnostic(diagnostics, unsupported_type(arg_value, ty));
                }
            },
            TypeDefinition::InputObject(input_obj) => {
                match find_undefined_entry(obj, &input_obj.fields) {
                    Some(j) => {
                        let (field_name, field_value) = (&obj[j].0, &obj[j].1);
                        push_diagnostic(
                            diagnostics,
                            undefined_diagnostic(
                                &field_name.text,
                                field_value.location.unwrap(),
                                field_value.location.unwrap(),
                                name,
                            ),
                        );
                    },
                    None => {},
                }
                let ghost mid = diagnostic_views(diagnostics@);
                let mut k: usize = 0;
                while k < input_obj.fields.len()
                    invariant
                        k <= input_obj.fields@.len(),
                        diagnostic_views(diagnostics@) == mid + fields_diags(
                            fuel,
                            *schema,
                            *arg_value,
                            input_obj.fields@,
                            k as nat,
                            var_defs@,
                        )->0,
                    decreases input_obj.fields.len() - k,
                {
                    proof {
                        lemma_fields_prefix(
                            fuel,
                            *schema,
                            *arg_value,
                            input_obj.fields@,
                            (k + 1) as nat,
                            input_obj.fields@.len(),
                            var_defs@,
                        );
                    }
                    let f = &input_obj.fields[k];
                    let (is_missing, is_null) = presence(obj, &f.name);
                    if f.ty.ty.is_non_null() && !f.has_default && (is_missing || is_null) {
                        push_diagnostic(diagnostics, required_diagnostic(arg_value, f));
                    }
                    match find_entry(obj, &f.name) {
                        Some(j) => check(schema, &f.ty, &obj[j].1, var_defs, diagnostics, Ghost(fuel)),
                        None => {},
                    }
                    k = k + 1;
                }
            },
            _ => push_diagnostic(diagnostics, unsupported_type(arg_value, ty)),
        },
    }
}

/// Whether checking `v` against `ty` comes to an end without failing: it
/// does not follow variables to default values forever, and no diagnostic
/// is due at an unknown location.
pub open spec fn completes(
    schema: Schema,
    ty: DeclaredType,
    v: Node,
    var_defs: Seq<VariableDefinition>,
) -> bool {
    exists|fuel: nat| #[trigger] diags(fuel, schema, ty, v, var_defs) is Some
}

/// The diagnostics for the value `v` expected as `ty`, where checking it
/// completes.
pub open spec fn value_diagnostics(
    schema: Schema,
    ty: DeclaredType,
    v: Node,
    var_defs: Seq<VariableDefinition>,
) -> Seq<DiagnosticView> {
    diags(choose|fuel: nat| #[trigger] diags(fuel, schema, ty, v, var_defs) is Some, schema, ty, v, var_defs)->0
}

/// Checks the value given for the argument `arg` against its declared type
/// `ty` and returns the diagnostics found, in order.
pub fn validate_values2(
    db: &Database,
    ty: &DeclaredType,
    arg: (&Name, Node),
    var_defs: &[VariableDefinition],
) -> (diagnostics: Vec<Diagnostic>)
    requires
        schema_wf(db.schema),
        completes(db.schema, *ty, arg.1, var_defs@),
    ensures
        diagnostic_views(diagnostics@) == value_diagnostics(db.schema, *ty, arg.1, var_defs@),
{
    let (_arg_name, arg_value) = arg;
    let mut diagnostics: Vec<Diagnostic> = Vec::new();
    value_of_correct_type2(db, ty, &arg_value, var_defs, &mut diagnostics);
    proof {
        assert(diagnostic_views(Seq::<Diagnostic>::empty()) =~= Seq::<DiagnosticView>::empty());
        assert(Seq::<DiagnosticView>::empty() + value_diagnostics(db.schema, *ty, arg_value, var_defs@)
            =~= value_diagnostics(db.schema, *ty, arg_value, var_defs@));
    }
    diagnostics
}

/// Appends to `diagnostics` the diagnostics for the value `arg_value`
/// expected as `ty`: a value of a kind the type does not accept, an integer
/// out of 32-bit range, an enum value or object field the type does not
/// define, a required input field without a value; lists are checked item by
/// item, objects field by field, and variables through their declared type
/// and default value.
pub fn value_of_correct_type2(
    db: &Database,
    ty: &DeclaredType,
    arg_value: &Node,
    var_defs: &[VariableDefinition],
    diagnostics: &mut Vec<Diagnostic>,
)
    requires
        schema_wf(db.schema),
        completes(db.schema, *ty, *arg_value, var_defs@),
    ensures
        diagnostic_views(final(diagnostics)@) == diagnostic_views(old(diagnostics)@)
            + value_diagnostics(db.schema, *ty, *arg_value, var_defs@),
{
    let ghost fuel = choose|fuel: nat| #[trigger] diags(fuel, db.schema, *ty, *arg_value, var_defs@) is Some;
    check(&db.schema, ty, arg_value, var_defs, diagnostics, Ghost(fuel));
}

/// More fuel does not change diagnostics that less fuel already finds.
pub proof fn lemma_diags_fuel(
    fuel: nat,
    more: nat,
    schema: Schema,
    ty: DeclaredType,
    v: Node,
    var_defs: Seq<VariableDefinition>,
)
    requires
        fuel <= more,
        diags(fuel, schema, ty, v, var_defs) is Some,
    ensures
        diags(more, schema, ty, v, var_defs) == diags(fuel, schema, ty, v, var_defs),
    decreases fuel, v, 1nat, 0nat,
{
    let name = inner_name(ty.ty);
    match lookup_type(schema.types@, name) {
        None => {},
        Some(def) => match v.value {
            Value::Variable(var) => {
                if def is Scalar || def is Enum || def is InputObject {
                    match first_index(var_defs, declares(var.text@)) {
                        None => {},
                        Some(i) => {
                            let vd = var_defs[i];
                            if inner_name(vd.ty.ty) == name {
                                match vd.default_value {
                                    None => {},
                                    Some(dv) => {
                                        if !(spec_is_non_null(vd.ty.ty) && dv.value is Null) {
                                            lemma_diags_fuel(
                                                (fuel - 1) as nat,
                                                (more - 1) as nat,
                                                schema,
                                                vd.ty,
                                                dv,
                                                var_defs,
                                            );
                                        }
                                    },
                                }
                            }
                        },
                    }
                }
            },
            Value::List(items) => {
                if def is Scalar || def is Enum || def is InputObject {
                    lemma_list_diags_fuel(fuel, more, schema, ty, v, items@.len(), var_defs);
                }
            },
            Value::Object(entries) => match def {
                TypeDefinition::InputObject(io) => {
                    lemma_fields_diags_fuel(fuel, more, schema, v, io.fields@, io.fields@.len(), var_defs);
                },
                _ => {},
            },
            _ => {},
        },
    }
}

/// More fuel does not change the diagnostics of a list prefix.
pub proof fn lemma_list_diags_fuel(
    fuel: nat,
    more: nat,
    schema: Schema,
    ty: DeclaredType,
    v: Node,
    n: nat,
    var_defs: Seq<VariableDefinition>,
)
    requires
        fuel <= more,
        list_diags(fuel, schema, ty, v, n, var_defs) is Some,
    ensures
        list_diags(more, schema, ty, v, n, var_defs) == list_diags(fuel, schema, ty, v, n, var_defs),
    decreases fuel, v, 0nat, n,
{
    match v.value {
        Value::List(items) => {
            if n > 0 && n <= items@.len() {
                lemma_list_diags_fuel(fuel, more, schema, ty, v, (n - 1) as nat, var_defs);
                lemma_diags_fuel(fuel, more, schema, ty, items@[n - 1], var_defs);
            }
        },
        _ => {},
    }
}

/// More fuel does not change the diagnostics of the first fields of an
/// object.
pub proof fn lemma_fields_diags_fuel(
    fuel: nat,
    more: nat,
    schema: Schema,
    v: Node,
    fields: Seq<InputField>,
    k: nat,
    var_defs: Seq<VariableDefinition>,
)
    requires
        fuel <= more,
        fields_diags(fuel, schema, v, fields, k, var_defs) is Some,
    ensures
        fields_diags(more, schema, v, fields, k, var_defs) == fields_diags(
            fuel,
            schema,
            v,
            fields,
            k,
            var_defs,
        ),
    decreases fuel, v, 0nat, k,
{
    match v.value {
        Value::Object(entries) => {
            if k > 0 && k <= fields.len() {
                let f = fields[k - 1];
                lemma_fields_diags_fuel(fuel, more, schema, v, fields, (k - 1) as nat, var_defs);
                match first_index(entries@, entry_named(f.name@)) {
                    None => {},
                    Some(j) => {
                        lemma_diags_fuel(fuel, more, schema, f.ty, entries@[j].1, var_defs);
                    },
                }
            }
        },
        _ => {},
    }
}

/// Any fuel with which checking completes gives the diagnostics that
/// `value_diagnostics` names.
pub proof fn lemma_value_diagnostics(
    fuel: nat,
    schema: Schema,
    ty: DeclaredType,
    v: Node,
    var_defs: Seq<VariableDefinition>,
)
    requires
        diags(fuel, schema, ty, v, var_defs) is Some,
    ensures
        completes(schema, ty, v, var_defs),
        value_diagnostics(schema, ty, v, var_defs) == diags(fuel, schema, ty, v, var_defs)->0,
{
    let c = choose|f: nat| #[trigger] diags(f, schema, ty, v, var_defs) is Some;
    assert(diags(c, schema, ty, v, var_defs) is Some);
    if c <= fuel {
        lemma_diags_fuel(c, fuel, schema, ty, v, var_defs);
    } else {
        lemma_diags_fuel(fuel, c, schema, ty, v, var_defs);
    }
}

/// Whether checking `v` against `ty` completes with at most `fuel` steps
/// from a variable to its default value: it does not run out of steps, and
/// every diagnostic due has the locations it needs.
#[verifier::loop_isolation(false)]
pub fn completes_within(
    schema: &Schema,
    ty: &DeclaredType,
    v: &Node,
    var_defs: &[VariableDefinition],
    fuel: u64,
) -> (r: bool)
    ensures
        r == diags(fuel as nat, *schema, *ty, *v, var_defs@) is Some,
    decreases fuel, *v,
{
    let name = ty.ty.inner_named_type();
    let def = match schema.get(name) {
        Some(d) => d,
        None => return true,
    };
    let reportable = v.location.is_some() && ty.location.is_some();
    match &v.value {
        Value::Int(_) => match def {
            TypeDefinition::Scalar(s) => if s.built_in && (text_eq(name, "String") || text_eq(
                name,
                "Boolean",
            )) {
                reportable
            } else {
                true
            },
            _ => reportable,
        },
        Value::BigInt(digits) => match def {
            TypeDefinition::Scalar(s) => if s.built_in && text_eq(name, "Int") {
                parses_as_i32_text(digits.as_str()) || v.location.is_some()
            } else if s.built_in && (text_eq(name, "String") || text_eq(name, "Boolean")) {
                reportable
            } else {
                true
            },
            _ => reportable,
        },
        Value::Float(_) => match def {
            TypeDefinition::Scalar(s) => if s.built_in && !text_eq(name, "Float") {
                reportable
            } else {
                true
            },
            _ => reportable,
        },
        Value::String(_) => match def {
            TypeDefinition::Scalar(s) => if s.built_in && !(text_eq(name, "String") || text_eq(
                name,
                "ID",
            )) {
                reportable
            } else {
                true
            },
            _ => reportable,
        },
        Value::Boolean(_) => match def {
            TypeDefinition::Scalar(s) => if s.built_in && !text_eq(name, "Boolean") {
                reportable
            } else {
                true
            },
            _ => reportable,
        },
        Value::Null => match def {
            TypeDefinition::Enum(_) | TypeDefinition::Scalar(_) => true,
            _ => reportable,
        },
        Value::Variable(var) => match def {
            TypeDefinition::Scalar(_) | TypeDefinition::Enum(_) | TypeDefinition::InputObject(_) => {
                match find_variable(var_defs, &var.text) {
                    None => true,
                    Some(i) => {
                        let var_def = &var_defs[i];
                        if *var_def.ty.ty.inner_named_type() != *name {
                            reportable
                        } else {
                            match &var_def.default_value {
                                None => true,
                                Some(default_value) => {
                                    if var_def.ty.ty.is_non_null() && default_value.is_null() {
                                        default_value.location.is_some()
                                            && var_def.ty.location.is_some()
                                    } else if fuel == 0 {
                                        false
                                    } else {
                                        completes_within(
                                            schema,
                                            &var_def.ty,
                                            default_value,
                                            var_defs,
                                            fuel - 1,
                                        )
                                    }
                                },
                            }
                        }
                    },
                }
            },
            _ => reportable,
        },
        Value::Enum(value) => match def {
            TypeDefinition::Enum(enum_) => enum_has(&enum_.values, &value.text) || (
            value.location.is_some() && v.location.is_some()),
            _ => reportable,
        },
        Value::List(li) => match def {
            TypeDefinition::Scalar(_) | TypeDefinition::Enum(_) | TypeDefinition::InputObject(_) => {
                let mut i: usize = 0;
                while i < li.len()
                    invariant
                        i <= li@.len(),
                        v.value == Value::List(*li),
                        list_diags(fuel as nat, *schema, *ty, *v, i as nat, var_defs@) is Some,
                    decreases li.len() - i,
                {
                    if !completes_within(schema, ty, &li[i], var_defs, fuel) {
                        proof {
                            if list_diags(fuel as nat, *schema, *ty, *v, li@.len(), var_defs@) is Some {
                                lemma_list_prefix(
                                    fuel as nat,
                                    *schema,
                                    *ty,
                                    *v,
                                    (i + 1) as nat,
                                    li@.len(),
                                    var_defs@,
                                );
                            }
                        }
                        return false;
                    }
                    i = i + 1;
                }
                true
            },
            _ => reportable,
        },
        Value::Object(obj) => match def {
            TypeDefinition::Scalar(scalar) => if scalar.built_in {
                reportable
            } else {
                true
            },
            TypeDefinition::InputObject(input_obj) => {
                match find_undefined_entry(obj, &input_obj.fields) {
                    Some(j) => {
                        if obj[j].1.location.is_none() {
                            return false;
                        }
                    },
                    None => {},
                }
                let mut k: usize = 0;
                while k < input_obj.fields.len()
                    invariant
                        k <= input_obj.fields@.len(),
                        v.value == Value::Object(*obj),
                        fields_diags(fuel as nat, *schema, *v, input_obj.fields@, k as nat, var_defs@) is Some,
                    decreases input_obj.fields.len() - k,
                {
                    let f = &input_obj.fields[k];
                    let (is_missing, is_null) = presence(obj, &f.name);
                    let required_ok = !(f.ty.ty.is_non_null() && !f.has_default && (is_missing
                        || is_null)) || v.location.is_some();
                    let used_ok = match find_entry(obj, &f.name) {
                        Some(j) => completes_within(schema, &f.ty, &obj[j].1, var_defs, fuel),
                        None => true,
                    };
                    if !(required_ok && used_ok) {
                        proof {
                            if fields_diags(
                                fuel as nat,
                                *schema,
                                *v,
                                input_obj.fields@,
                                input_obj.fields@.len(),
                                var_defs@,
                            ) is Some {
                                lemma_fields_prefix(
                                    fuel as nat,
                                    *schema,
                                    *v,
                                    input_obj.fields@,
                                    (k + 1) as nat,
                                    input_obj.fields@.len(),
                                    var_defs@,
                                );
                            }
                        }
                        return false;
                    }
                    k = k + 1;
                }
                true
            },
            _ => reportable,
        },
    }
}

/// Checks the value given for the argument `arg` against its declared type
/// `ty`, where that can be done: `None` where the schema names a type, or
/// an enum value or input field within a type, twice, or where checking does
/// not complete within as many steps from a variable to its default value as
/// there are variable definitions; else the diagnostics found, in order.
pub fn try_validate_values2(
    db: &Database,
    ty: &DeclaredType,
    arg: (&Name, Node),
    var_defs: &[VariableDefinition],
) -> (r: Option<Vec<Diagnostic>>)
    ensures
        r is Some <==> schema_wf(db.schema) && diags(
            var_defs@.len(),
            db.schema,
            *ty,
            arg.1,
            var_defs@,
        ) is Some,
        r matches Some(d) ==> diagnostic_views(d@) == value_diagnostics(db.schema, *ty, arg.1, var_defs@),
{
    if !db.schema.is_well_formed() {
        return None;
    }
    let fuel = var_defs.len() as u64;
    if !completes_within(&db.schema, ty, &arg.1, var_defs, fuel) {
        return None;
    }
    proof {
        lemma_value_diagnostics(fuel as nat, db.schema, *ty, arg.1, var_defs@);
    }
    Some(validate_values2(db, ty, arg, var_defs))
}

} // verus!
