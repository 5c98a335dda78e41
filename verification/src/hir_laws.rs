//! What validation of resolved values promises as a whole: which
//! literals each built-in scalar accepts, how enums, lists and input
//! objects are checked, and that the result does not depend on how deep
//! variables are followed.

use vstd::prelude::*;
use crate::diagnostic::{
    DataView, DiagnosticView,
};
use crate::hir::{
    entry_named, kind_text,    completes, declares, diags, entry_undefined, fields_diags, int_coercion_view, is_missing,
    is_null_given, lemma_diags_fuel, lemma_list_diags_fuel, lemma_value_diagnostics, list_diags,
    unsupported_view, value_diagnostics, Value, ValueData, VariableDefinition,
};
use crate::int_literal::parses_as_i32;
use crate::types::{
    defines_field, lemma_first_index_none_iff,    enum_defines, first_index, inner_name, lemma_lookup_type_name, lookup_type, spec_is_non_null,
    DeclaredType, InputField, Schema, TypeDefinition,
};

verus! {

/// Whether `ty` names the built-in scalar `scalar` in `schema`.
pub open spec fn names_built_in(schema: Schema, ty: DeclaredType, scalar: Seq<char>) -> bool {
    &&& inner_name(ty.ty) == scalar
    &&& lookup_type(schema.types@, scalar) matches Some(TypeDefinition::Scalar(s))
    &&& s.built_in
}

/// Whether `v` is a scalar literal: an integer, float, string or boolean.
pub open spec fn is_scalar_literal(v: ValueData) -> bool {
    v is Int || v is Float || v is String || v is Boolean
}

/// The one diagnostic for a value of the wrong kind.
pub open spec fn rejected(v: Value, ty: DeclaredType) -> Seq<DiagnosticView> {
    seq![unsupported_view(v, ty)->0]
}

/// Two fuels with which checking completes give the same diagnostics.
pub proof fn law_fuel_irrelevant(
    f1: nat,
    f2: nat,
    schema: Schema,
    ty: DeclaredType,
    v: Value,
    var_defs: Seq<VariableDefinition>,
)
    requires
        diags(f1, schema, ty, v, var_defs) is Some,
        diags(f2, schema, ty, v, var_defs) is Some,
    ensures
        diags(f1, schema, ty, v, var_defs) == diags(f2, schema, ty, v, var_defs),
{
    if f1 <= f2 {
        lemma_diags_fuel(f1, f2, schema, ty, v, var_defs);
    } else {
        lemma_diags_fuel(f2, f1, schema, ty, v, var_defs);
    }
}

/// `Int` accepts integer literals only: one that does not fit in 32 bits is
/// reported as such, and a float, string or boolean is of the wrong kind.
pub proof fn law_int_accepts_integers(
    schema: Schema,
    ty: DeclaredType,
    v: Value,
    var_defs: Seq<VariableDefinition>,
)
    requires
        names_built_in(schema, ty, "Int"@),
        is_scalar_literal(v.data),
        ty.location is Some,
    ensures
        completes(schema, ty, v, var_defs),
        v.data matches ValueData::Int(t) ==> value_diagnostics(schema, ty, v, var_defs) == if parses_as_i32(t@) {
            Seq::<DiagnosticView>::empty()
        } else {
            seq![int_coercion_view(v, t@)]
        },
        v.data is Float || v.data is String || v.data is Boolean ==> value_diagnostics(
            schema,
            ty,
            v,
            var_defs,
        ) == rejected(v, ty),
{
    reveal_strlit("Int");
    reveal_strlit("Float");
    reveal_strlit("String");
    reveal_strlit("Boolean");
    reveal_strlit("ID");
    lemma_value_diagnostics(0, schema, ty, v, var_defs);
}

/// `Float` accepts integer literals of any size and float literals; a
/// string or boolean is of the wrong kind.
pub proof fn law_float_accepts_numbers(
    schema: Schema,
    ty: DeclaredType,
    v: Value,
    var_defs: Seq<VariableDefinition>,
)
    requires
        names_built_in(schema, ty, "Float"@),
        is_scalar_literal(v.data),
        ty.location is Some,
    ensures
        completes(schema, ty, v, var_defs),
        v.data is Int || v.data is Float ==> value_diagnostics(schema, ty, v, var_defs)
            == Seq::<DiagnosticView>::empty(),
        v.data is String || v.data is Boolean ==> value_diagnostics(schema, ty, v, var_defs)
            == rejected(v, ty),
{
    reveal_strlit("Int");
    reveal_strlit("Float");
    reveal_strlit("String");
    reveal_strlit("Boolean");
    reveal_strlit("ID");
    lemma_value_diagnostics(0, schema, ty, v, var_defs);
}

/// `String` accepts string literals only.
pub proof fn law_string_accepts_strings(
    schema: Schema,
    ty: DeclaredType,
    v: Value,
    var_defs: Seq<VariableDefinition>,
)
    requires
        names_built_in(schema, ty, "String"@),
        is_scalar_literal(v.data),
        ty.location is Some,
    ensures
        completes(schema, ty, v, var_defs),
        v.data is String ==> value_diagnostics(schema, ty, v, var_defs) == Seq::<DiagnosticView>::empty(),
        !(v.data is String) ==> value_diagnostics(schema, ty, v, var_defs) == rejected(v, ty),
{
    reveal_strlit("Int");
    reveal_strlit("Float");
    reveal_strlit("String");
    reveal_strlit("Boolean");
    reveal_strlit("ID");
    lemma_value_diagnostics(0, schema, ty, v, var_defs);
}

/// `Boolean` accepts boolean literals only.
pub proof fn law_boolean_accepts_booleans(
    schema: Schema,
    ty: DeclaredType,
    v: Value,
    var_defs: Seq<VariableDefinition>,
)
    requires
        names_built_in(schema, ty, "Boolean"@),
        is_scalar_literal(v.data),
        ty.location is Some,
    ensures
        completes(schema, ty, v, var_defs),
        v.data is Boolean ==> value_diagnostics(schema, ty, v, var_defs) == Seq::<DiagnosticView>::empty(),
        !(v.data is Boolean) ==> value_diagnostics(schema, ty, v, var_defs) == rejected(v, ty),
{
    reveal_strlit("Int");
    reveal_strlit("Float");
    reveal_strlit("String");
    reveal_strlit("Boolean");
    reveal_strlit("ID");
    lemma_value_diagnostics(0, schema, ty, v, var_defs);
}

/// `ID` accepts string literals and integer literals of any size; a float
/// or boolean is of the wrong kind.
pub proof fn law_id_accepts_strings_and_integers(
    schema: Schema,
    ty: DeclaredType,
    v: Value,
    var_defs: Seq<VariableDefinition>,
)
    requires
        names_built_in(schema, ty, "ID"@),
        is_scalar_literal(v.data),
        ty.location is Some,
    ensures
        completes(schema, ty, v, var_defs),
        v.data is String || v.data is Int ==> value_diagnostics(schema, ty, v, var_defs)
            == Seq::<DiagnosticView>::empty(),
        v.data is Float || v.data is Boolean ==> value_diagnostics(schema, ty, v, var_defs)
            == rejected(v, ty),
{
    reveal_strlit("Int");
    reveal_strlit("Float");
    reveal_strlit("String");
    reveal_strlit("Boolean");
    reveal_strlit("ID");
    lemma_value_diagnostics(0, schema, ty, v, var_defs);
}

/// A custom scalar accepts every scalar literal, `null` and objects.
pub proof fn law_custom_scalar_accepts_literals(
    schema: Schema,
    ty: DeclaredType,
    v: Value,
    var_defs: Seq<VariableDefinition>,
)
    requires
        lookup_type(schema.types@, inner_name(ty.ty)) matches Some(TypeDefinition::Scalar(s)),
        !lookup_type(schema.types@, inner_name(ty.ty))->0->Scalar_0.built_in,
        is_scalar_literal(v.data) || v.data is Null || v.data is Object,
    ensures
        completes(schema, ty, v, var_defs),
        value_diagnostics(schema, ty, v, var_defs) == Seq::<DiagnosticView>::empty(),
{
    lemma_value_diagnostics(0, schema, ty, v, var_defs);
}

/// An enum type accepts exactly the enum values it defines; a value it does
/// not define is reported as undefined, and a string literal is of the
/// wrong kind.
pub proof fn law_enum_accepts_its_values(
    schema: Schema,
    ty: DeclaredType,
    v: Value,
    var_defs: Seq<VariableDefinition>,
)
    requires
        lookup_type(schema.types@, inner_name(ty.ty)) is Some,
        lookup_type(schema.types@, inner_name(ty.ty))->0 is Enum,
        v.data is Enum || v.data is String,
        ty.location is Some,
    ensures
        completes(schema, ty, v, var_defs),
        v.data is String ==> value_diagnostics(schema, ty, v, var_defs) == rejected(v, ty),
        v.data matches ValueData::Enum(n) ==> (value_diagnostics(schema, ty, v, var_defs).len() == 0
            <==> enum_defines(lookup_type(schema.types@, inner_name(ty.ty))->0->Enum_0.values@, n@)),
        v.data matches ValueData::Enum(n) ==> value_diagnostics(schema, ty, v, var_defs).len() <= 1,
        v.data matches ValueData::Enum(n) ==> forall|i: int|
            0 <= i < value_diagnostics(schema, ty, v, var_defs).len() ==> (#[trigger] value_diagnostics(
                schema,
                ty,
                v,
                var_defs,
            )[i]).data == (DataView::UndefinedValue { value: n@, definition: inner_name(ty.ty) }),
{
    lemma_lookup_type_name(schema.types@, inner_name(ty.ty));
    lemma_value_diagnostics(0, schema, ty, v, var_defs);
}

/// `null` is accepted where a scalar or enum type is expected, and is of
/// the wrong kind where an input-object type is.
pub proof fn law_null(schema: Schema, ty: DeclaredType, v: Value, var_defs: Seq<VariableDefinition>)
    requires
        lookup_type(schema.types@, inner_name(ty.ty)) is Some,
        v.data is Null,
        ty.location is Some,
    ensures
        completes(schema, ty, v, var_defs),
        lookup_type(schema.types@, inner_name(ty.ty))->0 is Scalar || lookup_type(
            schema.types@,
            inner_name(ty.ty),
        )->0 is Enum ==> value_diagnostics(schema, ty, v, var_defs) == Seq::<DiagnosticView>::empty(),
        lookup_type(schema.types@, inner_name(ty.ty))->0 is InputObject ==> value_diagnostics(
            schema,
            ty,
            v,
            var_defs,
        ) == rejected(v, ty),
{
    lemma_value_diagnostics(0, schema, ty, v, var_defs);
}

/// A value expected as a type that the schema does not define has no
/// diagnostic.
pub proof fn law_unknown_type(schema: Schema, ty: DeclaredType, v: Value, var_defs: Seq<VariableDefinition>)
    requires
        lookup_type(schema.types@, inner_name(ty.ty)) is None,
    ensures
        completes(schema, ty, v, var_defs),
        value_diagnostics(schema, ty, v, var_defs) == Seq::<DiagnosticView>::empty(),
{
    lemma_value_diagnostics(0, schema, ty, v, var_defs);
}

/// The diagnostics of the first `n` of `items`, each checked on its own as
/// `ty`, one after the other.
pub open spec fn items_diagnostics(
    schema: Schema,
    ty: DeclaredType,
    items: Seq<Value>,
    n: nat,
    var_defs: Seq<VariableDefinition>,
) -> Seq<DiagnosticView>
    decreases n,
{
    if n == 0 || n > items.len() {
        Seq::empty()
    } else {
        items_diagnostics(schema, ty, items, (n - 1) as nat, var_defs) + value_diagnostics(
            schema,
            ty,
            items[n - 1],
            var_defs,
        )
    }
}

proof fn lemma_list_items(
    fuel: nat,
    schema: Schema,
    ty: DeclaredType,
    v: Value,
    n: nat,
    var_defs: Seq<VariableDefinition>,
)
    requires
        v.data is List,
        n <= v.data->List_0@.len(),
        list_diags(fuel, schema, ty, v, n, var_defs) is Some,
    ensures
        forall|i: int| 0 <= i < n ==> completes(schema, ty, #[trigger] v.data->List_0@[i], var_defs),
        list_diags(fuel, schema, ty, v, n, var_defs)->0 == items_diagnostics(
            schema,
            ty,
            v.data->List_0@,
            n,
            var_defs,
        ),
    decreases n,
{
    let items = v.data->List_0@;
    if n > 0 {
        lemma_list_items(fuel, schema, ty, v, (n - 1) as nat, var_defs);
        lemma_value_diagnostics(fuel, schema, ty, items[n - 1], var_defs);
    }
}

proof fn lemma_list_fuel_exists(
    schema: Schema,
    ty: DeclaredType,
    v: Value,
    n: nat,
    var_defs: Seq<VariableDefinition>,
) -> (fuel: nat)
    requires
        v.data is List,
        n <= v.data->List_0@.len(),
        forall|i: int| 0 <= i < n ==> completes(schema, ty, #[trigger] v.data->List_0@[i], var_defs),
    ensures
        list_diags(fuel, schema, ty, v, n, var_defs) is Some,
    decreases n,
{
    let items = v.data->List_0@;
    if n == 0 {
        0
    } else {
        let f1 = lemma_list_fuel_exists(schema, ty, v, (n - 1) as nat, var_defs);
        assert(completes(schema, ty, items[n - 1], var_defs));
        let f2 = choose|f: nat| #[trigger] diags(f, schema, ty, items[n - 1], var_defs) is Some;
        let f = if f1 <= f2 { f2 } else { f1 };
        lemma_list_diags_fuel(f1, f, schema, ty, v, (n - 1) as nat, var_defs);
        lemma_diags_fuel(f2, f, schema, ty, items[n - 1], var_defs);
        f
    }
}

/// A list is checked item by item against the expected type: checking it
/// completes exactly when checking each item does, and its diagnostics are
/// those of its items, in order; so a list is accepted exactly when each of
/// its items is.
pub proof fn law_list_checked_item_by_item(
    schema: Schema,
    ty: DeclaredType,
    v: Value,
    var_defs: Seq<VariableDefinition>,
)
    requires
        v.data is List,
        lookup_type(schema.types@, inner_name(ty.ty)) is Some,
        !(lookup_type(schema.types@, inner_name(ty.ty))->0 is Object),
        !(lookup_type(schema.types@, inner_name(ty.ty))->0 is Interface),
        !(lookup_type(schema.types@, inner_name(ty.ty))->0 is Union),
    ensures
        completes(schema, ty, v, var_defs) <==> forall|i: int|
            0 <= i < v.data->List_0@.len() ==> completes(schema, ty, #[trigger] v.data->List_0@[i], var_defs),
        completes(schema, ty, v, var_defs) ==> value_diagnostics(schema, ty, v, var_defs)
            == items_diagnostics(schema, ty, v.data->List_0@, v.data->List_0@.len(), var_defs),
{
    let items = v.data->List_0@;
    if completes(schema, ty, v, var_defs) {
        let f = choose|f: nat| #[trigger] diags(f, schema, ty, v, var_defs) is Some;
        lemma_list_items(f, schema, ty, v, items.len(), var_defs);
        lemma_value_diagnostics(f, schema, ty, v, var_defs);
    }
    if forall|i: int| 0 <= i < items.len() ==> completes(schema, ty, #[trigger] items[i], var_defs) {
        let f = lemma_list_fuel_exists(schema, ty, v, items.len(), var_defs);
        assert(diags(f, schema, ty, v, var_defs) is Some);
    }
}

/// Whether `s` holds a diagnostic with the data `data`.
pub open spec fn reports(s: Seq<DiagnosticView>, data: DataView) -> bool {
    exists|i: int| 0 <= i < s.len() && (#[trigger] s[i]).data == data
}

proof fn lemma_fields_report_required(
    fuel: nat,
    schema: Schema,
    v: Value,
    fields: Seq<InputField>,
    k: int,
    m: nat,
    var_defs: Seq<VariableDefinition>,
)
    requires
        v.data is Object,
        0 <= k < m <= fields.len(),
        spec_is_non_null(fields[k].ty.ty),
        !fields[k].has_default,
        is_missing(v.data->Object_0@, fields[k].name@) || is_null_given(
            v.data->Object_0@,
            fields[k].name@,
        ),
        fields_diags(fuel, schema, v, fields, m, var_defs) is Some,
    ensures
        reports(
            fields_diags(fuel, schema, v, fields, m, var_defs)->0,
            DataView::RequiredArgument { name: fields[k].name@ },
        ),
    decreases m,
{
    let data = DataView::RequiredArgument { name: fields[k].name@ };
    let whole = fields_diags(fuel, schema, v, fields, m, var_defs)->0;
    if m == k + 1 {
        let before = fields_diags(fuel, schema, v, fields, (m - 1) as nat, var_defs)->0;
        assert(whole[before.len() as int].data == data);
    } else {
        lemma_fields_report_required(fuel, schema, v, fields, k, (m - 1) as nat, var_defs);
        let before = fields_diags(fuel, schema, v, fields, (m - 1) as nat, var_defs)->0;
        let i = choose|i: int| 0 <= i < before.len() && (#[trigger] before[i]).data == data;
        assert(whole[i] == before[i]);
    }
}

/// A field of an input-object type that is non-null and has no default
/// value must be given a value other than `null`: where the object lacks it
/// or gives `null`, a required-argument diagnostic names it.
pub proof fn law_required_field_reported(
    schema: Schema,
    ty: DeclaredType,
    v: Value,
    var_defs: Seq<VariableDefinition>,
    k: int,
)
    requires
        completes(schema, ty, v, var_defs),
        v.data is Object,
        lookup_type(schema.types@, inner_name(ty.ty)) matches Some(TypeDefinition::InputObject(io)),
        0 <= k < lookup_type(schema.types@, inner_name(ty.ty))->0->InputObject_0.fields@.len(),
        ({
            let f = lookup_type(schema.types@, inner_name(ty.ty))->0->InputObject_0.fields@[k];
            &&& spec_is_non_null(f.ty.ty)
            &&& !f.has_default
            &&& is_missing(v.data->Object_0@, f.name@) || is_null_given(v.data->Object_0@, f.name@)
        }),
    ensures
        reports(
            value_diagnostics(schema, ty, v, var_defs),
            DataView::RequiredArgument {
                name: lookup_type(schema.types@, inner_name(ty.ty))->0->InputObject_0.fields@[k].name@,
            },
        ),
{
    let io = lookup_type(schema.types@, inner_name(ty.ty))->0->InputObject_0;
    let fuel = choose|f: nat| #[trigger] diags(f, schema, ty, v, var_defs) is Some;
    lemma_value_diagnostics(fuel, schema, ty, v, var_defs);
    let fields = io.fields@;
    lemma_fields_report_required(fuel, schema, v, fields, k, fields.len(), var_defs);
    let data = DataView::RequiredArgument { name: fields[k].name@ };
    let part = fields_diags(fuel, schema, v, fields, fields.len(), var_defs)->0;
    let whole = value_diagnostics(schema, ty, v, var_defs);
    let i = choose|i: int| 0 <= i < part.len() && (#[trigger] part[i]).data == data;
    let undefined_len = whole.len() - part.len();
    assert(whole[undefined_len + i] == part[i]);
}

/// An object given for an input-object type is reported, first of all, for
/// the first of its entries that names no field of the type.
pub proof fn law_undefined_field_reported_first(
    schema: Schema,
    ty: DeclaredType,
    v: Value,
    var_defs: Seq<VariableDefinition>,
)
    requires
        completes(schema, ty, v, var_defs),
        v.data is Object,
        lookup_type(schema.types@, inner_name(ty.ty)) matches Some(TypeDefinition::InputObject(io)),
        first_index(
            v.data->Object_0@,
            entry_undefined(lookup_type(schema.types@, inner_name(ty.ty))->0->InputObject_0.fields@),
        ) is Some,
    ensures
        value_diagnostics(schema, ty, v, var_defs).len() > 0,
        value_diagnostics(schema, ty, v, var_defs)[0].data == (DataView::UndefinedValue {
            value: v.data->Object_0@[first_index(
                v.data->Object_0@,
                entry_undefined(lookup_type(schema.types@, inner_name(ty.ty))->0->InputObject_0.fields@),
            )->0].0@,
            definition: inner_name(ty.ty),
        }),
{
    lemma_lookup_type_name(schema.types@, inner_name(ty.ty));
    let fuel = choose|f: nat| #[trigger] diags(f, schema, ty, v, var_defs) is Some;
    lemma_value_diagnostics(fuel, schema, ty, v, var_defs);
}

/// A variable is checked through its declaration, since its value is not
/// known here: one that is not declared has no diagnostic; one declared
/// with another named type is of the wrong kind; one whose default value is
/// `null` though its type is non-null reports that default value; otherwise
/// its diagnostics are those of its default value checked against its
/// declared type, and none where it has no default value.
pub proof fn law_variable_checked_through_declaration(
    schema: Schema,
    ty: DeclaredType,
    v: Value,
    var_defs: Seq<VariableDefinition>,
)
    requires
        completes(schema, ty, v, var_defs),
        v.data is Variable,
        lookup_type(schema.types@, inner_name(ty.ty)) is Some,
        !(lookup_type(schema.types@, inner_name(ty.ty))->0 is Object),
        !(lookup_type(schema.types@, inner_name(ty.ty))->0 is Interface),
        !(lookup_type(schema.types@, inner_name(ty.ty))->0 is Union),
    ensures
        ({
            let found = first_index(var_defs, declares(v.data->Variable_0@));
            let diagnostics = value_diagnostics(schema, ty, v, var_defs);
            match found {
                None => diagnostics == Seq::<DiagnosticView>::empty(),
                Some(i) => {
                    let vd = var_defs[i];
                    if inner_name(vd.ty.ty) != inner_name(ty.ty) {
                        diagnostics == rejected(v, ty)
                    } else {
                        match vd.default_value {
                            None => diagnostics == Seq::<DiagnosticView>::empty(),
                            Some(dv) => if spec_is_non_null(vd.ty.ty) && dv.data is Null {
                                diagnostics == rejected(dv, vd.ty)
                            } else {
                                &&& completes(schema, vd.ty, dv, var_defs)
                                &&& diagnostics == value_diagnostics(schema, vd.ty, dv, var_defs)
                            },
                        }
                    }
                },
            }
        }),
{
    lemma_lookup_type_name(schema.types@, inner_name(ty.ty));
    let fuel = choose|f: nat| #[trigger] diags(f, schema, ty, v, var_defs) is Some;
    lemma_value_diagnostics(fuel, schema, ty, v, var_defs);
    match first_index(var_defs, declares(v.data->Variable_0@)) {
        None => {},
        Some(i) => {
            let vd = var_defs[i];
            if inner_name(vd.ty.ty) == inner_name(ty.ty) {
                match vd.default_value {
                    None => {},
                    Some(dv) => {
                        if !(spec_is_non_null(vd.ty.ty) && dv.data is Null) {
                            lemma_value_diagnostics((fuel - 1) as nat, schema, vd.ty, dv, var_defs);
                        }
                    },
                }
            }
        },
    }
}

/// A scalar literal (integer, float, string or boolean) is never a value of
/// a type that is not a scalar: given where an enum, input-object or other
/// non-scalar type is expected, it gets exactly one diagnostic, naming its
/// kind and the declared type.
pub proof fn law_scalar_literal_for_non_scalar_rejected(
    schema: Schema,
    ty: DeclaredType,
    v: Value,
    var_defs: Seq<VariableDefinition>,
)
    requires
        lookup_type(schema.types@, inner_name(ty.ty)) is Some,
        !(lookup_type(schema.types@, inner_name(ty.ty))->0 is Scalar),
        is_scalar_literal(v.data),
        ty.location is Some,
    ensures
        completes(schema, ty, v, var_defs),
        value_diagnostics(schema, ty, v, var_defs) == rejected(v, ty),
        value_diagnostics(schema, ty, v, var_defs).len() == 1,
        value_diagnostics(schema, ty, v, var_defs)[0].data == (DataView::UnsupportedValueType {
            value: kind_text(v.data),
            ty: inner_name(ty.ty),
        }),
{
    lemma_value_diagnostics(0, schema, ty, v, var_defs);
}

/// Whether the object `entries` must, and does not, give the input field `f`
/// a value: `f` is non-null with no default value, and the object lacks it
/// or gives `null` for it.
pub open spec fn lacks_required(f: InputField, entries: Seq<(String, Value)>) -> bool {
    &&& spec_is_non_null(f.ty.ty)
    &&& !f.has_default
    &&& (forall|j: int| 0 <= j < entries.len() ==> #[trigger] entries[j].0@ != f.name@) || exists|
        j: int,
    |
        0 <= j < entries.len() && #[trigger] entries[j].0@ == f.name@ && entries[j].1.data is Null
}

/// Whether the value that the object `entries` first gives for the input
/// field `f`, if any, is accepted as `f`'s type.
pub open spec fn given_value_accepted(
    schema: Schema,
    f: InputField,
    entries: Seq<(String, Value)>,
    var_defs: Seq<VariableDefinition>,
) -> bool {
    match first_index(entries, entry_named(f.name@)) {
        Some(j) => completes(schema, f.ty, entries[j].1, var_defs) && value_diagnostics(
            schema,
            f.ty,
            entries[j].1,
            var_defs,
        ).len() == 0,
        None => true,
    }
}

proof fn lemma_fields_accepted(
    fuel: nat,
    schema: Schema,
    v: Value,
    fields: Seq<InputField>,
    k: nat,
    var_defs: Seq<VariableDefinition>,
)
    requires
        v.data is Object,
        k <= fields.len(),
        fields_diags(fuel, schema, v, fields, k, var_defs) is Some,
    ensures
        fields_diags(fuel, schema, v, fields, k, var_defs)->0.len() == 0 <==> forall|i: int|
            0 <= i < k ==> !lacks_required(#[trigger] fields[i], v.data->Object_0@)
                && given_value_accepted(schema, fields[i], v.data->Object_0@, var_defs),
    decreases k,
{
    let xs = v.data->Object_0@;
    if k > 0 {
        let f = fields[k - 1];
        lemma_fields_accepted(fuel, schema, v, fields, (k - 1) as nat, var_defs);
        match first_index(xs, entry_named(f.name@)) {
            Some(j) => {
                lemma_value_diagnostics(fuel, schema, f.ty, xs[j].1, var_defs);
            },
            None => {},
        }
        let ok_last = !lacks_required(f, xs) && given_value_accepted(schema, f, xs, var_defs);
        assert(lacks_required(f, xs) == (spec_is_non_null(f.ty.ty) && !f.has_default && (
        is_missing(xs, f.name@) || is_null_given(xs, f.name@))));
        if forall|i: int|
            0 <= i < k ==> !lacks_required(#[trigger] fields[i], xs) && given_value_accepted(
                schema,
                fields[i],
                xs,
                var_defs,
            ) {
            assert(!lacks_required(fields[k - 1], xs));
        }
    }
}

/// An object given where an input-object type is expected is accepted
/// exactly when each of its entries names a field of the type, every
/// non-null field without a default value is given a value other than
/// `null`, and the value given for each field is accepted as that field's
/// type; so `null` for a nullable field, or no value for a field with a
/// default, is never reported.
pub proof fn law_object_accepted_exactly(
    schema: Schema,
    ty: DeclaredType,
    v: Value,
    var_defs: Seq<VariableDefinition>,
)
    requires
        completes(schema, ty, v, var_defs),
        v.data is Object,
        lookup_type(schema.types@, inner_name(ty.ty)) matches Some(TypeDefinition::InputObject(io)),
    ensures
        ({
            let fields = lookup_type(schema.types@, inner_name(ty.ty))->0->InputObject_0.fields@;
            let entries = v.data->Object_0@;
            value_diagnostics(schema, ty, v, var_defs).len() == 0 <==> {
                &&& forall|j: int| 0 <= j < entries.len() ==> defines_field(fields, #[trigger] entries[j].0@)
                &&& forall|k: int| 0 <= k < fields.len() ==> !lacks_required(#[trigger] fields[k], entries)
                &&& forall|k: int| 0 <= k < fields.len() ==> given_value_accepted(schema, #[trigger] fields[k], entries, var_defs)
            }
        }),
{
    let io = lookup_type(schema.types@, inner_name(ty.ty))->0->InputObject_0;
    let fields = io.fields@;
    let entries = v.data->Object_0@;
    let fuel = choose|f: nat| #[trigger] diags(f, schema, ty, v, var_defs) is Some;
    lemma_value_diagnostics(fuel, schema, ty, v, var_defs);
    lemma_fields_accepted(fuel, schema, v, fields, fields.len(), var_defs);
    lemma_first_index_none_iff(entries, entry_undefined(fields));
    if forall|j: int| 0 <= j < entries.len() ==> defines_field(fields, #[trigger] entries[j].0@) {
        assert forall|j: int| 0 <= j < entries.len() implies !entry_undefined(fields)(#[trigger] entries[j]) by {
            assert(defines_field(fields, entries[j].0@));
        }
    } else {
        let j = choose|j: int| 0 <= j < entries.len() && !defines_field(fields, #[trigger] entries[j].0@);
        assert(entry_undefined(fields)(entries[j]));
    }
}

/// No input value is a value of an object, interface or union type: given
/// where such a type is expected, any value gets exactly one diagnostic,
/// naming its kind and the declared type.
pub proof fn law_output_type_rejects_every_value(
    schema: Schema,
    ty: DeclaredType,
    v: Value,
    var_defs: Seq<VariableDefinition>,
)
    requires
        lookup_type(schema.types@, inner_name(ty.ty)) is Some,
        ({
            let d = lookup_type(schema.types@, inner_name(ty.ty))->0;
            d is Object || d is Interface || d is Union
        }),
        ty.location is Some,
    ensures
        completes(schema, ty, v, var_defs),
        value_diagnostics(schema, ty, v, var_defs) == rejected(v, ty),
{
    lemma_value_diagnostics(0, schema, ty, v, var_defs);
}

/// An enum value is only a value of an enum type, and an object only of an
/// input-object type or a custom scalar: given elsewhere, each gets exactly
/// one diagnostic, naming its kind and the declared type.
pub proof fn law_enum_values_and_objects_need_their_types(
    schema: Schema,
    ty: DeclaredType,
    v: Value,
    var_defs: Seq<VariableDefinition>,
)
    requires
        lookup_type(schema.types@, inner_name(ty.ty)) is Some,
        ({
            let d = lookup_type(schema.types@, inner_name(ty.ty))->0;
            ||| v.data is Enum && !(d is Enum)
            ||| v.data is Object && !(d is InputObject) && !(d matches TypeDefinition::Scalar(s) && !s.built_in)
        }),
        ty.location is Some,
    ensures
        completes(schema, ty, v, var_defs),
        value_diagnostics(schema, ty, v, var_defs) == rejected(v, ty),
{
    lemma_value_diagnostics(0, schema, ty, v, var_defs);
}

} // verus!
