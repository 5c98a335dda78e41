//! The two validators agree: a syntax-level value and the resolved value it
//! becomes get the same kinds of diagnostics, in the same order.

use vstd::prelude::*;
use crate::diagnostic::{DataView, DiagnosticView};
use crate::document;
use crate::hir;
use crate::int_literal::parses_as_i32;
use crate::types::{
    first_index, inner_name, lemma_first_index_same, lemma_lookup_type_name, lookup_type, InputField, Schema,
    Type, DeclaredType, TypeDefinition,
};

verus! {

/// Whether the resolved value `h` is what the syntax-level value `a`
/// becomes: the same kind of value, with the same names, an integer that
/// fits in 32 bits exactly where the other does, and corresponding items
/// and entries.
pub open spec fn values_correspond(a: document::Node, h: hir::Value) -> bool
    decreases a,
{
    match (a.value, h.data) {
        (document::Value::Null, hir::ValueData::Null) => true,
        (document::Value::Enum(n), hir::ValueData::Enum(s)) => n.text@ == s@,
        (document::Value::Variable(n), hir::ValueData::Variable(s)) => n.text@ == s@,
        (document::Value::String(_), hir::ValueData::String(_)) => true,
        (document::Value::Float(_), hir::ValueData::Float(_)) => true,
        (document::Value::Int(_), hir::ValueData::Int(t)) => parses_as_i32(t@),
        (document::Value::BigInt(x), hir::ValueData::Int(t)) => parses_as_i32(x@) == parses_as_i32(t@),
        (document::Value::Boolean(_), hir::ValueData::Boolean(_)) => true,
        (document::Value::List(xs), hir::ValueData::List(ys)) => {
            &&& xs@.len() == ys@.len()
            &&& forall|i: int| 0 <= i < xs@.len() ==> values_correspond(#[trigger] xs@[i], ys@[i])
        },
        (document::Value::Object(xs), hir::ValueData::Object(ys)) => {
            &&& xs@.len() == ys@.len()
            &&& forall|i: int| 0 <= i < xs@.len() ==> (#[trigger] xs@[i]).0.text@ == ys@[i].0@
            &&& forall|i: int| 0 <= i < xs@.len() ==> values_correspond(#[trigger] xs@[i].1, ys@[i].1)
        },
        _ => false,
    }
}

/// Whether two optional default values correspond.
pub open spec fn defaults_correspond(a: Option<document::Node>, h: Option<hir::Value>) -> bool {
    match (a, h) {
        (None, None) => true,
        (Some(x), Some(y)) => values_correspond(x, y),
        _ => false,
    }
}

/// Whether two lists of variable definitions declare the same variables,
/// with the same types and corresponding default values.
pub open spec fn var_defs_correspond(
    a: Seq<document::VariableDefinition>,
    h: Seq<hir::VariableDefinition>,
) -> bool {
    &&& a.len() == h.len()
    &&& forall|i: int| 0 <= i < a.len() ==> (#[trigger] a[i]).name.text@ == h[i].name@
    &&& forall|i: int| 0 <= i < a.len() ==> (#[trigger] a[i]).ty.ty == h[i].ty.ty
    &&& forall|i: int| 0 <= i < a.len() ==> defaults_correspond((#[trigger] a[i]).default_value, h[i].default_value)
}

/// The kind of a diagnostic: unsupported type, integer coercion, undefined
/// value or required argument.
pub open spec fn data_kind(d: DiagnosticView) -> nat {
    match d.data {
        DataView::UnsupportedValueType { .. } => 0,
        DataView::IntCoercionError { .. } => 1,
        DataView::UndefinedValue { .. } => 2,
        DataView::RequiredArgument { .. } => 3,
    }
}

/// The kinds of a sequence of diagnostics, in order.
pub open spec fn kinds(s: Seq<DiagnosticView>) -> Seq<nat> {
    s.map_values(|d: DiagnosticView| data_kind(d))
}

proof fn lemma_kinds_add(x: Seq<DiagnosticView>, y: Seq<DiagnosticView>)
    ensures
        kinds(x + y) == kinds(x) + kinds(y),
{
    assert(kinds(x + y) =~= kinds(x) + kinds(y));
}

proof fn lemma_followed_by_kinds(
    a1: Option<Seq<DiagnosticView>>,
    b1: Option<Seq<DiagnosticView>>,
    a2: Option<Seq<DiagnosticView>>,
    b2: Option<Seq<DiagnosticView>>,
)
    requires
        a1 is Some,
        b1 is Some,
        a2 is Some,
        b2 is Some,
        kinds(a1->0) == kinds(a2->0),
        kinds(b1->0) == kinds(b2->0),
    ensures
        kinds(crate::diagnostic::followed_by(a1, b1)->0) == kinds(crate::diagnostic::followed_by(a2, b2)->0),
{
    lemma_kinds_add(a1->0, b1->0);
    lemma_kinds_add(a2->0, b2->0);
}

proof fn lemma_agree(
    fuel: nat,
    schema: Schema,
    tya: DeclaredType,
    a: document::Node,
    vda: Seq<document::VariableDefinition>,
    tyh: DeclaredType,
    h: hir::Value,
    vdh: Seq<hir::VariableDefinition>,
)
    requires
        tya.ty == tyh.ty,
        values_correspond(a, h),
        var_defs_correspond(vda, vdh),
        document::diags(fuel, schema, tya, a, vda) is Some,
        hir::diags(fuel, schema, tyh, h, vdh) is Some,
    ensures
        kinds(document::diags(fuel, schema, tya, a, vda)->0) == kinds(
            hir::diags(fuel, schema, tyh, h, vdh)->0,
        ),
    decreases fuel, a, 1nat, 0nat,
{
    let name = inner_name(tya.ty);
    reveal_strlit("Int");
    reveal_strlit("String");
    reveal_strlit("Boolean");
    let da = document::diags(fuel, schema, tya, a, vda)->0;
    let dh = hir::diags(fuel, schema, tyh, h, vdh)->0;
    match lookup_type(schema.types@, name) {
        None => {},
        Some(def) => {
            lemma_lookup_type_name(schema.types@, name);
            match (a.value, h.data) {
                (document::Value::Variable(n), hir::ValueData::Variable(s)) => {
                    if def is Scalar || def is Enum || def is InputObject {
                        lemma_first_index_same(
                            vda,
                            document::declares(n.text@),
                            vdh,
                            hir::declares(s@),
                        );
                        match first_index(vda, document::declares(n.text@)) {
                            None => {},
                            Some(i) => {
                                let va = vda[i];
                                let vh = vdh[i];
                                assert(va.ty.ty == vh.ty.ty);
                                assert(defaults_correspond(va.default_value, vh.default_value));
                                if inner_name(va.ty.ty) == name {
                                    match (va.default_value, vh.default_value) {
                                        (Some(da), Some(dh)) => {
                                            if !(crate::types::spec_is_non_null(va.ty.ty)
                                                && da.value is Null) && fuel > 0 {
                                                lemma_agree(
                                                    (fuel - 1) as nat,
                                                    schema,
                                                    va.ty,
                                                    da,
                                                    vda,
                                                    vh.ty,
                                                    dh,
                                                    vdh,
                                                );
                                            }
                                        },
                                        _ => {},
                                    }
                                }
                            },
                        }
                    }
                },
                (document::Value::List(xs), hir::ValueData::List(ys)) => {
                    if def is Scalar || def is Enum || def is InputObject {
                        lemma_agree_list(fuel, schema, tya, a, vda, tyh, h, vdh, xs@.len());
                    }
                },
                (document::Value::Object(xs), hir::ValueData::Object(ys)) => {
                    match def {
                        TypeDefinition::InputObject(io) => {
                            lemma_first_index_same(
                                xs@,
                                document::entry_undefined(io.fields@),
                                ys@,
                                hir::entry_undefined(io.fields@),
                            );
                            lemma_agree_fields(
                                fuel,
                                schema,
                                a,
                                vda,
                                h,
                                vdh,
                                io.fields@,
                                io.fields@.len(),
                            );
                            let ua = match first_index(xs@, document::entry_undefined(io.fields@)) {
                                None => crate::diagnostic::nothing(),
                                Some(j) => crate::diagnostic::single(
                                    document::undefined_field_view(xs@[j].0, xs@[j].1, name),
                                ),
                            };
                            let uh = match first_index(ys@, hir::entry_undefined(io.fields@)) {
                                None => crate::diagnostic::nothing(),
                                Some(j) => Some(
                                    seq![hir::undefined_view(ys@[j].0@, ys@[j].1.loc, crate::types::def_name(def))],
                                ),
                            };
                            assert(kinds(ua->0) =~= kinds(uh->0));
                            lemma_followed_by_kinds(
                                ua,
                                document::fields_diags(fuel, schema, a, io.fields@, io.fields@.len(), vda),
                                uh,
                                hir::fields_diags(fuel, schema, h, io.fields@, io.fields@.len(), vdh),
                            );
                        },
                        _ => {},
                    }
                },
                _ => {},
            }
        },
    }
    assert(kinds(da) =~= kinds(dh));
}

proof fn lemma_agree_list(
    fuel: nat,
    schema: Schema,
    tya: DeclaredType,
    a: document::Node,
    vda: Seq<document::VariableDefinition>,
    tyh: DeclaredType,
    h: hir::Value,
    vdh: Seq<hir::VariableDefinition>,
    n: nat,
)
    requires
        tya.ty == tyh.ty,
        values_correspond(a, h),
        a.value is List,
        h.data is List,
        n <= a.value->List_0@.len(),
        var_defs_correspond(vda, vdh),
        document::list_diags(fuel, schema, tya, a, n, vda) is Some,
        hir::list_diags(fuel, schema, tyh, h, n, vdh) is Some,
    ensures
        kinds(document::list_diags(fuel, schema, tya, a, n, vda)->0) == kinds(
            hir::list_diags(fuel, schema, tyh, h, n, vdh)->0,
        ),
    decreases fuel, a, 0nat, n,
{
    if n > 0 {
        let xs = a.value->List_0@;
        let ys = h.data->List_0@;
        assert(values_correspond(xs[n - 1], ys[n - 1]));
        lemma_agree_list(fuel, schema, tya, a, vda, tyh, h, vdh, (n - 1) as nat);
        lemma_agree(fuel, schema, tya, xs[n - 1], vda, tyh, ys[n - 1], vdh);
        lemma_followed_by_kinds(
            document::list_diags(fuel, schema, tya, a, (n - 1) as nat, vda),
            document::diags(fuel, schema, tya, xs[n - 1], vda),
            hir::list_diags(fuel, schema, tyh, h, (n - 1) as nat, vdh),
            hir::diags(fuel, schema, tyh, ys[n - 1], vdh),
        );
    }
}

proof fn lemma_agree_fields(
    fuel: nat,
    schema: Schema,
    a: document::Node,
    vda: Seq<document::VariableDefinition>,
    h: hir::Value,
    vdh: Seq<hir::VariableDefinition>,
    fields: Seq<InputField>,
    k: nat,
)
    requires
        values_correspond(a, h),
        a.value is Object,
        h.data is Object,
        k <= fields.len(),
        var_defs_correspond(vda, vdh),
        document::fields_diags(fuel, schema, a, fields, k, vda) is Some,
        hir::fields_diags(fuel, schema, h, fields, k, vdh) is Some,
    ensures
        kinds(document::fields_diags(fuel, schema, a, fields, k, vda)->0) == kinds(
            hir::fields_diags(fuel, schema, h, fields, k, vdh)->0,
        ),
    decreases fuel, a, 0nat, k,
{
    if k > 0 {
        let xs = a.value->Object_0@;
        let ys = h.data->Object_0@;
        let f = fields[k - 1];
        lemma_agree_fields(fuel, schema, a, vda, h, vdh, fields, (k - 1) as nat);
        assert(document::is_missing(xs, f.name@) == hir::is_missing(ys, f.name@)) by {
            if !document::is_missing(xs, f.name@) {
                let j = choose|j: int| 0 <= j < xs.len() && #[trigger] xs[j].0.text@ == f.name@;
                assert(ys[j].0@ == f.name@);
            }
            if !hir::is_missing(ys, f.name@) {
                let j = choose|j: int| 0 <= j < ys.len() && #[trigger] ys[j].0@ == f.name@;
                assert(xs[j].0.text@ == f.name@);
            }
        }
        assert(document::is_null_given(xs, f.name@) == hir::is_null_given(ys, f.name@)) by {
            if document::is_null_given(xs, f.name@) {
                let j = choose|j: int|
                    0 <= j < xs.len() && #[trigger] xs[j].0.text@ == f.name@ && xs[j].1.value is Null;
                assert(ys[j].0@ == f.name@);
                assert(values_correspond(xs[j].1, ys[j].1));
            }
            if hir::is_null_given(ys, f.name@) {
                let j = choose|j: int|
                    0 <= j < ys.len() && #[trigger] ys[j].0@ == f.name@ && ys[j].1.data is Null;
                assert(xs[j].0.text@ == f.name@);
                assert(values_correspond(xs[j].1, ys[j].1));
            }
        }
        lemma_first_index_same(xs, document::entry_named(f.name@), ys, hir::entry_named(f.name@));
        let ra = if crate::types::spec_is_non_null(f.ty.ty) && !f.has_default && (document::is_missing(
            xs,
            f.name@,
        ) || document::is_null_given(xs, f.name@)) {
            crate::diagnostic::single(document::required_view(a, f))
        } else {
            crate::diagnostic::nothing()
        };
        let rh = if crate::types::spec_is_non_null(f.ty.ty) && !f.has_default && (hir::is_missing(
            ys,
            f.name@,
        ) || hir::is_null_given(ys, f.name@)) {
            Some(seq![hir::required_view(h, f)])
        } else {
            crate::diagnostic::nothing()
        };
        assert(kinds(ra->0) =~= kinds(rh->0));
        let ua = match first_index(xs, document::entry_named(f.name@)) {
            None => crate::diagnostic::nothing(),
            Some(j) => document::diags(fuel, schema, f.ty, xs[j].1, vda),
        };
        let uh = match first_index(ys, hir::entry_named(f.name@)) {
            None => crate::diagnostic::nothing(),
            Some(j) => hir::diags(fuel, schema, f.ty, ys[j].1, vdh),
        };
        match first_index(xs, document::entry_named(f.name@)) {
            None => {},
            Some(j) => {
                assert(values_correspond(xs[j].1, ys[j].1));
                lemma_agree(fuel, schema, f.ty, xs[j].1, vda, f.ty, ys[j].1, vdh);
            },
        }
        lemma_followed_by_kinds(
            document::fields_diags(fuel, schema, a, fields, (k - 1) as nat, vda),
            ra,
            hir::fields_diags(fuel, schema, h, fields, (k - 1) as nat, vdh),
            rh,
        );
        lemma_followed_by_kinds(
            crate::diagnostic::followed_by(
                document::fields_diags(fuel, schema, a, fields, (k - 1) as nat, vda),
                ra,
            ),
            ua,
            crate::diagnostic::followed_by(hir::fields_diags(fuel, schema, h, fields, (k - 1) as nat, vdh), rh),
            uh,
        );
    }
}

/// The two validators agree: where a syntax-level value and the resolved
/// value it becomes are checked against the same type, with variables
/// declared alike, and both checks complete, they report the same kinds of
/// diagnostics in the same order (the texts differ: the syntax-level one
/// names the whole declared type, the resolved one its named type).
pub proof fn law_validators_agree(
    schema: Schema,
    tya: DeclaredType,
    a: document::Node,
    vda: Seq<document::VariableDefinition>,
    tyh: DeclaredType,
    h: hir::Value,
    vdh: Seq<hir::VariableDefinition>,
)
    requires
        tya.ty == tyh.ty,
        values_correspond(a, h),
        var_defs_correspond(vda, vdh),
        document::completes(schema, tya, a, vda),
        hir::completes(schema, tyh, h, vdh),
    ensures
        kinds(document::value_diagnostics(schema, tya, a, vda)) == kinds(
            hir::value_diagnostics(schema, tyh, h, vdh),
        ),
{
    let f1 = choose|f: nat| #[trigger] document::diags(f, schema, tya, a, vda) is Some;
    let f2 = choose|f: nat| #[trigger] hir::diags(f, schema, tyh, h, vdh) is Some;
    let f = if f1 <= f2 { f2 } else { f1 };
    document::lemma_diags_fuel(f1, f, schema, tya, a, vda);
    hir::lemma_diags_fuel(f2, f, schema, tyh, h, vdh);
    document::lemma_value_diagnostics(f, schema, tya, a, vda);
    hir::lemma_value_diagnostics(f, schema, tyh, h, vdh);
    lemma_agree(f, schema, tya, a, vda, tyh, h, vdh);
}

} // verus!
