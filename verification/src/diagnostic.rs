//! Diagnostics reported by value validation.

use vstd::prelude::*;
use vstd::string::StringExecFns;

verus! {

/// A span of source text: the file it belongs to and a byte range in it.
#[derive(Clone, Copy, Debug, PartialEq, Eq, Structural)]
pub struct Location {
    pub file_id: u64,
    pub start: u32,
    pub end: u32,
}

/// What went wrong, with the names and texts that describe it.
#[derive(Clone, Debug)]
pub enum DiagnosticData {
    /// A value of kind `value` was given where type `ty` is expected.
    UnsupportedValueType { value: String, ty: String },
    /// An integer literal does not fit in a 32-bit signed integer.
    IntCoercionError { value: String },
    /// `value` names no value or field of the type `definition`.
    UndefinedValue { value: String, definition: String },
    /// The required field or argument `name` has no value.
    RequiredArgument { name: String },
}

/// A message attached to a place in the source.
#[derive(Clone, Debug)]
pub struct Label {
    pub location: Location,
    pub text: String,
}

/// One problem found in a value, where it is, and the labels that explain it.
#[derive(Clone, Debug)]
pub struct Diagnostic {
    pub location: Location,
    pub data: DiagnosticData,
    pub labels: Vec<Label>,
}

/// The mathematical content of a [`DiagnosticData`].
pub enum DataView {
    UnsupportedValueType { value: Seq<char>, ty: Seq<char> },
    IntCoercionError { value: Seq<char> },
    UndefinedValue { value: Seq<char>, definition: Seq<char> },
    RequiredArgument { name: Seq<char> },
}

/// The mathematical content of a [`Label`].
pub struct LabelView {
    pub location: Location,
    pub text: Seq<char>,
}

/// The mathematical content of a [`Diagnostic`].
pub struct DiagnosticView {
    pub location: Location,
    pub data: DataView,
    pub labels: Seq<LabelView>,
}

impl View for DiagnosticData {
    type V = DataView;

    open spec fn view(&self) -> DataView {
        match self {
            DiagnosticData::UnsupportedValueType { value, ty } => DataView::UnsupportedValueType {
                value: value@,
                ty: ty@,
            },
            DiagnosticData::IntCoercionError { value } => DataView::IntCoercionError {
                value: value@,
            },
            DiagnosticData::UndefinedValue { value, definition } => DataView::UndefinedValue {
                value: value@,
                definition: definition@,
            },
            DiagnosticData::RequiredArgument { name } => DataView::RequiredArgument { name: name@ },
        }
    }
}

impl View for Label {
    type V = LabelView;

    open spec fn view(&self) -> LabelView {
        LabelView { location: self.location, text: self.text@ }
    }
}

/// The views of a sequence of labels.
pub open spec fn label_views(labels: Seq<Label>) -> Seq<LabelView> {
    labels.map_values(|l: Label| l@)
}

impl View for Diagnostic {
    type V = DiagnosticView;

    open spec fn view(&self) -> DiagnosticView {
        DiagnosticView {
            location: self.location,
            data: self.data@,
            labels: label_views(self.labels@),
        }
    }
}

/// The views of a sequence of diagnostics.
pub open spec fn diagnostic_views(diagnostics: Seq<Diagnostic>) -> Seq<DiagnosticView> {
    diagnostics.map_values(|d: Diagnostic| d@)
}

/// Pushing a diagnostic pushes its view.
pub proof fn lemma_views_push(diagnostics: Seq<Diagnostic>, d: Diagnostic)
    ensures
        diagnostic_views(diagnostics.push(d)) == diagnostic_views(diagnostics).push(d@),
{
    assert(diagnostic_views(diagnostics.push(d)) =~= diagnostic_views(diagnostics).push(d@));
}

/// Appending nothing leaves a sequence of diagnostics as it is.
pub broadcast proof fn lemma_append_nothing(a: Seq<DiagnosticView>, b: Seq<DiagnosticView>)
    requires
        b.len() == 0,
    ensures
        #[trigger] (a + b) == a,
{
    assert(a + b =~= a);
}

/// Appends `d` to `diagnostics`.
pub fn push_diagnostic(diagnostics: &mut Vec<Diagnostic>, d: Diagnostic)
    ensures
        diagnostic_views(final(diagnostics)@) == diagnostic_views(old(diagnostics)@).push(d@),
{
    proof {
        lemma_views_push(diagnostics@, d);
    }
    diagnostics.push(d);
}

/// No diagnostic.
pub open spec fn nothing() -> Option<Seq<DiagnosticView>> {
    Some(Seq::empty())
}

/// The diagnostics of two checks made one after the other; `None` where
/// either fails.
pub open spec fn followed_by(
    a: Option<Seq<DiagnosticView>>,
    b: Option<Seq<DiagnosticView>>,
) -> Option<Seq<DiagnosticView>> {
    match (a, b) {
        (Some(x), Some(y)) => Some(x + y),
        _ => None,
    }
}

/// The one diagnostic `d`, or failure where it cannot be made.
pub open spec fn single(d: Option<DiagnosticView>) -> Option<Seq<DiagnosticView>> {
    match d {
        Some(x) => Some(seq![x]),
        None => None,
    }
}

/// Text of the label that points at a declared type.
pub open spec fn field_declared_text(ty: Seq<char>) -> Seq<char> {
    "field declared here as "@ + ty + " type"@
}

/// Text of the label that points at a value of the wrong kind.
pub open spec fn argument_kind_text(kind: Seq<char>) -> Seq<char> {
    "argument declared here is of "@ + kind + " type"@
}

/// Text of the label that points at an integer literal out of 32-bit range.
pub open spec fn int_coercion_text() -> Seq<char> {
    "cannot be coerced to an 32-bit integer"@
}

/// Text of the label that points at a name that a type does not define.
pub open spec fn does_not_exist_text(ty: Seq<char>) -> Seq<char> {
    "does not exist on `"@ + ty + "` type"@
}

/// Text of the label that points at an object that lacks a required field.
pub open spec fn missing_value_text(name: Seq<char>) -> Seq<char> {
    "missing value for argument `"@ + name + "`"@
}

/// Text of the label that points at where a required field is defined.
pub open spec fn defined_here_text() -> Seq<char> {
    "argument defined here"@
}

/// Concatenates three texts.
fn concat3(a: &str, b: &str, c: &str) -> (s: String)
    ensures
        s@ == a@ + b@ + c@,
{
    let mut s = String::from_str(a);
    s.append(b);
    s.append(c);
    s
}

/// The label `field declared here as {ty} type`.
pub fn field_declared_label(location: Location, ty: &str) -> (l: Label)
    ensures
        l@ == (LabelView { location, text: field_declared_text(ty@) }),
{
    Label { location, text: concat3("field declared here as ", ty, " type") }
}

/// The label `argument declared here is of {kind} type`.
pub fn argument_kind_label(location: Location, kind: &str) -> (l: Label)
    ensures
        l@ == (LabelView { location, text: argument_kind_text(kind@) }),
{
    Label { location, text: concat3("argument declared here is of ", kind, " type") }
}

/// The label `cannot be coerced to an 32-bit integer`.
pub fn int_coercion_label(location: Location) -> (l: Label)
    ensures
        l@ == (LabelView { location, text: int_coercion_text() }),
{
    Label { location, text: String::from_str("cannot be coerced to an 32-bit integer") }
}

/// The label ``does not exist on `{ty}` type``.
pub fn does_not_exist_label(location: Location, ty: &str) -> (l: Label)
    ensures
        l@ == (LabelView { location, text: does_not_exist_text(ty@) }),
{
    Label { location, text: concat3("does not exist on `", ty, "` type") }
}

/// The label ``missing value for argument `{name}` ``.
pub fn missing_value_label(location: Location, name: &str) -> (l: Label)
    ensures
        l@ == (LabelView { location, text: missing_value_text(name@) }),
{
    Label { location, text: concat3("missing value for argument `", name, "`") }
}

/// The label `argument defined here`.
pub fn defined_here_label(location: Location) -> (l: Label)
    ensures
        l@ == (LabelView { location, text: defined_here_text() }),
{
    Label { location, text: String::from_str("argument defined here") }
}

} // verus!
