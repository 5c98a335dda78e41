//! Declared types and the part of a schema that value validation reads.

use vstd::prelude::*;
use vstd::string::StringExecFns;
use crate::diagnostic::Location;

verus! {

/// A GraphQL type reference as written in a declaration.
#[derive(Debug)]
pub enum Type {
    /// `Name`
    Named(String),
    /// `Name!`
    NonNullNamed(String),
    /// `[T]`
    List(Box<Type>),
    /// `[T]!`
    NonNullList(Box<Type>),
}

/// A type reference together with the place a diagnostic points at when it
/// names the declared type; `None` where no such place is known.
#[derive(Debug)]
pub struct DeclaredType {
    pub ty: Type,
    pub location: Option<Location>,
}

/// The name of the named type innermost in `t`.
pub open spec fn inner_name(t: Type) -> Seq<char>
    decreases t,
{
    match t {
        Type::Named(n) => n@,
        Type::NonNullNamed(n) => n@,
        Type::List(inner) => inner_name(*inner),
        Type::NonNullList(inner) => inner_name(*inner),
    }
}

/// Whether `t` is a non-null type.
pub open spec fn spec_is_non_null(t: Type) -> bool {
    t is NonNullNamed || t is NonNullList
}

/// The text of `t` in GraphQL syntax, such as `[Int!]!`.
pub open spec fn type_text(t: Type) -> Seq<char>
    decreases t,
{
    match t {
        Type::Named(n) => n@,
        Type::NonNullNamed(n) => n@ + "!"@,
        Type::List(inner) => "["@ + type_text(*inner) + "]"@,
        Type::NonNullList(inner) => "["@ + type_text(*inner) + "]!"@,
    }
}

impl Type {
    /// The name of the named type innermost in this type.
    pub fn inner_named_type(&self) -> (n: &String)
        ensures
            n@ == inner_name(*self),
        decreases self,
    {
        match self {
            Type::Named(n) => n,
            Type::NonNullNamed(n) => n,
            Type::List(inner) => inner.inner_named_type(),
            Type::NonNullList(inner) => inner.inner_named_type(),
        }
    }

    /// Whether this is a non-null type.
    pub fn is_non_null(&self) -> (b: bool)
        ensures
            b == spec_is_non_null(*self),
    {
        match self {
            Type::NonNullNamed(_) | Type::NonNullList(_) => true,
            _ => false,
        }
    }

    /// Appends the GraphQL text of this type to `out`.
    fn write_text(&self, out: &mut String)
        ensures
            final(out)@ == old(out)@ + type_text(*self),
        decreases self,
    {
        match self {
            Type::Named(n) => out.append(n.as_str()),
            Type::NonNullNamed(n) => {
                out.append(n.as_str());
                out.append("!");
            },
            Type::List(inner) => {
                out.append("[");
                inner.write_text(out);
                out.append("]");
            },
            Type::NonNullList(inner) => {
                out.append("[");
                inner.write_text(out);
                out.append("]!");
            },
        }
    }

    /// The GraphQL text of this type, such as `[Int!]!`.
    pub fn to_text(&self) -> (s: String)
        ensures
            s@ == type_text(*self),
    {
        let mut s = String::new();
        self.write_text(&mut s);
        s
    }
}

/// A scalar type; the built-in ones are `Int`, `Float`, `String`, `Boolean`
/// and `ID`.
#[derive(Clone, Debug)]
pub struct ScalarType {
    pub name: String,
    pub built_in: bool,
}

/// An enum type and the names of its values.
#[derive(Clone, Debug)]
pub struct EnumType {
    pub name: String,
    pub values: Vec<String>,
}

/// A field of an input-object type.
#[derive(Debug)]
pub struct InputField {
    pub name: String,
    pub ty: DeclaredType,
    /// Whether the field declares a default value.
    pub has_default: bool,
    /// Where the field is defined, if known.
    pub location: Option<Location>,
}

/// An input-object type and its fields, in declaration order.
#[derive(Debug)]
pub struct InputObjectType {
    pub name: String,
    pub fields: Vec<InputField>,
}

/// A type definition of a schema; object, interface and union types are
/// kept by name only, since no input value can have them.
#[derive(Debug)]
pub enum TypeDefinition {
    Scalar(ScalarType),
    Object(String),
    Interface(String),
    Union(String),
    Enum(EnumType),
    InputObject(InputObjectType),
}

/// The name that a type definition defines.
pub open spec fn def_name(d: TypeDefinition) -> Seq<char> {
    match d {
        TypeDefinition::Scalar(s) => s.name@,
        TypeDefinition::Object(n) => n@,
        TypeDefinition::Interface(n) => n@,
        TypeDefinition::Union(n) => n@,
        TypeDefinition::Enum(e) => e.name@,
        TypeDefinition::InputObject(o) => o.name@,
    }
}

impl TypeDefinition {
    /// The name that this definition defines.
    pub fn name(&self) -> (n: &String)
        ensures
            n@ == def_name(*self),
    {
        match self {
            TypeDefinition::Scalar(s) => &s.name,
            TypeDefinition::Object(n) => n,
            TypeDefinition::Interface(n) => n,
            TypeDefinition::Union(n) => n,
            TypeDefinition::Enum(e) => &e.name,
            TypeDefinition::InputObject(o) => &o.name,
        }
    }
}

/// The type definitions of a schema, in order.
#[derive(Debug)]
pub struct Schema {
    pub types: Vec<TypeDefinition>,
}

/// Whether no two of `names` are the same text.
pub open spec fn distinct_texts(names: Seq<Seq<char>>) -> bool {
    forall|i: int, j: int| 0 <= i < j < names.len() ==> #[trigger] names[i] != #[trigger] names[j]
}

/// The names of the enum values, in order.
pub open spec fn value_names(values: Seq<String>) -> Seq<Seq<char>> {
    values.map_values(|v: String| v@)
}

/// The names of input-object fields, in order.
pub open spec fn field_names(fields: Seq<InputField>) -> Seq<Seq<char>> {
    fields.map_values(|f: InputField| f.name@)
}

/// The names that a sequence of type definitions defines, in order.
pub open spec fn def_names(defs: Seq<TypeDefinition>) -> Seq<Seq<char>> {
    defs.map_values(|d: TypeDefinition| def_name(d))
}

/// Whether a definition names each of its enum values or fields once.
pub open spec fn def_wf(d: TypeDefinition) -> bool {
    match d {
        TypeDefinition::Enum(e) => distinct_texts(value_names(e.values@)),
        TypeDefinition::InputObject(o) => distinct_texts(field_names(o.fields@)),
        _ => true,
    }
}

/// What a compiler's schema guarantees, since it keeps types, enum values
/// and input fields in maps keyed by name: no type is defined twice, and no
/// enum value or input field is named twice in its type.
pub open spec fn schema_wf(schema: Schema) -> bool {
    &&& distinct_texts(def_names(schema.types@))
    &&& forall|i: int| 0 <= i < schema.types@.len() ==> def_wf(#[trigger] schema.types@[i])
}

/// Whether no two of `names` are the same text.
fn texts_distinct(names: &Vec<String>) -> (r: bool)
    ensures
        r == distinct_texts(value_names(names@)),
{
    let ghost view = value_names(names@);
    let mut i: usize = 0;
    while i < names.len()
        invariant
            i <= names@.len(),
            view == value_names(names@),
            forall|a: int, b: int| 0 <= a < b < names@.len() && a < i ==> #[trigger] view[a] != #[trigger] view[b],
        decreases names.len() - i,
    {
        let mut j: usize = i + 1;
        while j < names.len()
            invariant
                i < j <= names@.len(),
                i < names@.len(),
                view == value_names(names@),
                forall|a: int, b: int| 0 <= a < b < names@.len() && a < i ==> #[trigger] view[a] != #[trigger] view[b],
                forall|b: int| i < b < j ==> view[i as int] != #[trigger] view[b],
            decreases names.len() - j,
        {
            if names[i] == names[j] {
                assert(view[i as int] == view[j as int]);
                return false;
            }
            j = j + 1;
        }
        i = i + 1;
    }
    true
}

/// Whether no two input fields have the same name.
fn fields_distinct(fields: &Vec<InputField>) -> (r: bool)
    ensures
        r == distinct_texts(field_names(fields@)),
{
    let ghost view = field_names(fields@);
    let mut i: usize = 0;
    while i < fields.len()
        invariant
            i <= fields@.len(),
            view == field_names(fields@),
            forall|a: int, b: int| 0 <= a < b < fields@.len() && a < i ==> #[trigger] view[a] != #[trigger] view[b],
        decreases fields.len() - i,
    {
        let mut j: usize = i + 1;
        while j < fields.len()
            invariant
                i < j <= fields@.len(),
                i < fields@.len(),
                view == field_names(fields@),
                forall|a: int, b: int| 0 <= a < b < fields@.len() && a < i ==> #[trigger] view[a] != #[trigger] view[b],
                forall|b: int| i < b < j ==> view[i as int] != #[trigger] view[b],
            decreases fields.len() - j,
        {
            if fields[i].name == fields[j].name {
                assert(view[i as int] == view[j as int]);
                return false;
            }
            j = j + 1;
        }
        i = i + 1;
    }
    true
}

/// Whether no two definitions define the same name.
fn defs_distinct(defs: &Vec<TypeDefinition>) -> (r: bool)
    ensures
        r == distinct_texts(def_names(defs@)),
{
    let ghost view = def_names(defs@);
    let mut i: usize = 0;
    while i < defs.len()
        invariant
            i <= defs@.len(),
            view == def_names(defs@),
            forall|a: int, b: int| 0 <= a < b < defs@.len() && a < i ==> #[trigger] view[a] != #[trigger] view[b],
        decreases defs.len() - i,
    {
        let mut j: usize = i + 1;
        while j < defs.len()
            invariant
                i < j <= defs@.len(),
                i < defs@.len(),
                view == def_names(defs@),
                forall|a: int, b: int| 0 <= a < b < defs@.len() && a < i ==> #[trigger] view[a] != #[trigger] view[b],
                forall|b: int| i < b < j ==> view[i as int] != #[trigger] view[b],
            decreases defs.len() - j,
        {
            if *defs[i].name() == *defs[j].name() {
                assert(view[i as int] == view[j as int]);
                return false;
            }
            j = j + 1;
        }
        i = i + 1;
    }
    true
}

/// What validation reads of the compiler's database: the schema.
#[derive(Debug)]
pub struct Database {
    pub schema: Schema,
}

/// The first definition in `defs` that defines `name`.
pub open spec fn lookup_type(defs: Seq<TypeDefinition>, name: Seq<char>) -> Option<TypeDefinition>
    decreases defs.len(),
{
    if defs.len() == 0 {
        None
    } else if def_name(defs[0]) == name {
        Some(defs[0])
    } else {
        lookup_type(defs.drop_first(), name)
    }
}

/// The definition that `lookup_type` finds defines the name looked up.
pub proof fn lemma_lookup_type_name(defs: Seq<TypeDefinition>, name: Seq<char>)
    requires
        lookup_type(defs, name) is Some,
    ensures
        def_name(lookup_type(defs, name)->0) == name,
    decreases defs.len(),
{
    if defs.len() > 0 && def_name(defs[0]) != name {
        lemma_lookup_type_name(defs.drop_first(), name);
    }
}

/// The index of the first element of `s` that satisfies `p`, if any.
pub open spec fn first_index<T>(s: Seq<T>, p: spec_fn(T) -> bool) -> Option<int> {
    if exists|i: int| is_first(s, p, i) {
        Some(choose|i: int| is_first(s, p, i))
    } else {
        None
    }
}

/// Whether `s[i]` is the first element of `s` that satisfies `p`.
pub open spec fn is_first<T>(s: Seq<T>, p: spec_fn(T) -> bool, i: int) -> bool {
    &&& 0 <= i < s.len()
    &&& p(s[i])
    &&& forall|j: int| 0 <= j < i ==> !p(#[trigger] s[j])
}

/// The first satisfying element is the one that `first_index` names.
pub proof fn lemma_first_index_found<T>(s: Seq<T>, p: spec_fn(T) -> bool, i: int)
    requires
        is_first(s, p, i),
    ensures
        first_index(s, p) == Some(i),
{
    let k = choose|k: int| is_first(s, p, k);
    assert(is_first(s, p, k));
    if k < i {
        assert(!p(s[k]));
    } else if i < k {
        assert(!p(s[i]));
    }
}

/// Where no element satisfies `p`, `first_index` finds none.
pub proof fn lemma_first_index_none<T>(s: Seq<T>, p: spec_fn(T) -> bool)
    requires
        forall|j: int| 0 <= j < s.len() ==> !p(#[trigger] s[j]),
    ensures
        first_index(s, p) is None,
{
    if exists|i: int| is_first(s, p, i) {
        let k = choose|i: int| is_first(s, p, i);
        assert(p(s[k]));
    }
}

/// Two sequences whose elements satisfy their predicates at the same
/// places have their first satisfying element at the same place.
pub proof fn lemma_first_index_same<A, B>(
    sa: Seq<A>,
    pa: spec_fn(A) -> bool,
    sb: Seq<B>,
    pb: spec_fn(B) -> bool,
)
    requires
        sa.len() == sb.len(),
        forall|i: int| 0 <= i < sa.len() ==> pa(#[trigger] sa[i]) == pb(sb[i]),
    ensures
        first_index(sa, pa) == first_index(sb, pb),
{
    if exists|i: int| is_first(sa, pa, i) {
        let i = choose|i: int| is_first(sa, pa, i);
        assert forall|j: int| 0 <= j < i implies !pb(#[trigger] sb[j]) by {
            assert(!pa(sa[j]));
        }
        assert(pa(sa[i]));
        lemma_first_index_found(sa, pa, i);
        lemma_first_index_found(sb, pb, i);
    } else {
        assert forall|j: int| 0 <= j < sa.len() implies !pa(#[trigger] sa[j]) by {
            if pa(sa[j]) {
                let k = first_smallest(sa, pa, j);
            }
        }
        assert forall|j: int| 0 <= j < sb.len() implies !pb(#[trigger] sb[j]) by {
            assert(!pa(sa[j]));
        }
        lemma_first_index_none(sa, pa);
        lemma_first_index_none(sb, pb);
    }
}

/// `first_index` finds nothing exactly where no element satisfies `p`.
pub proof fn lemma_first_index_none_iff<T>(s: Seq<T>, p: spec_fn(T) -> bool)
    ensures
        first_index(s, p) is None <==> forall|j: int| 0 <= j < s.len() ==> !p(#[trigger] s[j]),
{
    if forall|j: int| 0 <= j < s.len() ==> !p(#[trigger] s[j]) {
        lemma_first_index_none(s, p);
    } else {
        let j = choose|j: int| 0 <= j < s.len() && p(#[trigger] s[j]);
        let k = first_smallest(s, p, j);
        lemma_first_index_found(s, p, k);
    }
}

/// Where some element up to `j` satisfies `p`, one of them comes first.
proof fn first_smallest<A>(s: Seq<A>, p: spec_fn(A) -> bool, j: int) -> (k: int)
    requires
        0 <= j < s.len(),
        p(s[j]),
    ensures
        is_first(s, p, k),
    decreases j,
{
    if exists|m: int| 0 <= m < j && p(#[trigger] s[m]) {
        let m = choose|m: int| 0 <= m < j && p(#[trigger] s[m]);
        first_smallest(s, p, m)
    } else {
        j
    }
}

/// Whether an input-object type defines a field named `name`.
pub open spec fn defines_field(fields: Seq<InputField>, name: Seq<char>) -> bool {
    exists|i: int| 0 <= i < fields.len() && #[trigger] fields[i].name@ == name
}

/// Whether the enum type defines the value `name`.
pub open spec fn enum_defines(values: Seq<String>, name: Seq<char>) -> bool {
    exists|i: int| 0 <= i < values.len() && #[trigger] values[i]@ == name
}

/// Whether an input-object type defines a field named `name`.
pub fn has_field(fields: &Vec<InputField>, name: &String) -> (r: bool)
    ensures
        r == defines_field(fields@, name@),
{
    let mut i: usize = 0;
    while i < fields.len()
        invariant
            i <= fields@.len(),
            forall|j: int| 0 <= j < i ==> #[trigger] fields@[j].name@ != name@,
        decreases fields.len() - i,
    {
        if fields[i].name == *name {
            return true;
        }
        i = i + 1;
    }
    false
}

/// Whether the enum type defines the value `name`.
pub fn enum_has(values: &Vec<String>, name: &String) -> (r: bool)
    ensures
        r == enum_defines(values@, name@),
{
    let mut i: usize = 0;
    while i < values.len()
        invariant
            i <= values@.len(),
            forall|j: int| 0 <= j < i ==> #[trigger] values@[j]@ != name@,
        decreases values.len() - i,
    {
        if values[i] == *name {
            return true;
        }
        i = i + 1;
    }
    false
}

/// Whether two texts are equal.
pub fn text_eq(a: &String, b: &str) -> (r: bool)
    ensures
        r == (a@ == b@),
{
    let owned = String::from_str(b);
    *a == owned
}

impl Schema {
    /// Whether the schema names each type, and in each type each enum value
    /// and input field, only once.
    pub fn is_well_formed(&self) -> (r: bool)
        ensures
            r == schema_wf(*self),
    {
        if !defs_distinct(&self.types) {
            return false;
        }
        let mut i: usize = 0;
        while i < self.types.len()
            invariant
                i <= self.types@.len(),
                forall|k: int| 0 <= k < i ==> def_wf(#[trigger] self.types@[k]),
            decreases self.types.len() - i,
        {
            let ok = match &self.types[i] {
                TypeDefinition::Enum(e) => texts_distinct(&e.values),
                TypeDefinition::InputObject(o) => fields_distinct(&o.fields),
                _ => true,
            };
            if !ok {
                return false;
            }
            i = i + 1;
        }
        true
    }

    /// The definition of the type named `name`, if the schema has one.
    pub fn get(&self, name: &String) -> (r: Option<&TypeDefinition>)
        ensures
            r matches Some(d) ==> lookup_type(self.types@, name@) == Some(*d),
            r is None ==> lookup_type(self.types@, name@) is None,
    {
        let mut i: usize = 0;
        assert(self.types@.skip(0) =~= self.types@);
        while i < self.types.len()
            invariant
                i <= self.types@.len(),
                lookup_type(self.types@, name@) == lookup_type(self.types@.skip(i as int), name@),
            decreases self.types.len() - i,
        {
            let ghost rest = self.types@.skip(i as int);
            assert(rest.drop_first() =~= self.types@.skip(i + 1));
            assert(rest[0] == self.types@[i as int]);
            if *self.types[i].name() == *name {
                return Some(&self.types[i]);
            }
            i = i + 1;
        }
        None
    }
}

} // verus!
