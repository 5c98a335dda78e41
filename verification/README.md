# apollo_values

Verified validation of GraphQL input values against the types a schema
declares for them, written in Verus.

- `src/types.rs`: declared types (`[Int!]!` and the like), the schema model
  (scalars, enums, input objects) and lookups in it.
- `src/diagnostic.rs`: diagnostics, their labels, and their mathematical views.
- `src/int_literal.rs`: whether an integer literal fits in `i32`.
- `src/syntax.rs`: where a declared type is written, found in the concrete
  syntax tree that `apollo_parser` builds (behind two trusted wrappers).
- `src/document.rs`: validation of syntax-level values (`Int` and `BigInt`
  literals, optional locations); `validate_values2`, `value_of_correct_type2`.
- `src/hir.rs`: validation of resolved values (every value located);
  `validate_values`, `value_of_correct_type`.
- `src/document_laws.rs`, `src/hir_laws.rs`: what the validators promise as a
  whole, proved: which literals each built-in scalar accepts, enum, null,
  list, input-object and variable rules, and independence from how deep
  variables are followed.
- `src/agreement.rs`: the two validators report the same kinds of
  diagnostics, in the same order, for a value and its resolved form.
- `app/`: a thin entry point that resolves a declared type's place in the
  document's source and calls the validator.

The schema model keeps, as a checked invariant (`schema_wf`), what the
compiler's maps guarantee: nothing is named twice. Each validator states its
result exactly: the diagnostics it appends are
those of a recursive specification over the value, in order. Its one
precondition is that checking completes: following variables to their
default values comes to an end, and no diagnostic is due at a place that is
not known.

`completes_within` decides, for a given bound on variable steps, whether
checking completes, and `try_validate_values2` / `try_validate_values` use it
to validate without any precondition, returning `None` where they cannot.
