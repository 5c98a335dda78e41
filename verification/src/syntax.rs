//! Where a declared type is written: found in the concrete syntax tree that
//! `apollo_parser` builds for a document, so that a diagnostic naming the
//! type points at the whole type node.

use vstd::prelude::*;
use vstd::string::StringSliceAdditionalSpecFns;
use apollo_parser::cst::{self, CstNode};
use apollo_parser::{Parser, TextRange};
use crate::diagnostic::Location;
use crate::types::{DeclaredType, Type};

verus! {

/// The end offset of the root of the syntax tree that `apollo_parser`
/// parses from `source`.
pub uninterp spec fn parsed_end(source: Seq<char>) -> u32;

/// In the syntax tree that `apollo_parser` parses from `source`, the text
/// range of the innermost `Type` node among the ancestors of the smallest
/// element that covers `start..end`, if there is one.
pub uninterp spec fn type_node_range(source: Seq<char>, start: u32, end: u32) -> Option<(u32, u32)>;

/// Parses `source` with `apollo_parser::Parser::parse` and gives the end of
/// the document root's text range; the contract claims only that the result
/// is a function of the text. The syntax tree measures text in `u32`, and
/// panics on a text longer than that, hence the precondition.
#[verifier::external_body]
fn document_end(source: &str) -> (end: u32)
    requires
        source.spec_bytes().len() < u32::MAX,
    ensures
        end == parsed_end(source@),
{
    u32::from(Parser::new(source).parse().document().syntax().text_range().end())
}

/// Parses `source` with `apollo_parser::Parser::parse`, takes the smallest
/// element covering `start..end` (rowan's `covering_element`, which panics on
/// a range outside the root, hence the precondition; the tree also needs a
/// text shorter than `u32::MAX` bytes) and gives the range of
/// the first of its ancestors that casts to `apollo_parser::cst::Type`; the
/// contract claims only that the result is a function of its arguments.
#[verifier::external_body]
fn covering_type_range(source: &str, start: u32, end: u32) -> (r: Option<(u32, u32)>)
    requires
        source.spec_bytes().len() < u32::MAX,
        start <= end <= parsed_end(source@),
    ensures
        r == type_node_range(source@, start, end),
{
    let tree = Parser::new(source).parse();
    let range = TextRange::new(start.into(), end.into());
    let element = tree.document().syntax().covering_element(range);
    let found = element.ancestors().find_map(cst::Type::cast)?;
    let found_range = found.syntax().text_range();
    Some((u32::from(found_range.start()), u32::from(found_range.end())))
}

/// Where the type whose inner named type is written at `named_type` lies in
/// `source`, if `source` has a type node there; none for a text of
/// `u32::MAX` bytes or more, which the syntax tree cannot measure.
pub open spec fn type_location(source: &str, named_type: Location) -> Option<Location> {
    if source.spec_bytes().len() >= u32::MAX {
        None
    } else if named_type.start <= named_type.end <= parsed_end(source@) {
        match type_node_range(source@, named_type.start, named_type.end) {
            Some((start, end)) => Some(Location { file_id: named_type.file_id, start, end }),
            None => None,
        }
    } else {
        None
    }
}

/// Finds where the type whose inner named type is written at `named_type`
/// lies in `source`: the range of the type node of the syntax tree there.
pub fn lookup_type_location(source: &str, named_type: Location) -> (r: Option<Location>)
    ensures
        r == type_location(source, named_type),
{
    if source.as_bytes().len() >= 4294967295usize {
        return None;
    }
    if named_type.start > named_type.end || named_type.end > document_end(source) {
        return None;
    }
    match covering_type_range(source, named_type.start, named_type.end) {
        Some((start, end)) => Some(Location { file_id: named_type.file_id, start, end }),
        None => None,
    }
}

/// The declared type `ty` of a document, whose diagnostics point at the
/// type node that `source` has where its inner named type is written; they
/// have no place to point at where that is unknown.
pub fn declared_type(source: &str, ty: Type, named_type: Option<Location>) -> (d: DeclaredType)
    ensures
        d.ty == ty,
        d.location == match named_type {
            Some(l) => type_location(source, l),
            None => None,
        },
{
    let location = match named_type {
        Some(l) => lookup_type_location(source, l),
        None => None,
    };
    DeclaredType { ty, location }
}

} // verus!
