use apollo_values::diagnostic::Location;
use apollo_values::syntax::{declared_type, lookup_type_location};
use apollo_values::types::Type;

const SOURCE: &str = "query Q($a: [Int!], $b: Color) { f(x: $a) }";

fn at(start: usize, end: usize) -> Location {
    Location { file_id: 3, start: start as u32, end: end as u32 }
}

#[test]
fn part_of_a_type_name_resolves_to_the_named_type_node() {
    let int = SOURCE.find("Int").unwrap();
    let r = lookup_type_location(SOURCE, at(int, int + 2));
    assert_eq!(r, Some(at(int, int + 3)));
}

#[test]
fn named_type_resolves_to_itself() {
    let color = SOURCE.find("Color").unwrap();
    assert_eq!(lookup_type_location(SOURCE, at(color, color + 5)), Some(at(color, color + 5)));
}

#[test]
fn list_brackets_resolve_to_the_list_type() {
    let open = SOURCE.find('[').unwrap();
    let close = SOURCE.find(']').unwrap();
    assert_eq!(lookup_type_location(SOURCE, at(open, open + 1)), Some(at(open, close + 1)));
}

#[test]
fn no_type_node_or_bad_range_gives_none() {
    assert_eq!(lookup_type_location(SOURCE, at(0, 5)), None);
    assert_eq!(lookup_type_location(SOURCE, at(3, 2)), None);
    assert_eq!(lookup_type_location(SOURCE, at(0, SOURCE.len() + 10)), None);
}

#[test]
fn declared_type_keeps_the_type_and_resolves_its_place() {
    let int = SOURCE.find("Int").unwrap();
    let d = declared_type(SOURCE, Type::NonNullNamed("Int".to_string()), Some(at(int, int + 3)));
    assert_eq!(d.ty.to_text(), "Int!");
    assert_eq!(d.location, Some(at(int, int + 3)));
    let none = declared_type(SOURCE, Type::Named("Int".to_string()), None);
    assert_eq!(none.location, None);
}
