use apollo_values::int_literal::parses_as_i32_text;

#[test]
fn i32_bounds() {
    assert!(parses_as_i32_text("2147483647"));
    assert!(!parses_as_i32_text("2147483648"));
    assert!(parses_as_i32_text("-2147483648"));
    assert!(!parses_as_i32_text("-2147483649"));
    assert!(!parses_as_i32_text("100000000000000000000000"));
}

#[test]
fn signs_and_digits() {
    assert!(parses_as_i32_text("+5"));
    assert!(parses_as_i32_text("007"));
    assert!(parses_as_i32_text("-0"));
    assert!(!parses_as_i32_text(""));
    assert!(!parses_as_i32_text("-"));
    assert!(!parses_as_i32_text("+"));
    assert!(!parses_as_i32_text("12a"));
    assert!(!parses_as_i32_text("1.0"));
    assert!(!parses_as_i32_text(" 1"));
    for s in ["0", "-17", "2147483647", "x", "99999999999", "+-1"] {
        assert_eq!(parses_as_i32_text(s), s.parse::<i32>().is_ok());
    }
}
