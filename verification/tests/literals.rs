use minilang::text::eval_int_literal;

#[test]
fn plain_digits_convert() {
    assert_eq!(eval_int_literal("0"), Some(0));
    assert_eq!(eval_int_literal("5"), Some(5));
    assert_eq!(eval_int_literal("123"), Some(123));
    assert_eq!(eval_int_literal("007"), Some(7));
}

#[test]
fn signs_are_honoured() {
    assert_eq!(eval_int_literal("+7"), Some(7));
    assert_eq!(eval_int_literal("-7"), Some(-7));
    assert_eq!(eval_int_literal("-0"), Some(0));
}

#[test]
fn the_32_bit_bounds_are_exact() {
    assert_eq!(eval_int_literal("2147483647"), Some(i32::MAX));
    assert_eq!(eval_int_literal("2147483648"), None);
    assert_eq!(eval_int_literal("-2147483648"), Some(i32::MIN));
    assert_eq!(eval_int_literal("-2147483649"), None);
    assert_eq!(eval_int_literal("99999999999999999999"), None);
}

#[test]
fn malformed_text_is_rejected() {
    assert_eq!(eval_int_literal(""), None);
    assert_eq!(eval_int_literal("+"), None);
    assert_eq!(eval_int_literal("-"), None);
    assert_eq!(eval_int_literal("12x"), None);
    assert_eq!(eval_int_literal("x12"), None);
    assert_eq!(eval_int_literal("1 2"), None);
    assert_eq!(eval_int_literal("--1"), None);
}
