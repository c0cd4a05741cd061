use case_converter::case::Case;
use case_converter::converter::convert;

const INPUT: &'static str =
    "word CammelCase Word cammelCase CAMMELCASE anotherOfThisKind snake_case _snake_case";

#[test]
fn cammel_to_snake() {
    let res = convert(INPUT, &["cammelCase"], Case::Snake).unwrap();
    assert_eq!(
        res,
        "word CammelCase Word cammel_case CAMMELCASE anotherOfThisKind snake_case _snake_case"
    );

    let res = convert(INPUT, &[".ammelCase"], Case::Snake).unwrap();
    assert_eq!(
        res,
        "word cammel_case Word cammel_case CAMMELCASE anotherOfThisKind snake_case _snake_case"
    );
}

#[test]
fn snake_to_cammel() {
    let res = convert(INPUT, &["snake_case"], Case::Camel).unwrap();
    assert_eq!(
        res,
        "word CammelCase Word cammelCase CAMMELCASE anotherOfThisKind snakeCase SnakeCase"
    );

    let res = convert(INPUT, &[r".snake_case"], Case::Camel).unwrap();
    assert_eq!(
        res,
        "word CammelCase Word cammelCase CAMMELCASE anotherOfThisKind snake_case SnakeCase"
    );
}

#[test]
fn only_exact_unit_converts_to_snake() {
    let res = convert(INPUT, &["cammelCase"], Case::Snake).unwrap();
    assert_eq!(
        res,
        "word CammelCase Word cammel_case CAMMELCASE anotherOfThisKind snake_case _snake_case"
    );
}

#[test]
fn substring_pattern_selects_several_units() {
    let res = convert(INPUT, &[".ammelCase"], Case::Snake).unwrap();
    assert_eq!(
        res,
        "word cammel_case Word cammel_case CAMMELCASE anotherOfThisKind snake_case _snake_case"
    );
}

#[test]
fn empty_pattern_list_changes_nothing() {
    let none: [&str; 0] = [];
    assert_eq!(convert(INPUT, &none, Case::Snake).unwrap(), INPUT);
    assert_eq!(convert(INPUT, &none, Case::Camel).unwrap(), INPUT);
}

#[test]
fn empty_input_gives_empty_output() {
    assert_eq!(convert("", &["a"], Case::Snake).unwrap(), "");
    assert_eq!(convert("", &["a"], Case::Camel).unwrap(), "");
}

#[test]
fn invalid_pattern_is_an_error() {
    let err = convert(INPUT, &["ok", "(unclosed"], Case::Snake).unwrap_err();
    assert!(err.message.contains("(unclosed"));
}

#[test]
fn any_of_several_patterns_selects() {
    let res = convert("fooBar bazQux keep_me", &["^foo", "Qux"], Case::Snake).unwrap();
    assert_eq!(res, "foo_bar baz_qux keep_me");
}

#[test]
fn whitespace_kept_in_matched_and_unmatched_units() {
    let res = convert("aB\tcD\n\neF ", &["B", "F"], Case::Snake).unwrap();
    assert_eq!(res, "a_b\tcD\n\ne_f ");
}

#[test]
fn unmatched_units_are_copied() {
    let res = convert("x_y  ab_cd\n", &["ab"], Case::Camel).unwrap();
    assert_eq!(res, "x_y  abCd\n");
}

#[test]
fn pattern_order_and_repetition_do_not_matter() {
    let a = convert(INPUT, &["^snake", "Kind"], Case::Snake).unwrap();
    let b = convert(INPUT, &["Kind", "^snake", "Kind"], Case::Snake).unwrap();
    assert_eq!(a, b);
    assert_eq!(
        a,
        "word CammelCase Word cammelCase CAMMELCASE another_of_this_kind snake_case _snake_case"
    );
}
