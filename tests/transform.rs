use case_converter::chars::{char_to_ascii_lowercase, char_to_ascii_uppercase};
use case_converter::case::Case;
use case_converter::replacer::Replacer;
use case_converter::tokenize::split_units;
use case_converter::transform::{append_converted_word, write_word_camel, write_word_snake};

fn snake(s: &str) -> String {
    let mut out = String::new();
    write_word_snake(s, &mut out);
    out
}

fn camel(s: &str) -> String {
    let mut out = String::new();
    write_word_camel(s, &mut out);
    out
}

#[test]
fn snake_inserts_underscore_before_inner_capitals() {
    assert_eq!(snake("CammelCase"), "cammel_case");
    assert_eq!(snake("anotherOfThisKind"), "another_of_this_kind");
    assert_eq!(snake("CAMMELCASE"), "c_a_m_m_e_l_c_a_s_e");
}

#[test]
fn snake_no_underscore_after_whitespace() {
    assert_eq!(snake("a B"), "a b");
    assert_eq!(snake("x\tYz"), "x\tyz");
}

#[test]
fn snake_keeps_separators() {
    assert_eq!(snake("a-b_cD"), "a-b_c_d");
}

#[test]
fn snake_of_empty_is_empty() {
    assert_eq!(snake(""), "");
    assert_eq!(camel(""), "");
}

#[test]
fn snake_keeps_plain_lowercase() {
    let s = "abc_12 de\tf\n";
    assert_eq!(snake(s), s);
}

#[test]
fn snake_appends_to_existing_text() {
    let mut out = String::from("pre ");
    write_word_snake("aB", &mut out);
    assert_eq!(out, "pre a_b");
}

#[test]
fn camel_promotes_after_separators() {
    assert_eq!(camel("snake_case"), "snakeCase");
    assert_eq!(camel("_snake_case"), "SnakeCase");
    assert_eq!(camel("kebab-case"), "kebabCase");
    assert_eq!(camel("a__-b"), "aB");
    assert_eq!(camel("keep_Upper MIXED"), "keepUpper MIXED");
}

#[test]
fn camel_of_separators_only_is_empty() {
    assert_eq!(camel("_-_"), "");
}

#[test]
fn camel_second_pass_changes_nothing() {
    for s in ["snake_case", "_a-b_", "x__y z_", "already Camel", "1_2"] {
        let once = camel(s);
        assert_eq!(camel(&once), once);
    }
}

#[test]
fn converted_word_follows_case() {
    let mut out = String::new();
    append_converted_word("fooBar", &mut out, Case::Snake);
    append_converted_word(" foo_bar", &mut out, Case::Camel);
    assert_eq!(out, "foo_bar fooBar");
}

#[test]
fn replacer_rewrites_in_its_case() {
    let mut dst = String::new();
    let mut snake_r = Replacer { case: Case::Snake };
    snake_r.replace_append("someName", &mut dst);
    let mut camel_r = Replacer { case: Case::Camel };
    camel_r.replace_append("_some_name", &mut dst);
    assert_eq!(dst, "some_nameSomeName");
    let mut d2 = String::new();
    camel_r.append_cammel("a_b", &mut d2);
    camel_r.append_snake("aB", &mut d2);
    assert_eq!(d2, "aBa_b");
}

#[test]
fn units_split_after_each_whitespace() {
    assert_eq!(split_units("ab cd  e\n"), vec!["ab ", "cd ", " ", "e\n"]);
    assert_eq!(split_units("solo"), vec!["solo"]);
    assert!(split_units("").is_empty());
}

#[test]
fn units_join_back_to_input() {
    for s in ["", "   ", "nowhitespace", "a b\tc\n\nd ", "\u{a0}x\u{2003}y"] {
        assert_eq!(split_units(s).concat(), s);
    }
}

#[test]
fn case_names_parse() {
    assert_eq!(Case::from_name("snake"), Some(Case::Snake));
    assert_eq!(Case::from_name("s"), Some(Case::Snake));
    assert_eq!(Case::from_name("camel"), Some(Case::Camel));
    assert_eq!(Case::from_name("c"), Some(Case::Camel));
    assert_eq!(Case::from_name("Snake"), None);
    assert_eq!(Case::from_name(""), None);
    assert_eq!("c".parse::<Case>(), Ok(Case::Camel));
    assert_eq!("kebab".parse::<Case>(), Err("Invalid case name"));
}

#[test]
fn ascii_case_mapping() {
    assert_eq!(char_to_ascii_lowercase('A'), 'a');
    assert_eq!(char_to_ascii_lowercase('Z'), 'z');
    assert_eq!(char_to_ascii_lowercase('a'), 'a');
    assert_eq!(char_to_ascii_lowercase('Ä'), 'Ä');
    assert_eq!(char_to_ascii_uppercase('a'), 'A');
    assert_eq!(char_to_ascii_uppercase('z'), 'Z');
    assert_eq!(char_to_ascii_uppercase('_'), '_');
    assert_eq!(char_to_ascii_uppercase('ä'), 'ä');
}
