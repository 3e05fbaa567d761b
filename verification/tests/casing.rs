use fp_bindgen::casing::{convert, split_words, Casing};

fn words_of(identifier: &str) -> Vec<String> {
    split_words(identifier).into_iter().map(|w| w.into_iter().collect()).collect()
}

#[test]
fn pascal_to_snake() {
    assert_eq!(convert("FooBar", Casing::SnakeCase), "foo_bar");
}

#[test]
fn snake_to_pascal() {
    assert_eq!(convert("foo_bar", Casing::PascalCase), "FooBar");
}

#[test]
fn snake_to_camel() {
    assert_eq!(convert("foo_bar_baz", Casing::CamelCase), "fooBarBaz");
}

#[test]
fn camel_to_kebab() {
    assert_eq!(convert("fooBarBaz", Casing::KebabCase), "foo-bar-baz");
}

#[test]
fn original_is_unchanged() {
    assert_eq!(convert("Foo_bar-Baz9", Casing::Original), "Foo_bar-Baz9");
}

#[test]
fn digits_stand_apart_from_letters() {
    assert_eq!(words_of("utf8Text"), vec!["utf", "8", "Text"]);
    assert_eq!(convert("utf8Text", Casing::SnakeCase), "utf_8_text");
}

#[test]
fn delimiters_are_dropped() {
    assert_eq!(words_of("__foo--bar_"), vec!["foo", "bar"]);
    assert_eq!(convert("__foo--bar_", Casing::PascalCase), "FooBar");
}

#[test]
fn one_word_without_boundaries() {
    assert_eq!(words_of("HTTPSERVER"), vec!["HTTPSERVER"]);
    assert_eq!(convert("HTTPSERVER", Casing::SnakeCase), "httpserver");
    assert_eq!(convert("HTTPSERVER", Casing::PascalCase), "Httpserver");
}

#[test]
fn empty_identifier() {
    assert_eq!(convert("", Casing::SnakeCase), "");
    assert_eq!(convert("", Casing::CamelCase), "");
    assert!(words_of("").is_empty());
}

#[test]
fn only_ascii_letters_have_case() {
    assert_eq!(convert("caféAuLait", Casing::SnakeCase), "caféau_lait");
    assert_eq!(convert("ÉtéChaud", Casing::CamelCase), "Étéchaud");
}

#[test]
fn default_casing_is_original() {
    assert_eq!(Casing::default(), Casing::Original);
}
