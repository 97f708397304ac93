use godbolt_proxy::language::Language;

#[test]
fn languages_have_the_names_of_the_service() {
    assert_eq!(Language::Rust.name(), "rust");
    assert_eq!(Language::Cpp.name(), "c++");
}

#[test]
fn from_name_knows_two_languages() {
    assert_eq!(Language::from_name("rust"), Some(Language::Rust));
    assert_eq!(Language::from_name("c++"), Some(Language::Cpp));
    assert_eq!(Language::from_name("Rust"), None);
    assert_eq!(Language::from_name("cpp"), None);
    assert_eq!(Language::from_name(""), None);
    assert_eq!(Language::from_name(" rust"), None);
}

#[test]
fn names_round_trip() {
    for language in [Language::Rust, Language::Cpp] {
        assert_eq!(Language::from_name(language.name()), Some(language));
    }
}
