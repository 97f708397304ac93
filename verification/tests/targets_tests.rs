use godbolt_proxy::language::Language;
use godbolt_proxy::targets::{
    clean_marked, compilers_url, libraries_url, mark_alphanumeric, sanitize_label, store_marked,
    strip_prefix_exec, update_period, CacheAction,
    GodboltLibrary, GodboltLibraryVersion, GodboltMetadata, GodboltTarget,
    DEFAULT_UPDATE_PERIOD_SECS, NANOS_PER_SEC,
};

fn target(id: &str, name: &str, semver: &str, instruction_set: &str) -> GodboltTarget {
    GodboltTarget {
        id: id.to_string(),
        name: name.to_string(),
        semver: semver.to_string(),
        instruction_set: instruction_set.to_string(),
    }
}

fn library(id: &str, versions: &[&str]) -> GodboltLibrary {
    GodboltLibrary {
        id: id.to_string(),
        versions: versions.iter().map(|v| GodboltLibraryVersion { id: v.to_string() }).collect(),
    }
}

fn semvers(data: &GodboltMetadata) -> Vec<String> {
    data.targets().iter().map(|t| t.semver.clone()).collect()
}

#[test]
fn sanitize_label_keeps_lowercase_alphanumerics_and_three_marks() {
    assert_eq!(sanitize_label("Rustc 1.70.0 (Beta)"), "rustc1.70.0beta");
    assert_eq!(sanitize_label("(GCC-Rust master)"), "gcc-rustmaster");
    assert_eq!(sanitize_label("x86_64 Clang\t(trunk)"), "x86_64clangtrunk");
    for c in sanitize_label("A b(C)d-E_f.1 2!@#$%^&*+=~`'\"[]{}<>?/\\|;:,").chars() {
        assert!(c.is_ascii_lowercase() || c.is_ascii_digit() || c == '.' || c == '-' || c == '_');
    }
}

#[test]
fn sanitize_label_leaves_a_clean_label_alone() {
    for label in ["nightly", "beta", "1.45.2", "clang_trunk", "g122", "", "a-b_c.d"] {
        assert_eq!(sanitize_label(label), label);
    }
}

#[test]
fn sanitize_label_lowers_ascii_capitals_only() {
    assert_eq!(sanitize_label("ÀBÇ"), "ÀbÇ");
    assert_eq!(sanitize_label("NIGHTLY"), "nightly");
}

#[test]
fn sanitize_label_drops_everything_of_a_label_without_kept_characters() {
    assert_eq!(sanitize_label(" ()[] \n"), "");
}

#[test]
fn clean_request_data_changes_the_label_only() {
    let mut t = target("R1700", "rustc 1.70.0", " 1.70.0 (Stable)", "amd64");
    t.clean_request_data();
    assert_eq!(t.semver, "1.70.0stable");
    assert_eq!(t.id, "R1700");
    assert_eq!(t.name, "rustc 1.70.0");
    assert_eq!(t.instruction_set, "amd64");
}

#[test]
fn strip_prefix_removes_a_prefix_that_is_there() {
    assert_eq!(strip_prefix_exec("rustc 1.2.3".to_string(), "rustc "), "1.2.3");
    assert_eq!(strip_prefix_exec("rustc ".to_string(), "rustc "), "");
    assert_eq!(strip_prefix_exec("1.2.3".to_string(), "rustc "), "1.2.3");
    assert_eq!(strip_prefix_exec("rustc1.2.3".to_string(), "rustc "), "rustc1.2.3");
    assert_eq!(strip_prefix_exec("rust".to_string(), "rustc "), "rust");
    assert_eq!(strip_prefix_exec("abc".to_string(), ""), "abc");
}

#[test]
fn a_rust_label_loses_the_prefix() {
    let t = target("r1", "n", "rustc 1.2.3", "amd64");
    assert_eq!(t.stored(Language::Rust).semver, "1.2.3");
    let t = target("r1", "n", "Rustc 1.70.0 (Beta)", "amd64");
    assert_eq!(t.stored(Language::Rust).semver, "1.70.0beta");
    let t = target("r1", "n", "rustc1.2.3", "amd64");
    assert_eq!(t.stored(Language::Rust).semver, "1.2.3");
    let t = target("r1", "n", "rustc ", "amd64");
    assert_eq!(t.stored(Language::Rust).semver, "");
}

#[test]
fn a_rust_label_without_the_prefix_is_only_cleaned() {
    let t = target("r2", "n", "1.2.3 (x)", "amd64");
    assert_eq!(t.stored(Language::Rust).semver, "1.2.3x");
    assert_eq!(t.stored(Language::Rust).id, "r2");
    let t = target("r2", "n", "nightly", "amd64");
    assert_eq!(t.stored(Language::Rust).semver, "nightly");
    let t = target("r2", "n", "rust 1.2.3", "amd64");
    assert_eq!(t.stored(Language::Rust).semver, "rust1.2.3");
    let t = target("r2", "n", "1.2.3 rustc", "amd64");
    assert_eq!(t.stored(Language::Rust).semver, "1.2.3rustc");
}

#[test]
fn a_cpp_label_keeps_the_prefix() {
    let t = target("r1", "n", "rustc 1.2.3", "amd64");
    assert_eq!(t.stored(Language::Cpp).semver, "rustc1.2.3");
}

#[test]
fn a_fetched_rust_target_is_stored_under_its_version() {
    let mut data = GodboltMetadata::new();
    data.refresh(Language::Rust, vec![target("r1452", "rustc 1.45.2", "rustc 1.45.2", "amd64")], vec![], 0);
    let stored = &data.targets()[0];
    assert_eq!(stored.id, "r1452");
    assert_eq!(stored.name, "rustc 1.45.2");
    assert_eq!(stored.semver, "1.45.2");
    assert_eq!(stored.instruction_set, "amd64");
}

#[test]
fn store_marked_goes_by_the_marks_it_is_given() {
    let marked = vec![
        ('r', true), ('u', true), ('s', true), ('t', true), ('c', true), (' ', false),
        ('1', true), ('.', false), ('4', true), ('5', true), ('.', false), ('2', true),
    ];
    assert_eq!(store_marked(Language::Rust, &marked), "1.45.2");
    assert_eq!(store_marked(Language::Cpp, &marked), "rustc1.45.2");
    let blank_kept: Vec<(char, bool)> = marked.iter().map(|&(c, m)| (c, m || c == ' ')).collect();
    assert_eq!(store_marked(Language::Rust, &blank_kept), " 1.45.2");
    assert_eq!(store_marked(Language::Rust, &vec![]), "");
}

#[test]
fn update_period_defaults_to_twelve_hours() {
    assert_eq!(DEFAULT_UPDATE_PERIOD_SECS, 60 * 60 * 12);
    assert_eq!(update_period(None), 43200);
    assert_eq!(update_period(Some("")), 43200);
    assert_eq!(update_period(Some("soon")), 43200);
    assert_eq!(update_period(Some("-5")), 43200);
    assert_eq!(update_period(Some("18446744073709551616")), 43200);
}

#[test]
fn update_period_reads_the_configured_seconds() {
    assert_eq!(update_period(Some("60")), 60);
    assert_eq!(update_period(Some("0")), 0);
    assert_eq!(update_period(Some("+3600")), 3600);
    assert_eq!(update_period(Some("18446744073709551615")), u64::MAX);
}

#[test]
fn urls_name_the_language() {
    assert_eq!(compilers_url(Language::Rust), "https://godbolt.org/api/compilers/rust");
    assert_eq!(compilers_url(Language::Cpp), "https://godbolt.org/api/compilers/c++");
    assert_eq!(libraries_url(Language::Rust), "https://godbolt.org/api/libraries/rust");
    assert_eq!(libraries_url(Language::Cpp), "https://godbolt.org/api/libraries/c++");
}

#[test]
fn a_new_catalog_is_empty_and_stale() {
    for data in [GodboltMetadata::new(), GodboltMetadata::default()] {
        assert!(data.targets().is_empty());
        assert!(data.libraries().is_empty());
        assert_eq!(data.last_update_time(), None);
        assert!(data.needs_update(0, 43200));
        assert!(data.needs_update(u128::MAX, u64::MAX));
    }
}

#[test]
fn refresh_replaces_the_catalog_wholesale() {
    let mut data = GodboltMetadata::new();
    data.refresh(
        Language::Rust,
        vec![target("old1", "a", "1.0.0", "amd64"), target("old2", "b", "1.1.0", "amd64")],
        vec![library("serde", &["1"])],
        5,
    );
    assert_eq!(semvers(&data), vec!["1.0.0", "1.1.0"]);
    data.refresh(Language::Rust, vec![target("new", "c", "Nightly ", "arm")], vec![], 9);
    assert_eq!(semvers(&data), vec!["nightly"]);
    assert_eq!(data.targets()[0].id, "new");
    assert_eq!(data.targets()[0].name, "c");
    assert_eq!(data.targets()[0].instruction_set, "arm");
    assert!(data.libraries().is_empty());
    assert_eq!(data.last_update_time(), Some(9));
}

#[test]
fn refresh_keeps_order_and_libraries() {
    let mut data = GodboltMetadata::new();
    data.refresh(
        Language::Cpp,
        vec![
            target("g122", "gcc 12.2", "12.2 (GCC)", "amd64"),
            target("clang_trunk", "clang trunk", "(trunk)", "amd64"),
            target("g122", "dup", "12.2", "arm"),
        ],
        vec![library("fmt", &["trunk", "10"]), library("curl", &[])],
        1,
    );
    assert_eq!(semvers(&data), vec!["12.2gcc", "trunk", "12.2"]);
    let libs = data.libraries();
    assert_eq!(libs.len(), 2);
    assert_eq!(libs[0].id, "fmt");
    assert_eq!(libs[0].versions.len(), 2);
    assert_eq!(libs[0].versions[1].id, "10");
    assert_eq!(libs[1].id, "curl");
}

#[test]
fn a_catalog_is_fresh_until_its_age_exceeds_the_period() {
    let mut data = GodboltMetadata::new();
    let t: u128 = 1_000;
    data.refresh(Language::Rust, vec![], vec![], t);
    let period: u64 = 60;
    let due = t + 60 * NANOS_PER_SEC;
    assert!(!data.needs_update(t, period));
    assert!(!data.needs_update(due - 1, period));
    assert!(!data.needs_update(due, period));
    assert!(data.needs_update(due + 1, period));
    assert!(data.needs_update(due + 60 * NANOS_PER_SEC, period));
}

#[test]
fn a_clock_that_went_back_counts_as_no_time_passed() {
    let mut data = GodboltMetadata::new();
    data.refresh(Language::Rust, vec![], vec![], 1_000_000);
    assert!(!data.needs_update(5, 1));
    assert!(!data.needs_update(5, 0));
}

#[test]
fn a_period_of_zero_is_due_as_soon_as_time_has_passed() {
    let mut data = GodboltMetadata::new();
    data.refresh(Language::Rust, vec![], vec![], 7);
    assert!(!data.needs_update(7, 0));
    assert!(data.needs_update(8, 0));
}

#[test]
fn the_longest_period_does_not_overflow() {
    let mut data = GodboltMetadata::new();
    data.refresh(Language::Rust, vec![], vec![], 0);
    assert!(!data.needs_update(u64::MAX as u128, u64::MAX));
    assert!(!data.needs_update((u64::MAX as u128) * NANOS_PER_SEC, u64::MAX));
    assert!(data.needs_update((u64::MAX as u128) * NANOS_PER_SEC + 1, u64::MAX));
}

#[test]
fn plan_update_fetches_both_lists_when_stale() {
    let data = GodboltMetadata::new();
    match data.plan_update(Language::Cpp, 0, 43200) {
        CacheAction::Fetch { compilers_url, libraries_url } => {
            assert_eq!(compilers_url, "https://godbolt.org/api/compilers/c++");
            assert_eq!(libraries_url, "https://godbolt.org/api/libraries/c++");
        },
        CacheAction::UseCached => panic!("a catalog that was never filled is stale"),
    }
}

#[test]
fn plan_update_fetches_nothing_when_fresh() {
    let mut data = GodboltMetadata::new();
    data.refresh(Language::Rust, vec![target("n", "nightly", "nightly", "amd64")], vec![], 100);
    assert!(matches!(
        data.plan_update(Language::Rust, 100 + 43200 * NANOS_PER_SEC - 1, 43200),
        CacheAction::UseCached
    ));
    assert!(matches!(
        data.plan_update(Language::Rust, 100 + 43200 * NANOS_PER_SEC, 43200),
        CacheAction::UseCached
    ));
    assert!(matches!(
        data.plan_update(Language::Rust, 100 + 43200 * NANOS_PER_SEC + 1, 43200),
        CacheAction::Fetch { .. }
    ));
}

#[test]
fn a_failed_fetch_keeps_the_stale_catalog() {
    let mut data = GodboltMetadata::new();
    data.refresh(
        Language::Rust,
        vec![target("beta", "rustc beta", "beta", "amd64")],
        vec![library("serde", &["1"])],
        10,
    );
    data.finish_update(Language::Rust, None, 99);
    assert_eq!(semvers(&data), vec!["beta"]);
    assert_eq!(data.libraries().len(), 1);
    assert_eq!(data.last_update_time(), Some(10));
    assert!(!data.needs_update(10 + NANOS_PER_SEC, 1));
    assert!(data.needs_update(11 + NANOS_PER_SEC, 1));
}

#[test]
fn a_failed_first_fetch_leaves_the_catalog_empty_and_stale() {
    let mut data = GodboltMetadata::new();
    data.finish_update(Language::Cpp, None, 99);
    assert!(data.targets().is_empty());
    assert_eq!(data.last_update_time(), None);
    assert!(data.needs_update(100, 43200));
}

#[test]
fn a_fetch_that_came_back_is_stored() {
    let mut data = GodboltMetadata::new();
    data.finish_update(
        Language::Rust,
        Some((vec![target("r1", "rustc", "1.0.0 ", "amd64")], vec![library("x", &[])])),
        42,
    );
    assert_eq!(semvers(&data), vec!["1.0.0"]);
    assert_eq!(data.libraries().len(), 1);
    assert_eq!(data.last_update_time(), Some(42));
    assert!(!data.needs_update(43, 43200));
}

#[test]
fn mark_alphanumeric_pairs_each_character_with_its_mark() {
    assert_eq!(
        mark_alphanumeric("a1 .É("),
        vec![('a', true), ('1', true), (' ', false), ('.', false), ('É', true), ('(', false)]
    );
    assert_eq!(mark_alphanumeric(""), Vec::<(char, bool)>::new());
}

#[test]
fn clean_marked_keeps_what_is_marked_and_the_three_marks() {
    let marked = vec![
        ('A', true),
        (' ', false),
        ('.', false),
        ('-', false),
        ('_', false),
        ('(', false),
        ('Z', false),
        ('q', false),
        ('9', true),
    ];
    assert_eq!(clean_marked(&marked), "a.-_9");
}

#[test]
fn clean_marked_goes_by_the_marks_it_is_given() {
    assert_eq!(clean_marked(&vec![(' ', true), ('B', true), ('c', false)]), " b");
    assert_eq!(clean_marked(&vec![]), "");
    assert_eq!(clean_marked(&vec![('x', false), ('y', false)]), "");
}
