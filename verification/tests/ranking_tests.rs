use godbolt_proxy::ranking::{label_le, parse_version, ranked_targets, target_entry, SemverRanking};
use godbolt_proxy::targets::GodboltTarget;

fn target(semver: &str) -> GodboltTarget {
    GodboltTarget {
        id: format!("id-{}", semver),
        name: format!("rustc {}", semver),
        semver: semver.to_string(),
        instruction_set: "amd64".to_string(),
    }
}

fn order(labels: &[&str]) -> Vec<String> {
    let targets: Vec<GodboltTarget> = labels.iter().map(|l| target(l)).collect();
    ranked_targets(&targets).into_iter().map(|t| t.semver).collect()
}

#[test]
fn beta_and_nightly_have_ranks_of_their_own() {
    assert!(matches!(SemverRanking::from("beta"), SemverRanking::Beta));
    assert!(matches!(SemverRanking::from("nightly"), SemverRanking::Nightly));
    assert!(matches!(SemverRanking::from("Beta"), SemverRanking::Compiler("Beta")));
}

#[test]
fn three_numbers_are_a_version() {
    assert!(matches!(SemverRanking::from("1.70.0"), SemverRanking::Semver((1, 70, 0))));
    assert!(matches!(SemverRanking::from("0.0.0"), SemverRanking::Semver((0, 0, 0))));
    assert!(matches!(SemverRanking::from("65535.65535.65535"), SemverRanking::Semver((65535, 65535, 65535))));
    assert!(matches!(SemverRanking::from("+1.+2.+3"), SemverRanking::Semver((1, 2, 3))));
    assert!(matches!(SemverRanking::from("01.002.0003"), SemverRanking::Semver((1, 2, 3))));
}

#[test]
fn anything_else_is_a_compiler_name() {
    for label in ["", "1", "1.2", "1.2.3.4", "1.2.x", "a.b.c", "1..3", ".1.2", "1.2.", "65536.0.0",
                  "1.2.-3", "mrustc", "gcc-rustmaster", "1.2.3-beta"] {
        assert!(matches!(SemverRanking::from(label), SemverRanking::Compiler(name) if name == label));
        assert_eq!(parse_version(label), None);
    }
}

#[test]
fn parse_version_reads_the_triple() {
    assert_eq!(parse_version("1.45.2"), Some((1, 45, 2)));
    assert_eq!(parse_version("10.0.65535"), Some((10, 0, 65535)));
    assert_eq!(parse_version("10.0.65536"), None);
}

#[test]
fn kinds_are_listed_in_their_order() {
    assert!(label_le("beta", "nightly"));
    assert!(!label_le("nightly", "beta"));
    assert!(label_le("nightly", "mrustc"));
    assert!(!label_le("mrustc", "nightly"));
    assert!(label_le("mrustc", "1.0.0"));
    assert!(!label_le("1.0.0", "mrustc"));
    assert!(label_le("beta", "1.0.0"));
    assert!(label_le("beta", "beta"));
    assert!(label_le("nightly", "nightly"));
}

#[test]
fn newer_versions_are_listed_first() {
    assert!(label_le("1.70.0", "1.9.0"));
    assert!(!label_le("1.9.0", "1.70.0"));
    assert!(label_le("2.0.0", "1.99.99"));
    assert!(label_le("1.2.4", "1.2.3"));
    assert!(!label_le("1.2.3", "1.2.4"));
    assert!(label_le("1.2.3", "1.2.3"));
    assert!(label_le("1.2.3", "01.02.03"));
}

#[test]
fn names_are_listed_like_in_a_dictionary() {
    assert!(label_le("gcc", "mrustc"));
    assert!(!label_le("mrustc", "gcc"));
    assert!(label_le("gcc", "gcc-rs"));
    assert!(!label_le("gcc-rs", "gcc"));
    assert!(label_le("", "a"));
    assert!(label_le("Z", "a"));
    assert!(label_le("a", "é"));
    for (a, b) in [("", ""), ("a", "b"), ("ab", "a"), ("x-1", "x_1"), ("é", "z"), ("zz", "é")] {
        assert_eq!(label_le(a, b), a <= b, "{:?} {:?}", a, b);
        assert_eq!(label_le(b, a), b <= a, "{:?} {:?}", b, a);
    }
}

#[test]
fn targets_are_listed_by_rank() {
    assert_eq!(
        order(&["1.2.0", "nightly", "mrustc", "1.10.0", "beta", "gccrs", "1.2.1"]),
        vec!["beta", "nightly", "gccrs", "mrustc", "1.10.0", "1.2.1", "1.2.0"]
    );
}

#[test]
fn ranking_keeps_every_target() {
    let labels = ["1.0.0", "1.0.0", "beta", "x", "beta", "", "0.0.1"];
    let ranked = order(&labels);
    assert_eq!(ranked.len(), labels.len());
    let mut a: Vec<&str> = labels.to_vec();
    let mut b: Vec<&str> = ranked.iter().map(String::as_str).collect();
    a.sort();
    b.sort();
    assert_eq!(a, b);
    assert_eq!(ranked, vec!["beta", "beta", "", "x", "1.0.0", "1.0.0", "0.0.1"]);
}

#[test]
fn ranking_nothing_gives_nothing() {
    assert!(ranked_targets(&vec![]).is_empty());
}

#[test]
fn ranking_keeps_the_other_fields_with_their_label() {
    let targets = vec![target("1.0.0"), target("nightly")];
    let ranked = ranked_targets(&targets);
    assert_eq!(ranked[0].id, "id-nightly");
    assert_eq!(ranked[0].name, "rustc nightly");
    assert_eq!(ranked[1].id, "id-1.0.0");
    assert_eq!(ranked[1].instruction_set, "amd64");
}

#[test]
fn an_entry_names_the_instruction_set() {
    let t = GodboltTarget {
        id: "r1700".to_string(),
        name: "rustc 1.70.0".to_string(),
        semver: "1.70.0".to_string(),
        instruction_set: "amd64".to_string(),
    };
    assert_eq!(
        target_entry(&t),
        ("1.70.0".to_string(), "rustc 1.70.0 (runs on amd64)".to_string())
    );
}
