use godbolt_proxy::text::{
    chars_eq, concat2, find_chars, from_chars, is_whitespace, mark_whitespace, occurs_at_exec,
    str_contains, str_eq, str_trim, to_ascii_lowercase, to_chars, trim_bounds, trim_span,
};

fn chars(s: &str) -> Vec<char> {
    s.chars().collect()
}

#[test]
fn to_chars_gives_each_scalar_value_once() {
    assert_eq!(to_chars("aé😀"), vec!['a', 'é', '😀']);
    assert_eq!(to_chars(""), Vec::<char>::new());
}

#[test]
fn from_chars_builds_the_chosen_stretch() {
    let v = chars("hello wörld");
    assert_eq!(from_chars(&v, 0, v.len()), "hello wörld");
    assert_eq!(from_chars(&v, 6, 9), "wör");
    assert_eq!(from_chars(&v, 4, 4), "");
}

#[test]
fn str_eq_compares_contents() {
    assert!(str_eq("rust", "rust"));
    assert!(!str_eq("rust", "rusty"));
    assert!(!str_eq("rust", "ruse"));
    assert!(str_eq("", ""));
    assert!(chars_eq(&chars("c++"), &chars("c++")));
    assert!(!chars_eq(&chars("c++"), &chars("c+")));
}

#[test]
fn find_chars_returns_the_first_occurrence() {
    assert_eq!(find_chars(&chars("abcabc"), &chars("bc")), Some(1));
    assert_eq!(find_chars(&chars("abcabc"), &chars("cab")), Some(2));
    assert_eq!(find_chars(&chars("abcabc"), &chars("abcabc")), Some(0));
    assert_eq!(find_chars(&chars("abcabc"), &chars("x")), None);
    assert_eq!(find_chars(&chars("ab"), &chars("abc")), None);
}

#[test]
fn find_chars_of_the_empty_needle_is_the_start() {
    assert_eq!(find_chars(&chars("abc"), &chars("")), Some(0));
    assert_eq!(find_chars(&chars(""), &chars("")), Some(0));
}

#[test]
fn find_chars_counts_characters_not_bytes() {
    assert_eq!(find_chars(&chars("ééx"), &chars("x")), Some(2));
    assert_eq!("ééx".find('x'), Some(4));
}

#[test]
fn occurs_at_checks_one_position() {
    let hay = chars("pub fn main");
    assert!(occurs_at_exec(&hay, &chars("pub"), 0));
    assert!(occurs_at_exec(&hay, &chars("fn"), 4));
    assert!(!occurs_at_exec(&hay, &chars("fn"), 3));
    assert!(!occurs_at_exec(&hay, &chars("main"), 8));
    assert!(occurs_at_exec(&hay, &chars("main"), 7));
    assert!(!occurs_at_exec(&hay, &chars("main"), 100));
    assert!(occurs_at_exec(&hay, &chars(""), hay.len()));
}

#[test]
fn str_contains_agrees_with_std() {
    let cases = [
        ("pub fn f() {}", "pub fn", true),
        ("fn f() {}", "pub fn", false),
        ("pub  fn f() {}", "pub fn", false),
        ("", "pub fn", false),
        ("anything", "", true),
    ];
    for (hay, needle, expected) in cases {
        assert_eq!(str_contains(hay, needle), expected);
        assert_eq!(hay.contains(needle), expected);
    }
}

#[test]
fn str_trim_drops_white_space_at_both_ends_only() {
    assert_eq!(str_trim("  nightly \n"), "nightly");
    assert_eq!(str_trim("\t a b \r\n"), "a b");
    assert_eq!(str_trim("x"), "x");
    assert_eq!(str_trim(""), "");
    assert_eq!(str_trim(" \n\t "), "");
}

#[test]
fn str_trim_knows_unicode_white_space() {
    assert_eq!(str_trim("\u{2003}beta\u{00A0}\u{3000}"), "beta");
    assert_eq!(str_trim("\u{200B}beta"), "\u{200B}beta");
}

#[test]
fn str_trim_agrees_with_std() {
    for s in ["", " ", "a", " a", "a ", " a b ", "\n\nfoo\n", "\u{2028}x\u{2029}", "é \u{1680}"] {
        assert_eq!(str_trim(s), s.trim());
    }
}

#[test]
fn trim_bounds_looks_at_the_head_only() {
    let v = chars("  ab  cd  ");
    assert_eq!(trim_bounds(&v, v.len()), (2, 8));
    assert_eq!(trim_bounds(&v, 6), (2, 4));
    assert_eq!(trim_bounds(&v, 2), (2, 2));
    assert_eq!(trim_bounds(&v, 0), (0, 0));
}

#[test]
fn concat2_appends() {
    assert_eq!(concat2("-O3", " --emit=llvm-ir"), "-O3 --emit=llvm-ir");
    assert_eq!(concat2("", ""), "");
}

#[test]
fn mark_whitespace_marks_each_character() {
    assert_eq!(mark_whitespace(&chars(" a\tb\n")), vec![true, false, true, false, true]);
    assert_eq!(mark_whitespace(&chars("")), Vec::<bool>::new());
    assert_eq!(mark_whitespace(&chars("\u{A0}\u{200B}")), vec![true, false]);
}

#[test]
fn trim_span_leaves_out_the_set_marks_at_both_ends() {
    let t = true;
    let f = false;
    assert_eq!(trim_span(&vec![t, t, f, t, f, t], 6), (2, 5));
    assert_eq!(trim_span(&vec![f, f, f, t], 4), (0, 3));
    assert_eq!(trim_span(&vec![f], 1), (0, 1));
    assert_eq!(trim_span(&vec![], 0), (0, 0));
}

#[test]
fn trim_span_of_set_marks_only_is_empty() {
    assert_eq!(trim_span(&vec![true, true, true], 3), (3, 3));
    assert_eq!(trim_span(&vec![true], 1), (1, 1));
}

#[test]
fn trim_span_stops_at_the_limit() {
    let marks = vec![true, false, true, false, false];
    assert_eq!(trim_span(&marks, 5), (1, 5));
    assert_eq!(trim_span(&marks, 3), (1, 2));
    assert_eq!(trim_span(&marks, 1), (1, 1));
    assert_eq!(trim_span(&marks, 0), (0, 0));
}

#[test]
fn is_whitespace_agrees_with_std_on_every_character() {
    for code in 0..=0x10FFFFu32 {
        if let Some(c) = char::from_u32(code) {
            assert_eq!(is_whitespace(c), c.is_whitespace(), "U+{:04X}", code);
        }
    }
}

#[test]
fn is_whitespace_knows_the_usual_white_space() {
    for c in [' ', '\t', '\n', '\r', '\u{B}', '\u{C}', '\u{85}', '\u{A0}', '\u{2003}', '\u{3000}'] {
        assert!(is_whitespace(c), "{:?}", c);
    }
    for c in ['a', '0', '_', '\u{0}', '\u{8}', '\u{E}', '\u{1F}', '\u{180E}', '\u{200B}', '\u{FEFF}'] {
        assert!(!is_whitespace(c), "{:?}", c);
    }
}

#[test]
fn to_ascii_lowercase_agrees_with_std_on_every_character() {
    for code in 0..=0x10FFFFu32 {
        if let Some(c) = char::from_u32(code) {
            assert_eq!(to_ascii_lowercase(c), c.to_ascii_lowercase(), "U+{:04X}", code);
        }
    }
}

#[test]
fn to_ascii_lowercase_moves_ascii_capitals_only() {
    assert_eq!(to_ascii_lowercase('A'), 'a');
    assert_eq!(to_ascii_lowercase('Z'), 'z');
    assert_eq!(to_ascii_lowercase('q'), 'q');
    assert_eq!(to_ascii_lowercase('@'), '@');
    assert_eq!(to_ascii_lowercase('['), '[');
    assert_eq!(to_ascii_lowercase('É'), 'É');
    assert_eq!(to_ascii_lowercase('7'), '7');
}
