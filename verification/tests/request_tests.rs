use godbolt_proxy::language::Language;
use godbolt_proxy::request::{
    compile_request, compile_url, libraries_for, run_request, shortener_url, shortlink_request,
    tools_for, LibraryRef,
};

fn pairs(libraries: &[LibraryRef]) -> Vec<(&str, &str)> {
    libraries.iter().map(|l| (l.id.as_str(), l.version.as_str())).collect()
}

const TRIO: [(&str, &str); 3] = [("curl", "7831"), ("range-v3", "trunk"), ("fmt", "trunk")];

#[test]
fn the_compile_url_names_the_compiler() {
    assert_eq!(compile_url("r1700"), "https://godbolt.org/api/compiler/r1700/compile");
    assert_eq!(compile_url(""), "https://godbolt.org/api/compiler//compile");
    assert_eq!(shortener_url(), "https://godbolt.org/api/shortener");
}

#[test]
fn cpp_attaches_three_libraries_and_rust_none() {
    assert_eq!(pairs(&libraries_for(Language::Cpp)), TRIO);
    assert!(libraries_for(Language::Rust).is_empty());
}

#[test]
fn the_analysis_tool_is_asked_for_only_on_demand() {
    assert_eq!(tools_for(true), vec!["llvm-mcatrunk"]);
    assert!(tools_for(false).is_empty());
}

#[test]
fn a_compile_request_carries_source_compiler_and_flags() {
    let r = compile_request("pub fn f() {}", "nightly", "-O", Language::Rust, false);
    assert_eq!(r.url, "https://godbolt.org/api/compiler/nightly/compile");
    assert_eq!(r.language, Language::Rust);
    assert_eq!(r.compiler, "nightly");
    assert_eq!(r.source, "pub fn f() {}");
    assert_eq!(r.user_arguments, "-O");
    assert!(r.tools.is_empty());
    assert!(r.libraries.is_empty());
    assert!(!r.execute);
}

#[test]
fn a_compile_request_for_analysis_names_the_tool() {
    let r = compile_request("int f();", "g122", "-O3", Language::Cpp, true);
    assert_eq!(r.tools, vec!["llvm-mcatrunk"]);
    assert_eq!(pairs(&r.libraries), TRIO);
    assert_eq!(r.language, Language::Cpp);
    assert!(!r.execute);
}

#[test]
fn a_run_request_is_a_cpp_request_that_executes() {
    let r = run_request("int main() {}", "clang_trunk", "-std=c++20 -O3");
    assert_eq!(r.url, "https://godbolt.org/api/compiler/clang_trunk/compile");
    assert_eq!(r.language, Language::Cpp);
    assert_eq!(r.compiler, "clang_trunk");
    assert_eq!(r.source, "int main() {}");
    assert_eq!(r.user_arguments, "-std=c++20 -O3");
    assert!(r.tools.is_empty());
    assert_eq!(pairs(&r.libraries), TRIO);
    assert!(r.execute);
}

#[test]
fn a_shortlink_request_describes_the_session() {
    let r = shortlink_request("pub fn f() {}", "beta", Language::Rust, "-O", true);
    assert_eq!(r.url, "https://godbolt.org/api/shortener");
    assert_eq!(r.language, "rust");
    assert_eq!(r.source, "pub fn f() {}");
    assert_eq!(r.compiler, "beta");
    assert_eq!(r.options, "-O");
    assert_eq!(r.tools, vec!["llvm-mcatrunk"]);
    assert!(r.libraries.is_empty());
}

#[test]
fn a_shortlink_request_for_cpp_attaches_the_libraries() {
    let r = shortlink_request("int main() {}", "g122", Language::Cpp, "", false);
    assert_eq!(r.language, "c++");
    assert!(r.tools.is_empty());
    assert_eq!(pairs(&r.libraries), TRIO);
}
