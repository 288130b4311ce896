use project_runner::strutil::chars_eq_ignore_ascii_case;
use project_runner::strutil::contains_sub;
use project_runner::strutil::str_eq;
use project_runner::strutil::str_eq_ignore_ascii_case;

#[test]
fn substring_search() {
    assert!(contains_sub("C:\\nvm\\v14.17.0", "v14."));
    assert!(contains_sub("v14.", "v14."));
    assert!(contains_sub("anything", ""));
    assert!(!contains_sub("", "v14."));
    assert!(!contains_sub("v14", "v14."));
    assert!(!contains_sub("v141.0", "v14."));
    assert!(contains_sub("xxv14.x", "v14."));
}

#[test]
fn exact_string_equality() {
    assert!(str_eq("npm", "npm"));
    assert!(!str_eq("npm", "pnpm"));
    assert!(!str_eq("npm", "NPM"));
    assert!(str_eq("", ""));
}

#[test]
fn ascii_case_insensitive_equality() {
    assert!(str_eq_ignore_ascii_case("node.exe", "NODE.EXE"));
    assert!(str_eq_ignore_ascii_case("Node", "nODE"));
    assert!(!str_eq_ignore_ascii_case("node", "node.exe"));
    assert!(!str_eq_ignore_ascii_case("node", "nodf"));
    assert!(chars_eq_ignore_ascii_case('A', 'a'));
    assert!(!chars_eq_ignore_ascii_case('a', 'b'));
    // only ASCII letters fold; other characters must match exactly
    assert!(!chars_eq_ignore_ascii_case('[', '{'));
}
