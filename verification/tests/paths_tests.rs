use project_runner::naming::log_dir_name;
use project_runner::naming::log_file_name;
use project_runner::naming::project_display_name;
use project_runner::paths::base_name;
use project_runner::paths::parent_dir;
use project_runner::paths::sanitize_component;
use project_runner::paths::strip_executable_name;

#[test]
fn strip_executable_name_resolves_binary_paths() {
    assert_eq!(
        strip_executable_name(String::from("C:\\nvm\\v20.1.0\\node.exe")),
        "C:\\nvm\\v20.1.0"
    );
    assert_eq!(strip_executable_name(String::from("/usr/local/bin/node")), "/usr/local/bin");
    // the comparison ignores ASCII case
    assert_eq!(strip_executable_name(String::from("/opt/x/NODE.EXE")), "/opt/x");
    assert_eq!(strip_executable_name(String::from("/opt/x/Node")), "/opt/x");
}

#[test]
fn strip_executable_name_leaves_other_paths_alone() {
    assert_eq!(strip_executable_name(String::from("/usr/bin/python")), "/usr/bin/python");
    assert_eq!(strip_executable_name(String::from("C:\\nvm\\v20.1.0")), "C:\\nvm\\v20.1.0");
    assert_eq!(strip_executable_name(String::from("nodes")), "nodes");
    assert_eq!(strip_executable_name(String::from("")), "");
}

#[test]
fn strip_executable_name_edge_positions() {
    // a bare binary name has an empty containing directory
    assert_eq!(strip_executable_name(String::from("node")), "");
    // a binary directly under the root keeps the root as its directory
    assert_eq!(strip_executable_name(String::from("/node")), "/");
}

#[test]
fn parent_and_base_name() {
    assert_eq!(parent_dir("/a/b/c"), "/a/b");
    assert_eq!(base_name("/a/b/c"), "c");
    assert_eq!(parent_dir("plain"), "");
    assert_eq!(base_name("plain"), "plain");
    assert_eq!(parent_dir("C:\\x\\y"), "C:\\x");
    assert_eq!(base_name("C:\\x\\y"), "y");
}

#[test]
fn sanitize_replaces_filesystem_unsafe_characters() {
    assert_eq!(sanitize_component("my:project/name"), "my_project_name");
    assert_eq!(sanitize_component("<>:\"/\\|?*"), "_________");
    assert_eq!(sanitize_component("already-safe_1.2"), "already-safe_1.2");
    assert_eq!(sanitize_component(""), "");
}

#[test]
fn log_names_are_sanitized() {
    assert_eq!(log_dir_name("my/project"), "my_project");
    assert_eq!(log_file_name("build:prod"), "build_prod.log");
    assert_eq!(log_file_name("dev"), "dev.log");
}

#[test]
fn project_name_prefers_the_manifest_field() {
    let manifest = String::from("{\"name\":\"webapp\",\"version\":\"1.0.0\"}");
    assert_eq!(project_display_name(Some(&manifest), "/home/me/checkout"), "webapp");
}

#[test]
fn project_name_falls_back_to_directory_base_name() {
    // no manifest at all
    assert_eq!(project_display_name(None, "/home/me/checkout"), "checkout");
    // a manifest without a name field
    let unnamed = String::from("{\"scripts\":{\"dev\":\"vite\"}}");
    assert_eq!(project_display_name(Some(&unnamed), "/home/me/checkout"), "checkout");
    // a manifest that does not parse
    let broken = String::from("{not json");
    assert_eq!(project_display_name(Some(&broken), "/home/me/checkout"), "checkout");
    // a name field that is not a string
    let numeric = String::from("{\"name\":7}");
    assert_eq!(project_display_name(Some(&numeric), "/home/me/checkout"), "checkout");
}

#[test]
fn project_name_placeholder_when_no_base_name_exists() {
    assert_eq!(project_display_name(None, ""), "unknown_project");
    assert_eq!(project_display_name(None, "/ends/with/sep/"), "unknown_project");
}
