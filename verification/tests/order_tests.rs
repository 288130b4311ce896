use project_runner::model::NodeVersion;
use project_runner::order::sort_strings;
use project_runner::order::str_le;
use project_runner::versions::ensure_v_prefix;
use project_runner::versions::parse_component;
use project_runner::versions::parse_version;
use project_runner::versions::sort_node_versions;
use project_runner::versions::version_before;

fn nv(tag: &str) -> NodeVersion {
    NodeVersion::new(String::from(tag), format!("/nvm/{}", tag), String::from("nvm"))
}

#[test]
fn alphabetical_string_order() {
    assert!(str_le("build", "dev"));
    assert!(!str_le("dev", "build"));
    assert!(str_le("build", "build"));
    assert!(str_le("build", "build:prod")); // a proper prefix comes first
    assert!(!str_le("build:prod", "build"));
    assert!(str_le("", "a"));
}

#[test]
fn script_names_sort_alphabetically() {
    let scripts = vec![
        String::from("test"),
        String::from("build"),
        String::from("dev"),
        String::from("build"),
    ];
    let sorted = sort_strings(scripts);
    assert_eq!(
        sorted,
        vec![
            String::from("build"),
            String::from("build"),
            String::from("dev"),
            String::from("test")
        ]
    );
    assert!(sort_strings(Vec::new()).is_empty());
}

#[test]
fn version_tags_parse_to_numeric_keys() {
    assert_eq!(parse_version("v20.1.0"), vec![20, 1, 0]);
    assert_eq!(parse_version("14.17"), vec![14, 17]);
    assert_eq!(parse_version("v"), vec![0]);
    assert_eq!(parse_version(""), vec![0]);
    // a component that is not a number counts as zero
    assert_eq!(parse_version("v1.beta.3"), vec![1, 0, 3]);
    // a trailing dot yields an empty, zero component
    assert_eq!(parse_version("v2."), vec![2, 0]);
}

#[test]
fn oversized_components_count_as_zero() {
    assert_eq!(parse_component("4294967295"), 4294967295);
    assert_eq!(parse_component("4294967296"), 0);
    assert_eq!(parse_component("99999999999999999999"), 0);
    assert_eq!(parse_component("12a"), 0);
    assert_eq!(parse_component(""), 0);
    assert_eq!(parse_component("007"), 7);
}

#[test]
fn versions_sort_numerically_newest_first() {
    let list = vec![nv("v4.9.1"), nv("v20.1.0"), nv("v14.17.0"), nv("v14.2.9")];
    let sorted = sort_node_versions(list);
    let tags: Vec<&str> = sorted.iter().map(|v| v.version.as_str()).collect();
    // numeric order, not text order: v4 comes after v14
    assert_eq!(tags, vec!["v20.1.0", "v14.17.0", "v14.2.9", "v4.9.1"]);
}

#[test]
fn version_order_is_numeric_not_textual() {
    assert!(version_before(&nv("v20.0.0"), &nv("v4.9.1")));
    assert!(!version_before(&nv("v4.9.1"), &nv("v20.0.0")));
    assert!(version_before(&nv("v14.17.0"), &nv("v14.2.9")));
}

#[test]
fn v_prefix_is_added_only_when_missing() {
    assert_eq!(ensure_v_prefix("20.1.0"), "v20.1.0");
    assert_eq!(ensure_v_prefix("v20.1.0"), "v20.1.0");
    assert_eq!(ensure_v_prefix(""), "v");
}
