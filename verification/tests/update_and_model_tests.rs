use project_runner::model::NodeVersion;
use project_runner::model::ProjectInfo;
use project_runner::update::UpdateState;

#[test]
fn update_state_records_and_clears_cancel_requests() {
    let mut st = UpdateState::new();
    assert!(!st.is_cancelling());
    st.request_cancel();
    assert!(st.is_cancelling());
    // a new download clears the pending request
    st.reset();
    assert!(!st.is_cancelling());
}

#[test]
fn node_version_carries_its_fields() {
    let v = NodeVersion::new(
        String::from("v20.1.0"),
        String::from("/opt/nvm/v20.1.0"),
        String::from("nvm"),
    );
    assert_eq!(v.version, "v20.1.0");
    assert_eq!(v.path, "/opt/nvm/v20.1.0");
    assert_eq!(v.source, "nvm");
}

#[test]
fn project_info_carries_its_fields() {
    let p = ProjectInfo::new(
        String::from("webapp"),
        vec![String::from("build"), String::from("dev")],
        String::from("/work/webapp"),
    );
    assert_eq!(p.name, "webapp");
    assert_eq!(p.scripts, vec![String::from("build"), String::from("dev")]);
    assert_eq!(p.path, "/work/webapp");
}
