use shared::proxy::Profile;
use shared::tools::{
    profile_outputs, AiToolError, DockerListTool, PromptRegistry, ProxyProfileOutput,
    ProxyStatusOutput, ResourceRegistry, SystemResourcesTool, ToggleProxyArgs,
};

#[test]
fn profile_reports_copy_profiles_in_order() {
    let mut a = Profile::new("https://a");
    a.name = Some("first".to_string());
    let mut b = Profile::new("https://b");
    b.toggle();
    let (aid, bid) = (a.id.clone(), b.id.clone());
    let out = profile_outputs(vec![a, b]);
    assert_eq!(out.len(), 2);
    assert_eq!(out[0].id, aid);
    assert_eq!(out[0].name.as_deref(), Some("first"));
    assert_eq!(out[0].source_url, "https://a");
    assert_eq!(out[0].update_interval, 3600);
    assert!(out[0].enabled);
    assert_eq!(out[1].id, bid);
    assert!(!out[1].enabled);
    assert!(profile_outputs(Vec::new()).is_empty());

    let one = ProxyProfileOutput::from_profile(Profile::new("https://c"));
    assert_eq!(one.source_url, "https://c");
}

#[test]
fn status_and_errors() {
    let s = ProxyStatusOutput::new(true, "main".to_string(), "1.2.3.4".to_string());
    assert!(s.connected);
    assert_eq!(s.active_profile, "main");
    assert_eq!(s.ip, "1.2.3.4");
    assert_eq!(AiToolError("boom".to_string()).message(), "boom");
    let args = ToggleProxyArgs { active: true };
    assert!(args.active);
}

#[test]
fn tool_names_and_descriptions() {
    assert_eq!(DockerListTool::NAME, "docker_list_containers");
    assert_eq!(DockerListTool.description(), "List Docker containers with state and metadata");
    assert_eq!(SystemResourcesTool::NAME, "system_resources");
    assert_eq!(
        SystemResourcesTool.description(),
        "Read current CPU, memory, disk, network and GPU metrics"
    );
    let _ = PromptRegistry::new();
    let _ = ResourceRegistry::new();
}
