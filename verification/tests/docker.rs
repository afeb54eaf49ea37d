use shared::docker::{
    decimal, find_container, Container, ContainerParts, ContainerStatus, PortParts,
};
use std::collections::HashMap;

fn empty_parts() -> ContainerParts {
    ContainerParts {
        id: None,
        image: None,
        command: None,
        created: None,
        state: None,
        status: None,
        ports: None,
        names: None,
        size_rw: None,
        size_root_fs: None,
        labels: None,
    }
}

#[test]
fn decimal_matches_display() {
    for n in [0u64, 7, 10, 99, 8080, 65535, u64::MAX] {
        assert_eq!(decimal(n), n.to_string());
    }
}

#[test]
fn summary_with_everything_missing() {
    let c = Container::from_parts(empty_parts());
    assert_eq!(c.id, "");
    assert_eq!(c.image, "");
    assert_eq!(c.command, "");
    assert_eq!(c.created, 0);
    assert_eq!(c.state, ContainerStatus::Created);
    assert_eq!(c.status, "");
    assert_eq!(c.ports, "");
    assert_eq!(c.names, "");
    assert_eq!(c.size_rw, 0);
    assert_eq!(c.size_root_fs, 0);
    assert!(c.labels.is_empty());
    assert!(!c.is_running());
}

#[test]
fn summary_with_ports_and_names() {
    let mut labels = HashMap::new();
    labels.insert("app".to_string(), "web".to_string());
    let parts = ContainerParts {
        id: Some("abc123".to_string()),
        image: Some("nginx:latest".to_string()),
        command: Some("nginx -g".to_string()),
        created: Some(1_700_000_000),
        state: Some(ContainerStatus::Running),
        status: Some("Up 2 hours".to_string()),
        ports: Some(vec![
            PortParts { private_port: 80, public_port: Some(8080) },
            PortParts { private_port: 443, public_port: None },
        ]),
        names: Some(vec!["/web".to_string(), "/proxy".to_string()]),
        size_rw: Some(12),
        size_root_fs: Some(3456),
        labels: Some(labels.clone()),
    };
    let c = Container::from_parts(parts);
    assert_eq!(c.id, "abc123");
    assert_eq!(c.created, 1_700_000_000);
    assert_eq!(c.ports, "80 → 8080, 443 → 0");
    assert_eq!(c.names, "/web, /proxy");
    assert_eq!(c.size_rw, 12);
    assert_eq!(c.size_root_fs, 3456);
    assert_eq!(c.labels, labels);
    assert!(c.is_running());
}

#[test]
fn finding_containers_by_id() {
    let mut a = empty_parts();
    a.id = Some("a".to_string());
    let mut b = empty_parts();
    b.id = Some("b".to_string());
    b.state = Some(ContainerStatus::Exited);
    let list = vec![Container::from_parts(a), Container::from_parts(b)];
    assert_eq!(find_container(&list, "b"), Some(1));
    assert_eq!(find_container(&list, "a"), Some(0));
    assert_eq!(find_container(&list, "c"), None);
    assert!(!list[1].is_running());
}
