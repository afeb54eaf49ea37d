use shared::nodes::{active_selection, groups_from, GroupNode, Node, ProxyEntry, Traffic};

fn proxy(key: &str, latency: u32, alive: bool) -> ProxyEntry {
    ProxyEntry {
        key: key.to_string(),
        name: key.to_string(),
        group_type: String::new(),
        now: None,
        all: None,
        alive,
        latency,
        protocol: "vless".to_string(),
        transport: "tcp".to_string(),
    }
}

fn group(key: &str, kind: &str, now: &str, members: &[&str]) -> ProxyEntry {
    ProxyEntry {
        key: key.to_string(),
        name: key.to_string(),
        group_type: kind.to_string(),
        now: Some(now.to_string()),
        all: Some(members.iter().map(|m| m.to_string()).collect()),
        alive: true,
        latency: 0,
        protocol: String::new(),
        transport: String::new(),
    }
}

fn names(nodes: &[Node]) -> Vec<String> {
    nodes.iter().map(|n| n.name.clone()).collect()
}

#[test]
fn node_copies_entry_fields() {
    let e = proxy("de-1", 42, false);
    let n = Node::from_entry(&e, true);
    assert_eq!(n.name, "de-1");
    assert_eq!(n.latency, 42);
    assert_eq!(n.protocol, "vless");
    assert_eq!(n.transport, "tcp");
    assert!(!n.available);
    assert!(n.activated);
}

#[test]
fn groups_are_built_sorted_and_marked() {
    let listing = vec![
        proxy("fast", 10, true),
        group("Zeta", "Selector", "slow", &["slow", "fast", "missing", "mid"]),
        proxy("slow", 300, true),
        group("GLOBAL", "Selector", "fast", &["fast"]),
        proxy("mid", 100, false),
        group("Auto", "URLTest", "fast", &["mid", "fast"]),
        proxy("tie", 100, true),
        group("Beta", "Selector", "", &["tie", "mid"]),
    ];
    let groups = groups_from(&listing);
    let gnames: Vec<String> = groups.iter().map(|g| g.name.clone()).collect();
    assert_eq!(gnames, vec!["Auto", "Beta", "Zeta"]);

    let zeta = &groups[2];
    assert_eq!(zeta.selector, "Selector");
    assert_eq!(zeta.selected, "slow");
    assert_eq!(names(&zeta.nodes), vec!["fast", "mid", "slow"]);
    let active: Vec<bool> = zeta.nodes.iter().map(|n| n.activated).collect();
    assert_eq!(active, vec![false, false, true]);
    assert!(!zeta.nodes[1].available);

    assert_eq!(names(&groups[0].nodes), vec!["fast", "mid"]);
    assert_eq!(names(&groups[1].nodes), vec!["tie", "mid"]);
    assert_eq!(active_selection(&groups), Some("fast".to_string()));
}

#[test]
fn no_groups_without_members() {
    let listing = vec![proxy("a", 1, true), group("GLOBAL", "Selector", "a", &["a"])];
    let groups = groups_from(&listing);
    assert!(groups.is_empty());
    assert_eq!(active_selection(&groups), None);
    let empty: Vec<GroupNode> = Vec::new();
    assert_eq!(active_selection(&empty), None);
}

#[test]
fn traffic_starts_at_zero() {
    let t = Traffic::default();
    assert_eq!((t.up, t.down), (0, 0));
}
