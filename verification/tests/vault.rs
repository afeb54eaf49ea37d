use shared::vault::{
    kv_mounts, record_visit, secret_path, sort_by_count, top_visits, MountEntry, SecretItem,
    SecretType, SecretVisit, TokenInfo, VaultConfig, VaultStore,
};

fn visit(mount: &str, path: &str, count: usize) -> SecretVisit {
    SecretVisit { mount: mount.to_string(), path: path.to_string(), count }
}

fn places(v: &[SecretVisit]) -> Vec<(String, String, usize)> {
    v.iter().map(|x| (x.mount.clone(), x.path.clone(), x.count)).collect()
}

#[test]
fn listing_entries_become_items() {
    let f = SecretItem::from_listing("apps/".to_string());
    assert_eq!(f.name, "apps");
    assert_eq!(f.path, "apps/");
    assert_eq!(f.secret_type, SecretType::Folder);

    let k = SecretItem::from_listing("db-password".to_string());
    assert_eq!(k.name, "db-password");
    assert_eq!(k.path, "db-password");
    assert_eq!(k.secret_type, SecretType::Key);

    let nested = SecretItem::from_listing("a//".to_string());
    assert_eq!(nested.name, "a");
    assert_eq!(nested.secret_type, SecretType::Folder);

    let d = SecretItem::new_folder("team".to_string());
    assert_eq!(d.name, "team");
    assert_eq!(d.path, "team");
    assert_eq!(d.secret_type, SecretType::Folder);
}

#[test]
fn token_policies_are_comma_joined() {
    let t = TokenInfo {
        id: "id".to_string(),
        display_name: "root".to_string(),
        policies: vec!["default".to_string(), "admin".to_string()],
        ttl: 0,
        creation_ttl: 0,
        renewable: Some(false),
        expire_time: None,
    };
    assert_eq!(t.policies_str(), "default,admin");
    let empty = TokenInfo { policies: vec![], ..t };
    assert_eq!(empty.policies_str(), "");
}

#[test]
fn secret_paths_lose_leading_slashes() {
    assert_eq!(secret_path("//kv/app"), "kv/app");
    assert_eq!(secret_path("kv/app/"), "kv/app/");
    assert_eq!(secret_path("/"), "");
}

#[test]
fn only_kv_mounts_are_listed() {
    let mounts = vec![
        MountEntry { path: "secret/".to_string(), mount_type: "kv".to_string() },
        MountEntry { path: "sys/".to_string(), mount_type: "system".to_string() },
        MountEntry { path: "team//".to_string(), mount_type: "kv".to_string() },
        MountEntry { path: "pki/".to_string(), mount_type: "pki".to_string() },
    ];
    assert_eq!(kv_mounts(&mounts), vec!["secret".to_string(), "team".to_string()]);
    assert!(kv_mounts(&Vec::new()).is_empty());
}

#[test]
fn sorting_is_stable_and_descending() {
    let v = vec![visit("m", "a", 1), visit("m", "b", 3), visit("m", "c", 1), visit("m", "d", 3)];
    let sorted = sort_by_count(v);
    let names: Vec<String> = sorted.iter().map(|x| x.path.clone()).collect();
    assert_eq!(names, vec!["b", "d", "a", "c"]);
}

#[test]
fn top_visits_keeps_ten_most_counted() {
    let v: Vec<SecretVisit> = (0..15).map(|i| visit("m", &format!("p{i}"), i)).collect();
    let top = top_visits(v);
    assert_eq!(top.len(), 10);
    assert_eq!(top[0].count, 14);
    assert_eq!(top[9].count, 5);
    let few = top_visits(vec![visit("m", "x", 2)]);
    assert_eq!(places(&few), vec![("m".to_string(), "x".to_string(), 2)]);
}

#[test]
fn record_visit_counts_and_appends() {
    let mut cfg = VaultConfig::new("http://vault".to_string(), "tok".to_string());
    record_visit(&mut cfg, "kv", "a");
    record_visit(&mut cfg, "kv", "b");
    record_visit(&mut cfg, "kv", "a");
    assert_eq!(
        places(&cfg.visited),
        vec![("kv".to_string(), "a".to_string(), 2), ("kv".to_string(), "b".to_string(), 1)]
    );
    assert_eq!(cfg.url, "http://vault");
    assert_eq!(cfg.token, "tok");
}

#[test]
fn record_visit_saturates() {
    let mut cfg = VaultConfig::new(String::new(), String::new());
    cfg.visited.push(visit("kv", "a", usize::MAX));
    record_visit(&mut cfg, "kv", "a");
    assert_eq!(cfg.visited[0].count, usize::MAX);
}

#[test]
fn history_overflow_keeps_fifty_most_visited() {
    let mut cfg = VaultConfig::new(String::new(), String::new());
    for i in 0..100 {
        cfg.visited.push(visit("kv", &format!("p{i}"), i + 1));
    }
    record_visit(&mut cfg, "kv", "new");
    assert_eq!(cfg.visited.len(), 50);
    assert_eq!(cfg.visited[0].count, 100);
    assert_eq!(cfg.visited[49].count, 51);
    assert!(cfg.visited.iter().all(|v| v.path != "new"));

    let mut small = VaultConfig::new(String::new(), String::new());
    for i in 0..100 {
        small.visited.push(visit("kv", &format!("p{i}"), 1));
    }
    record_visit(&mut small, "kv", "p5");
    assert_eq!(small.visited.len(), 100);
    assert_eq!(small.visited[5].count, 2);
}

#[test]
fn store_keeps_settings_and_visits() {
    let mut store = VaultStore::new();
    assert!(store.fetch().is_none());
    store.track_visit("kv", "a");
    assert!(store.fetch().is_none());
    assert!(store.frequent_visits().is_empty());

    store.update(VaultConfig::new("http://v".to_string(), "t".to_string()));
    let got = store.fetch().unwrap();
    assert_eq!(got.url, "http://v");
    assert!(got.visited.is_empty());

    store.track_visit("kv", "a");
    store.track_visit("kv", "b");
    store.track_visit("kv", "b");
    let top = store.frequent_visits();
    assert_eq!(
        places(&top),
        vec![("kv".to_string(), "b".to_string(), 2), ("kv".to_string(), "a".to_string(), 1)]
    );

    store.cleanup();
    assert!(store.fetch().is_none());
}

#[test]
fn visit_copies_are_equal() {
    let v = SecretVisit::new("kv", "a");
    assert_eq!(v.count, 1);
    let d = v.duplicate();
    assert_eq!(places(&[d]), places(&[v]));
}
