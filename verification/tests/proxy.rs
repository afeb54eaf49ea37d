use shared::proxy::{Profile, ProfileError, ProfileStore, Rule, RuleStore, Source, Target};
use shared::store::Tree;

fn rule(id: &str, active: bool, ignored: bool, amt: u64) -> Rule {
    Rule {
        id: id.to_string(),
        name: format!("name-{id}"),
        target: Target::Host,
        amt,
        active,
        ignored,
    }
}

#[test]
fn new_profile_is_named_by_its_address() {
    let url = "https://example.com/sub";
    let p = Profile::new(url);
    let expected = uuid::Uuid::new_v5(&uuid::Uuid::NAMESPACE_URL, url.as_bytes()).to_string();
    assert_eq!(p.id, expected);
    assert_ne!(p.id, url);
    assert_eq!(p.source_url(), url);
    assert_eq!(p.name, None);
    assert_eq!(p.update_interval, 3600);
    assert!(p.enabled);
    assert_eq!(Profile::new(url).id, p.id);
    assert_ne!(Profile::new("https://other.example").id, p.id);
}

#[test]
fn default_profile_is_empty_and_enabled() {
    let p = Profile::default();
    assert_eq!(p.id, "");
    assert_eq!(p.source_url(), "");
    assert!(matches!(p.source, Source::Remote(ref u) if u.is_empty()));
    assert_eq!(p.update_interval, 3600);
    assert!(p.enabled);
}

#[test]
fn toggling_twice_restores_the_profile() {
    let mut p = Profile::new("https://a");
    p.toggle();
    assert!(!p.enabled);
    p.toggle();
    assert!(p.enabled);
}

#[test]
fn profile_store_reads_back_writes() {
    let mut store = ProfileStore::new();
    assert!(store.all().is_empty());
    let a = Profile::new("https://a");
    let b = Profile::new("https://b");
    store.add(&a);
    store.add(&b);
    assert_eq!(store.get(&a.id).unwrap().source_url(), "https://a");
    assert_eq!(store.get(&b.id).unwrap().source_url(), "https://b");
    assert!(store.get("missing").is_none());

    let mut ids: Vec<String> = vec![a.id.clone(), b.id.clone()];
    ids.sort();
    let listed: Vec<String> = store.all().into_iter().map(|p| p.id).collect();
    assert_eq!(listed, ids);

    store.delete(&a.id);
    assert!(store.get(&a.id).is_none());
    assert!(store.get(&b.id).is_some());
    assert_eq!(store.all().len(), 1);
}

#[test]
fn toggle_profile_reports_new_state_or_not_found() {
    let mut store = ProfileStore::new();
    let a = Profile::new("https://a");
    store.add(&a);
    assert_eq!(store.toggle_profile(&a.id), Ok(false));
    assert!(!store.get(&a.id).unwrap().enabled);
    assert_eq!(store.toggle_profile(&a.id), Ok(true));
    assert_eq!(store.toggle_profile("nope"), Err(ProfileError::NotFound));
    assert_eq!(store.all().len(), 1);
}

#[test]
fn providers_lists_enabled_profiles() {
    let mut store = ProfileStore::new();
    let a = Profile::new("https://a");
    let b = Profile::new("https://b");
    store.add(&a);
    store.add(&b);
    store.toggle_profile(&a.id).unwrap();
    assert_eq!(store.providers(), vec![(b.id.clone(), "https://b".to_string())]);
    store.toggle_profile(&a.id).unwrap();
    assert_eq!(store.providers().len(), 2);
}

#[test]
fn rule_store_keeps_routable_rules() {
    let mut store = RuleStore::new();
    store.upsert(&rule("c", true, false, 3));
    store.upsert(&rule("a", true, true, 1));
    store.upsert(&rule("b", false, false, 2));
    store.upsert(&rule("d", true, false, 4));
    let ids: Vec<String> = store.routable().into_iter().map(|r| r.id).collect();
    assert_eq!(ids, vec!["c", "d"]);
    let all: Vec<String> = store.extract().into_iter().map(|r| r.id).collect();
    assert_eq!(all, vec!["a", "b", "c", "d"]);

    store.upsert(&rule("c", true, false, 9));
    let c = store.get("c").unwrap();
    assert_eq!(c.amt, 9);
    assert_eq!(c.name, "name-c");
    assert_eq!(store.extract().len(), 4);
    assert!(store.get("zz").is_none());
}

#[test]
fn tree_orders_keys_and_replaces_values() {
    let mut t: Tree<Rule> = Tree::new();
    assert_eq!(t.len(), 0);
    t.save("b", rule("b", true, false, 1));
    t.save("a", rule("a", true, false, 1));
    t.save("b", rule("b", true, false, 7));
    assert_eq!(t.len(), 2);
    assert_eq!(t.get("b").unwrap().amt, 7);
    let keys: Vec<String> = t.all().into_iter().map(|r| r.id).collect();
    assert_eq!(keys, vec!["a", "b"]);
    t.delete("a");
    t.delete("missing");
    assert_eq!(t.len(), 1);
    assert!(t.get("a").is_none());
}
