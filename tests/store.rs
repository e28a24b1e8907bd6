use intellij_hosts::model::{HostsEntry, HostsError, HostsProfile};
use intellij_hosts::store::ProfileStore;
use intellij_hosts::apply::apply_profile;
use intellij_hosts::paths::Platform;

fn profile(id: &str, name: &str) -> HostsProfile {
    HostsProfile {
        id: id.to_string(),
        name: name.to_string(),
        description: None,
        entries: vec![HostsEntry {
            ip: "127.0.0.1".to_string(),
            domain: format!("{}.test", id),
            comment: None,
            enabled: true,
        }],
        created_at: "2024-01-01".to_string(),
        updated_at: "2024-01-01".to_string(),
    }
}

fn ids_and_names(s: &ProfileStore) -> Vec<(String, String)> {
    s.get_profiles().iter().map(|p| (p.id.clone(), p.name.clone())).collect()
}

#[test]
fn new_store_is_cold_and_empty() {
    let s = ProfileStore::new();
    assert!(!s.is_warm());
    assert!(s.get_profiles().is_empty());
}

#[test]
fn save_appends_then_replaces_by_id() {
    let mut s = ProfileStore::new();
    s.save_profile(profile("a", "A"));
    s.save_profile(profile("b", "B"));
    s.save_profile(profile("a", "A2"));
    assert!(s.is_warm());
    assert_eq!(
        ids_and_names(&s),
        vec![("a".to_string(), "A2".to_string()), ("b".to_string(), "B".to_string())]
    );
}

#[test]
fn saving_twice_changes_nothing_more() {
    let mut s = ProfileStore::new();
    s.save_profile(profile("x", "X"));
    s.save_profile(profile("a", "A"));
    let once = ids_and_names(&s);
    s.save_profile(profile("a", "A"));
    assert_eq!(ids_and_names(&s), once);
    assert_eq!(s.get_profiles().len(), 2);
}

#[test]
fn delete_removes_or_reports_not_found() {
    let mut s = ProfileStore::new();
    s.save_profile(profile("a", "A"));
    s.save_profile(profile("b", "B"));
    assert!(s.delete_profile(&"a".to_string()).is_ok());
    assert_eq!(ids_and_names(&s), vec![("b".to_string(), "B".to_string())]);
    let r = s.delete_profile(&"zzz".to_string());
    assert!(matches!(r, Err(HostsError::NotFound(ref m)) if m == "Profile not found"));
    assert_eq!(s.get_profiles().len(), 1);
}

#[test]
fn delete_then_apply_fails_not_found() {
    let mut s = ProfileStore::new();
    s.save_profile(profile("a", "A"));
    assert!(apply_profile(&s, &"a".to_string(), Platform::MacOs).is_ok());
    s.delete_profile(&"a".to_string()).unwrap();
    let r = apply_profile(&s, &"a".to_string(), Platform::MacOs);
    assert!(matches!(r, Err(HostsError::NotFound(_))));
}

#[test]
fn import_merges_by_id_and_returns_imported() {
    let mut s = ProfileStore::new();
    s.save_profile(profile("a", "Old"));
    let imported = vec![profile("a", "New"), profile("b", "Extra")];
    let back = s.import_profiles(imported);
    assert_eq!(
        ids_and_names(&s),
        vec![("a".to_string(), "New".to_string()), ("b".to_string(), "Extra".to_string())]
    );
    let names: Vec<String> = back.iter().map(|p| p.name.clone()).collect();
    assert_eq!(names, vec!["New".to_string(), "Extra".to_string()]);
}

#[test]
fn load_accepts_unique_ids_and_refuses_repeats() {
    let mut s = ProfileStore::new();
    assert!(s.load(vec![profile("a", "A"), profile("b", "B")]).is_ok());
    assert_eq!(s.get_profiles().len(), 2);
    let r = s.load(vec![profile("c", "C"), profile("c", "C2")]);
    assert!(matches!(r, Err(HostsError::Malformed(_))));
    assert_eq!(ids_and_names(&s)[0].0, "a");
}

#[test]
fn position_finds_the_id() {
    let mut s = ProfileStore::new();
    s.save_profile(profile("a", "A"));
    s.save_profile(profile("b", "B"));
    assert_eq!(s.position(&"b".to_string()), Some(1));
    assert_eq!(s.position(&"c".to_string()), None);
}

#[test]
fn duplicate_copies_every_field() {
    let p = profile("a", "A");
    let q = p.duplicate();
    assert_eq!(q.id, "a");
    assert_eq!(q.entries.len(), 1);
    assert_eq!(q.entries[0].domain, "a.test");
}
