use antigravity_core::device::{
    apply_device_profile, apply_device_profile_at, apply_profile_to_account,
    apply_profile_to_account_with, bind_device_profile, bind_device_profile_with,
    bind_device_profile_with_profile, delete_device_version, parse_bind_mode, BindMode,
    get_device_profiles, list_device_versions, restore_device_version, restore_original_device,
};
use antigravity_core::model::{Account, DeviceProfile, TokenData};

fn account() -> Account {
    let token = TokenData::new("a".into(), "r".into(), 10, None, None, None, 0);
    Account::new("id".into(), "a@x".into(), token, 1)
}

fn profile(tag: &str) -> DeviceProfile {
    DeviceProfile {
        machine_id: format!("machine-{}", tag),
        mac_machine_id: format!("mac-{}", tag),
        dev_device_id: format!("dev-{}", tag),
        sqm_id: format!("sqm-{}", tag),
    }
}

fn current_flags(account: &Account) -> Vec<bool> {
    account.device_history.iter().map(|h| h.is_current).collect()
}

#[test]
fn bind_with_profile_and_no_label_stores_generated() {
    let mut a = account();
    let bound = bind_device_profile_with_profile(&mut a, profile("p"), None);
    assert_eq!(bound.machine_id, "machine-p");
    assert_eq!(a.device_profile.as_ref().unwrap().sqm_id, "sqm-p");
    assert_eq!(a.device_history.len(), 1);
    assert_eq!(a.device_history[0].label, "generated");
    assert!(a.device_history[0].is_current);
    assert_eq!(a.device_history[0].id.len(), 36);
    assert!(a.device_history[0].created_at > 1_600_000_000);
    assert_eq!(a.device_history[0].profile.dev_device_id, "dev-p");
}

#[test]
fn bind_with_profile_keeps_a_given_label() {
    let mut a = account();
    bind_device_profile_with_profile(&mut a, profile("p"), Some("mine".to_string()));
    assert_eq!(a.device_history[0].label, "mine");
}

#[test]
fn each_bind_marks_only_the_new_version_as_current() {
    let mut a = account();
    apply_profile_to_account_with(&mut a, profile("1"), None, true, "v1".into(), 10);
    apply_profile_to_account_with(&mut a, profile("2"), Some("x".into()), true, "v2".into(), 20);
    apply_profile_to_account_with(&mut a, profile("3"), None, true, "v3".into(), 30);
    assert_eq!(current_flags(&a), vec![false, false, true]);
    let ids: Vec<&str> = a.device_history.iter().map(|h| h.id.as_str()).collect();
    assert_eq!(ids, vec!["v1", "v2", "v3"]);
    assert_eq!(a.device_history[1].label, "x");
    assert_eq!(a.device_history[2].created_at, 30);
    assert_eq!(a.device_profile.as_ref().unwrap().machine_id, "machine-3");
}

#[test]
fn binding_without_history_only_sets_the_profile() {
    let mut a = account();
    apply_profile_to_account_with(&mut a, profile("1"), None, true, "v1".into(), 10);
    apply_profile_to_account_with(&mut a, profile("2"), None, false, "v2".into(), 20);
    assert_eq!(a.device_history.len(), 1);
    assert_eq!(current_flags(&a), vec![true]);
    assert_eq!(a.device_profile.as_ref().unwrap().machine_id, "machine-2");
    apply_profile_to_account(&mut a, profile("3"), None, false);
    assert_eq!(a.device_history.len(), 1);
    assert_eq!(a.device_profile.as_ref().unwrap().machine_id, "machine-3");
}

#[test]
fn bind_accepts_only_the_two_modes() {
    assert_eq!(parse_bind_mode("capture").unwrap(), BindMode::Capture);
    assert_eq!(parse_bind_mode("generate").unwrap(), BindMode::Generate);
    for bad in ["steal", "", "Capture", "generate ", "capture\n"] {
        assert_eq!(parse_bind_mode(bad).unwrap_err(), "mode must be 'capture' or 'generate'");
    }

    let mut a = account();
    let bound = bind_device_profile(&mut a, BindMode::Capture, profile("c"));
    assert_eq!(bound.machine_id, "machine-c");
    assert_eq!(a.device_history[0].label, "capture");
    assert_eq!(a.device_history[0].id.len(), 36);
    let bound = bind_device_profile_with(&mut a, BindMode::Generate, profile("g"), "vg".into(), 9);
    assert_eq!(bound.machine_id, "machine-g");
    assert_eq!(a.device_history[1].label, "generate");
    assert_eq!(a.device_history[1].id, "vg");
    assert_eq!(a.device_history[1].created_at, 9);
    assert_eq!(current_flags(&a), vec![false, true]);
    assert_eq!(a.device_profile.as_ref().unwrap().machine_id, "machine-g");
}

fn with_versions() -> Account {
    let mut a = account();
    apply_profile_to_account_with(&mut a, profile("1"), None, true, "v1".into(), 10);
    apply_profile_to_account_with(&mut a, profile("2"), None, true, "v2".into(), 20);
    apply_profile_to_account_with(&mut a, profile("3"), None, true, "v3".into(), 30);
    a
}

#[test]
fn delete_refuses_baseline_and_current() {
    let mut a = with_versions();
    assert_eq!(
        delete_device_version(&mut a, "baseline").unwrap_err(),
        "Original profile cannot be deleted"
    );
    assert_eq!(
        delete_device_version(&mut a, "v3").unwrap_err(),
        "Currently bound profile cannot be deleted"
    );
    assert_eq!(
        delete_device_version(&mut a, "v9").unwrap_err(),
        "Historical device profile not found"
    );
    assert_eq!(a.device_history.len(), 3);
    delete_device_version(&mut a, "v1").unwrap();
    let ids: Vec<&str> = a.device_history.iter().map(|h| h.id.as_str()).collect();
    assert_eq!(ids, vec!["v2", "v3"]);
    assert_eq!(current_flags(&a), vec![false, true]);
    assert_eq!(a.device_profile.as_ref().unwrap().machine_id, "machine-3");
}

#[test]
fn restore_version_binds_it_and_marks_it() {
    let mut a = with_versions();
    let restored = restore_device_version(&mut a, "v1", None).unwrap();
    assert_eq!(restored.machine_id, "machine-1");
    assert_eq!(a.device_profile.as_ref().unwrap().machine_id, "machine-1");
    assert_eq!(current_flags(&a), vec![true, false, false]);
}

#[test]
fn restore_baseline_needs_the_original() {
    let mut a = with_versions();
    assert_eq!(
        restore_device_version(&mut a, "baseline", None).unwrap_err(),
        "Global original profile not found"
    );
    assert_eq!(current_flags(&a), vec![false, false, true]);
    let restored = restore_device_version(&mut a, "baseline", Some(profile("orig"))).unwrap();
    assert_eq!(restored.machine_id, "machine-orig");
    assert_eq!(a.device_profile.as_ref().unwrap().machine_id, "machine-orig");
    assert_eq!(current_flags(&a), vec![false, false, false]);
}

#[test]
fn restore_current_keeps_the_bound_profile() {
    let mut a = with_versions();
    let restored = restore_device_version(&mut a, "current", None).unwrap();
    assert_eq!(restored.machine_id, "machine-3");
    assert_eq!(current_flags(&a), vec![false, false, false]);
    let mut empty = account();
    assert_eq!(
        restore_device_version(&mut empty, "current", None).unwrap_err(),
        "No currently bound profile"
    );
    assert_eq!(
        restore_device_version(&mut empty, "v1", None).unwrap_err(),
        "Device profile version not found"
    );
}

#[test]
fn a_version_named_current_wins_over_the_bound_profile() {
    let mut a = account();
    apply_profile_to_account_with(&mut a, profile("old"), None, true, "current".into(), 10);
    apply_profile_to_account_with(&mut a, profile("new"), None, true, "v2".into(), 20);
    let restored = restore_device_version(&mut a, "current", None).unwrap();
    assert_eq!(restored.machine_id, "machine-old");
    assert_eq!(current_flags(&a), vec![true, false]);
}

#[test]
fn apply_gives_the_bound_profile_and_counts_as_use() {
    let mut a = with_versions();
    let p = apply_device_profile_at(&mut a, 999).unwrap();
    assert_eq!(p.machine_id, "machine-3");
    assert_eq!(a.last_used, 999);
    let p = apply_device_profile(&mut a).unwrap();
    assert_eq!(p.machine_id, "machine-3");
    assert!(a.last_used > 1_600_000_000);
    let mut empty = account();
    assert_eq!(
        apply_device_profile_at(&mut empty, 5).unwrap_err(),
        "Account has no bound device profile"
    );
    assert_eq!(empty.last_used, 1);
}

#[test]
fn restore_original_needs_account_and_original() {
    let (restored, message) =
        restore_original_device(Some(with_versions()), Some(profile("orig"))).unwrap();
    assert_eq!(
        message,
        "Reset current account bound profile to original (not applied to storage)"
    );
    assert_eq!(restored.device_profile.as_ref().unwrap().machine_id, "machine-orig");
    assert_eq!(current_flags(&restored), vec![false, false, false]);
    assert_eq!(
        restore_original_device(None, Some(profile("orig"))).unwrap_err(),
        "Original profile not found, cannot restore"
    );
    assert_eq!(
        restore_original_device(Some(account()), None).unwrap_err(),
        "Original profile not found, cannot restore"
    );
}

#[test]
fn profiles_of_an_account_are_put_together() {
    let a = with_versions();
    let all = get_device_profiles(&a, Some(profile("storage")), None);
    assert_eq!(all.current_storage.unwrap().machine_id, "machine-storage");
    assert_eq!(all.bound_profile.unwrap().machine_id, "machine-3");
    assert_eq!(all.history.len(), 3);
    assert!(all.baseline.is_none());
    let all = list_device_versions(&account(), None, Some(profile("base")));
    assert!(all.current_storage.is_none());
    assert!(all.bound_profile.is_none());
    assert!(all.history.is_empty());
    assert_eq!(all.baseline.unwrap().sqm_id, "sqm-base");
}
