use antigravity_core::account::{
    add_account, add_account_with, delete_account, delete_accounts, export_accounts,
    export_accounts_by_ids, find_account_id_by_email, get_current_account, get_current_account_id,
    list_accounts, load_account, mark_account_forbidden, mark_account_forbidden_at,
    reorder_accounts, set_current_account_id, toggle_proxy_status, toggle_proxy_status_at,
    upsert_account, upsert_account_with,
};
use antigravity_core::model::{summary_of, Account, AccountIndex, QuotaData, TokenData};

fn token(access: &str, refresh: &str) -> TokenData {
    TokenData::new(access.to_string(), refresh.to_string(), 3600, None, None, None, 1000)
}

fn index_of(entries: &[(&str, &str)]) -> (AccountIndex, Vec<Account>) {
    let mut index = AccountIndex::new();
    let mut details = Vec::new();
    for (i, (id, email)) in entries.iter().enumerate() {
        let account = add_account_with(
            &mut index,
            id.to_string(),
            100 + i as i64,
            email.to_string(),
            None,
            token("access", "refresh"),
        )
        .unwrap();
        details.push(account);
    }
    (index, details)
}

fn ids(index: &AccountIndex) -> Vec<&str> {
    index.accounts.iter().map(|s| s.id.as_str()).collect()
}

fn strings(list: &[&str]) -> Vec<String> {
    list.iter().map(|s| s.to_string()).collect()
}

#[test]
fn token_expiry_is_the_sum_kept_in_range() {
    let t = TokenData::new("a".into(), "r".into(), 3600, Some("e".into()), None, None, 1000);
    assert_eq!(t.expiry_timestamp, 4600);
    assert_eq!(t.expires_in, 3600);
    assert_eq!(t.token_type, "Bearer");
    assert_eq!(t.email, Some("e".to_string()));
    let t = TokenData::new("a".into(), "r".into(), i64::MAX, None, None, None, 5);
    assert_eq!(t.expiry_timestamp, i64::MAX);
    let t = TokenData::new("a".into(), "r".into(), i64::MIN, None, None, None, -5);
    assert_eq!(t.expiry_timestamp, i64::MIN);
    let t = TokenData::new("a".into(), "r".into(), -10, None, None, None, 4);
    assert_eq!(t.expiry_timestamp, -6);
}

#[test]
fn add_appends_summary_and_sets_first_current() {
    let mut index = AccountIndex::new();
    let a = add_account_with(
        &mut index,
        "id-1".into(),
        50,
        "a@x".into(),
        Some("Ann".into()),
        token("at", "rt"),
    )
    .unwrap();
    assert_eq!(a.id, "id-1");
    assert_eq!(a.email, "a@x");
    assert_eq!(a.name, Some("Ann".to_string()));
    assert_eq!(a.created_at, 50);
    assert_eq!(a.last_used, 50);
    assert!(!a.disabled && !a.proxy_disabled);
    assert!(a.quota.is_none() && a.device_profile.is_none());
    assert!(a.device_history.is_empty() && a.protected_models.is_empty());
    assert_eq!(a.token.access_token, "at");
    assert_eq!(ids(&index), vec!["id-1"]);
    assert_eq!(index.accounts[0].name, Some("Ann".to_string()));
    assert_eq!(index.accounts[0].created_at, 50);
    assert_eq!(index.current_account_id, Some("id-1".to_string()));

    add_account_with(&mut index, "id-2".into(), 60, "b@x".into(), None, token("at", "rt")).unwrap();
    assert_eq!(ids(&index), vec!["id-1", "id-2"]);
    assert_eq!(index.current_account_id, Some("id-1".to_string()));
}

#[test]
fn add_rejects_a_known_email() {
    let (mut index, _) = index_of(&[("1", "a@x"), ("2", "b@x")]);
    let err = add_account_with(&mut index, "3".into(), 1, "b@x".into(), None, token("a", "r"))
        .unwrap_err();
    assert_eq!(err, "Account already exists: b@x");
    assert_eq!(ids(&index), vec!["1", "2"]);
    let err = add_account(&mut index, "a@x".into(), None, token("a", "r")).unwrap_err();
    assert_eq!(err, "Account already exists: a@x");
}

#[test]
fn add_gives_fresh_ids_and_the_time() {
    let mut index = AccountIndex::new();
    let a = add_account(&mut index, "a@x".into(), None, token("a", "r")).unwrap();
    let b = add_account(&mut index, "b@x".into(), None, token("a", "r")).unwrap();
    assert_eq!(a.id.len(), 36);
    assert_ne!(a.id, b.id);
    assert!(a.created_at > 1_600_000_000);
    assert_eq!(a.created_at, a.last_used);
    assert_eq!(index.current_account_id, Some(a.id.clone()));
    assert_eq!(index.accounts[1].id, b.id);
}

#[test]
fn upsert_of_a_disabled_account_with_new_token_enables_it() {
    let (mut index, mut details) = index_of(&[("1", "a@x")]);
    let mut stored = details.remove(0);
    stored.disabled = true;
    stored.disabled_reason = Some("invalid_grant: gone".to_string());
    stored.disabled_at = Some(77);
    let result = upsert_account_with(
        &mut index,
        Some(stored),
        "unused".into(),
        500,
        "a@x".into(),
        Some("New".into()),
        token("access", "other-refresh"),
    );
    assert_eq!(result.id, "1");
    assert!(!result.disabled);
    assert_eq!(result.disabled_reason, None);
    assert_eq!(result.disabled_at, None);
    assert_eq!(result.token.refresh_token, "other-refresh");
    assert_eq!(result.name, Some("New".to_string()));
    assert_eq!(result.last_used, 500);
    assert_eq!(result.created_at, 100);
    assert_eq!(index.accounts[0].name, Some("New".to_string()));
    assert_eq!(ids(&index), vec!["1"]);
}

#[test]
fn upsert_with_the_same_token_keeps_an_account_disabled() {
    let (mut index, mut details) = index_of(&[("1", "a@x")]);
    let mut stored = details.remove(0);
    stored.disabled = true;
    stored.disabled_reason = Some("why".to_string());
    stored.disabled_at = Some(77);
    let result = upsert_account_with(
        &mut index,
        Some(stored),
        "unused".into(),
        500,
        "a@x".into(),
        None,
        token("access", "refresh"),
    );
    assert!(result.disabled);
    assert_eq!(result.disabled_reason, Some("why".to_string()));
    assert_eq!(result.disabled_at, Some(77));
    assert_eq!(result.last_used, 500);
}

#[test]
fn upsert_with_a_new_access_token_enables_too() {
    let (mut index, mut details) = index_of(&[("1", "a@x")]);
    let mut stored = details.remove(0);
    stored.disabled = true;
    let result = upsert_account_with(
        &mut index,
        Some(stored),
        "unused".into(),
        500,
        "a@x".into(),
        None,
        token("other-access", "refresh"),
    );
    assert!(!result.disabled);
}

#[test]
fn upsert_without_a_record_makes_one_under_the_same_id() {
    let (mut index, _) = index_of(&[("1", "a@x"), ("2", "b@x")]);
    let result = upsert_account_with(
        &mut index,
        None,
        "unused".into(),
        900,
        "b@x".into(),
        Some("Bea".into()),
        token("at", "rt"),
    );
    assert_eq!(result.id, "2");
    assert_eq!(result.email, "b@x");
    assert_eq!(result.created_at, 900);
    assert_eq!(result.name, Some("Bea".to_string()));
    assert_eq!(ids(&index), vec!["1", "2"]);
    assert_eq!(index.accounts[1].name, Some("Bea".to_string()));
    assert_eq!(index.accounts[0].name, None);
}

#[test]
fn upsert_of_an_unknown_email_adds() {
    let (mut index, _) = index_of(&[("1", "a@x")]);
    let result = upsert_account_with(
        &mut index,
        None,
        "new-id".into(),
        900,
        "z@x".into(),
        None,
        token("at", "rt"),
    );
    assert_eq!(result.id, "new-id");
    assert_eq!(ids(&index), vec!["1", "new-id"]);
    assert_eq!(index.current_account_id, Some("1".to_string()));
    let again = upsert_account(&mut index, None, "y@x".into(), None, token("at", "rt"));
    assert_eq!(again.id.len(), 36);
    assert_eq!(index.accounts.len(), 3);
}

#[test]
fn delete_of_current_moves_current_to_first_remaining() {
    let (mut index, _) = index_of(&[("1", "a@x"), ("2", "b@x"), ("3", "c@x")]);
    assert_eq!(index.current_account_id, Some("1".to_string()));
    delete_account(&mut index, "1").unwrap();
    assert_eq!(ids(&index), vec!["2", "3"]);
    assert_eq!(index.current_account_id, Some("2".to_string()));
    delete_account(&mut index, "3").unwrap();
    assert_eq!(index.current_account_id, Some("2".to_string()));
    delete_account(&mut index, "2").unwrap();
    assert!(index.accounts.is_empty());
    assert_eq!(index.current_account_id, None);
}

#[test]
fn delete_of_an_unknown_id_fails() {
    let (mut index, _) = index_of(&[("1", "a@x")]);
    assert_eq!(delete_account(&mut index, "9").unwrap_err(), "Account ID not found: 9");
    assert_eq!(ids(&index), vec!["1"]);
    assert_eq!(index.current_account_id, Some("1".to_string()));
}

#[test]
fn delete_many_deletes_all_named_and_fixes_current() {
    let (mut index, _) = index_of(&[("1", "a@x"), ("2", "b@x"), ("3", "c@x"), ("4", "d@x")]);
    set_current_account_id(&mut index, "3").unwrap();
    delete_accounts(&mut index, &strings(&["3", "1", "nope"]));
    assert_eq!(ids(&index), vec!["2", "4"]);
    assert_eq!(index.current_account_id, Some("2".to_string()));

    let (mut index, _) = index_of(&[("1", "a@x"), ("2", "b@x"), ("3", "c@x")]);
    set_current_account_id(&mut index, "3").unwrap();
    delete_accounts(&mut index, &strings(&["1"]));
    assert_eq!(ids(&index), vec!["2", "3"]);
    assert_eq!(index.current_account_id, Some("3".to_string()));

    delete_accounts(&mut index, &strings(&["2", "3"]));
    assert!(index.accounts.is_empty());
    assert_eq!(index.current_account_id, None);
}

#[test]
fn delete_many_activates_no_account_where_none_was_active() {
    let (mut index, _) = index_of(&[("1", "a@x"), ("2", "b@x"), ("3", "c@x")]);
    index.current_account_id = None;
    delete_accounts(&mut index, &Vec::new());
    assert_eq!(index.current_account_id, None);
    delete_accounts(&mut index, &strings(&["1"]));
    assert_eq!(index.current_account_id, None);
    assert_eq!(ids(&index), vec!["2", "3"]);
}

#[test]
fn delete_many_does_what_single_deletions_do() {
    let (mut at_once, _) = index_of(&[("1", "a@x"), ("2", "b@x"), ("3", "c@x"), ("4", "d@x")]);
    let (mut in_turn, _) = index_of(&[("1", "a@x"), ("2", "b@x"), ("3", "c@x"), ("4", "d@x")]);
    delete_accounts(&mut at_once, &strings(&["1", "3"]));
    delete_account(&mut in_turn, "1").unwrap();
    delete_account(&mut in_turn, "3").unwrap();
    assert_eq!(ids(&at_once), ids(&in_turn));
    assert_eq!(at_once.current_account_id, in_turn.current_account_id);
    assert_eq!(at_once.current_account_id, Some("2".to_string()));
}

#[test]
fn reorder_appends_missing_accounts_in_their_order() {
    let (mut index, _) = index_of(&[("1", "a@x"), ("2", "b@x"), ("3", "c@x"), ("4", "d@x")]);
    reorder_accounts(&mut index, &strings(&["3", "1"]));
    assert_eq!(ids(&index), vec!["3", "1", "2", "4"]);
    assert_eq!(index.current_account_id, Some("1".to_string()));
    reorder_accounts(&mut index, &strings(&["4", "unknown", "2", "1", "3"]));
    assert_eq!(ids(&index), vec!["4", "2", "1", "3"]);
    reorder_accounts(&mut index, &Vec::new());
    assert_eq!(ids(&index), vec!["4", "2", "1", "3"]);
}

#[test]
fn reorder_takes_a_summary_once_however_often_it_is_named() {
    let (mut index, _) = index_of(&[("1", "a@x"), ("2", "b@x"), ("3", "c@x")]);
    reorder_accounts(&mut index, &strings(&["2", "2"]));
    assert_eq!(ids(&index), vec!["2", "1", "3"]);
    reorder_accounts(&mut index, &strings(&["3", "1", "3", "zz", "1", "2", "3"]));
    assert_eq!(ids(&index), vec!["3", "1", "2"]);
    let (mut one, _) = index_of(&[("1", "a@x")]);
    reorder_accounts(&mut one, &strings(&["1", "1"]));
    assert_eq!(ids(&one), vec!["1"]);
}

#[test]
fn reorder_loses_no_summary_even_where_two_share_an_id() {
    let (mut index, _) = index_of(&[("1", "a@x"), ("2", "b@x"), ("1", "c@x")]);
    reorder_accounts(&mut index, &strings(&["2", "1"]));
    let emails: Vec<&str> = index.accounts.iter().map(|s| s.email.as_str()).collect();
    assert_eq!(emails, vec!["b@x", "a@x", "c@x"]);
}

#[test]
fn current_can_be_set_and_read() {
    let (mut index, details) = index_of(&[("1", "a@x"), ("2", "b@x")]);
    assert_eq!(get_current_account_id(&index), Some("1".to_string()));
    set_current_account_id(&mut index, "2").unwrap();
    assert_eq!(get_current_account_id(&index), Some("2".to_string()));
    let current = get_current_account(&index, &details).unwrap().unwrap();
    assert_eq!(current.email, "b@x");
    assert_eq!(
        set_current_account_id(&mut index, "ghost").unwrap_err(),
        "Account not found: ghost"
    );
    assert_eq!(get_current_account_id(&index), Some("2".to_string()));
    index.current_account_id = Some("ghost".to_string());
    assert_eq!(
        get_current_account(&index, &details).unwrap_err(),
        "failed_to_read_account_data: no record of account ghost"
    );
    index.current_account_id = None;
    assert!(get_current_account(&index, &details).unwrap().is_none());
    assert_eq!(get_current_account_id(&index), None);
}

#[test]
fn find_by_email_gives_the_id() {
    let (index, _) = index_of(&[("1", "a@x"), ("2", "b@x")]);
    assert_eq!(find_account_id_by_email(&index, "b@x"), Some("2".to_string()));
    assert_eq!(find_account_id_by_email(&index, "B@x"), None);
    assert_eq!(find_account_id_by_email(&AccountIndex::new(), "b@x"), None);
}

#[test]
fn toggle_proxy_status_marks_record_and_summary() {
    let (mut index, mut details) = index_of(&[("1", "a@x"), ("2", "b@x")]);
    let mut account = details.remove(1);
    let listed =
        toggle_proxy_status_at("2", &mut account, &mut index, false, Some("manual"), 123);
    assert!(listed);
    assert!(account.proxy_disabled);
    assert_eq!(account.proxy_disabled_reason, Some("manual".to_string()));
    assert_eq!(account.proxy_disabled_at, Some(123));
    assert!(index.accounts[1].proxy_disabled);
    assert!(!index.accounts[0].proxy_disabled);

    let listed = toggle_proxy_status_at("2", &mut account, &mut index, true, Some("x"), 456);
    assert!(listed);
    assert!(!account.proxy_disabled);
    assert_eq!(account.proxy_disabled_reason, None);
    assert_eq!(account.proxy_disabled_at, None);
    assert!(!index.accounts[1].proxy_disabled);

    let listed = toggle_proxy_status("nope", &mut account, &mut index, false, None);
    assert!(!listed);
    assert!(account.proxy_disabled);
    assert_eq!(account.proxy_disabled_reason, None);
    assert!(account.proxy_disabled_at.unwrap() > 1_600_000_000);
    assert!(!index.accounts[1].proxy_disabled);
}

#[test]
fn forbidden_account_is_marked_and_kept_from_the_proxy() {
    let (mut index, mut details) = index_of(&[("1", "a@x")]);
    let mut account = details.remove(0);
    let listed = mark_account_forbidden_at("1", &mut account, &mut index, "banned", 42);
    assert!(listed);
    let quota = account.quota.as_ref().unwrap();
    assert!(quota.is_forbidden);
    assert_eq!(quota.forbidden_reason, Some("banned".to_string()));
    assert_eq!(quota.last_updated, 42);
    assert!(quota.models.is_empty());
    assert!(account.proxy_disabled);
    assert_eq!(account.proxy_disabled_reason, Some("Forbidden (403): banned".to_string()));
    assert_eq!(account.proxy_disabled_at, Some(42));
    assert!(index.accounts[0].proxy_disabled);
}

#[test]
fn forbidden_keeps_the_quota_that_is_there() {
    let (mut index, mut details) = index_of(&[("1", "a@x")]);
    let mut account = details.remove(0);
    let mut quota = QuotaData::new(7);
    quota.subscription_tier = Some("pro".to_string());
    account.quota = Some(quota);
    mark_account_forbidden("1", &mut account, &mut index, "again");
    let quota = account.quota.as_ref().unwrap();
    assert!(quota.is_forbidden);
    assert_eq!(quota.last_updated, 7);
    assert_eq!(quota.subscription_tier, Some("pro".to_string()));
    assert_eq!(quota.forbidden_reason, Some("again".to_string()));
    assert!(account.proxy_disabled_at.unwrap() > 1_600_000_000);
}

#[test]
fn listing_follows_the_index_and_skips_missing_records() {
    let (mut index, mut details) = index_of(&[("1", "a@x"), ("2", "b@x"), ("3", "c@x")]);
    details.remove(1);
    details.reverse();
    reorder_accounts(&mut index, &strings(&["3", "2", "1"]));
    let listed = list_accounts(&index, &details);
    let listed_ids: Vec<&str> = listed.iter().map(|a| a.id.as_str()).collect();
    assert_eq!(listed_ids, vec!["3", "1"]);
    assert_eq!(ids(&index), vec!["3", "2", "1"]);
    assert_eq!(load_account(&details, "3").unwrap().email, "c@x");
    assert_eq!(
        load_account(&details, "2").unwrap_err(),
        "failed_to_read_account_data: no record of account 2"
    );
}

#[test]
fn export_projects_email_and_refresh_token() {
    let (index, mut details) = index_of(&[("1", "a@x"), ("2", "b@x"), ("3", "c@x")]);
    details[1].token.refresh_token = "rt-b".to_string();
    let all = export_accounts(&index, &details);
    assert_eq!(
        all,
        vec![
            ("a@x".to_string(), "refresh".to_string()),
            ("b@x".to_string(), "rt-b".to_string()),
            ("c@x".to_string(), "refresh".to_string()),
        ]
    );
    let some = export_accounts_by_ids(&index, &details, &strings(&["3", "2", "zz"]));
    let pairs: Vec<(&str, &str)> =
        some.accounts.iter().map(|i| (i.email.as_str(), i.refresh_token.as_str())).collect();
    assert_eq!(pairs, vec![("b@x", "rt-b"), ("c@x", "refresh")]);
    assert!(export_accounts_by_ids(&index, &details, &Vec::new()).accounts.is_empty());
}

#[test]
fn summary_repeats_the_record() {
    let (_, details) = index_of(&[("1", "a@x")]);
    let summary = summary_of(&details[0]);
    assert_eq!(summary.id, "1");
    assert_eq!(summary.email, "a@x");
    assert_eq!(summary.created_at, 100);
    assert_eq!(summary.last_used, 100);
}

#[test]
fn the_next_account_follows_the_active_one_in_a_circle() {
    let (_, details) = index_of(&[("1", "a@x"), ("2", "b@x"), ("3", "c@x")]);
    assert_eq!(
        antigravity_core::account::next_account_id(&details, Some("1")),
        Some("2".to_string())
    );
    assert_eq!(
        antigravity_core::account::next_account_id(&details, Some("3")),
        Some("1".to_string())
    );
    assert_eq!(
        antigravity_core::account::next_account_id(&details, Some("gone")),
        Some("2".to_string())
    );
    assert_eq!(antigravity_core::account::next_account_id(&details, None), Some("1".to_string()));
    assert_eq!(antigravity_core::account::next_account_id(&Vec::new(), Some("1")), None);
    let (_, one) = index_of(&[("1", "a@x")]);
    assert_eq!(antigravity_core::account::next_account_id(&one, Some("1")), Some("1".to_string()));
}

#[test]
fn an_unlisted_account_cannot_become_the_active_one() {
    let mut empty = AccountIndex::new();
    assert_eq!(
        set_current_account_id(&mut empty, "1").unwrap_err(),
        "Account not found: 1"
    );
    assert_eq!(empty.current_account_id, None);
    assert!(empty.accounts.is_empty());
    let (mut index, _) = index_of(&[("1", "a@x"), ("2", "b@x")]);
    index.current_account_id = None;
    assert!(set_current_account_id(&mut index, "").is_err());
    assert_eq!(index.current_account_id, None);
    set_current_account_id(&mut index, "2").unwrap();
    assert_eq!(index.current_account_id, Some("2".to_string()));
    assert_eq!(ids(&index), vec!["1", "2"]);
}
