use antigravity_core::fetch::{
    accounts_to_refresh, check_and_trigger_warmup_for_recovered_models, fetch_failure_note,
    fetch_quota_with_retry, has_no_name, refresh_all_quotas_logic, save_failure_note, AppError,
    FetchAction, FetchEvent, FetchState, Persist, TokenResponse, MAX_CONCURRENT_REFRESHES,
};
use antigravity_core::model::{Account, ModelQuota, QuotaData, TokenData};

fn token(access: &str) -> TokenData {
    TokenData::new(
        access.to_string(),
        "refresh".to_string(),
        3600,
        Some("a@x".to_string()),
        Some("project".to_string()),
        Some("session".to_string()),
        1000,
    )
}

fn account(name: Option<&str>) -> Account {
    let mut a = Account::new("id".into(), "a@x".into(), token("access"), 1);
    a.name = name.map(|n| n.to_string());
    a
}

fn quota_body() -> QuotaData {
    let mut q = QuotaData::new(5);
    q.models.push(ModelQuota { name: "m".into(), percentage: 80, reset_time: "t".into() });
    q
}

fn step(state: FetchState, event: FetchEvent, a: &mut Account) -> (FetchState, FetchAction) {
    fetch_quota_with_retry(state, event, a, 2000)
}

fn network(status: u16) -> AppError {
    AppError::Network(format!("status {}", status), Some(status))
}

#[test]
fn retry_after_401_returns_the_quota_and_stores_the_new_token() {
    let mut a = account(Some("Ann"));
    let (s, act) = step(FetchState::Start, FetchEvent::Begin, &mut a);
    assert_eq!(s, FetchState::EnsuringToken);
    assert!(matches!(act, FetchAction::EnsureFreshToken));

    let (s, act) = step(s, FetchEvent::Token(Ok(token("access"))), &mut a);
    assert_eq!(s, FetchState::FetchingQuota);
    match act {
        FetchAction::FetchQuota { access_token } => assert_eq!(access_token, "access"),
        other => panic!("unexpected {:?}", other),
    }

    let (s, act) = step(s, FetchEvent::Quota(Err(network(401))), &mut a);
    assert_eq!(s, FetchState::Refreshing);
    match act {
        FetchAction::RefreshToken { refresh_token } => assert_eq!(refresh_token, "refresh"),
        other => panic!("unexpected {:?}", other),
    }

    let response = TokenResponse { access_token: "new-access".into(), expires_in: 100 };
    let (s, act) = step(s, FetchEvent::Refreshed(Ok(response)), &mut a);
    assert_eq!(s, FetchState::SavingExchanged);
    assert!(matches!(act, FetchAction::Upsert { required: true }));
    assert_eq!(a.token.access_token, "new-access");
    assert_eq!(a.token.refresh_token, "refresh");
    assert_eq!(a.token.expires_in, 100);
    assert_eq!(a.token.expiry_timestamp, 2100);
    assert_eq!(a.token.email, Some("a@x".to_string()));
    assert_eq!(a.token.project_id, Some("project".to_string()));
    assert_eq!(a.token.session_id, None);

    let (s, act) = step(s, FetchEvent::Upserted(Ok(())), &mut a);
    assert_eq!(s, FetchState::RetryingQuota);
    match act {
        FetchAction::FetchQuota { access_token } => assert_eq!(access_token, "new-access"),
        other => panic!("unexpected {:?}", other),
    }

    let (s, act) = step(s, FetchEvent::Quota(Ok((quota_body(), None))), &mut a);
    assert_eq!(s, FetchState::Finished);
    match act {
        FetchAction::Finish { persist, result } => {
            assert_eq!(persist, Persist::Nothing);
            let quota = result.unwrap();
            assert_eq!(quota.models.len(), 1);
            assert_eq!(quota.models[0].percentage, 80);
            assert!(!quota.is_forbidden);
        }
        other => panic!("unexpected {:?}", other),
    }
    assert_eq!(a.token.access_token, "new-access");
}

#[test]
fn retry_that_is_forbidden_returns_an_empty_forbidden_quota() {
    let mut a = account(Some("Ann"));
    let (s, act) = step(FetchState::RetryingQuota, FetchEvent::Quota(Err(network(403))), &mut a);
    assert_eq!(s, FetchState::Finished);
    match act {
        FetchAction::Finish { persist, result } => {
            assert_eq!(persist, Persist::Nothing);
            let quota = result.unwrap();
            assert!(quota.is_forbidden);
            assert!(quota.models.is_empty());
            assert_eq!(quota.last_updated, 2000);
            assert_eq!(quota.forbidden_reason, None);
        }
        other => panic!("unexpected {:?}", other),
    }
}

#[test]
fn the_quota_is_asked_for_at_most_twice() {
    let mut a = account(Some("Ann"));
    let (s, act) = step(FetchState::RetryingQuota, FetchEvent::Quota(Err(network(401))), &mut a);
    assert_eq!(s, FetchState::Finished);
    match act {
        FetchAction::Finish { result: Err(AppError::Network(_, Some(401))), .. } => {}
        other => panic!("unexpected {:?}", other),
    }
}

#[test]
fn a_first_403_is_handed_on() {
    let mut a = account(Some("Ann"));
    let (s, act) = step(FetchState::FetchingQuota, FetchEvent::Quota(Err(network(403))), &mut a);
    assert_eq!(s, FetchState::Finished);
    assert!(matches!(
        act,
        FetchAction::Finish {
            persist: Persist::Nothing,
            result: Err(AppError::Network(_, Some(403)))
        }
    ));
    let (_, act) = step(
        FetchState::FetchingQuota,
        FetchEvent::Quota(Err(AppError::Network("down".into(), None))),
        &mut a,
    );
    assert!(matches!(act, FetchAction::Finish { result: Err(AppError::Network(_, None)), .. }));
    let (_, act) = step(
        FetchState::FetchingQuota,
        FetchEvent::Quota(Err(AppError::Unknown("x".into()))),
        &mut a,
    );
    assert!(matches!(act, FetchAction::Finish { result: Err(AppError::Unknown(_)), .. }));
}

#[test]
fn invalid_grant_disables_the_account() {
    let mut a = account(Some("Ann"));
    let (s, act) = step(
        FetchState::EnsuringToken,
        FetchEvent::Token(Err("oauth: invalid_grant (revoked)".into())),
        &mut a,
    );
    assert_eq!(s, FetchState::Finished);
    match act {
        FetchAction::Finish { persist, result: Err(AppError::OAuth(e)) } => {
            assert_eq!(persist, Persist::SaveAndNotify);
            assert_eq!(e, "oauth: invalid_grant (revoked)");
        }
        other => panic!("unexpected {:?}", other),
    }
    assert!(a.disabled);
    assert_eq!(a.disabled_at, Some(2000));
    assert_eq!(
        a.disabled_reason,
        Some("invalid_grant: oauth: invalid_grant (revoked)".to_string())
    );

    let mut b = account(Some("Ann"));
    let (_, act) =
        step(FetchState::Refreshing, FetchEvent::Refreshed(Err("invalid_grant".into())), &mut b);
    assert!(matches!(
        act,
        FetchAction::Finish { persist: Persist::SaveAndNotify, result: Err(AppError::OAuth(_)) }
    ));
    assert!(b.disabled);
}

#[test]
fn other_refusals_leave_the_account_enabled() {
    let mut a = account(Some("Ann"));
    let (s, act) =
        step(FetchState::EnsuringToken, FetchEvent::Token(Err("timeout".into())), &mut a);
    assert_eq!(s, FetchState::Finished);
    assert!(matches!(
        act,
        FetchAction::Finish { persist: Persist::Nothing, result: Err(AppError::OAuth(_)) }
    ));
    assert!(!a.disabled);
    assert_eq!(a.disabled_at, None);
    assert_eq!(a.disabled_reason, None);
}

#[test]
fn a_renewed_token_is_stored_before_the_quota_is_asked_for() {
    let mut a = account(Some("Ann"));
    let (s, act) = step(FetchState::EnsuringToken, FetchEvent::Token(Ok(token("renewed"))), &mut a);
    assert_eq!(s, FetchState::SavingRenewed);
    assert!(matches!(act, FetchAction::Upsert { required: true }));
    assert_eq!(a.token.access_token, "renewed");
    let (s, act) = step(s, FetchEvent::Upserted(Ok(())), &mut a);
    assert_eq!(s, FetchState::FetchingQuota);
    match act {
        FetchAction::FetchQuota { access_token } => assert_eq!(access_token, "renewed"),
        other => panic!("unexpected {:?}", other),
    }
}

#[test]
fn a_renewed_token_that_cannot_be_stored_ends_the_fetching() {
    let mut a = account(Some("Ann"));
    let (s, act) =
        step(FetchState::SavingRenewed, FetchEvent::Upserted(Err("disk full".into())), &mut a);
    assert_eq!(s, FetchState::Finished);
    match act {
        FetchAction::Finish { persist: Persist::Nothing, result: Err(AppError::Account(e)) } => {
            assert_eq!(e, "disk full")
        }
        other => panic!("unexpected {:?}", other),
    }
    let (_, act) =
        step(FetchState::SavingExchanged, FetchEvent::Upserted(Err("disk full".into())), &mut a);
    assert!(matches!(act, FetchAction::Finish { result: Err(AppError::Account(_)), .. }));
}

#[test]
fn a_missing_name_is_fetched_with_the_renewed_token() {
    for name in [None, Some(""), Some("  \t")] {
        let mut a = account(name);
        assert!(has_no_name(&a));
        let (s, act) =
            step(FetchState::EnsuringToken, FetchEvent::Token(Ok(token("renewed"))), &mut a);
        assert_eq!(s, FetchState::NamingRenewed);
        match act {
            FetchAction::FetchUserInfo { access_token } => assert_eq!(access_token, "renewed"),
            other => panic!("unexpected {:?}", other),
        }
        let (s, act) = step(s, FetchEvent::UserInfo(Ok(Some("Ann".into()))), &mut a);
        assert_eq!(s, FetchState::SavingRenewed);
        assert!(matches!(act, FetchAction::Upsert { required: true }));
        assert_eq!(a.name, Some("Ann".to_string()));
        let (s, _) = step(s, FetchEvent::Upserted(Ok(())), &mut a);
        assert_eq!(s, FetchState::FetchingQuota);
    }
}

#[test]
fn a_name_that_cannot_be_fetched_is_asked_for_once_more() {
    let mut a = account(Some("old"));
    a.name = Some(" ".to_string());
    let (s, _) = step(FetchState::EnsuringToken, FetchEvent::Token(Ok(token("renewed"))), &mut a);
    let (s, _) = step(s, FetchEvent::UserInfo(Err("offline".into())), &mut a);
    assert_eq!(a.name, None);
    let (s, act) = step(s, FetchEvent::Upserted(Ok(())), &mut a);
    assert_eq!(s, FetchState::Naming);
    assert!(matches!(act, FetchAction::FetchUserInfo { .. }));
    let (s, act) = step(s, FetchEvent::UserInfo(Err("offline".into())), &mut a);
    assert_eq!(s, FetchState::FetchingQuota);
    assert!(matches!(act, FetchAction::FetchQuota { .. }));
    assert_eq!(a.name, None);
}

#[test]
fn a_missing_name_is_fetched_and_stored_quietly() {
    let mut a = account(None);
    let (s, act) = step(FetchState::EnsuringToken, FetchEvent::Token(Ok(token("access"))), &mut a);
    assert_eq!(s, FetchState::Naming);
    match act {
        FetchAction::FetchUserInfo { access_token } => assert_eq!(access_token, "access"),
        other => panic!("unexpected {:?}", other),
    }
    let (s, act) = step(s, FetchEvent::UserInfo(Ok(Some("Ann".into()))), &mut a);
    assert_eq!(s, FetchState::SavingName);
    assert!(matches!(act, FetchAction::Upsert { required: false }));
    assert_eq!(a.name, Some("Ann".to_string()));
    let (s, act) = step(s, FetchEvent::Upserted(Err("disk full".into())), &mut a);
    assert_eq!(s, FetchState::FetchingQuota);
    assert!(matches!(act, FetchAction::FetchQuota { .. }));
}

#[test]
fn a_new_project_id_is_put_on_record() {
    let mut a = account(Some("Ann"));
    let (s, act) = step(
        FetchState::FetchingQuota,
        FetchEvent::Quota(Ok((quota_body(), Some("other-project".into())))),
        &mut a,
    );
    assert_eq!(s, FetchState::Finished);
    assert!(matches!(
        act,
        FetchAction::Finish { persist: Persist::UpsertQuietly, result: Ok(_) }
    ));
    assert_eq!(a.token.project_id, Some("other-project".to_string()));

    let (_, act) = step(
        FetchState::RetryingQuota,
        FetchEvent::Quota(Ok((quota_body(), Some("other-project".into())))),
        &mut a,
    );
    assert!(matches!(act, FetchAction::Finish { persist: Persist::Nothing, result: Ok(_) }));

    let (_, act) =
        step(FetchState::FetchingQuota, FetchEvent::Quota(Ok((quota_body(), None))), &mut a);
    assert!(matches!(act, FetchAction::Finish { persist: Persist::Nothing, result: Ok(_) }));
    assert_eq!(a.token.project_id, Some("other-project".to_string()));
}

#[test]
fn an_exchanged_token_gets_a_name_where_it_is_missing() {
    let mut a = account(None);
    let response = TokenResponse { access_token: "new-access".into(), expires_in: 100 };
    let (s, act) = step(FetchState::Refreshing, FetchEvent::Refreshed(Ok(response)), &mut a);
    assert_eq!(s, FetchState::NamingExchanged);
    match act {
        FetchAction::FetchUserInfo { access_token } => assert_eq!(access_token, "new-access"),
        other => panic!("unexpected {:?}", other),
    }
    let (s, act) = step(s, FetchEvent::UserInfo(Ok(None)), &mut a);
    assert_eq!(s, FetchState::SavingExchanged);
    assert!(matches!(act, FetchAction::Upsert { required: true }));
    assert_eq!(a.name, None);
}

#[test]
fn an_answer_that_is_not_awaited_ends_the_fetching() {
    let mut a = account(Some("Ann"));
    let before = format!("{:?}", a);
    for state in [
        FetchState::Start,
        FetchState::NamingRenewed,
        FetchState::Naming,
        FetchState::FetchingQuota,
        FetchState::Finished,
    ] {
        let (s, act) = step(state, FetchEvent::Refreshed(Err("x".into())), &mut a);
        assert_eq!(s, FetchState::Finished);
        match act {
            FetchAction::Finish { persist: Persist::Nothing, result: Err(AppError::Unknown(e)) } => {
                assert_eq!(e, "unexpected event while fetching quota")
            }
            other => panic!("unexpected {:?}", other),
        }
    }
    assert_eq!(format!("{:?}", a), before);
}

#[test]
fn errors_say_what_they_hold() {
    assert_eq!(AppError::OAuth("a".into()).message(), "a");
    assert_eq!(AppError::Account("b".into()).message(), "b");
    assert_eq!(AppError::Network("c".into(), Some(500)).message(), "c");
    assert_eq!(AppError::Unknown("d".into()).message(), "d");
}

#[test]
fn forbidden_accounts_are_not_refreshed() {
    let mut forbidden = account(None);
    let mut q = QuotaData::new(1);
    q.is_forbidden = true;
    forbidden.quota = Some(q);
    forbidden.id = "f".into();
    let mut disabled = account(None);
    disabled.disabled = true;
    disabled.proxy_disabled = true;
    disabled.id = "d".into();
    let mut healthy = account(None);
    healthy.quota = Some(QuotaData::new(1));
    healthy.id = "h".into();
    let picked = accounts_to_refresh(&vec![forbidden, disabled, healthy]);
    let ids: Vec<&str> = picked.iter().map(|a| a.id.as_str()).collect();
    assert_eq!(ids, vec!["d", "h"]);
    assert_eq!(MAX_CONCURRENT_REFRESHES, 5);
}

#[test]
fn refresh_outcomes_are_summed_up() {
    let outcomes = vec![
        Ok(()),
        Err(fetch_failure_note("a@x", "boom")),
        Ok(()),
        Err(save_failure_note("b@x", "disk")),
    ];
    let stats = refresh_all_quotas_logic(&outcomes);
    assert_eq!(stats.total, 4);
    assert_eq!(stats.success, 2);
    assert_eq!(stats.failed, 2);
    assert_eq!(
        stats.details,
        vec![
            "Account a@x: Fetch quota failed - boom".to_string(),
            "Account b@x: Save quota failed - disk".to_string(),
        ]
    );
    let none = refresh_all_quotas_logic(&Vec::new());
    assert_eq!((none.total, none.success, none.failed), (0, 0, 0));
    assert!(none.details.is_empty());
}

#[test]
fn warmup_skips_accounts_that_are_switched_off() {
    let mut a = account(None);
    a.id = "a".into();
    let mut b = account(None);
    b.id = "b".into();
    b.disabled = true;
    let mut c = account(None);
    c.id = "c".into();
    c.proxy_disabled = true;
    let mut d = account(None);
    d.id = "d".into();
    let accounts = vec![a, b, c, d];
    assert_eq!(
        check_and_trigger_warmup_for_recovered_models(&accounts, true),
        vec!["a".to_string(), "d".to_string()]
    );
    assert!(check_and_trigger_warmup_for_recovered_models(&accounts, false).is_empty());
}
