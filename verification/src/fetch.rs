//! Fetching the quota of an account, step by step: the decisions between
//! the calls to the services that issue tokens and report quotas.

use crate::model::{
    accounts_view, Account, AccountView, QuotaData, QuotaDataView, TokenData, TokenDataView,
};
use crate::text::{
    clone_opt, concat2, contains_seq, is_blank, opt_view, owned, str_contains, str_eq,
    str_is_blank, strings_view,
};
use vstd::prelude::*;

verus! {

/// What went wrong while a quota was fetched.
#[derive(Debug)]
pub enum AppError {
    /// The service that issues tokens refused; it said why.
    OAuth(String),
    /// The account store failed; it said why.
    Account(String),
    /// A request failed, with the status of the answer if there was one.
    Network(String, Option<u16>),
    /// Anything else.
    Unknown(String),
}

/// The mathematical view of [`AppError`].
pub enum AppErrorView {
    OAuth(Seq<char>),
    Account(Seq<char>),
    Network(Seq<char>, Option<u16>),
    Unknown(Seq<char>),
}

impl View for AppError {
    type V = AppErrorView;

    open spec fn view(&self) -> AppErrorView {
        match self {
            AppError::OAuth(e) => AppErrorView::OAuth(e@),
            AppError::Account(e) => AppErrorView::Account(e@),
            AppError::Network(e, status) => AppErrorView::Network(e@, *status),
            AppError::Unknown(e) => AppErrorView::Unknown(e@),
        }
    }
}

impl AppError {
    /// What the error says.
    pub fn message(&self) -> (r: String)
        ensures
            r@ == (match self@ {
                AppErrorView::OAuth(e) => e,
                AppErrorView::Account(e) => e,
                AppErrorView::Network(e, _) => e,
                AppErrorView::Unknown(e) => e,
            }),
    {
        match self {
            AppError::OAuth(e) => e.clone(),
            AppError::Account(e) => e.clone(),
            AppError::Network(e, _) => e.clone(),
            AppError::Unknown(e) => e.clone(),
        }
    }
}

/// The answer to a forced exchange of the refresh token.
#[derive(Debug)]
pub struct TokenResponse {
    pub access_token: String,
    pub expires_in: i64,
}

/// Where the fetching of a quota stands: which answer is awaited.
#[derive(Clone, Copy, Debug, PartialEq, Eq, Structural)]
pub enum FetchState {
    Start,
    /// A token that is still good was asked for.
    EnsuringToken,
    /// The token was renewed; the display name was asked for.
    NamingRenewed,
    /// The renewed token is being stored.
    SavingRenewed,
    /// The display name was asked for because the account has none.
    Naming,
    /// The display name is being stored.
    SavingName,
    /// The quota was asked for.
    FetchingQuota,
    /// The quota was refused for want of authorization; a new token was
    /// asked for.
    Refreshing,
    /// The token was exchanged; the display name was asked for.
    NamingExchanged,
    /// The exchanged token is being stored.
    SavingExchanged,
    /// The quota was asked for a second time.
    RetryingQuota,
    Finished,
}

/// What happened since the last step.
#[derive(Debug)]
pub enum FetchEvent {
    Begin,
    /// The answer to the request for a good token.
    Token(Result<TokenData, String>),
    /// The display name of the user, or why it could not be had.
    UserInfo(Result<Option<String>, String>),
    /// The outcome of storing the account.
    Upserted(Result<(), String>),
    /// The quota with the project id that came with it, or the failure.
    Quota(Result<(QuotaData, Option<String>), AppError>),
    /// The answer to the forced exchange of the refresh token.
    Refreshed(Result<TokenResponse, String>),
}

/// What is stored before the fetching ends.
#[derive(Clone, Copy, Debug, PartialEq, Eq, Structural)]
pub enum Persist {
    Nothing,
    /// The account is stored; a failure is only noted.
    UpsertQuietly,
    /// The account's file is written and the proxy is told to reload it.
    SaveAndNotify,
}

/// What is to be done next.
#[derive(Debug)]
pub enum FetchAction {
    /// Ask for a token that is still good.
    EnsureFreshToken,
    /// Ask for the user's display name with this access token.
    FetchUserInfo { access_token: String },
    /// Store the account; `required` says whether a failure ends the fetching.
    Upsert { required: bool },
    /// Ask for the quota with this access token.
    FetchQuota { access_token: String },
    /// Exchange this refresh token for a new access token.
    RefreshToken { refresh_token: String },
    /// The fetching is over.
    Finish { persist: Persist, result: Result<QuotaData, AppError> },
}

/// The account has no display name: none at all, or a blank one.
pub open spec fn name_missing(account: AccountView) -> bool {
    match account.name {
        Some(name) => is_blank(name),
        None => true,
    }
}

/// Tells whether the account has no display name.
pub fn has_no_name(account: &Account) -> (r: bool)
    ensures
        r == name_missing(account@),
{
    match &account.name {
        Some(name) => str_is_blank(name.as_str()),
        None => true,
    }
}

/// The refusal says that the refresh token is dead for good.
pub open spec fn is_invalid_grant(error: Seq<char>) -> bool {
    contains_seq(error, "invalid_grant"@)
}

/// The reason that a disabled account carries.
pub open spec fn disabled_reason(error: Seq<char>) -> Seq<char> {
    "invalid_grant: "@ + error
}

/// The record after a refusal of the token service at time `now`: a dead
/// refresh token disables the account, any other refusal changes nothing.
pub open spec fn after_refusal(account: AccountView, error: Seq<char>, now: int) -> AccountView {
    if is_invalid_grant(error) {
        AccountView {
            disabled: true,
            disabled_at: Some(now),
            disabled_reason: Some(disabled_reason(error)),
            ..account
        }
    } else {
        account
    }
}

/// The message of a step that met an answer it did not await.
pub const UNEXPECTED_EVENT_MESSAGE: &'static str = "unexpected event while fetching quota";

/// The account after the step from `state` on `event`, at time `now`.
pub open spec fn account_after(
    state: FetchState,
    event: FetchEvent,
    account: AccountView,
    now: int,
) -> AccountView {
    match (state, event) {
        (FetchState::EnsuringToken, FetchEvent::Token(Err(e))) => after_refusal(account, e@, now),
        (FetchState::Refreshing, FetchEvent::Refreshed(Err(e))) => after_refusal(account, e@, now),
        (FetchState::EnsuringToken, FetchEvent::Token(Ok(token))) => if token@.access_token
            != account.token.access_token {
            AccountView { token: token@, ..account }
        } else {
            account
        },
        (FetchState::NamingRenewed, FetchEvent::UserInfo(info)) => AccountView {
            name: given_name(info),
            ..account
        },
        (FetchState::NamingExchanged, FetchEvent::UserInfo(info)) => AccountView {
            name: given_name(info),
            ..account
        },
        (FetchState::Naming, FetchEvent::UserInfo(Ok(name))) => AccountView {
            name: opt_view(name),
            ..account
        },
        (FetchState::FetchingQuota, FetchEvent::Quota(Ok(found))) => with_project(
            account,
            opt_view(found.1),
        ),
        (FetchState::RetryingQuota, FetchEvent::Quota(Ok(found))) => with_project(
            account,
            opt_view(found.1),
        ),
        (FetchState::Refreshing, FetchEvent::Refreshed(Ok(response))) => AccountView {
            token: TokenData::fresh_view(
                response.access_token@,
                account.token.refresh_token,
                response.expires_in as int,
                account.token.email,
                account.token.project_id,
                None,
                now,
            ),
            ..account
        },
        _ => account,
    }
}

/// The name that the answer of the user service gives: none if it failed.
pub open spec fn given_name(info: Result<Option<String>, String>) -> Option<Seq<char>> {
    match info {
        Ok(name) => opt_view(name),
        Err(_) => None,
    }
}

/// The project id that came with a quota differs from the one on record.
pub open spec fn project_changed(account: AccountView, project_id: Option<Seq<char>>) -> bool {
    project_id is Some && project_id != account.token.project_id
}

/// The record with the project id that came with a quota, if it differs.
pub open spec fn with_project(account: AccountView, project_id: Option<Seq<char>>) -> AccountView {
    if project_changed(account, project_id) {
        AccountView { token: TokenDataView { project_id, ..account.token }, ..account }
    } else {
        account
    }
}

/// The state after the step from `state` on `event`; `before` is the
/// account before the step and `after` the account after it.
pub open spec fn state_after(
    state: FetchState,
    event: FetchEvent,
    before: AccountView,
    after: AccountView,
) -> FetchState {
    match (state, event) {
        (FetchState::Start, FetchEvent::Begin) => FetchState::EnsuringToken,
        (FetchState::EnsuringToken, FetchEvent::Token(Ok(token))) => if token@.access_token
            != before.token.access_token {
            if name_missing(before) {
                FetchState::NamingRenewed
            } else {
                FetchState::SavingRenewed
            }
        } else if name_missing(before) {
            FetchState::Naming
        } else {
            FetchState::FetchingQuota
        },
        (FetchState::NamingRenewed, FetchEvent::UserInfo(_)) => FetchState::SavingRenewed,
        (FetchState::SavingRenewed, FetchEvent::Upserted(Ok(_))) => if name_missing(before) {
            FetchState::Naming
        } else {
            FetchState::FetchingQuota
        },
        (FetchState::Naming, FetchEvent::UserInfo(Ok(_))) => FetchState::SavingName,
        (FetchState::Naming, FetchEvent::UserInfo(Err(_))) => FetchState::FetchingQuota,
        (FetchState::SavingName, FetchEvent::Upserted(_)) => FetchState::FetchingQuota,
        (FetchState::FetchingQuota, FetchEvent::Quota(Err(AppError::Network(_, Some(status)))))
            => if status == 401 {
            FetchState::Refreshing
        } else {
            FetchState::Finished
        },
        (FetchState::Refreshing, FetchEvent::Refreshed(Ok(_))) => if name_missing(before) {
            FetchState::NamingExchanged
        } else {
            FetchState::SavingExchanged
        },
        (FetchState::NamingExchanged, FetchEvent::UserInfo(_)) => FetchState::SavingExchanged,
        (FetchState::SavingExchanged, FetchEvent::Upserted(Ok(_))) => FetchState::RetryingQuota,
        _ => FetchState::Finished,
    }
}

/// The step asks for the user's display name with this access token.
pub open spec fn asks_user_info(action: FetchAction, access_token: Seq<char>) -> bool {
    action matches FetchAction::FetchUserInfo { access_token: t } && t@ == access_token
}

/// The step asks for the quota with this access token.
pub open spec fn asks_quota(action: FetchAction, access_token: Seq<char>) -> bool {
    action matches FetchAction::FetchQuota { access_token: t } && t@ == access_token
}

/// The step ends the fetching with this error.
pub open spec fn fails_with(action: FetchAction, persist: Persist, error: AppErrorView) -> bool {
    action matches FetchAction::Finish { persist: p, result: Err(e) } && p == persist && e@ == error
}

/// The step ends the fetching with this quota.
pub open spec fn succeeds_with(action: FetchAction, persist: Persist, quota: QuotaDataView) -> bool {
    action matches FetchAction::Finish { persist: p, result: Ok(q) } && p == persist && q@ == quota
}

/// How a refusal of the token service ends the fetching: the error is
/// handed on, and an account that was disabled for it is stored first.
pub open spec fn refusal_ends(action: FetchAction, error: Seq<char>) -> bool {
    fails_with(
        action,
        if is_invalid_grant(error) {
            Persist::SaveAndNotify
        } else {
            Persist::Nothing
        },
        AppErrorView::OAuth(error),
    )
}

/// How a quota that arrived ends the fetching: it is handed on, and a
/// project id that changed is stored first.
pub open spec fn quota_ends(
    action: FetchAction,
    before: AccountView,
    quota: QuotaDataView,
    project_id: Option<Seq<char>>,
) -> bool {
    succeeds_with(
        action,
        if project_changed(before, project_id) {
            Persist::UpsertQuietly
        } else {
            Persist::Nothing
        },
        quota,
    )
}

/// The quota that stands for an account that the service refuses.
pub open spec fn forbidden_quota(now: int) -> QuotaDataView {
    QuotaDataView { is_forbidden: true, ..QuotaData::empty_view(now) }
}

/// The action of the step from `state` on `event` is the right one;
/// `before` is the account before the step and `after` the account after
/// it, `now` the time.
pub open spec fn action_fits(
    state: FetchState,
    event: FetchEvent,
    before: AccountView,
    after: AccountView,
    now: int,
    action: FetchAction,
) -> bool {
    match (state, event) {
        (FetchState::Start, FetchEvent::Begin) => action is EnsureFreshToken,
        (FetchState::EnsuringToken, FetchEvent::Token(Err(e))) => refusal_ends(action, e@),
        (FetchState::Refreshing, FetchEvent::Refreshed(Err(e))) => refusal_ends(action, e@),
        (FetchState::EnsuringToken, FetchEvent::Token(Ok(token))) => if token@.access_token
            != before.token.access_token {
            if name_missing(before) {
                asks_user_info(action, token@.access_token)
            } else {
                action matches FetchAction::Upsert { required: true }
            }
        } else if name_missing(before) {
            asks_user_info(action, before.token.access_token)
        } else {
            asks_quota(action, before.token.access_token)
        },
        (FetchState::NamingRenewed, FetchEvent::UserInfo(_)) => action matches FetchAction::Upsert {
            required: true,
        },
        (FetchState::NamingExchanged, FetchEvent::UserInfo(_)) => action matches FetchAction::Upsert {
            required: true,
        },
        (FetchState::SavingRenewed, FetchEvent::Upserted(Err(e))) => fails_with(
            action,
            Persist::Nothing,
            AppErrorView::Account(e@),
        ),
        (FetchState::SavingExchanged, FetchEvent::Upserted(Err(e))) => fails_with(
            action,
            Persist::Nothing,
            AppErrorView::Account(e@),
        ),
        (FetchState::SavingRenewed, FetchEvent::Upserted(Ok(_))) => if name_missing(before) {
            asks_user_info(action, before.token.access_token)
        } else {
            asks_quota(action, before.token.access_token)
        },
        (FetchState::Naming, FetchEvent::UserInfo(Ok(_))) => action matches FetchAction::Upsert {
            required: false,
        },
        (FetchState::Naming, FetchEvent::UserInfo(Err(_))) => asks_quota(
            action,
            before.token.access_token,
        ),
        (FetchState::SavingName, FetchEvent::Upserted(_)) => asks_quota(
            action,
            before.token.access_token,
        ),
        (FetchState::FetchingQuota, FetchEvent::Quota(Ok(found))) => quota_ends(
            action,
            before,
            found.0@,
            opt_view(found.1),
        ),
        (FetchState::RetryingQuota, FetchEvent::Quota(Ok(found))) => quota_ends(
            action,
            before,
            found.0@,
            opt_view(found.1),
        ),
        (FetchState::FetchingQuota, FetchEvent::Quota(Err(e))) => if e@ matches AppErrorView::Network(
            _,
            Some(status),
        ) && status == 401 {
            action matches FetchAction::RefreshToken { refresh_token: t } && t@
                == before.token.refresh_token
        } else {
            fails_with(action, Persist::Nothing, e@)
        },
        (FetchState::RetryingQuota, FetchEvent::Quota(Err(e))) => if e@ matches AppErrorView::Network(
            _,
            Some(status),
        ) && status == 403 {
            succeeds_with(action, Persist::Nothing, forbidden_quota(now))
        } else {
            fails_with(action, Persist::Nothing, e@)
        },
        (FetchState::Refreshing, FetchEvent::Refreshed(Ok(response))) => if name_missing(before) {
            asks_user_info(action, response.access_token@)
        } else {
            action matches FetchAction::Upsert { required: true }
        },
        (FetchState::SavingExchanged, FetchEvent::Upserted(Ok(_))) => asks_quota(
            action,
            before.token.access_token,
        ),
        _ => fails_with(action, Persist::Nothing, AppErrorView::Unknown(UNEXPECTED_EVENT_MESSAGE@)),
    }
}

/// Ends the fetching after a refusal of the token service.
fn refuse(account: &mut Account, error: String, now: i64) -> (action: FetchAction)
    ensures
        final(account)@ == after_refusal(old(account)@, error@, now as int),
        refusal_ends(action, error@),
{
    let dead = str_contains(error.as_str(), "invalid_grant");
    if dead {
        account.disabled = true;
        account.disabled_at = Some(now);
        account.disabled_reason = Some(concat2("invalid_grant: ", error.as_str()));
    }
    FetchAction::Finish {
        persist: if dead {
            Persist::SaveAndNotify
        } else {
            Persist::Nothing
        },
        result: Err(AppError::OAuth(error)),
    }
}

/// Ends the fetching with a quota that arrived.
fn deliver(account: &mut Account, quota: QuotaData, project_id: Option<String>) -> (action:
    FetchAction)
    ensures
        final(account)@ == with_project(old(account)@, opt_view(project_id)),
        quota_ends(action, old(account)@, quota@, opt_view(project_id)),
{
    let changed = match (&project_id, &account.token.project_id) {
        (Some(given), Some(known)) => !str_eq(given.as_str(), known.as_str()),
        (Some(_), None) => true,
        (None, _) => false,
    };
    if changed {
        account.token.project_id = project_id;
    }
    FetchAction::Finish {
        persist: if changed {
            Persist::UpsertQuietly
        } else {
            Persist::Nothing
        },
        result: Ok(quota),
    }
}

/// Asks for the display name if the account has none, else for the quota.
fn name_or_quota(account: &Account) -> (r: (FetchState, FetchAction))
    ensures
        name_missing(account@) ==> r.0 == FetchState::Naming && asks_user_info(
            r.1,
            account@.token.access_token,
        ),
        !name_missing(account@) ==> r.0 == FetchState::FetchingQuota && asks_quota(
            r.1,
            account@.token.access_token,
        ),
{
    if has_no_name(account) {
        (
            FetchState::Naming,
            FetchAction::FetchUserInfo { access_token: account.token.access_token.clone() },
        )
    } else {
        (
            FetchState::FetchingQuota,
            FetchAction::FetchQuota { access_token: account.token.access_token.clone() },
        )
    }
}

/// Ends the fetching because the answer was not the awaited one.
fn unexpected() -> (action: FetchAction)
    ensures
        fails_with(action, Persist::Nothing, AppErrorView::Unknown(UNEXPECTED_EVENT_MESSAGE@)),
{
    FetchAction::Finish {
        persist: Persist::Nothing,
        result: Err(AppError::Unknown(owned(UNEXPECTED_EVENT_MESSAGE))),
    }
}

/// Takes one step of fetching the quota of `account`, at time `now`: from
/// the state and from what happened since the last step to the next state
/// and to what is to be done next.
///
/// A token that is still good is asked for first. A renewed token is
/// stored, with the display name if the account had none. An account
/// without a name gets one where the user service gives one. Then the quota
/// is asked for. A quota that is refused for want of authorization leads to
/// one forced exchange of the refresh token and one more request; if that
/// one is forbidden, the answer is an empty quota marked as forbidden. A
/// refresh token that is dead for good disables the account. A project id
/// that comes with a quota is put on record.
pub fn fetch_quota_with_retry(
    state: FetchState,
    event: FetchEvent,
    account: &mut Account,
    now: i64,
) -> (r: (FetchState, FetchAction))
    ensures
        final(account)@ == account_after(state, event, old(account)@, now as int),
        r.0 == state_after(state, event, old(account)@, final(account)@),
        action_fits(state, event, old(account)@, final(account)@, now as int, r.1),
{
    match state {
        FetchState::Start => match event {
            FetchEvent::Begin => (FetchState::EnsuringToken, FetchAction::EnsureFreshToken),
            _ => (FetchState::Finished, unexpected()),
        },
        FetchState::EnsuringToken => match event {
            FetchEvent::Token(Err(error)) => (FetchState::Finished, refuse(account, error, now)),
            FetchEvent::Token(Ok(token)) => {
                if !str_eq(token.access_token.as_str(), account.token.access_token.as_str()) {
                    let nameless = has_no_name(account);
                    let access = token.access_token.clone();
                    account.token = token;
                    if nameless {
                        (
                            FetchState::NamingRenewed,
                            FetchAction::FetchUserInfo { access_token: access },
                        )
                    } else {
                        (FetchState::SavingRenewed, FetchAction::Upsert { required: true })
                    }
                } else {
                    name_or_quota(account)
                }
            },
            _ => (FetchState::Finished, unexpected()),
        },
        FetchState::NamingRenewed => match event {
            FetchEvent::UserInfo(info) => {
                account.name = match info {
                    Ok(name) => name,
                    Err(_) => None,
                };
                (FetchState::SavingRenewed, FetchAction::Upsert { required: true })
            },
            _ => (FetchState::Finished, unexpected()),
        },
        FetchState::SavingRenewed => match event {
            FetchEvent::Upserted(Ok(_)) => name_or_quota(account),
            FetchEvent::Upserted(Err(error)) => (
                FetchState::Finished,
                FetchAction::Finish {
                    persist: Persist::Nothing,
                    result: Err(AppError::Account(error)),
                },
            ),
            _ => (FetchState::Finished, unexpected()),
        },
        FetchState::Naming => match event {
            FetchEvent::UserInfo(Ok(name)) => {
                account.name = name;
                (FetchState::SavingName, FetchAction::Upsert { required: false })
            },
            FetchEvent::UserInfo(Err(_)) => (
                FetchState::FetchingQuota,
                FetchAction::FetchQuota { access_token: account.token.access_token.clone() },
            ),
            _ => (FetchState::Finished, unexpected()),
        },
        FetchState::SavingName => match event {
            FetchEvent::Upserted(_) => (
                FetchState::FetchingQuota,
                FetchAction::FetchQuota { access_token: account.token.access_token.clone() },
            ),
            _ => (FetchState::Finished, unexpected()),
        },
        FetchState::FetchingQuota => match event {
            FetchEvent::Quota(Ok(found)) => {
                let (quota, project_id) = found;
                (FetchState::Finished, deliver(account, quota, project_id))
            },
            FetchEvent::Quota(Err(error)) => {
                let unauthorized = match &error {
                    AppError::Network(_, Some(status)) => *status == 401,
                    _ => false,
                };
                if unauthorized {
                    (
                        FetchState::Refreshing,
                        FetchAction::RefreshToken {
                            refresh_token: account.token.refresh_token.clone(),
                        },
                    )
                } else {
                    (
                        FetchState::Finished,
                        FetchAction::Finish { persist: Persist::Nothing, result: Err(error) },
                    )
                }
            },
            _ => (FetchState::Finished, unexpected()),
        },
        FetchState::Refreshing => match event {
            FetchEvent::Refreshed(Err(error)) => (FetchState::Finished, refuse(account, error, now)),
            FetchEvent::Refreshed(Ok(response)) => {
                let nameless = has_no_name(account);
                let access = response.access_token.clone();
                let token = TokenData::new(
                    response.access_token,
                    account.token.refresh_token.clone(),
                    response.expires_in,
                    clone_opt(&account.token.email),
                    clone_opt(&account.token.project_id),
                    None,
                    now,
                );
                account.token = token;
                if nameless {
                    (
                        FetchState::NamingExchanged,
                        FetchAction::FetchUserInfo { access_token: access },
                    )
                } else {
                    (FetchState::SavingExchanged, FetchAction::Upsert { required: true })
                }
            },
            _ => (FetchState::Finished, unexpected()),
        },
        FetchState::NamingExchanged => match event {
            FetchEvent::UserInfo(info) => {
                account.name = match info {
                    Ok(name) => name,
                    Err(_) => None,
                };
                (FetchState::SavingExchanged, FetchAction::Upsert { required: true })
            },
            _ => (FetchState::Finished, unexpected()),
        },
        FetchState::SavingExchanged => match event {
            FetchEvent::Upserted(Ok(_)) => (
                FetchState::RetryingQuota,
                FetchAction::FetchQuota { access_token: account.token.access_token.clone() },
            ),
            FetchEvent::Upserted(Err(error)) => (
                FetchState::Finished,
                FetchAction::Finish {
                    persist: Persist::Nothing,
                    result: Err(AppError::Account(error)),
                },
            ),
            _ => (FetchState::Finished, unexpected()),
        },
        FetchState::RetryingQuota => match event {
            FetchEvent::Quota(Ok(found)) => {
                let (quota, project_id) = found;
                (FetchState::Finished, deliver(account, quota, project_id))
            },
            FetchEvent::Quota(Err(error)) => {
                let forbidden = match &error {
                    AppError::Network(_, Some(status)) => *status == 403,
                    _ => false,
                };
                if forbidden {
                    let mut quota = QuotaData::new(now);
                    quota.is_forbidden = true;
                    (
                        FetchState::Finished,
                        FetchAction::Finish { persist: Persist::Nothing, result: Ok(quota) },
                    )
                } else {
                    (
                        FetchState::Finished,
                        FetchAction::Finish { persist: Persist::Nothing, result: Err(error) },
                    )
                }
            },
            _ => (FetchState::Finished, unexpected()),
        },
        FetchState::Finished => (FetchState::Finished, unexpected()),
    }
}

/// The number of accounts whose quota is fetched at the same time.
pub const MAX_CONCURRENT_REFRESHES: usize = 5;

/// The quota of the account is marked as forbidden.
pub open spec fn is_forbidden(account: AccountView) -> bool {
    account.quota matches Some(q) && q.is_forbidden
}

/// The accounts whose quota is fetched when all are refreshed: all but
/// those whose quota is marked as forbidden, in order.
pub open spec fn refreshable(accounts: Seq<AccountView>) -> Seq<AccountView>
    decreases accounts.len(),
{
    if accounts.len() == 0 {
        Seq::empty()
    } else if is_forbidden(accounts.last()) {
        refreshable(accounts.drop_last())
    } else {
        refreshable(accounts.drop_last()).push(accounts.last())
    }
}

/// The accounts whose quota is fetched when all are refreshed. Accounts
/// that are disabled or kept from the proxy are among them.
pub fn accounts_to_refresh(accounts: &Vec<Account>) -> (r: Vec<Account>)
    ensures
        accounts_view(r@) == refreshable(accounts_view(accounts@)),
{
    let ghost all = accounts_view(accounts@);
    let mut out: Vec<Account> = Vec::new();
    let mut i: usize = 0;
    assert(all.take(0) =~= Seq::empty());
    assert(accounts_view(out@) =~= Seq::empty());
    while i < accounts.len()
        invariant
            i <= accounts.len(),
            all == accounts_view(accounts@),
            accounts_view(out@) == refreshable(all.take(i as int)),
        decreases accounts.len() - i,
    {
        proof {
            let next = all.take(i + 1);
            assert(next.drop_last() =~= all.take(i as int));
            assert(next.last() == accounts@[i as int]@);
        }
        let forbidden = match &accounts[i].quota {
            Some(q) => q.is_forbidden,
            None => false,
        };
        if !forbidden {
            let ghost before = accounts_view(out@);
            out.push(accounts[i].clone());
            assert(accounts_view(out@) =~= before.push(accounts@[i as int]@));
        }
        i += 1;
    }
    assert(all.take(accounts.len() as int) =~= all);
    out
}

/// The note of a quota that could not be fetched.
pub fn fetch_failure_note(email: &str, error: &str) -> (r: String)
    ensures
        r@ == "Account "@ + email@ + ": Fetch quota failed - "@ + error@,
{
    let mut out = concat2("Account ", email);
    out.append(": Fetch quota failed - ");
    out.append(error);
    out
}

/// The note of a quota that could not be stored.
pub fn save_failure_note(email: &str, error: &str) -> (r: String)
    ensures
        r@ == "Account "@ + email@ + ": Save quota failed - "@ + error@,
{
    let mut out = concat2("Account ", email);
    out.append(": Save quota failed - ");
    out.append(error);
    out
}

/// How the refreshing of all quotas went.
#[derive(Debug)]
pub struct RefreshStats {
    pub total: usize,
    pub success: usize,
    pub failed: usize,
    pub details: Vec<String>,
}

/// The notes of the failures among the first `n` outcomes, in order.
pub open spec fn failure_notes(outcomes: Seq<Result<(), String>>, n: int) -> Seq<Seq<char>>
    decreases n,
{
    if n <= 0 {
        Seq::empty()
    } else {
        match outcomes[n - 1] {
            Ok(_) => failure_notes(outcomes, n - 1),
            Err(note) => failure_notes(outcomes, n - 1).push(note@),
        }
    }
}

/// Sums the outcomes of refreshing the quotas up, one outcome for each
/// account: how many there were, how many went well, how many failed, and
/// the notes of the failures in order.
pub fn refresh_all_quotas_logic(outcomes: &Vec<Result<(), String>>) -> (r: RefreshStats)
    ensures
        r.total == outcomes.len(),
        r.success + r.failed == r.total,
        r.failed == r.details.len(),
        strings_view(r.details@) == failure_notes(outcomes@, outcomes.len() as int),
{
    let mut success: usize = 0;
    let mut failed: usize = 0;
    let mut details: Vec<String> = Vec::new();
    let mut i: usize = 0;
    assert(strings_view(details@) =~= Seq::empty());
    while i < outcomes.len()
        invariant
            i <= outcomes.len(),
            success + failed == i,
            failed == details.len(),
            strings_view(details@) == failure_notes(outcomes@, i as int),
        decreases outcomes.len() - i,
    {
        match &outcomes[i] {
            Ok(_) => {
                success += 1;
            },
            Err(note) => {
                failed += 1;
                let ghost before = strings_view(details@);
                details.push(note.clone());
                assert(strings_view(details@) =~= before.push(note@));
            },
        }
        i += 1;
    }
    RefreshStats { total: outcomes.len(), success, failed, details }
}

/// The ids of the accounts that are warmed up after a refresh: with the
/// scheduled warm-up switched on, every account that is neither disabled
/// nor kept from the proxy, in order; else none.
pub open spec fn warmup_ids(accounts: Seq<AccountView>, enabled: bool) -> Seq<Seq<char>>
    decreases accounts.len(),
{
    if !enabled || accounts.len() == 0 {
        Seq::empty()
    } else if accounts.last().disabled || accounts.last().proxy_disabled {
        warmup_ids(accounts.drop_last(), enabled)
    } else {
        warmup_ids(accounts.drop_last(), enabled).push(accounts.last().id)
    }
}

/// The ids of the accounts that are warmed up after a refresh. `enabled`
/// says whether the scheduled warm-up is switched on.
pub fn check_and_trigger_warmup_for_recovered_models(accounts: &Vec<Account>, enabled: bool) -> (r:
    Vec<String>)
    ensures
        strings_view(r@) == warmup_ids(accounts_view(accounts@), enabled),
{
    let mut out: Vec<String> = Vec::new();
    assert(strings_view(out@) =~= Seq::empty());
    if !enabled {
        return out;
    }
    let ghost all = accounts_view(accounts@);
    let mut i: usize = 0;
    assert(all.take(0) =~= Seq::empty());
    while i < accounts.len()
        invariant
            i <= accounts.len(),
            enabled,
            all == accounts_view(accounts@),
            strings_view(out@) == warmup_ids(all.take(i as int), enabled),
        decreases accounts.len() - i,
    {
        proof {
            let next = all.take(i + 1);
            assert(next.drop_last() =~= all.take(i as int));
            assert(next.last() == accounts@[i as int]@);
        }
        if !accounts[i].disabled && !accounts[i].proxy_disabled {
            let ghost before = strings_view(out@);
            out.push(accounts[i].id.clone());
            assert(strings_view(out@) =~= before.push(accounts@[i as int]@.id));
        }
        i += 1;
    }
    assert(all.take(accounts.len() as int) =~= all);
    out
}

/// How far the fetching has come in a state.
pub open spec fn progress(state: FetchState) -> int {
    match state {
        FetchState::Start => 0,
        FetchState::EnsuringToken => 1,
        FetchState::NamingRenewed => 2,
        FetchState::SavingRenewed => 3,
        FetchState::Naming => 4,
        FetchState::SavingName => 5,
        FetchState::FetchingQuota => 6,
        FetchState::Refreshing => 7,
        FetchState::NamingExchanged => 8,
        FetchState::SavingExchanged => 9,
        FetchState::RetryingQuota => 10,
        FetchState::Finished => 11,
    }
}

/// Every step brings the fetching further, whatever happened: it is over
/// after eleven steps at most, the refresh token is exchanged at most once
/// and the quota asked for at most twice.
pub proof fn law_fetching_always_advances(
    state: FetchState,
    event: FetchEvent,
    before: AccountView,
    after: AccountView,
)
    requires
        state != FetchState::Finished,
    ensures
        progress(state_after(state, event, before, after)) > progress(state),
{
}

} // verus!
