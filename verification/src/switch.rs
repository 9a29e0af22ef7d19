//! Switching to another account: the checks and changes around the
//! hand-over to the platform integration.

use crate::account::{has_id, position_of_id};
use crate::device::{apply_profile_to_account_with, profile_applied};
use crate::model::{Account, AccountIndex, AccountView, DeviceProfile, TokenData};
use crate::text::{concat2, owned, str_eq};
use vstd::prelude::*;

verus! {

/// The label of a device profile that was generated for a switch.
pub const AUTO_GENERATED_LABEL: &'static str = "auto_generated";

/// The message for an id that no summary has.
pub open spec fn not_found_message(id: Seq<char>) -> Seq<char> {
    "Account not found: "@ + id
}

/// The message for a token that could not be renewed.
pub open spec fn refresh_failed_message(detail: Seq<char>) -> Seq<char> {
    "Token refresh failed: "@ + detail
}

/// Begins a switch: the account has to be listed in the index.
pub fn switch_account_check(index: &AccountIndex, account_id: &str) -> (r: Result<(), String>)
    ensures
        match r {
            Ok(_) => has_id(index@.accounts, account_id@),
            Err(message) => !has_id(index@.accounts, account_id@) && message@ == not_found_message(
                account_id@,
            ),
        },
{
    match position_of_id(&index.accounts, account_id) {
        Some(_) => Ok(()),
        None => Err(concat2("Account not found: ", account_id)),
    }
}

/// What is left to do before the hand-over to the platform integration.
#[derive(Clone, Copy, Debug, PartialEq, Eq, Structural)]
pub struct SwitchPreparation {
    /// The token was renewed: the account has to be stored.
    pub token_renewed: bool,
    /// The account has no device profile: one has to be generated and
    /// bound under the label [`AUTO_GENERATED_LABEL`].
    pub needs_profile: bool,
}

/// Prepares the account for a switch with the answer of the token
/// service. A refusal ends the switch and leaves the account as it is. A
/// token with another access token takes the place of the old one.
pub fn switch_account_prepare(account: &mut Account, fresh: Result<TokenData, String>) -> (r:
    Result<SwitchPreparation, String>)
    ensures
        match fresh {
            Err(detail) => {
                &&& r matches Err(message)
                &&& message@ == refresh_failed_message(detail@)
                &&& final(account)@ == old(account)@
            },
            Ok(token) => {
                &&& r matches Ok(plan)
                &&& plan.token_renewed == (token@.access_token != old(account)@.token.access_token)
                &&& plan.needs_profile == (old(account)@.device_profile is None)
                &&& final(account)@ == (if plan.token_renewed {
                    AccountView { token: token@, ..old(account)@ }
                } else {
                    old(account)@
                })
            },
        },
{
    match fresh {
        Err(detail) => Err(concat2("Token refresh failed: ", detail.as_str())),
        Ok(token) => {
            let renewed = !str_eq(
                token.access_token.as_str(),
                account.token.access_token.as_str(),
            );
            if renewed {
                account.token = token;
            }
            Ok(
                SwitchPreparation {
                    token_renewed: renewed,
                    needs_profile: account.device_profile.is_none(),
                },
            )
        },
    }
}

/// Where a switch stands: which answer is awaited.
#[derive(Clone, Copy, Debug, PartialEq, Eq, Structural)]
pub enum SwitchState {
    Start,
    /// The index was asked for.
    LoadingIndex,
    /// The account's record was asked for.
    LoadingAccount,
    /// A token that is still good was asked for.
    RefreshingToken,
    /// The account is being stored with its renewed token.
    SavingToken,
    /// A device profile was asked for.
    GeneratingProfile,
    /// The account is being stored with its new device profile.
    SavingProfile,
    /// The platform integration is at work.
    Integrating,
    /// The index is being stored with the account as the active one.
    Committing,
    /// The account is being stored as used.
    SavingAccount,
    Finished,
}

/// What happened since the last step of a switch.
#[derive(Debug)]
pub enum SwitchEvent {
    Begin,
    /// The index as it was read under the lock, or why it could not be read.
    Index(Result<AccountIndex, String>),
    /// The account's record, or why it could not be read.
    Loaded(Result<Account, String>),
    /// The answer to the request for a good token.
    Token(Result<TokenData, String>),
    /// A device profile that was generated, with an id for its history entry.
    Profile { profile: DeviceProfile, version_id: String },
    /// The outcome of storing the account.
    Saved(Result<(), String>),
    /// The outcome of the platform integration.
    Integrated(Result<(), String>),
    /// The outcome of making the account the active one in the index.
    Committed(Result<(), String>),
}

/// What is to be done next in a switch.
#[derive(Debug)]
pub enum SwitchAction {
    /// Read the index, under the lock.
    LoadIndex,
    /// Read the account's record.
    LoadAccount,
    /// Ask for a token that is still good.
    EnsureFreshToken,
    /// Generate a device profile.
    GenerateProfile,
    /// Store the account.
    SaveAccount,
    /// Hand the account over to the platform integration.
    Integrate,
    /// Under the lock: read the index, make the account the active one,
    /// store the index.
    CommitIndex,
    /// The switch is over.
    Finish(Result<(), String>),
}

/// The message of a step that met an answer it did not await.
pub const UNEXPECTED_SWITCH_EVENT: &'static str = "unexpected event while switching account";

/// The view of an optional account.
pub open spec fn opt_account_view(account: Option<Account>) -> Option<AccountView> {
    match account {
        Some(a) => Some(a@),
        None => None,
    }
}

/// The account after the step from `state` on `event`, at time `now`.
pub open spec fn switched_account(
    state: SwitchState,
    event: SwitchEvent,
    account: Option<AccountView>,
    now: int,
) -> Option<AccountView> {
    match (state, event, account) {
        (SwitchState::LoadingAccount, SwitchEvent::Loaded(Ok(loaded)), _) => Some(loaded@),
        (SwitchState::RefreshingToken, SwitchEvent::Token(Ok(token)), Some(a)) => if token@.access_token
            != a.token.access_token {
            Some(AccountView { token: token@, ..a })
        } else {
            account
        },
        (SwitchState::GeneratingProfile, SwitchEvent::Profile { profile, version_id }, Some(a))
            => Some(profile_applied(a, profile@, Some(AUTO_GENERATED_LABEL@), true, version_id@, now)),
        (SwitchState::Committing, SwitchEvent::Committed(Ok(_)), Some(a)) => Some(
            AccountView { last_used: now, ..a },
        ),
        _ => account,
    }
}

/// The outcome of the step from `state` on `event`: the next state, and
/// the result if the switch is over. `account_id` is the account to switch
/// to and `account` its record before the step, if it was read.
///
/// The account has to be listed and its record readable. A token that was
/// renewed is stored. An account without a device profile gets one, which
/// is stored. Only when the platform integration has done its part does
/// the account become the active one, and then it counts as used. Any
/// failure ends the switch with its message.
pub open spec fn switch_outcome(
    state: SwitchState,
    event: SwitchEvent,
    account_id: Seq<char>,
    account: Option<AccountView>,
) -> (SwitchState, Option<Result<(), Seq<char>>>) {
    match (state, event, account) {
        (SwitchState::Start, SwitchEvent::Begin, _) => (SwitchState::LoadingIndex, None),
        (SwitchState::LoadingIndex, SwitchEvent::Index(Ok(index)), _) => if has_id(
            index@.accounts,
            account_id,
        ) {
            (SwitchState::LoadingAccount, None)
        } else {
            (SwitchState::Finished, Some(Err(not_found_message(account_id))))
        },
        (SwitchState::LoadingIndex, SwitchEvent::Index(Err(e)), _) => (
            SwitchState::Finished,
            Some(Err(e@)),
        ),
        (SwitchState::LoadingAccount, SwitchEvent::Loaded(Ok(_)), _) => (
            SwitchState::RefreshingToken,
            None,
        ),
        (SwitchState::LoadingAccount, SwitchEvent::Loaded(Err(e)), _) => (
            SwitchState::Finished,
            Some(Err(e@)),
        ),
        (SwitchState::RefreshingToken, SwitchEvent::Token(Ok(token)), Some(a)) => if token@.access_token
            != a.token.access_token {
            (SwitchState::SavingToken, None)
        } else if a.device_profile is None {
            (SwitchState::GeneratingProfile, None)
        } else {
            (SwitchState::Integrating, None)
        },
        (SwitchState::RefreshingToken, SwitchEvent::Token(Err(e)), Some(_)) => (
            SwitchState::Finished,
            Some(Err(refresh_failed_message(e@))),
        ),
        (SwitchState::SavingToken, SwitchEvent::Saved(Ok(_)), Some(a)) => if a.device_profile
            is None {
            (SwitchState::GeneratingProfile, None)
        } else {
            (SwitchState::Integrating, None)
        },
        (SwitchState::GeneratingProfile, SwitchEvent::Profile { .. }, Some(_)) => (
            SwitchState::SavingProfile,
            None,
        ),
        (SwitchState::SavingProfile, SwitchEvent::Saved(Ok(_)), Some(_)) => (
            SwitchState::Integrating,
            None,
        ),
        (SwitchState::Integrating, SwitchEvent::Integrated(Ok(_)), Some(_)) => (
            SwitchState::Committing,
            None,
        ),
        (SwitchState::Integrating, SwitchEvent::Integrated(Err(e)), Some(_)) => (
            SwitchState::Finished,
            Some(Err(e@)),
        ),
        (SwitchState::Committing, SwitchEvent::Committed(Ok(_)), Some(_)) => (
            SwitchState::SavingAccount,
            None,
        ),
        (SwitchState::Committing, SwitchEvent::Committed(Err(e)), Some(_)) => (
            SwitchState::Finished,
            Some(Err(e@)),
        ),
        (SwitchState::SavingToken, SwitchEvent::Saved(Err(e)), Some(_)) => (
            SwitchState::Finished,
            Some(Err(e@)),
        ),
        (SwitchState::SavingProfile, SwitchEvent::Saved(Err(e)), Some(_)) => (
            SwitchState::Finished,
            Some(Err(e@)),
        ),
        (SwitchState::SavingAccount, SwitchEvent::Saved(Err(e)), Some(_)) => (
            SwitchState::Finished,
            Some(Err(e@)),
        ),
        (SwitchState::SavingAccount, SwitchEvent::Saved(Ok(_)), Some(_)) => (
            SwitchState::Finished,
            Some(Ok(())),
        ),
        _ => (SwitchState::Finished, Some(Err(UNEXPECTED_SWITCH_EVENT@))),
    }
}

/// What is done on entering a state.
pub open spec fn entering(state: SwitchState, action: SwitchAction) -> bool {
    match state {
        SwitchState::Start => false,
        SwitchState::LoadingIndex => action is LoadIndex,
        SwitchState::LoadingAccount => action is LoadAccount,
        SwitchState::RefreshingToken => action is EnsureFreshToken,
        SwitchState::SavingToken => action is SaveAccount,
        SwitchState::GeneratingProfile => action is GenerateProfile,
        SwitchState::SavingProfile => action is SaveAccount,
        SwitchState::Integrating => action is Integrate,
        SwitchState::Committing => action is CommitIndex,
        SwitchState::SavingAccount => action is SaveAccount,
        SwitchState::Finished => action is Finish,
    }
}

/// The result that an action ends the switch with, if it ends it.
pub open spec fn finishing(action: SwitchAction) -> Option<Result<(), Seq<char>>> {
    match action {
        SwitchAction::Finish(Ok(_)) => Some(Ok(())),
        SwitchAction::Finish(Err(e)) => Some(Err(e@)),
        _ => None,
    }
}

/// The action on entering a state that does not end the switch.
fn enter(state: SwitchState) -> (r: (SwitchState, SwitchAction))
    requires
        state != SwitchState::Finished,
        state != SwitchState::Start,
    ensures
        r.0 == state,
        entering(state, r.1),
        finishing(r.1) is None,
{
    let action = match state {
        SwitchState::LoadingIndex => SwitchAction::LoadIndex,
        SwitchState::LoadingAccount => SwitchAction::LoadAccount,
        SwitchState::RefreshingToken => SwitchAction::EnsureFreshToken,
        SwitchState::SavingToken => SwitchAction::SaveAccount,
        SwitchState::GeneratingProfile => SwitchAction::GenerateProfile,
        SwitchState::SavingProfile => SwitchAction::SaveAccount,
        SwitchState::Integrating => SwitchAction::Integrate,
        SwitchState::Committing => SwitchAction::CommitIndex,
        _ => SwitchAction::SaveAccount,
    };
    (state, action)
}

/// Ends the switch with a failure.
fn fail(message: String) -> (r: (SwitchState, SwitchAction))
    ensures
        r.0 == SwitchState::Finished,
        entering(r.0, r.1),
        finishing(r.1) == Some(Err::<(), Seq<char>>(message@)),
{
    (SwitchState::Finished, SwitchAction::Finish(Err(message)))
}

/// Takes one step of the switch to the account with the id `account_id`,
/// at time `now`: from the state and from what happened since the last
/// step to the next state and to what is to be done next. `account` holds
/// the account's record once it was read. See [`switch_outcome`].
pub fn switch_account(
    state: SwitchState,
    event: SwitchEvent,
    account_id: &str,
    account: &mut Option<Account>,
    now: i64,
) -> (r: (SwitchState, SwitchAction))
    ensures
        opt_account_view(*final(account)) == switched_account(
            state,
            event,
            opt_account_view(*old(account)),
            now as int,
        ),
        r.0 == switch_outcome(state, event, account_id@, opt_account_view(*old(account))).0,
        finishing(r.1) == switch_outcome(state, event, account_id@, opt_account_view(*old(account))).1,
        entering(r.0, r.1),
{
    if let SwitchState::Start = state {
        return match event {
            SwitchEvent::Begin => enter(SwitchState::LoadingIndex),
            _ => fail(owned(UNEXPECTED_SWITCH_EVENT)),
        };
    }
    if let SwitchState::LoadingIndex = state {
        return match event {
            SwitchEvent::Index(Ok(index)) => match switch_account_check(&index, account_id) {
                Ok(_) => enter(SwitchState::LoadingAccount),
                Err(message) => fail(message),
            },
            SwitchEvent::Index(Err(e)) => fail(e),
            _ => fail(owned(UNEXPECTED_SWITCH_EVENT)),
        };
    }
    if let SwitchState::LoadingAccount = state {
        return match event {
            SwitchEvent::Loaded(Ok(loaded)) => {
                *account = Some(loaded);
                enter(SwitchState::RefreshingToken)
            },
            SwitchEvent::Loaded(Err(e)) => fail(e),
            _ => fail(owned(UNEXPECTED_SWITCH_EVENT)),
        };
    }
    let mut record = match account.take() {
        Some(a) => a,
        None => {
            return fail(owned(UNEXPECTED_SWITCH_EVENT));
        },
    };
    let r = match state {
        SwitchState::RefreshingToken => match event {
            SwitchEvent::Token(fresh) => match switch_account_prepare(&mut record, fresh) {
                Ok(plan) => {
                    if plan.token_renewed {
                        enter(SwitchState::SavingToken)
                    } else if plan.needs_profile {
                        enter(SwitchState::GeneratingProfile)
                    } else {
                        enter(SwitchState::Integrating)
                    }
                },
                Err(message) => fail(message),
            },
            _ => fail(owned(UNEXPECTED_SWITCH_EVENT)),
        },
        SwitchState::SavingToken => match event {
            SwitchEvent::Saved(Ok(_)) => {
                if record.device_profile.is_none() {
                    enter(SwitchState::GeneratingProfile)
                } else {
                    enter(SwitchState::Integrating)
                }
            },
            SwitchEvent::Saved(Err(e)) => fail(e),
            _ => fail(owned(UNEXPECTED_SWITCH_EVENT)),
        },
        SwitchState::GeneratingProfile => match event {
            SwitchEvent::Profile { profile, version_id } => {
                apply_profile_to_account_with(
                    &mut record,
                    profile,
                    Some(owned(AUTO_GENERATED_LABEL)),
                    true,
                    version_id,
                    now,
                );
                enter(SwitchState::SavingProfile)
            },
            _ => fail(owned(UNEXPECTED_SWITCH_EVENT)),
        },
        SwitchState::SavingProfile => match event {
            SwitchEvent::Saved(Ok(_)) => enter(SwitchState::Integrating),
            SwitchEvent::Saved(Err(e)) => fail(e),
            _ => fail(owned(UNEXPECTED_SWITCH_EVENT)),
        },
        SwitchState::Integrating => match event {
            SwitchEvent::Integrated(Ok(_)) => enter(SwitchState::Committing),
            SwitchEvent::Integrated(Err(e)) => fail(e),
            _ => fail(owned(UNEXPECTED_SWITCH_EVENT)),
        },
        SwitchState::Committing => match event {
            SwitchEvent::Committed(Ok(_)) => {
                record.update_last_used(now);
                enter(SwitchState::SavingAccount)
            },
            SwitchEvent::Committed(Err(e)) => fail(e),
            _ => fail(owned(UNEXPECTED_SWITCH_EVENT)),
        },
        SwitchState::SavingAccount => match event {
            SwitchEvent::Saved(Ok(_)) => (SwitchState::Finished, SwitchAction::Finish(Ok(()))),
            SwitchEvent::Saved(Err(e)) => fail(e),
            _ => fail(owned(UNEXPECTED_SWITCH_EVENT)),
        },
        _ => fail(owned(UNEXPECTED_SWITCH_EVENT)),
    };
    *account = Some(record);
    r
}

/// How far a switch has come in a state.
pub open spec fn switch_progress(state: SwitchState) -> int {
    match state {
        SwitchState::Start => 0,
        SwitchState::LoadingIndex => 1,
        SwitchState::LoadingAccount => 2,
        SwitchState::RefreshingToken => 3,
        SwitchState::SavingToken => 4,
        SwitchState::GeneratingProfile => 5,
        SwitchState::SavingProfile => 6,
        SwitchState::Integrating => 7,
        SwitchState::Committing => 8,
        SwitchState::SavingAccount => 9,
        SwitchState::Finished => 10,
    }
}

/// Every step brings the switch further, whatever happened, and the
/// account becomes the active one only behind the platform integration:
/// the index is committed from no other state than the one in which the
/// integration is awaited, and only on its success.
pub proof fn law_switch_always_advances(
    state: SwitchState,
    event: SwitchEvent,
    account_id: Seq<char>,
    account: Option<AccountView>,
)
    ensures
        state != SwitchState::Finished ==> switch_progress(
            switch_outcome(state, event, account_id, account).0,
        ) > switch_progress(state),
        switch_outcome(state, event, account_id, account).0 == SwitchState::Committing ==> state
            == SwitchState::Integrating && event matches SwitchEvent::Integrated(Ok(_)),
        switch_outcome(state, event, account_id, account).1 matches Some(Ok(_)) ==> state
            == SwitchState::SavingAccount,
{
}

} // verus!
