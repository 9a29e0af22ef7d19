//! The operations of the account store on the index: adding, replacing,
//! deleting and reordering accounts, and choosing the active one.

use crate::ambient::{fresh_id, now_timestamp};
use crate::model::{
    accounts_view, projection, summaries_view, summary_of, Account, AccountIndex,
    AccountIndexView, AccountSummary, AccountSummaryView, AccountView, QuotaData, TokenData,
    TokenDataView,
};
use crate::text::{
    clone_opt, concat2, opt_view, owned, slice_contains, str_eq, strings_view,
};
use vstd::prelude::*;
use vstd::seq_lib::{lemma_multiset_commutative, to_multiset_build, to_multiset_contains};

verus! {

/// Some summary has the email `email`.
pub open spec fn has_email(s: Seq<AccountSummaryView>, email: Seq<char>) -> bool {
    exists|i: int| 0 <= i < s.len() && (#[trigger] s[i]).email == email
}

/// Some summary has the id `id`.
pub open spec fn has_id(s: Seq<AccountSummaryView>, id: Seq<char>) -> bool {
    exists|i: int| 0 <= i < s.len() && (#[trigger] s[i]).id == id
}

/// `i` is the position of the first summary with the email `email`.
pub open spec fn first_with_email(s: Seq<AccountSummaryView>, email: Seq<char>, i: int) -> bool {
    &&& 0 <= i < s.len()
    &&& s[i].email == email
    &&& forall|j: int| 0 <= j < i ==> (#[trigger] s[j]).email != email
}

/// `i` is the position of the first summary with the id `id`.
pub open spec fn first_with_id(s: Seq<AccountSummaryView>, id: Seq<char>, i: int) -> bool {
    &&& 0 <= i < s.len()
    &&& s[i].id == id
    &&& forall|j: int| 0 <= j < i ==> (#[trigger] s[j]).id != id
}

/// No two summaries share an email.
pub open spec fn emails_unique(s: Seq<AccountSummaryView>) -> bool {
    forall|i: int, j: int|
        0 <= i < s.len() && 0 <= j < s.len() && i != j ==> (#[trigger] s[i]).email != (
        #[trigger] s[j]).email
}

/// The index is well formed: no email occurs twice, and the active account,
/// if there is one, is listed.
pub open spec fn index_wf(index: AccountIndexView) -> bool {
    &&& emails_unique(index.accounts)
    &&& index.current_account_id matches Some(id) ==> has_id(index.accounts, id)
}

/// The position of the first summary with the email `email`.
pub fn position_of_email(accounts: &Vec<AccountSummary>, email: &str) -> (r: Option<usize>)
    ensures
        match r {
            Some(i) => first_with_email(summaries_view(accounts@), email@, i as int),
            None => !has_email(summaries_view(accounts@), email@),
        },
{
    let mut i: usize = 0;
    while i < accounts.len()
        invariant
            i <= accounts.len(),
            forall|j: int| 0 <= j < i ==> (#[trigger] summaries_view(accounts@)[j]).email != email@,
        decreases accounts.len() - i,
    {
        if str_eq(accounts[i].email.as_str(), email) {
            return Some(i);
        }
        i += 1;
    }
    None
}

/// The position of the first summary with the id `id`.
pub fn position_of_id(accounts: &Vec<AccountSummary>, id: &str) -> (r: Option<usize>)
    ensures
        match r {
            Some(i) => first_with_id(summaries_view(accounts@), id@, i as int),
            None => !has_id(summaries_view(accounts@), id@),
        },
{
    let mut i: usize = 0;
    while i < accounts.len()
        invariant
            i <= accounts.len(),
            forall|j: int| 0 <= j < i ==> (#[trigger] summaries_view(accounts@)[j]).id != id@,
        decreases accounts.len() - i,
    {
        if str_eq(accounts[i].id.as_str(), id) {
            return Some(i);
        }
        i += 1;
    }
    None
}

/// Looks an account's id up by its email: the id of the first summary with
/// that email.
pub fn find_account_id_by_email(index: &AccountIndex, email: &str) -> (r: Option<String>)
    ensures
        match r {
            Some(id) => exists|i: int|
                first_with_email(index@.accounts, email@, i) && index@.accounts[i].id == id@,
            None => !has_email(index@.accounts, email@),
        },
{
    match position_of_email(&index.accounts, email) {
        Some(i) => {
            assert(first_with_email(index@.accounts, email@, i as int));
            Some(index.accounts[i].id.clone())
        },
        None => None,
    }
}

/// The id of the active account.
pub fn get_current_account_id(index: &AccountIndex) -> (r: Option<String>)
    ensures
        opt_view(r) == index@.current_account_id,
{
    clone_opt(&index.current_account_id)
}

/// The message for an id that is to become the active account and that no
/// summary has.
pub open spec fn not_listed_message(id: Seq<char>) -> Seq<char> {
    "Account not found: "@ + id
}

/// Makes the account with the id `account_id` the active account. An id
/// that no summary has is refused, and the index stays as it is.
pub fn set_current_account_id(index: &mut AccountIndex, account_id: &str) -> (r: Result<
    (),
    String,
>)
    ensures
        match r {
            Ok(_) => {
                &&& has_id(old(index)@.accounts, account_id@)
                &&& final(index)@ == (AccountIndexView {
                    current_account_id: Some(account_id@),
                    ..old(index)@
                })
            },
            Err(message) => {
                &&& !has_id(old(index)@.accounts, account_id@)
                &&& message@ == not_listed_message(account_id@)
                &&& final(index)@ == old(index)@
            },
        },
        index_wf(old(index)@) ==> index_wf(final(index)@),
{
    if position_of_id(&index.accounts, account_id).is_none() {
        return Err(concat2("Account not found: ", account_id));
    }
    index.current_account_id = Some(owned(account_id));
    Ok(())
}

/// The record of a new account.
pub open spec fn new_account_view(
    id: Seq<char>,
    email: Seq<char>,
    name: Option<Seq<char>>,
    token: TokenDataView,
    now: int,
) -> AccountView {
    AccountView { name, ..Account::fresh_view(id, email, token, now) }
}

/// The index after the account `account` was added: its summary stands
/// last, and it is active if no account was.
pub open spec fn index_with_added(index: AccountIndexView, account: AccountView) -> AccountIndexView {
    AccountIndexView {
        accounts: index.accounts.push(projection(account)),
        current_account_id: if index.current_account_id is None {
            Some(account.id)
        } else {
            index.current_account_id
        },
        ..index
    }
}

/// The message for an email that is already registered.
pub open spec fn duplicate_message(email: Seq<char>) -> Seq<char> {
    "Account already exists: "@ + email
}

/// Appends a new account to the index without looking at the emails.
fn append_account(
    index: &mut AccountIndex,
    id: String,
    now: i64,
    email: String,
    name: Option<String>,
    token: TokenData,
) -> (account: Account)
    ensures
        account@ == new_account_view(id@, email@, opt_view(name), token@, now as int),
        final(index)@ == index_with_added(old(index)@, account@),
        index_wf(old(index)@) && !has_email(old(index)@.accounts, email@) ==> index_wf(
            final(index)@,
        ),
{
    let mut account = Account::new(id, email, token, now);
    account.name = name;
    let summary = summary_of(&account);
    let ghost before = summaries_view(index.accounts@);
    index.accounts.push(summary);
    assert(summaries_view(index.accounts@) =~= before.push(projection(account@)));
    if index.current_account_id.is_none() {
        index.current_account_id = Some(account.id.clone());
    }
    proof {
        let after = summaries_view(index.accounts@);
        assert(after[after.len() - 1] == projection(account@));
        if index_wf(old(index)@) && !has_email(old(index)@.accounts, email@) {
            assert forall|i: int, j: int|
                0 <= i < after.len() && 0 <= j < after.len() && i != j implies (
            #[trigger] after[i]).email != (#[trigger] after[j]).email by {
                if i < before.len() {
                    assert(after[i] == before[i]);
                }
                if j < before.len() {
                    assert(after[j] == before[j]);
                }
            }
            match old(index)@.current_account_id {
                Some(c) => {
                    let k = choose|k: int| 0 <= k < before.len() && (#[trigger] before[k]).id == c;
                    assert(after[k] == before[k]);
                },
                None => {},
            }
        }
    }
    account
}

/// Adds an account with the id `id`, created at time `now`. An email that
/// some summary already has is refused, and the index stays as it is.
pub fn add_account_with(
    index: &mut AccountIndex,
    id: String,
    now: i64,
    email: String,
    name: Option<String>,
    token: TokenData,
) -> (r: Result<Account, String>)
    ensures
        match r {
            Ok(account) => {
                &&& !has_email(old(index)@.accounts, email@)
                &&& account@ == new_account_view(id@, email@, opt_view(name), token@, now as int)
                &&& final(index)@ == index_with_added(old(index)@, account@)
            },
            Err(message) => {
                &&& has_email(old(index)@.accounts, email@)
                &&& message@ == duplicate_message(email@)
                &&& final(index)@ == old(index)@
            },
        },
        index_wf(old(index)@) ==> index_wf(final(index)@),
{
    if position_of_email(&index.accounts, email.as_str()).is_some() {
        return Err(concat2("Account already exists: ", email.as_str()));
    }
    Ok(append_account(index, id, now, email, name, token))
}

/// Adds an account under a fresh id, created now. An email that some
/// summary already has is refused, and the index stays as it is.
pub fn add_account(
    index: &mut AccountIndex,
    email: String,
    name: Option<String>,
    token: TokenData,
) -> (r: Result<Account, String>)
    ensures
        match r {
            Ok(account) => {
                &&& !has_email(old(index)@.accounts, email@)
                &&& account@ == new_account_view(
                    account@.id,
                    email@,
                    opt_view(name),
                    token@,
                    account@.created_at,
                )
                &&& final(index)@ == index_with_added(old(index)@, account@)
            },
            Err(message) => {
                &&& has_email(old(index)@.accounts, email@)
                &&& message@ == duplicate_message(email@)
                &&& final(index)@ == old(index)@
            },
        },
        index_wf(old(index)@) ==> index_wf(final(index)@),
{
    let id = fresh_id();
    let now = now_timestamp();
    add_account_with(index, id, now, email, name, token)
}

/// The summaries whose id is not among `ids`, in their order.
pub open spec fn without_ids(s: Seq<AccountSummaryView>, ids: Seq<Seq<char>>) -> Seq<
    AccountSummaryView,
>
    decreases s.len(),
{
    if s.len() == 0 {
        Seq::empty()
    } else if ids.contains(s.last().id) {
        without_ids(s.drop_last(), ids)
    } else {
        without_ids(s.drop_last(), ids).push(s.last())
    }
}

/// The id of the first summary, if there is one.
pub open spec fn first_id(s: Seq<AccountSummaryView>) -> Option<Seq<char>> {
    if s.len() > 0 {
        Some(s[0].id)
    } else {
        None
    }
}

/// Every summary that is left was there before, and a summary whose id is
/// not among `ids` is still there.
pub proof fn lemma_without_ids(s: Seq<AccountSummaryView>, ids: Seq<Seq<char>>)
    ensures
        forall|x: AccountSummaryView| #[trigger]
            without_ids(s, ids).contains(x) <==> s.contains(x) && !ids.contains(x.id),
        emails_unique(s) ==> emails_unique(without_ids(s, ids)),
        without_ids(s, ids).len() <= s.len(),
    decreases s.len(),
{
    if s.len() == 0 {
    } else {
        let head = s.drop_last();
        let rest = without_ids(head, ids);
        lemma_without_ids(head, ids);
        let out = without_ids(s, ids);
        assert forall|x: AccountSummaryView| #[trigger]
            out.contains(x) <==> s.contains(x) && !ids.contains(x.id) by {
            if out.contains(x) {
                let k = choose|k: int| 0 <= k < out.len() && out[k] == x;
                if k < rest.len() {
                    assert(rest.contains(out[k]));
                    let m = choose|m: int| 0 <= m < head.len() && head[m] == x;
                    assert(s[m] == x);
                } else {
                    assert(s[s.len() - 1] == x);
                }
            }
            if s.contains(x) && !ids.contains(x.id) {
                let m = choose|m: int| 0 <= m < s.len() && s[m] == x;
                if m < head.len() {
                    assert(head[m] == x);
                    assert(head.contains(x));
                    assert(rest.contains(x));
                    let k = choose|k: int| 0 <= k < rest.len() && rest[k] == x;
                    assert(out[k] == x);
                } else {
                    assert(out[out.len() - 1] == x);
                }
            }
        }
        if emails_unique(s) {
            assert forall|i: int, j: int|
                0 <= i < head.len() && 0 <= j < head.len() && i != j implies (
            #[trigger] head[i]).email != (#[trigger] head[j]).email by {
                assert(head[i] == s[i] && head[j] == s[j]);
            }
            assert forall|i: int, j: int|
                0 <= i < out.len() && 0 <= j < out.len() && i != j implies (#[trigger] out[i]).email
                != (#[trigger] out[j]).email by {
                if i < rest.len() && j < rest.len() {
                    assert(out[i] == rest[i] && out[j] == rest[j]);
                } else {
                    let other = if i < rest.len() {
                        i
                    } else {
                        j
                    };
                    assert(rest.contains(rest[other]));
                    let m = choose|m: int| 0 <= m < head.len() && head[m] == rest[other];
                    assert(s[m] == rest[other]);
                    assert(out[other] == rest[other]);
                    assert(s[s.len() - 1] == s.last());
                }
            }
        }
    }
}

/// The summaries of `accounts` whose id is not among `ids`.
fn keep_without_ids(accounts: &Vec<AccountSummary>, ids: &[String]) -> (r: Vec<AccountSummary>)
    ensures
        summaries_view(r@) == without_ids(summaries_view(accounts@), strings_view(ids@)),
{
    let mut kept: Vec<AccountSummary> = Vec::new();
    let ghost all = summaries_view(accounts@);
    let mut i: usize = 0;
    assert(all.take(0) =~= Seq::empty());
    assert(summaries_view(kept@) =~= Seq::empty());
    while i < accounts.len()
        invariant
            i <= accounts.len(),
            all == summaries_view(accounts@),
            summaries_view(kept@) == without_ids(all.take(i as int), strings_view(ids@)),
        decreases accounts.len() - i,
    {
        proof {
            let next = all.take(i + 1);
            assert(next.drop_last() =~= all.take(i as int));
            assert(next.last() == accounts@[i as int]@);
        }
        if !slice_contains(ids, accounts[i].id.as_str()) {
            let ghost before = summaries_view(kept@);
            kept.push(accounts[i].clone());
            assert(summaries_view(kept@) =~= before.push(accounts@[i as int]@));
        }
        i += 1;
    }
    assert(all.take(accounts.len() as int) =~= all);
    kept
}

/// The message for an id that no summary has.
pub open spec fn id_not_found_message(id: Seq<char>) -> Seq<char> {
    "Account ID not found: "@ + id
}

/// The index after the accounts with the ids `ids` were deleted, where
/// `keeps_current` says whether the active account stays what it was: the
/// summaries with those ids are gone, and an active account that is gone is
/// followed by the first summary that is left.
pub open spec fn index_without(
    index: AccountIndexView,
    ids: Seq<Seq<char>>,
    keeps_current: bool,
) -> AccountIndexView {
    let left = without_ids(index.accounts, ids);
    AccountIndexView {
        accounts: left,
        current_account_id: if keeps_current {
            index.current_account_id
        } else {
            first_id(left)
        },
        ..index
    }
}

/// Deletes the account with the id `account_id` from the index. If it was
/// the active account, the first summary that is left becomes active, or
/// none if none is left. An id that no summary has is refused.
pub fn delete_account(index: &mut AccountIndex, account_id: &str) -> (r: Result<(), String>)
    ensures
        match r {
            Ok(_) => {
                &&& has_id(old(index)@.accounts, account_id@)
                &&& final(index)@ == index_without(
                    old(index)@,
                    seq![account_id@],
                    old(index)@.current_account_id != Some(account_id@),
                )
            },
            Err(message) => {
                &&& !has_id(old(index)@.accounts, account_id@)
                &&& message@ == id_not_found_message(account_id@)
                &&& final(index)@ == old(index)@
            },
        },
        index_wf(old(index)@) ==> index_wf(final(index)@),
{
    if position_of_id(&index.accounts, account_id).is_none() {
        return Err(concat2("Account ID not found: ", account_id));
    }
    let mut ids: Vec<String> = Vec::new();
    ids.push(owned(account_id));
    assert(strings_view(ids@) =~= seq![account_id@]);
    let kept = keep_without_ids(&index.accounts, ids.as_slice());
    index.accounts = kept;
    let was_current = match &index.current_account_id {
        Some(c) => str_eq(c.as_str(), account_id),
        None => false,
    };
    if was_current {
        index.current_account_id = if index.accounts.len() > 0 {
            Some(index.accounts[0].id.clone())
        } else {
            None
        };
    }
    proof {
        if index_wf(old(index)@) {
            lemma_index_without_wf(
                old(index)@,
                seq![account_id@],
                old(index)@.current_account_id != Some(account_id@),
            );
        }
    }
    Ok(())
}

/// Deleting keeps a well-formed index well formed, provided the active
/// account is only kept where it is not deleted.
pub proof fn lemma_index_without_wf(
    index: AccountIndexView,
    ids: Seq<Seq<char>>,
    keeps_current: bool,
)
    requires
        index_wf(index),
        keeps_current ==> (index.current_account_id matches Some(c) ==> !ids.contains(c)),
    ensures
        index_wf(index_without(index, ids, keeps_current)),
{
    let left = without_ids(index.accounts, ids);
    lemma_without_ids(index.accounts, ids);
    if keeps_current {
        match index.current_account_id {
            Some(c) => {
                let k = choose|k: int|
                    0 <= k < index.accounts.len() && (#[trigger] index.accounts[k]).id == c;
                assert(index.accounts.contains(index.accounts[k]));
                assert(left.contains(index.accounts[k]));
                let m = choose|m: int| 0 <= m < left.len() && left[m] == index.accounts[k];
                assert(left[m].id == c);
            },
            None => {},
        }
    } else {
        if left.len() > 0 {
            assert(left[0].id == first_id(left)->0);
        }
    }
}

/// The active account is none of the accounts with the ids `ids`.
pub open spec fn current_survives(index: AccountIndexView, ids: Seq<Seq<char>>) -> bool {
    match index.current_account_id {
        Some(c) => !ids.contains(c),
        None => true,
    }
}

/// Deletes every account whose id is among `account_ids`, as one deletion
/// after the other would. If the active account is among them, the first
/// summary that is left becomes active, or none if none is left; else the
/// active account stays what it was.
pub fn delete_accounts(index: &mut AccountIndex, account_ids: &[String])
    ensures
        final(index)@ == index_without(
            old(index)@,
            strings_view(account_ids@),
            current_survives(old(index)@, strings_view(account_ids@)),
        ),
        index_wf(old(index)@) ==> index_wf(final(index)@),
{
    let kept = keep_without_ids(&index.accounts, account_ids);
    index.accounts = kept;
    let keeps = match &index.current_account_id {
        Some(c) => !slice_contains(account_ids, c.as_str()),
        None => true,
    };
    if !keeps {
        index.current_account_id = if index.accounts.len() > 0 {
            Some(index.accounts[0].id.clone())
        } else {
            None
        };
    }
    proof {
        if index_wf(old(index)@) {
            lemma_index_without_wf(
                old(index)@,
                strings_view(account_ids@),
                current_survives(old(index)@, strings_view(account_ids@)),
            );
        }
    }
}

/// The position of the first summary with the email `email`.
pub open spec fn email_position(s: Seq<AccountSummaryView>, email: Seq<char>) -> int {
    choose|i: int| first_with_email(s, email, i)
}

/// The position of the first summary with the id `id`.
pub open spec fn id_position(s: Seq<AccountSummaryView>, id: Seq<char>) -> int {
    choose|i: int| first_with_id(s, id, i)
}

/// The first summary with an email is at the position that [`email_position`]
/// names.
pub proof fn lemma_email_position(s: Seq<AccountSummaryView>, email: Seq<char>, i: int)
    requires
        first_with_email(s, email, i),
    ensures
        email_position(s, email) == i,
        has_email(s, email),
{
    let c = email_position(s, email);
    assert(first_with_email(s, email, c));
    if c < i {
        assert(s[c].email == email);
    }
    if i < c {
        assert(s[i].email == email);
    }
}

/// The first summary with an id is at the position that [`id_position`] names.
pub proof fn lemma_id_position(s: Seq<AccountSummaryView>, id: Seq<char>, i: int)
    requires
        first_with_id(s, id, i),
    ensures
        id_position(s, id) == i,
        has_id(s, id),
{
    let c = id_position(s, id);
    assert(first_with_id(s, id, c));
    if c < i {
        assert(s[c].id == id);
    }
    if i < c {
        assert(s[i].id == id);
    }
}

/// The credentials differ in the access token or in the refresh token.
pub open spec fn token_changed(stored: TokenDataView, given: TokenDataView) -> bool {
    given.refresh_token != stored.refresh_token || given.access_token != stored.access_token
}

/// The record of a known account after its credentials and name were
/// replaced at time `now`: an account that was disabled is enabled again
/// if the credentials changed.
pub open spec fn upserted_view(
    stored: AccountView,
    name: Option<Seq<char>>,
    token: TokenDataView,
    now: int,
) -> AccountView {
    let enable = stored.disabled && token_changed(stored.token, token);
    AccountView {
        token,
        name,
        disabled: if enable {
            false
        } else {
            stored.disabled
        },
        disabled_reason: if enable {
            None
        } else {
            stored.disabled_reason
        },
        disabled_at: if enable {
            None
        } else {
            stored.disabled_at
        },
        last_used: now,
        ..stored
    }
}

/// The summaries with the name of the one at position `k` replaced.
pub open spec fn with_name_at(s: Seq<AccountSummaryView>, k: int, name: Option<Seq<char>>) -> Seq<
    AccountSummaryView,
> {
    s.update(k, AccountSummaryView { name, ..s[k] })
}

/// The summaries with the proxy flag of the one at position `k` replaced.
pub open spec fn with_proxy_flag_at(s: Seq<AccountSummaryView>, k: int, flag: bool) -> Seq<
    AccountSummaryView,
> {
    s.update(k, AccountSummaryView { proxy_disabled: flag, ..s[k] })
}

/// The summaries with the protected models of the one at position `k` replaced.
pub open spec fn with_protected_at(
    s: Seq<AccountSummaryView>,
    k: int,
    protected: Seq<Seq<char>>,
) -> Seq<AccountSummaryView> {
    s.update(k, AccountSummaryView { protected_models: protected, ..s[k] })
}

/// Replacing a summary by one with the same email and id keeps the index
/// well formed.
pub proof fn lemma_update_keeps_wf(index: AccountIndexView, k: int, summary: AccountSummaryView)
    requires
        index_wf(index),
        0 <= k < index.accounts.len(),
        summary.email == index.accounts[k].email,
        summary.id == index.accounts[k].id,
    ensures
        index_wf(AccountIndexView { accounts: index.accounts.update(k, summary), ..index }),
{
    let s = index.accounts;
    let t = s.update(k, summary);
    assert forall|i: int, j: int| 0 <= i < t.len() && 0 <= j < t.len() && i != j implies (
    #[trigger] t[i]).email != (#[trigger] t[j]).email by {
        assert(t[i].email == s[i].email);
        assert(t[j].email == s[j].email);
    }
    match index.current_account_id {
        Some(c) => {
            let m = choose|m: int| 0 <= m < s.len() && (#[trigger] s[m]).id == c;
            assert(t[m].id == c);
        },
        None => {},
    }
}

/// Puts `summary` in the place of the summary at position `k`.
fn replace_summary(index: &mut AccountIndex, k: usize, summary: AccountSummary)
    requires
        k < old(index).accounts.len(),
    ensures
        final(index)@ == (AccountIndexView {
            accounts: old(index)@.accounts.update(k as int, summary@),
            ..old(index)@
        }),
{
    let ghost before = summaries_view(index.accounts@);
    index.accounts.set(k, summary);
    assert(summaries_view(index.accounts@) =~= before.update(k as int, summary@));
}

/// The record that an upsert leaves for an email that is registered.
pub open spec fn upsert_of_known(
    id: Seq<char>,
    stored: Option<Account>,
    email: Seq<char>,
    name: Option<Seq<char>>,
    token: TokenDataView,
    now: int,
) -> AccountView {
    match stored {
        Some(account) => upserted_view(account@, name, token, now),
        None => new_account_view(id, email, name, token, now),
    }
}

/// Adds the account or replaces its credentials and name, at time `now`.
///
/// Where a summary has the email, `stored` is the record on file under that
/// summary's id (nothing if none could be read). The record gets the new
/// credentials and name and `now` as its last use, and is enabled again if
/// it was disabled and the credentials changed; without a record on file a
/// new one is made under the same id. The summary's name follows.
/// Where no summary has the email, the account is added under `new_id`.
pub fn upsert_account_with(
    index: &mut AccountIndex,
    stored: Option<Account>,
    new_id: String,
    now: i64,
    email: String,
    name: Option<String>,
    token: TokenData,
) -> (account: Account)
    ensures
        has_email(old(index)@.accounts, email@) ==> ({
            let i = email_position(old(index)@.accounts, email@);
            let id = old(index)@.accounts[i].id;
            let k = id_position(old(index)@.accounts, id);
            &&& account@ == upsert_of_known(id, stored, email@, opt_view(name), token@, now as int)
            &&& final(index)@ == (AccountIndexView {
                accounts: with_name_at(old(index)@.accounts, k, opt_view(name)),
                ..old(index)@
            })
        }),
        !has_email(old(index)@.accounts, email@) ==> ({
            &&& account@ == new_account_view(new_id@, email@, opt_view(name), token@, now as int)
            &&& final(index)@ == index_with_added(old(index)@, account@)
        }),
        index_wf(old(index)@) ==> index_wf(final(index)@),
{
    match position_of_email(&index.accounts, email.as_str()) {
        Some(i) => {
            proof {
                lemma_email_position(old(index)@.accounts, email@, i as int);
            }
            let account_id = index.accounts[i].id.clone();
            let account = match stored {
                Some(mut account) => {
                    let changed = !str_eq(
                        token.refresh_token.as_str(),
                        account.token.refresh_token.as_str(),
                    ) || !str_eq(token.access_token.as_str(), account.token.access_token.as_str());
                    account.token = token;
                    account.name = clone_opt(&name);
                    if account.disabled && changed {
                        account.disabled = false;
                        account.disabled_reason = None;
                        account.disabled_at = None;
                    }
                    account.update_last_used(now);
                    account
                },
                None => {
                    let mut account = Account::new(account_id.clone(), email, token, now);
                    account.name = clone_opt(&name);
                    account
                },
            };
            match position_of_id(&index.accounts, account_id.as_str()) {
                Some(k) => {
                    proof {
                        lemma_id_position(old(index)@.accounts, account_id@, k as int);
                    }
                    let mut summary = index.accounts[k].clone();
                    summary.name = name;
                    proof {
                        if index_wf(old(index)@) {
                            lemma_update_keeps_wf(old(index)@, k as int, summary@);
                        }
                    }
                    replace_summary(index, k, summary);
                },
                None => {
                    assert(summaries_view(index.accounts@)[i as int].id == account_id@);
                },
            }
            account
        },
        None => append_account(index, new_id, now, email, name, token),
    }
}

/// Adds the account or replaces its credentials and name, now; a new
/// account gets a fresh id. See [`upsert_account_with`].
pub fn upsert_account(
    index: &mut AccountIndex,
    stored: Option<Account>,
    email: String,
    name: Option<String>,
    token: TokenData,
) -> (account: Account)
    ensures
        has_email(old(index)@.accounts, email@) ==> ({
            let i = email_position(old(index)@.accounts, email@);
            let id = old(index)@.accounts[i].id;
            let k = id_position(old(index)@.accounts, id);
            &&& account@ == upsert_of_known(
                id,
                stored,
                email@,
                opt_view(name),
                token@,
                account@.last_used,
            )
            &&& final(index)@ == (AccountIndexView {
                accounts: with_name_at(old(index)@.accounts, k, opt_view(name)),
                ..old(index)@
            })
        }),
        !has_email(old(index)@.accounts, email@) ==> ({
            &&& account@ == new_account_view(
                account@.id,
                email@,
                opt_view(name),
                token@,
                account@.last_used,
            )
            &&& final(index)@ == index_with_added(old(index)@, account@)
        }),
        index_wf(old(index)@) ==> index_wf(final(index)@),
{
    let id = fresh_id();
    let now = now_timestamp();
    upsert_account_with(index, stored, id, now, email, name, token)
}

/// The summaries with the id `id`, in their order.
pub open spec fn with_id(s: Seq<AccountSummaryView>, id: Seq<char>) -> Seq<AccountSummaryView>
    decreases s.len(),
{
    if s.len() == 0 {
        Seq::empty()
    } else if s.last().id == id {
        with_id(s.drop_last(), id).push(s.last())
    } else {
        with_id(s.drop_last(), id)
    }
}

/// For each id of `ids` in turn the summaries with that id; an id that was
/// named before is passed over, so that no summary is taken twice.
pub open spec fn picked(s: Seq<AccountSummaryView>, ids: Seq<Seq<char>>) -> Seq<
    AccountSummaryView,
>
    decreases ids.len(),
{
    if ids.len() == 0 {
        Seq::empty()
    } else if ids.drop_last().contains(ids.last()) {
        picked(s, ids.drop_last())
    } else {
        picked(s, ids.drop_last()) + with_id(s, ids.last())
    }
}

/// The summaries in the order that `ids` gives, followed by those that
/// `ids` does not name, in the order they had.
pub open spec fn reordered(s: Seq<AccountSummaryView>, ids: Seq<Seq<char>>) -> Seq<
    AccountSummaryView,
> {
    picked(s, ids) + without_ids(s, ids)
}

/// Tells whether the id at position `i` of `ids` stands at an earlier
/// position too.
fn named_before(ids: &[String], i: usize) -> (r: bool)
    requires
        i < ids.len(),
    ensures
        r == strings_view(ids@).take(i as int).contains(ids@[i as int]@),
{
    let ghost earlier = strings_view(ids@).take(i as int);
    let mut k: usize = 0;
    while k < i
        invariant
            k <= i,
            i < ids.len(),
            earlier == strings_view(ids@).take(i as int),
            forall|j: int| 0 <= j < k ==> earlier[j] != ids@[i as int]@,
        decreases i - k,
    {
        if str_eq(ids[k].as_str(), ids[i].as_str()) {
            assert(earlier[k as int] == ids@[i as int]@);
            return true;
        }
        k += 1;
    }
    false
}

/// Appends copies of the summaries of `accounts` with the id `id` to `out`.
fn append_with_id(out: &mut Vec<AccountSummary>, accounts: &Vec<AccountSummary>, id: &str)
    ensures
        summaries_view(final(out)@) == summaries_view(old(out)@) + with_id(
            summaries_view(accounts@),
            id@,
        ),
{
    let ghost start = summaries_view(out@);
    let ghost all = summaries_view(accounts@);
    let mut i: usize = 0;
    assert(all.take(0) =~= Seq::empty());
    assert(summaries_view(out@) =~= start + with_id(all.take(0), id@));
    while i < accounts.len()
        invariant
            i <= accounts.len(),
            all == summaries_view(accounts@),
            summaries_view(out@) == start + with_id(all.take(i as int), id@),
        decreases accounts.len() - i,
    {
        proof {
            let next = all.take(i + 1);
            assert(next.drop_last() =~= all.take(i as int));
            assert(next.last() == accounts@[i as int]@);
        }
        if str_eq(accounts[i].id.as_str(), id) {
            let ghost before = summaries_view(out@);
            out.push(accounts[i].clone());
            assert(summaries_view(out@) =~= before.push(accounts@[i as int]@));
            assert(summaries_view(out@) =~= start + with_id(all.take(i + 1), id@));
        }
        i += 1;
    }
    assert(all.take(accounts.len() as int) =~= all);
}

/// Puts the summaries in the order of `account_ids`. Ids that no summary
/// has are passed over, and so is an id that the list named before;
/// summaries that the list does not name follow at the end, in the order
/// they had. Every summary is there once, as before.
pub fn reorder_accounts(index: &mut AccountIndex, account_ids: &[String])
    ensures
        final(index)@ == (AccountIndexView {
            accounts: reordered(old(index)@.accounts, strings_view(account_ids@)),
            ..old(index)@
        }),
        final(index)@.accounts.to_multiset() == old(index)@.accounts.to_multiset(),
        index_wf(old(index)@) ==> index_wf(final(index)@),
{
    let ghost all = summaries_view(index.accounts@);
    let ghost ids = strings_view(account_ids@);
    let mut ordered: Vec<AccountSummary> = Vec::new();
    let mut i: usize = 0;
    assert(ids.take(0) =~= Seq::empty());
    assert(summaries_view(ordered@) =~= Seq::empty());
    while i < account_ids.len()
        invariant
            i <= account_ids.len(),
            all == summaries_view(index.accounts@),
            ids == strings_view(account_ids@),
            summaries_view(ordered@) == picked(all, ids.take(i as int)),
        decreases account_ids.len() - i,
    {
        proof {
            let next = ids.take(i + 1);
            assert(next.drop_last() =~= ids.take(i as int));
            assert(next.last() == account_ids@[i as int]@);
        }
        if !named_before(account_ids, i) {
            append_with_id(&mut ordered, &index.accounts, account_ids[i].as_str());
        }
        i += 1;
    }
    assert(ids.take(account_ids.len() as int) =~= ids);
    let mut rest = keep_without_ids(&index.accounts, account_ids);
    let ghost head = summaries_view(ordered@);
    let ghost tail = summaries_view(rest@);
    ordered.append(&mut rest);
    assert(summaries_view(ordered@) =~= head + tail);
    index.accounts = ordered;
    proof {
        law_reorder_keeps_every_account(all, ids);
        if index_wf(old(index)@) {
            law_reorder_keeps_index_well_formed(old(index)@, ids);
        }
    }
}

/// The view of an optional string slice.
pub open spec fn opt_str_view(o: Option<&str>) -> Option<Seq<char>> {
    match o {
        Some(s) => Some(s@),
        None => None,
    }
}

/// The record after proxy routing was switched on (`enable`) or off at
/// time `now`: switched off it carries the reason and the time, switched
/// on neither.
pub open spec fn proxy_toggled(
    account: AccountView,
    enable: bool,
    reason: Option<Seq<char>>,
    now: int,
) -> AccountView {
    AccountView {
        proxy_disabled: !enable,
        proxy_disabled_reason: if enable {
            None
        } else {
            reason
        },
        proxy_disabled_at: if enable {
            None
        } else {
            Some(now)
        },
        ..account
    }
}

/// The index with the proxy flag of the first summary with the id `id`
/// set to `flag`; unchanged where no summary has the id.
pub open spec fn index_with_proxy_flag(
    index: AccountIndexView,
    id: Seq<char>,
    flag: bool,
) -> AccountIndexView {
    if has_id(index.accounts, id) {
        AccountIndexView {
            accounts: with_proxy_flag_at(index.accounts, id_position(index.accounts, id), flag),
            ..index
        }
    } else {
        index
    }
}

/// Sets the proxy flag of the first summary with the id `account_id`.
fn set_summary_proxy_flag(index: &mut AccountIndex, account_id: &str, flag: bool) -> (found: bool)
    ensures
        found == has_id(old(index)@.accounts, account_id@),
        final(index)@ == index_with_proxy_flag(old(index)@, account_id@, flag),
        index_wf(old(index)@) ==> index_wf(final(index)@),
{
    match position_of_id(&index.accounts, account_id) {
        Some(k) => {
            proof {
                lemma_id_position(old(index)@.accounts, account_id@, k as int);
            }
            let mut summary = index.accounts[k].clone();
            summary.proxy_disabled = flag;
            proof {
                if index_wf(old(index)@) {
                    lemma_update_keeps_wf(old(index)@, k as int, summary@);
                }
            }
            replace_summary(index, k, summary);
            true
        },
        None => false,
    }
}

/// Switches proxy routing for an account on or off at time `now`, in its
/// record and in the first summary with the id `account_id`. Tells whether
/// there is such a summary, that is whether the index changed.
pub fn toggle_proxy_status_at(
    account_id: &str,
    account: &mut Account,
    index: &mut AccountIndex,
    enable: bool,
    reason: Option<&str>,
    now: i64,
) -> (listed: bool)
    ensures
        final(account)@ == proxy_toggled(old(account)@, enable, opt_str_view(reason), now as int),
        final(index)@ == index_with_proxy_flag(old(index)@, account_id@, !enable),
        listed == has_id(old(index)@.accounts, account_id@),
        index_wf(old(index)@) ==> index_wf(final(index)@),
{
    account.proxy_disabled = !enable;
    if enable {
        account.proxy_disabled_reason = None;
        account.proxy_disabled_at = None;
    } else {
        account.proxy_disabled_reason = match reason {
            Some(text) => Some(owned(text)),
            None => None,
        };
        account.proxy_disabled_at = Some(now);
    }
    set_summary_proxy_flag(index, account_id, !enable)
}

/// Switches proxy routing for an account on or off, now.
/// See [`toggle_proxy_status_at`].
pub fn toggle_proxy_status(
    account_id: &str,
    account: &mut Account,
    index: &mut AccountIndex,
    enable: bool,
    reason: Option<&str>,
) -> (listed: bool)
    ensures
        enable ==> final(account)@ == proxy_toggled(old(account)@, true, None, 0),
        !enable ==> final(account)@.proxy_disabled_at is Some && final(account)@ == proxy_toggled(
            old(account)@,
            false,
            opt_str_view(reason),
            final(account)@.proxy_disabled_at->0,
        ),
        final(index)@ == index_with_proxy_flag(old(index)@, account_id@, !enable),
        listed == has_id(old(index)@.accounts, account_id@),
        index_wf(old(index)@) ==> index_wf(final(index)@),
{
    let now = now_timestamp();
    toggle_proxy_status_at(account_id, account, index, enable, reason, now)
}

/// The reason that a forbidden account carries for being kept from the proxy.
pub open spec fn forbidden_proxy_reason(reason: Seq<char>) -> Seq<char> {
    "Forbidden (403): "@ + reason
}

/// The record after the upstream service refused the account at time
/// `now`: its quota is marked forbidden with the reason (an empty quota is
/// made where there was none), and the account is kept from the proxy.
pub open spec fn marked_forbidden(account: AccountView, reason: Seq<char>, now: int) -> AccountView {
    let quota = match account.quota {
        Some(q) => q,
        None => QuotaData::empty_view(now),
    };
    AccountView {
        quota: Some(
            crate::model::QuotaDataView {
                is_forbidden: true,
                forbidden_reason: Some(reason),
                ..quota
            },
        ),
        proxy_disabled: true,
        proxy_disabled_reason: Some(forbidden_proxy_reason(reason)),
        proxy_disabled_at: Some(now),
        ..account
    }
}

/// Marks an account as refused by the upstream service at time `now`, in
/// its record and in the first summary with the id `account_id`. Tells
/// whether there is such a summary, that is whether the index changed.
pub fn mark_account_forbidden_at(
    account_id: &str,
    account: &mut Account,
    index: &mut AccountIndex,
    reason: &str,
    now: i64,
) -> (listed: bool)
    ensures
        final(account)@ == marked_forbidden(old(account)@, reason@, now as int),
        final(index)@ == index_with_proxy_flag(old(index)@, account_id@, true),
        listed == has_id(old(index)@.accounts, account_id@),
        index_wf(old(index)@) ==> index_wf(final(index)@),
{
    let mut quota = match account.quota.take() {
        Some(q) => q,
        None => QuotaData::new(now),
    };
    quota.is_forbidden = true;
    quota.forbidden_reason = Some(owned(reason));
    account.quota = Some(quota);
    account.proxy_disabled = true;
    account.proxy_disabled_reason = Some(concat2("Forbidden (403): ", reason));
    account.proxy_disabled_at = Some(now);
    set_summary_proxy_flag(index, account_id, true)
}

/// Marks an account as refused by the upstream service, now.
/// See [`mark_account_forbidden_at`].
pub fn mark_account_forbidden(
    account_id: &str,
    account: &mut Account,
    index: &mut AccountIndex,
    reason: &str,
) -> (listed: bool)
    ensures
        final(account)@.proxy_disabled_at is Some,
        final(account)@ == marked_forbidden(
            old(account)@,
            reason@,
            final(account)@.proxy_disabled_at->0,
        ),
        final(index)@ == index_with_proxy_flag(old(index)@, account_id@, true),
        listed == has_id(old(index)@.accounts, account_id@),
        index_wf(old(index)@) ==> index_wf(final(index)@),
{
    let now = now_timestamp();
    mark_account_forbidden_at(account_id, account, index, reason, now)
}

/// Some record has the id `id`.
pub open spec fn has_record(details: Seq<AccountView>, id: Seq<char>) -> bool {
    exists|i: int| 0 <= i < details.len() && (#[trigger] details[i]).id == id
}

/// `i` is the position of the first record with the id `id`.
pub open spec fn first_record(details: Seq<AccountView>, id: Seq<char>, i: int) -> bool {
    &&& 0 <= i < details.len()
    &&& details[i].id == id
    &&& forall|j: int| 0 <= j < i ==> (#[trigger] details[j]).id != id
}

/// The position of the first record with the id `id`.
pub open spec fn record_position(details: Seq<AccountView>, id: Seq<char>) -> int {
    choose|i: int| first_record(details, id, i)
}

/// The first record with an id is at the position that [`record_position`]
/// names.
pub proof fn lemma_record_position(details: Seq<AccountView>, id: Seq<char>, i: int)
    requires
        first_record(details, id, i),
    ensures
        record_position(details, id) == i,
        has_record(details, id),
{
    let c = record_position(details, id);
    assert(first_record(details, id, c));
    if c < i {
        assert(details[c].id == id);
    }
    if i < c {
        assert(details[i].id == id);
    }
}

/// The position of the first record with the id `id`.
pub fn position_of_record(details: &Vec<Account>, id: &str) -> (r: Option<usize>)
    ensures
        match r {
            Some(i) => first_record(accounts_view(details@), id@, i as int),
            None => !has_record(accounts_view(details@), id@),
        },
{
    let mut i: usize = 0;
    while i < details.len()
        invariant
            i <= details.len(),
            forall|j: int| 0 <= j < i ==> (#[trigger] accounts_view(details@)[j]).id != id@,
        decreases details.len() - i,
    {
        if str_eq(details[i].id.as_str(), id) {
            return Some(i);
        }
        i += 1;
    }
    None
}

/// The message for an account of which no record could be read.
pub open spec fn no_record_message(id: Seq<char>) -> Seq<char> {
    "failed_to_read_account_data: no record of account "@ + id
}

/// The record of the account with the id `account_id` among the records
/// that were read: the first with that id.
pub fn load_account(details: &Vec<Account>, account_id: &str) -> (r: Result<Account, String>)
    ensures
        match r {
            Ok(account) => {
                &&& has_record(accounts_view(details@), account_id@)
                &&& account@ == accounts_view(details@)[record_position(
                    accounts_view(details@),
                    account_id@,
                )]
            },
            Err(message) => {
                &&& !has_record(accounts_view(details@), account_id@)
                &&& message@ == no_record_message(account_id@)
            },
        },
{
    match position_of_record(details, account_id) {
        Some(i) => {
            proof {
                lemma_record_position(accounts_view(details@), account_id@, i as int);
            }
            Ok(details[i].clone())
        },
        None => Err(concat2("failed_to_read_account_data: no record of account ", account_id)),
    }
}

/// The records of the listed accounts, in the order of the summaries; a
/// summary without a record is passed over.
pub open spec fn listed(summaries: Seq<AccountSummaryView>, details: Seq<AccountView>) -> Seq<
    AccountView,
>
    decreases summaries.len(),
{
    if summaries.len() == 0 {
        Seq::empty()
    } else if has_record(details, summaries.last().id) {
        listed(summaries.drop_last(), details).push(
            details[record_position(details, summaries.last().id)],
        )
    } else {
        listed(summaries.drop_last(), details)
    }
}

/// The accounts of the index with their records, in the order of the
/// index. `details` holds the records that could be read; a summary
/// without one is passed over and stays in the index.
pub fn list_accounts(index: &AccountIndex, details: &Vec<Account>) -> (r: Vec<Account>)
    ensures
        accounts_view(r@) == listed(index@.accounts, accounts_view(details@)),
{
    let ghost all = index@.accounts;
    let mut out: Vec<Account> = Vec::new();
    let mut i: usize = 0;
    assert(all.take(0) =~= Seq::empty());
    assert(accounts_view(out@) =~= Seq::empty());
    while i < index.accounts.len()
        invariant
            i <= index.accounts.len(),
            all == summaries_view(index.accounts@),
            accounts_view(out@) == listed(all.take(i as int), accounts_view(details@)),
        decreases index.accounts.len() - i,
    {
        proof {
            let next = all.take(i + 1);
            assert(next.drop_last() =~= all.take(i as int));
            assert(next.last() == index.accounts@[i as int]@);
        }
        match load_account(details, index.accounts[i].id.as_str()) {
            Ok(account) => {
                let ghost before = accounts_view(out@);
                out.push(account);
                assert(accounts_view(out@) =~= before.push(account@));
            },
            Err(_) => {},
        }
        i += 1;
    }
    assert(all.take(index.accounts.len() as int) =~= all);
    out
}

/// The record of the active account: nothing where no account is active,
/// an error where the active account has no record.
pub fn get_current_account(index: &AccountIndex, details: &Vec<Account>) -> (r: Result<
    Option<Account>,
    String,
>)
    ensures
        match index@.current_account_id {
            None => r matches Ok(None),
            Some(id) => match r {
                Ok(found) => {
                    &&& has_record(accounts_view(details@), id)
                    &&& found matches Some(account)
                    &&& account@ == accounts_view(details@)[record_position(
                        accounts_view(details@),
                        id,
                    )]
                },
                Err(message) => {
                    &&& !has_record(accounts_view(details@), id)
                    &&& message@ == no_record_message(id)
                },
            },
        },
{
    match &index.current_account_id {
        Some(id) => {
            match load_account(details, id.as_str()) {
                Ok(account) => Ok(Some(account)),
                Err(message) => Err(message),
            }
        },
        None => Ok(None),
    }
}

/// The id of the account that follows the active one in the list of
/// accounts: the one behind the first account with the id `current`, the
/// first one after the last; the second one where `current` is not listed
/// and there is more than one account, the first one where no account is
/// active; none without accounts.
pub open spec fn next_in_order(accounts: Seq<AccountView>, current: Option<Seq<char>>) -> Option<
    Seq<char>,
> {
    if accounts.len() == 0 {
        None
    } else {
        match current {
            Some(id) => {
                let at = if has_record(accounts, id) {
                    record_position(accounts, id)
                } else {
                    0
                };
                Some(accounts[(at + 1) % (accounts.len() as int)].id)
            },
            None => Some(accounts[0].id),
        }
    }
}

/// The id of the account to switch to when the next one is asked for.
/// `accounts` are the listed accounts in the order of the index.
pub fn next_account_id(accounts: &Vec<Account>, current: Option<&str>) -> (r: Option<String>)
    ensures
        opt_view(r) == next_in_order(accounts_view(accounts@), opt_str_view(current)),
{
    if accounts.len() == 0 {
        return None;
    }
    match current {
        Some(id) => {
            let at = match position_of_record(accounts, id) {
                Some(i) => {
                    proof {
                        lemma_record_position(accounts_view(accounts@), id@, i as int);
                    }
                    i
                },
                None => 0,
            };
            let next = if at + 1 == accounts.len() {
                0
            } else {
                at + 1
            };
            assert((at + 1) % (accounts.len() as int) == next) by (nonlinear_arith)
                requires
                    0 <= at < accounts.len(),
                    next == (if at + 1 == accounts.len() {
                        0
                    } else {
                        at + 1
                    }),
            ;
            Some(accounts[next].id.clone())
        },
        None => Some(accounts[0].id.clone()),
    }
}

/// One exported account: its email and its refresh token.
#[derive(Debug)]
pub struct AccountExportItem {
    pub email: String,
    pub refresh_token: String,
}

/// The accounts that were exported.
#[derive(Debug)]
pub struct AccountExportResponse {
    pub accounts: Vec<AccountExportItem>,
}

/// The email and the refresh token of each exported account.
pub open spec fn export_items_view(v: Seq<AccountExportItem>) -> Seq<(Seq<char>, Seq<char>)> {
    v.map_values(|item: AccountExportItem| (item.email@, item.refresh_token@))
}

/// The email and the refresh token of each account whose id is among
/// `ids`, in the order of the accounts.
pub open spec fn exported_by_ids(accounts: Seq<AccountView>, ids: Seq<Seq<char>>) -> Seq<
    (Seq<char>, Seq<char>),
>
    decreases accounts.len(),
{
    if accounts.len() == 0 {
        Seq::empty()
    } else if ids.contains(accounts.last().id) {
        exported_by_ids(accounts.drop_last(), ids).push(
            (accounts.last().email, accounts.last().token.refresh_token),
        )
    } else {
        exported_by_ids(accounts.drop_last(), ids)
    }
}

/// The email and the refresh token of each account, in order.
pub open spec fn exported(accounts: Seq<AccountView>) -> Seq<(Seq<char>, Seq<char>)> {
    accounts.map_values(|a: AccountView| (a.email, a.token.refresh_token))
}

/// Exports the listed accounts whose id is among `account_ids`: the email
/// and the refresh token of each, in the order of the index.
pub fn export_accounts_by_ids(
    index: &AccountIndex,
    details: &Vec<Account>,
    account_ids: &[String],
) -> (r: AccountExportResponse)
    ensures
        export_items_view(r.accounts@) == exported_by_ids(
            listed(index@.accounts, accounts_view(details@)),
            strings_view(account_ids@),
        ),
{
    let accounts = list_accounts(index, details);
    let ghost all = accounts_view(accounts@);
    let mut items: Vec<AccountExportItem> = Vec::new();
    let mut i: usize = 0;
    assert(all.take(0) =~= Seq::empty());
    assert(export_items_view(items@) =~= Seq::empty());
    while i < accounts.len()
        invariant
            i <= accounts.len(),
            all == accounts_view(accounts@),
            export_items_view(items@) == exported_by_ids(
                all.take(i as int),
                strings_view(account_ids@),
            ),
        decreases accounts.len() - i,
    {
        proof {
            let next = all.take(i + 1);
            assert(next.drop_last() =~= all.take(i as int));
            assert(next.last() == accounts@[i as int]@);
        }
        if slice_contains(account_ids, accounts[i].id.as_str()) {
            let ghost before = export_items_view(items@);
            let item = AccountExportItem {
                email: accounts[i].email.clone(),
                refresh_token: accounts[i].token.refresh_token.clone(),
            };
            items.push(item);
            assert(export_items_view(items@) =~= before.push(
                (accounts@[i as int]@.email, accounts@[i as int]@.token.refresh_token),
            ));
        }
        i += 1;
    }
    assert(all.take(accounts.len() as int) =~= all);
    AccountExportResponse { accounts: items }
}

/// Exports every listed account: the email and the refresh token of each,
/// in the order of the index.
pub fn export_accounts(index: &AccountIndex, details: &Vec<Account>) -> (r: Vec<(String, String)>)
    ensures
        crate::model::pairs_view(r@) == exported(listed(index@.accounts, accounts_view(details@))),
{
    let accounts = list_accounts(index, details);
    let mut out: Vec<(String, String)> = Vec::new();
    let mut i: usize = 0;
    while i < accounts.len()
        invariant
            i <= accounts.len(),
            out.len() == i,
            forall|j: int|
                0 <= j < i ==> (#[trigger] out@[j]).0@ == accounts@[j]@.email && out@[j].1@
                    == accounts@[j]@.token.refresh_token,
        decreases accounts.len() - i,
    {
        out.push((accounts[i].email.clone(), accounts[i].token.refresh_token.clone()));
        i += 1;
    }
    assert(crate::model::pairs_view(out@) =~= exported(accounts_view(accounts@)));
    out
}

/// A list with one more entry holds what it held and that entry.
pub proof fn lemma_push_contains(list: Seq<Seq<char>>, more: Seq<char>, x: Seq<char>)
    ensures
        list.push(more).contains(x) <==> list.contains(x) || x == more,
{
    let longer = list.push(more);
    if longer.contains(x) {
        let k = choose|k: int| 0 <= k < longer.len() && longer[k] == x;
        if k < list.len() {
            assert(list[k] == x);
        }
    }
    if list.contains(x) {
        let k = choose|k: int| 0 <= k < list.len() && list[k] == x;
        assert(longer[k] == x);
    }
    assert(longer[longer.len() - 1] == more);
}

/// Naming no id leaves every summary.
pub proof fn lemma_without_nothing(s: Seq<AccountSummaryView>)
    ensures
        without_ids(s, Seq::empty()) == s,
    decreases s.len(),
{
    if s.len() > 0 {
        lemma_without_nothing(s.drop_last());
        assert(s.drop_last().push(s.last()) =~= s);
    }
}

/// Naming an id once more leaves the same summaries.
pub proof fn lemma_without_repeated_id(
    s: Seq<AccountSummaryView>,
    ids: Seq<Seq<char>>,
    id: Seq<char>,
)
    requires
        ids.contains(id),
    ensures
        without_ids(s, ids.push(id)) == without_ids(s, ids),
    decreases s.len(),
{
    if s.len() > 0 {
        lemma_without_repeated_id(s.drop_last(), ids, id);
        lemma_push_contains(ids, id, s.last().id);
    }
}

/// Naming one more id takes exactly the summaries with that id away.
pub proof fn lemma_without_one_more_id(
    s: Seq<AccountSummaryView>,
    ids: Seq<Seq<char>>,
    id: Seq<char>,
)
    requires
        !ids.contains(id),
    ensures
        without_ids(s, ids).to_multiset() == without_ids(s, ids.push(id)).to_multiset().add(
            with_id(s, id).to_multiset(),
        ),
    decreases s.len(),
{
    broadcast use vstd::multiset::group_multiset_axioms;

    if s.len() > 0 {
        let head = s.drop_last();
        let x = s.last();
        lemma_without_one_more_id(head, ids, id);
        lemma_push_contains(ids, id, x.id);
        to_multiset_build(without_ids(head, ids), x);
        to_multiset_build(without_ids(head, ids.push(id)), x);
        to_multiset_build(with_id(head, id), x);
        assert(without_ids(s, ids).to_multiset() =~= without_ids(s, ids.push(id)).to_multiset().add(
            with_id(s, id).to_multiset(),
        ));
    } else {
        let none = Seq::<AccountSummaryView>::empty();
        none.to_multiset_ensures();
        assert(none.to_multiset() =~= none.to_multiset().add(none.to_multiset()));
    }
}

/// Reordering loses no summary and doubles none, whatever the list names.
pub proof fn law_reorder_keeps_every_account(s: Seq<AccountSummaryView>, ids: Seq<Seq<char>>)
    ensures
        reordered(s, ids).to_multiset() == s.to_multiset(),
    decreases ids.len(),
{
    broadcast use vstd::multiset::group_multiset_axioms;

    if ids.len() == 0 {
        assert(ids =~= Seq::empty());
        lemma_without_nothing(s);
        assert(reordered(s, ids) =~= s);
    } else {
        let head = ids.drop_last();
        let last = ids.last();
        assert(head.push(last) =~= ids);
        law_reorder_keeps_every_account(s, head);
        lemma_multiset_commutative(picked(s, head), without_ids(s, head));
        lemma_multiset_commutative(picked(s, ids), without_ids(s, ids));
        if head.contains(last) {
            lemma_without_repeated_id(s, head, last);
        } else {
            lemma_without_one_more_id(s, head, last);
            lemma_multiset_commutative(picked(s, head), with_id(s, last));
            assert(reordered(s, ids).to_multiset() =~= reordered(s, head).to_multiset());
        }
    }
}

/// Summaries that are the same ones in another order make a well-formed
/// index where they did.
pub proof fn lemma_same_summaries_keep_wf(index: AccountIndexView, t: Seq<AccountSummaryView>)
    requires
        index_wf(index),
        t.to_multiset() == index.accounts.to_multiset(),
    ensures
        index_wf(AccountIndexView { accounts: t, ..index }),
{
    let s = index.accounts;
    assert(s.no_duplicates());
    s.lemma_multiset_has_no_duplicates();
    t.lemma_multiset_has_no_duplicates_conv();
    assert forall|i: int, j: int| 0 <= i < t.len() && 0 <= j < t.len() && i != j implies (
    #[trigger] t[i]).email != (#[trigger] t[j]).email by {
        to_multiset_contains(t, t[i]);
        to_multiset_contains(t, t[j]);
        to_multiset_contains(s, t[i]);
        to_multiset_contains(s, t[j]);
        assert(t.contains(t[i]) && t.contains(t[j]));
        let a = choose|a: int| 0 <= a < s.len() && s[a] == t[i];
        let b = choose|b: int| 0 <= b < s.len() && s[b] == t[j];
        assert(t[i] != t[j]);
    }
    match index.current_account_id {
        Some(c) => {
            let k = choose|k: int| 0 <= k < s.len() && (#[trigger] s[k]).id == c;
            assert(s.contains(s[k]));
            to_multiset_contains(s, s[k]);
            to_multiset_contains(t, s[k]);
            let m = choose|m: int| 0 <= m < t.len() && t[m] == s[k];
            assert(t[m].id == c);
        },
        None => {},
    }
}

/// Reordering keeps a well-formed index well formed, whatever the list names.
pub proof fn law_reorder_keeps_index_well_formed(index: AccountIndexView, ids: Seq<Seq<char>>)
    requires
        index_wf(index),
    ensures
        index_wf(AccountIndexView { accounts: reordered(index.accounts, ids), ..index }),
{
    law_reorder_keeps_every_account(index.accounts, ids);
    lemma_same_summaries_keep_wf(index, reordered(index.accounts, ids));
}

} // verus!
