//! Quota protection: which models of an account are kept from the proxy
//! because too little of their quota is left.

use crate::account::{
    has_id, id_position, index_wf, lemma_id_position, lemma_update_keeps_wf, position_of_id,
    with_protected_at,
};
use crate::model::{
    models_view, summaries_view, Account, AccountIndex, AccountIndexView, AccountView,
    ModelQuota, ModelQuotaView, QuotaData, QuotaDataView,
};
use crate::text::{clone_strings, opt_view, str_eq, strings_contain, strings_view};
use vstd::prelude::*;

verus! {

/// The settings of quota protection.
#[derive(Debug)]
pub struct QuotaProtectionConfig {
    pub enabled: bool,
    /// A model is protected when at most this many percent are left.
    pub threshold_percentage: i32,
    /// The standard ids of the models that are watched.
    pub monitored_models: Vec<String>,
}

/// The mathematical view of [`QuotaProtectionConfig`].
pub struct QuotaProtectionView {
    pub enabled: bool,
    pub threshold_percentage: int,
    pub monitored_models: Seq<Seq<char>>,
}

impl View for QuotaProtectionConfig {
    type V = QuotaProtectionView;

    open spec fn view(&self) -> QuotaProtectionView {
        QuotaProtectionView {
            enabled: self.enabled,
            threshold_percentage: self.threshold_percentage as int,
            monitored_models: strings_view(self.monitored_models@),
        }
    }
}

/// The view of optional settings.
pub open spec fn opt_config_view(config: Option<&QuotaProtectionConfig>) -> Option<
    QuotaProtectionView,
> {
    match config {
        Some(c) => Some(c@),
        None => None,
    }
}

/// The views of a list of optional strings.
pub open spec fn opt_strings_view(v: Seq<Option<String>>) -> Seq<Option<Seq<char>>> {
    v.map_values(|o: Option<String>| opt_view(o))
}

/// The least of 100 and the percentages of those among the first `n`
/// models whose standard id is `id`. `standard_ids` gives the standard id
/// of each model, position by position; a model without one counts for
/// no id.
pub open spec fn group_min(
    models: Seq<ModelQuotaView>,
    standard_ids: Seq<Option<Seq<char>>>,
    id: Seq<char>,
    n: int,
) -> int
    decreases n,
{
    if n <= 0 {
        100
    } else {
        let rest = group_min(models, standard_ids, id, n - 1);
        if n - 1 < models.len() && n - 1 < standard_ids.len() && standard_ids[n - 1] == Some(id)
            && models[n - 1].percentage < rest {
            models[n - 1].percentage
        } else {
            rest
        }
    }
}

/// The least percentage left among the variants of the standard model
/// `id`; 100 where it has none, and never more than 100.
pub open spec fn min_percentage(
    models: Seq<ModelQuotaView>,
    standard_ids: Seq<Option<Seq<char>>>,
    id: Seq<char>,
) -> int {
    group_min(models, standard_ids, id, models.len() as int)
}

/// `min_percentage` is at most 100 and at most each variant's percentage,
/// and it is 100 or the percentage of some variant.
pub proof fn law_min_percentage_is_least(
    models: Seq<ModelQuotaView>,
    standard_ids: Seq<Option<Seq<char>>>,
    id: Seq<char>,
)
    ensures
        min_percentage(models, standard_ids, id) <= 100,
        forall|i: int|
            0 <= i < models.len() && i < standard_ids.len() && standard_ids[i] == Some(id)
                ==> min_percentage(models, standard_ids, id) <= (#[trigger] models[i]).percentage,
        min_percentage(models, standard_ids, id) == 100 || exists|i: int|
            0 <= i < models.len() && i < standard_ids.len() && standard_ids[i] == Some(id)
                && (#[trigger] models[i]).percentage == min_percentage(models, standard_ids, id),
{
    lemma_group_min(models, standard_ids, id, models.len() as int);
}

/// What [`group_min`] is: at most 100, at most each variant's percentage, and
/// 100 or the percentage of a variant.
pub proof fn lemma_group_min(
    models: Seq<ModelQuotaView>,
    standard_ids: Seq<Option<Seq<char>>>,
    id: Seq<char>,
    n: int,
)
    requires
        0 <= n <= models.len(),
    ensures
        group_min(models, standard_ids, id, n) <= 100,
        forall|i: int|
            0 <= i < n && i < standard_ids.len() && standard_ids[i] == Some(id) ==> group_min(
                models,
                standard_ids,
                id,
                n,
            ) <= (#[trigger] models[i]).percentage,
        group_min(models, standard_ids, id, n) == 100 || exists|i: int|
            0 <= i < n && i < standard_ids.len() && standard_ids[i] == Some(id) && (
            #[trigger] models[i]).percentage == group_min(models, standard_ids, id, n),
    decreases n,
{
    if n > 0 {
        lemma_group_min(models, standard_ids, id, n - 1);
        let rest = group_min(models, standard_ids, id, n - 1);
        let now = group_min(models, standard_ids, id, n);
        if now != 100 {
            if now == rest {
                let i = choose|i: int|
                    0 <= i < n - 1 && i < standard_ids.len() && standard_ids[i] == Some(id) && (
                    #[trigger] models[i]).percentage == rest;
                assert(models[i].percentage == now);
            } else {
                assert(models[n - 1].percentage == now);
            }
        }
    }
}

/// The least percentage left among the variants of the standard model `id`.
pub fn least_percentage(models: &Vec<ModelQuota>, standard_ids: &[Option<String>], id: &str) -> (r:
    i32)
    ensures
        r == min_percentage(models_view(models@), opt_strings_view(standard_ids@), id@),
{
    let mut least: i32 = 100;
    let mut i: usize = 0;
    while i < models.len()
        invariant
            i <= models.len(),
            least == group_min(
                models_view(models@),
                opt_strings_view(standard_ids@),
                id@,
                i as int,
            ),
        decreases models.len() - i,
    {
        if i < standard_ids.len() {
            let same = match &standard_ids[i] {
                Some(standard) => str_eq(standard.as_str(), id),
                None => false,
            };
            assert(same == (opt_strings_view(standard_ids@)[i as int] == Some(id@)));
            if same && models[i].percentage < least {
                least = models[i].percentage;
            }
        }
        i += 1;
    }
    least
}

/// The list without any entry equal to `id`.
pub open spec fn without_model(p: Seq<Seq<char>>, id: Seq<char>) -> Seq<Seq<char>>
    decreases p.len(),
{
    if p.len() == 0 {
        Seq::empty()
    } else if p.last() == id {
        without_model(p.drop_last(), id)
    } else {
        without_model(p.drop_last(), id).push(p.last())
    }
}

/// The protected models after one watched model was looked at: a model
/// that is low joins them unless it is among them, any other leaves them.
pub open spec fn protect_one(p: Seq<Seq<char>>, id: Seq<char>, low: bool) -> Seq<Seq<char>> {
    if low {
        if p.contains(id) {
            p
        } else {
            p.push(id)
        }
    } else {
        without_model(p, id)
    }
}

/// The protected models after every watched model was looked at, in turn.
pub open spec fn protected_after(
    p: Seq<Seq<char>>,
    monitored: Seq<Seq<char>>,
    models: Seq<ModelQuotaView>,
    standard_ids: Seq<Option<Seq<char>>>,
    threshold: int,
) -> Seq<Seq<char>>
    decreases monitored.len(),
{
    if monitored.len() == 0 {
        p
    } else {
        protect_one(
            protected_after(p, monitored.drop_last(), models, standard_ids, threshold),
            monitored.last(),
            min_percentage(models, standard_ids, monitored.last()) <= threshold,
        )
    }
}

/// What is left of a list without a model: the other entries, none of them
/// twice if none was.
pub proof fn lemma_without_model(p: Seq<Seq<char>>, id: Seq<char>)
    ensures
        forall|x: Seq<char>| #[trigger] without_model(p, id).contains(x) <==> p.contains(x) && x != id,
        p.no_duplicates() ==> without_model(p, id).no_duplicates(),
        without_model(p, id).len() <= p.len(),
    decreases p.len(),
{
    if p.len() > 0 {
        let head = p.drop_last();
        let rest = without_model(head, id);
        let out = without_model(p, id);
        lemma_without_model(head, id);
        assert forall|x: Seq<char>| #[trigger] out.contains(x) <==> p.contains(x) && x != id by {
            if out.contains(x) {
                let k = choose|k: int| 0 <= k < out.len() && out[k] == x;
                if k < rest.len() {
                    assert(rest.contains(out[k]));
                    let m = choose|m: int| 0 <= m < head.len() && head[m] == x;
                    assert(p[m] == x);
                } else {
                    assert(p[p.len() - 1] == x);
                }
            }
            if p.contains(x) && x != id {
                let m = choose|m: int| 0 <= m < p.len() && p[m] == x;
                if m < head.len() {
                    assert(head[m] == x);
                    assert(head.contains(x));
                    assert(rest.contains(x));
                    let k = choose|k: int| 0 <= k < rest.len() && rest[k] == x;
                    assert(out[k] == x);
                } else {
                    assert(out[out.len() - 1] == x);
                }
            }
        }
        if p.no_duplicates() {
            assert forall|i: int, j: int| 0 <= i < head.len() && 0 <= j < head.len() && i != j implies head[i] != head[j] by {
                assert(head[i] == p[i] && head[j] == p[j]);
            }
            assert forall|i: int, j: int| 0 <= i < out.len() && 0 <= j < out.len() && i != j implies out[i] != out[j] by {
                if i < rest.len() && j < rest.len() {
                    assert(out[i] == rest[i] && out[j] == rest[j]);
                } else {
                    let other = if i < rest.len() {
                        i
                    } else {
                        j
                    };
                    assert(out[other] == rest[other]);
                    assert(rest.contains(rest[other]));
                    let m = choose|m: int| 0 <= m < head.len() && head[m] == rest[other];
                    assert(p[m] == rest[other]);
                    assert(p[p.len() - 1] == p.last());
                }
            }
        }
    }
}

/// What one look at a watched model leaves: the model exactly if it is low, the
/// others as before.
pub proof fn lemma_protect_one(p: Seq<Seq<char>>, id: Seq<char>, low: bool)
    ensures
        forall|x: Seq<char>| #[trigger]
            protect_one(p, id, low).contains(x) <==> (if x == id {
                low
            } else {
                p.contains(x)
            }),
        p.no_duplicates() ==> protect_one(p, id, low).no_duplicates(),
{
    lemma_without_model(p, id);
    if low && !p.contains(id) {
        let out = p.push(id);
        assert forall|x: Seq<char>| #[trigger] out.contains(x) <==> (x == id || p.contains(x)) by {
            if out.contains(x) {
                let k = choose|k: int| 0 <= k < out.len() && out[k] == x;
                if k < p.len() {
                    assert(p[k] == x);
                }
            }
            if p.contains(x) {
                let k = choose|k: int| 0 <= k < p.len() && p[k] == x;
                assert(out[k] == x);
            }
            if x == id {
                assert(out[out.len() - 1] == x);
            }
        }
        if p.no_duplicates() {
            assert forall|i: int, j: int| 0 <= i < out.len() && 0 <= j < out.len() && i != j implies out[i] != out[j] by {
                if i < p.len() {
                    assert(out[i] == p[i]);
                    assert(p.contains(p[i]));
                }
                if j < p.len() {
                    assert(out[j] == p[j]);
                    assert(p.contains(p[j]));
                }
            }
        }
    }
}

/// After an update a watched model is protected exactly if it is low, and
/// any other model exactly if it was protected before.
pub proof fn law_protection_follows_threshold(
    p: Seq<Seq<char>>,
    monitored: Seq<Seq<char>>,
    models: Seq<ModelQuotaView>,
    standard_ids: Seq<Option<Seq<char>>>,
    threshold: int,
)
    ensures
        forall|x: Seq<char>| #[trigger]
            protected_after(p, monitored, models, standard_ids, threshold).contains(x) <==> (
            if monitored.contains(x) {
                min_percentage(models, standard_ids, x) <= threshold
            } else {
                p.contains(x)
            }),
        p.no_duplicates() ==> protected_after(
            p,
            monitored,
            models,
            standard_ids,
            threshold,
        ).no_duplicates(),
    decreases monitored.len(),
{
    if monitored.len() > 0 {
        let head = monitored.drop_last();
        let last = monitored.last();
        let before = protected_after(p, head, models, standard_ids, threshold);
        let out = protected_after(p, monitored, models, standard_ids, threshold);
        law_protection_follows_threshold(p, head, models, standard_ids, threshold);
        lemma_protect_one(before, last, min_percentage(models, standard_ids, last) <= threshold);
        assert forall|x: Seq<char>| #[trigger]
            out.contains(x) <==> (if monitored.contains(x) {
                min_percentage(models, standard_ids, x) <= threshold
            } else {
                p.contains(x)
            }) by {
            assert(monitored[monitored.len() - 1] == last);
            if x != last {
                assert(out.contains(x) <==> before.contains(x));
                if monitored.contains(x) {
                    let k = choose|k: int| 0 <= k < monitored.len() && monitored[k] == x;
                    assert(head[k] == x);
                }
                if head.contains(x) {
                    let k = choose|k: int| 0 <= k < head.len() && head[k] == x;
                    assert(monitored[k] == x);
                }
            }
        }
    }
}

/// Where every protected model is watched, the protected models after an
/// update are exactly the watched models that are low.
pub proof fn law_protected_are_the_low_ones(
    p: Seq<Seq<char>>,
    monitored: Seq<Seq<char>>,
    models: Seq<ModelQuotaView>,
    standard_ids: Seq<Option<Seq<char>>>,
    threshold: int,
)
    requires
        forall|x: Seq<char>| p.contains(x) ==> monitored.contains(x),
    ensures
        forall|x: Seq<char>| #[trigger]
            protected_after(p, monitored, models, standard_ids, threshold).contains(x) <==> (
            monitored.contains(x) && min_percentage(models, standard_ids, x) <= threshold),
{
    law_protection_follows_threshold(p, monitored, models, standard_ids, threshold);
}

/// Takes every entry equal to `id` out of `list`.
fn remove_model(list: &mut Vec<String>, id: &str)
    ensures
        strings_view(final(list)@) == without_model(strings_view(old(list)@), id@),
{
    let ghost all = strings_view(list@);
    let mut kept: Vec<String> = Vec::new();
    let mut i: usize = 0;
    assert(all.take(0) =~= Seq::empty());
    assert(strings_view(kept@) =~= Seq::empty());
    while i < list.len()
        invariant
            i <= list.len(),
            all == strings_view(list@),
            strings_view(kept@) == without_model(all.take(i as int), id@),
        decreases list.len() - i,
    {
        proof {
            let next = all.take(i + 1);
            assert(next.drop_last() =~= all.take(i as int));
            assert(next.last() == list@[i as int]@);
        }
        if !str_eq(list[i].as_str(), id) {
            let ghost before = strings_view(kept@);
            kept.push(list[i].clone());
            assert(strings_view(kept@) =~= before.push(list@[i as int]@));
        }
        i += 1;
    }
    assert(all.take(list.len() as int) =~= all);
    *list = kept;
}

/// Brings the protected models up to date with a quota.
pub fn apply_protection(
    protected: &mut Vec<String>,
    config: &QuotaProtectionConfig,
    models: &Vec<ModelQuota>,
    standard_ids: &[Option<String>],
)
    ensures
        strings_view(final(protected)@) == protected_after(
            strings_view(old(protected)@),
            config@.monitored_models,
            models_view(models@),
            opt_strings_view(standard_ids@),
            config@.threshold_percentage,
        ),
{
    let ghost start = strings_view(protected@);
    let ghost monitored = config@.monitored_models;
    let mut i: usize = 0;
    assert(monitored.take(0) =~= Seq::empty());
    while i < config.monitored_models.len()
        invariant
            i <= config.monitored_models.len(),
            monitored == strings_view(config.monitored_models@),
            strings_view(protected@) == protected_after(
                start,
                monitored.take(i as int),
                models_view(models@),
                opt_strings_view(standard_ids@),
                config@.threshold_percentage,
            ),
        decreases config.monitored_models.len() - i,
    {
        let id = config.monitored_models[i].as_str();
        proof {
            let next = monitored.take(i + 1);
            assert(next.drop_last() =~= monitored.take(i as int));
            assert(next.last() == id@);
        }
        let least = least_percentage(models, standard_ids, id);
        if least <= config.threshold_percentage {
            if !strings_contain(protected, id) {
                let ghost before = strings_view(protected@);
                protected.push(config.monitored_models[i].clone());
                assert(strings_view(protected@) =~= before.push(id@));
            }
        } else {
            remove_model(protected, id);
        }
        i += 1;
    }
    assert(monitored.take(config.monitored_models.len() as int) =~= monitored);
}

/// The reason that older versions gave an account that they kept from the
/// proxy as a whole for want of quota.
pub const LEGACY_PROTECTION_REASON: &'static str = "quota_protection";

/// The record after a quota was stored. With protection switched on, the
/// protected models follow the quota, and an account that an older version
/// kept from the proxy as a whole for want of quota is let in again.
pub open spec fn quota_updated(
    account: AccountView,
    quota: QuotaDataView,
    standard_ids: Seq<Option<Seq<char>>>,
    config: Option<QuotaProtectionView>,
) -> AccountView {
    let stored = AccountView { quota: Some(quota), ..account };
    if config matches Some(c) && c.enabled {
        let legacy = account.proxy_disabled && account.proxy_disabled_reason == Some(
            LEGACY_PROTECTION_REASON@,
        );
        AccountView {
            protected_models: protected_after(
                account.protected_models,
                config->0.monitored_models,
                quota.models,
                standard_ids,
                config->0.threshold_percentage,
            ),
            proxy_disabled: if legacy {
                false
            } else {
                account.proxy_disabled
            },
            proxy_disabled_reason: if legacy {
                None
            } else {
                account.proxy_disabled_reason
            },
            proxy_disabled_at: if legacy {
                None
            } else {
                account.proxy_disabled_at
            },
            ..stored
        }
    } else {
        stored
    }
}

/// The index with the protected models of the first summary with the id
/// `id` replaced; unchanged where no summary has the id.
pub open spec fn index_with_protected(
    index: AccountIndexView,
    id: Seq<char>,
    protected: Seq<Seq<char>>,
) -> AccountIndexView {
    if has_id(index.accounts, id) {
        AccountIndexView {
            accounts: with_protected_at(index.accounts, id_position(index.accounts, id), protected),
            ..index
        }
    } else {
        index
    }
}

/// Stores a quota in an account's record and brings the protected models up
/// to date, in the record and in the first summary with the id
/// `account_id`. `standard_ids` gives the standard id of each model of the
/// quota, position by position; `config` holds the settings, or nothing
/// where they could not be read. Tells whether there is such a summary,
/// that is whether the index changed.
pub fn update_account_quota(
    account_id: &str,
    account: &mut Account,
    index: &mut AccountIndex,
    quota: QuotaData,
    standard_ids: &[Option<String>],
    config: Option<&QuotaProtectionConfig>,
) -> (listed: bool)
    ensures
        final(account)@ == quota_updated(
            old(account)@,
            quota@,
            opt_strings_view(standard_ids@),
            opt_config_view(config),
        ),
        final(index)@ == index_with_protected(
            old(index)@,
            account_id@,
            final(account)@.protected_models,
        ),
        listed == has_id(old(index)@.accounts, account_id@),
        index_wf(old(index)@) ==> index_wf(final(index)@),
{
    match config {
        Some(c) => {
            if c.enabled {
                apply_protection(&mut account.protected_models, c, &quota.models, standard_ids);
                let legacy = account.proxy_disabled && match &account.proxy_disabled_reason {
                    Some(reason) => str_eq(reason.as_str(), LEGACY_PROTECTION_REASON),
                    None => false,
                };
                if legacy {
                    account.proxy_disabled = false;
                    account.proxy_disabled_reason = None;
                    account.proxy_disabled_at = None;
                }
            }
        },
        None => {},
    }
    account.update_quota(quota);
    match position_of_id(&index.accounts, account_id) {
        Some(k) => {
            proof {
                lemma_id_position(old(index)@.accounts, account_id@, k as int);
            }
            let mut summary = index.accounts[k].clone();
            summary.protected_models = clone_strings(&account.protected_models);
            proof {
                if index_wf(old(index)@) {
                    lemma_update_keeps_wf(old(index)@, k as int, summary@);
                }
            }
            let ghost before = summaries_view(index.accounts@);
            index.accounts.set(k, summary);
            assert(summaries_view(index.accounts@) =~= before.update(k as int, summary@));
            true
        },
        None => false,
    }
}

/// An update protects no model that was neither protected nor is watched.
pub proof fn law_protected_stay_within(
    p: Seq<Seq<char>>,
    monitored: Seq<Seq<char>>,
    models: Seq<ModelQuotaView>,
    standard_ids: Seq<Option<Seq<char>>>,
    threshold: int,
)
    ensures
        forall|x: Seq<char>| #[trigger]
            protected_after(p, monitored, models, standard_ids, threshold).contains(x)
                ==> p.contains(x) || monitored.contains(x),
{
    law_protection_follows_threshold(p, monitored, models, standard_ids, threshold);
}

/// With protection switched on, an update of the quota of an account
/// whose protected models are all watched leaves exactly those models
/// protected that are watched and low.
pub proof fn law_update_protects_the_low_ones(
    account: AccountView,
    quota: QuotaDataView,
    standard_ids: Seq<Option<Seq<char>>>,
    config: QuotaProtectionView,
)
    requires
        config.enabled,
        forall|x: Seq<char>|
            account.protected_models.contains(x) ==> config.monitored_models.contains(x),
    ensures
        forall|x: Seq<char>| #[trigger]
            quota_updated(account, quota, standard_ids, Some(config)).protected_models.contains(x)
                <==> (config.monitored_models.contains(x) && min_percentage(
                quota.models,
                standard_ids,
                x,
            ) <= config.threshold_percentage),
{
    law_protected_are_the_low_ones(
        account.protected_models,
        config.monitored_models,
        quota.models,
        standard_ids,
        config.threshold_percentage,
    );
}

} // verus!
