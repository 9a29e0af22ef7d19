//! The records that the account store keeps, each with its mathematical
//! view: strings as character sequences, lists as sequences of views.

use crate::text::{clone_opt, clone_strings, opt_view, owned, strings_view};
use vstd::prelude::*;

verus! {

/// The sum of two numbers, kept within the range of 64-bit integers.
pub open spec fn clamped_sum(a: int, b: int) -> int {
    if a + b > i64::MAX {
        i64::MAX as int
    } else if a + b < i64::MIN {
        i64::MIN as int
    } else {
        a + b
    }
}

/// The credentials of an account.
#[derive(Debug)]
pub struct TokenData {
    pub access_token: String,
    pub refresh_token: String,
    pub expires_in: i64,
    pub expiry_timestamp: i64,
    pub token_type: String,
    pub email: Option<String>,
    pub project_id: Option<String>,
    pub session_id: Option<String>,
}

/// The mathematical view of [`TokenData`].
pub struct TokenDataView {
    pub access_token: Seq<char>,
    pub refresh_token: Seq<char>,
    pub expires_in: int,
    pub expiry_timestamp: int,
    pub token_type: Seq<char>,
    pub email: Option<Seq<char>>,
    pub project_id: Option<Seq<char>>,
    pub session_id: Option<Seq<char>>,
}

impl View for TokenData {
    type V = TokenDataView;

    open spec fn view(&self) -> TokenDataView {
        TokenDataView {
            access_token: self.access_token@,
            refresh_token: self.refresh_token@,
            expires_in: self.expires_in as int,
            expiry_timestamp: self.expiry_timestamp as int,
            token_type: self.token_type@,
            email: opt_view(self.email),
            project_id: opt_view(self.project_id),
            session_id: opt_view(self.session_id),
        }
    }
}

impl Clone for TokenData {
    fn clone(&self) -> (r: Self)
        ensures
            r@ == self@,
    {
        TokenData {
            access_token: self.access_token.clone(),
            refresh_token: self.refresh_token.clone(),
            expires_in: self.expires_in,
            expiry_timestamp: self.expiry_timestamp,
            token_type: self.token_type.clone(),
            email: clone_opt(&self.email),
            project_id: clone_opt(&self.project_id),
            session_id: clone_opt(&self.session_id),
        }
    }
}

impl TokenData {
    /// The record of a bearer token obtained at time `now` that lasts
    /// `expires_in` seconds.
    pub open spec fn fresh_view(
        access_token: Seq<char>,
        refresh_token: Seq<char>,
        expires_in: int,
        email: Option<Seq<char>>,
        project_id: Option<Seq<char>>,
        session_id: Option<Seq<char>>,
        now: int,
    ) -> TokenDataView {
        TokenDataView {
            access_token,
            refresh_token,
            expires_in,
            expiry_timestamp: clamped_sum(now, expires_in),
            token_type: "Bearer"@,
            email,
            project_id,
            session_id,
        }
    }

    /// A bearer token obtained at time `now` that lasts `expires_in`
    /// seconds. The time of expiry is their sum, kept within 64 bits.
    pub fn new(
        access_token: String,
        refresh_token: String,
        expires_in: i64,
        email: Option<String>,
        project_id: Option<String>,
        session_id: Option<String>,
        now: i64,
    ) -> (r: Self)
        ensures
            r@ == Self::fresh_view(
                access_token@,
                refresh_token@,
                expires_in as int,
                opt_view(email),
                opt_view(project_id),
                opt_view(session_id),
                now as int,
            ),
    {
        let expiry: i64 = if expires_in > 0 && now > i64::MAX - expires_in {
            i64::MAX
        } else if expires_in < 0 && now < i64::MIN - expires_in {
            i64::MIN
        } else {
            now + expires_in
        };
        TokenData {
            access_token,
            refresh_token,
            expires_in,
            expiry_timestamp: expiry,
            token_type: owned("Bearer"),
            email,
            project_id,
            session_id,
        }
    }
}

/// What is left of one model's quota.
#[derive(Debug)]
pub struct ModelQuota {
    pub name: String,
    pub percentage: i32,
    pub reset_time: String,
}

/// The mathematical view of [`ModelQuota`].
pub struct ModelQuotaView {
    pub name: Seq<char>,
    pub percentage: int,
    pub reset_time: Seq<char>,
}

impl View for ModelQuota {
    type V = ModelQuotaView;

    open spec fn view(&self) -> ModelQuotaView {
        ModelQuotaView {
            name: self.name@,
            percentage: self.percentage as int,
            reset_time: self.reset_time@,
        }
    }
}

impl Clone for ModelQuota {
    fn clone(&self) -> (r: Self)
        ensures
            r@ == self@,
    {
        ModelQuota {
            name: self.name.clone(),
            percentage: self.percentage,
            reset_time: self.reset_time.clone(),
        }
    }
}

/// The views of a list of model quotas.
pub open spec fn models_view(v: Seq<ModelQuota>) -> Seq<ModelQuotaView> {
    v.map_values(|m: ModelQuota| m@)
}

/// The views of a list of pairs of strings.
pub open spec fn pairs_view(v: Seq<(String, String)>) -> Seq<(Seq<char>, Seq<char>)> {
    v.map_values(|p: (String, String)| (p.0@, p.1@))
}

/// A copy of a list of pairs of strings.
pub fn clone_pairs(v: &Vec<(String, String)>) -> (r: Vec<(String, String)>)
    ensures
        pairs_view(r@) == pairs_view(v@),
{
    let mut out: Vec<(String, String)> = Vec::new();
    let mut i: usize = 0;
    while i < v.len()
        invariant
            i <= v.len(),
            out.len() == i,
            forall|j: int| 0 <= j < i ==> out@[j].0@ == v@[j].0@ && out@[j].1@ == v@[j].1@,
        decreases v.len() - i,
    {
        out.push((v[i].0.clone(), v[i].1.clone()));
        i += 1;
    }
    assert(pairs_view(out@) =~= pairs_view(v@));
    out
}

/// The quota of an account as the upstream service last reported it.
#[derive(Debug)]
pub struct QuotaData {
    pub models: Vec<ModelQuota>,
    pub last_updated: i64,
    pub is_forbidden: bool,
    pub forbidden_reason: Option<String>,
    pub subscription_tier: Option<String>,
    pub model_forwarding_rules: Vec<(String, String)>,
}

/// The mathematical view of [`QuotaData`].
pub struct QuotaDataView {
    pub models: Seq<ModelQuotaView>,
    pub last_updated: int,
    pub is_forbidden: bool,
    pub forbidden_reason: Option<Seq<char>>,
    pub subscription_tier: Option<Seq<char>>,
    pub model_forwarding_rules: Seq<(Seq<char>, Seq<char>)>,
}

impl View for QuotaData {
    type V = QuotaDataView;

    open spec fn view(&self) -> QuotaDataView {
        QuotaDataView {
            models: models_view(self.models@),
            last_updated: self.last_updated as int,
            is_forbidden: self.is_forbidden,
            forbidden_reason: opt_view(self.forbidden_reason),
            subscription_tier: opt_view(self.subscription_tier),
            model_forwarding_rules: pairs_view(self.model_forwarding_rules@),
        }
    }
}

impl Clone for QuotaData {
    fn clone(&self) -> (r: Self)
        ensures
            r@ == self@,
    {
        let mut models: Vec<ModelQuota> = Vec::new();
        let mut i: usize = 0;
        while i < self.models.len()
            invariant
                i <= self.models.len(),
                models.len() == i,
                forall|j: int| 0 <= j < i ==> models@[j]@ == self.models@[j]@,
            decreases self.models.len() - i,
        {
            models.push(self.models[i].clone());
            i += 1;
        }
        assert(models_view(models@) =~= models_view(self.models@));
        QuotaData {
            models,
            last_updated: self.last_updated,
            is_forbidden: self.is_forbidden,
            forbidden_reason: clone_opt(&self.forbidden_reason),
            subscription_tier: clone_opt(&self.subscription_tier),
            model_forwarding_rules: clone_pairs(&self.model_forwarding_rules),
        }
    }
}

impl QuotaData {
    /// The quota of which nothing is known yet, as of time `now`.
    pub open spec fn empty_view(now: int) -> QuotaDataView {
        QuotaDataView {
            models: Seq::empty(),
            last_updated: now,
            is_forbidden: false,
            forbidden_reason: None,
            subscription_tier: None,
            model_forwarding_rules: Seq::empty(),
        }
    }

    /// An empty quota, as of time `now`.
    pub fn new(now: i64) -> (r: Self)
        ensures
            r@ == Self::empty_view(now as int),
    {
        let r = QuotaData {
            models: Vec::new(),
            last_updated: now,
            is_forbidden: false,
            forbidden_reason: None,
            subscription_tier: None,
            model_forwarding_rules: Vec::new(),
        };
        assert(models_view(r.models@) =~= Seq::empty());
        assert(pairs_view(r.model_forwarding_rules@) =~= Seq::empty());
        r
    }
}

/// The identifiers that make up a device fingerprint.
#[derive(Debug)]
pub struct DeviceProfile {
    pub machine_id: String,
    pub mac_machine_id: String,
    pub dev_device_id: String,
    pub sqm_id: String,
}

/// The mathematical view of [`DeviceProfile`].
pub struct DeviceProfileView {
    pub machine_id: Seq<char>,
    pub mac_machine_id: Seq<char>,
    pub dev_device_id: Seq<char>,
    pub sqm_id: Seq<char>,
}

impl View for DeviceProfile {
    type V = DeviceProfileView;

    open spec fn view(&self) -> DeviceProfileView {
        DeviceProfileView {
            machine_id: self.machine_id@,
            mac_machine_id: self.mac_machine_id@,
            dev_device_id: self.dev_device_id@,
            sqm_id: self.sqm_id@,
        }
    }
}

impl Clone for DeviceProfile {
    fn clone(&self) -> (r: Self)
        ensures
            r@ == self@,
    {
        DeviceProfile {
            machine_id: self.machine_id.clone(),
            mac_machine_id: self.mac_machine_id.clone(),
            dev_device_id: self.dev_device_id.clone(),
            sqm_id: self.sqm_id.clone(),
        }
    }
}

/// The view of an optional device profile.
pub open spec fn opt_profile_view(o: Option<DeviceProfile>) -> Option<DeviceProfileView> {
    match o {
        Some(p) => Some(p@),
        None => None,
    }
}

/// A copy of an optional device profile.
pub fn clone_opt_profile(o: &Option<DeviceProfile>) -> (r: Option<DeviceProfile>)
    ensures
        opt_profile_view(r) == opt_profile_view(*o),
{
    match o {
        Some(p) => Some(p.clone()),
        None => None,
    }
}

/// One entry of the history of an account's device profiles.
#[derive(Debug)]
pub struct DeviceProfileVersion {
    pub id: String,
    pub created_at: i64,
    pub label: String,
    pub profile: DeviceProfile,
    pub is_current: bool,
}

/// The mathematical view of [`DeviceProfileVersion`].
pub struct DeviceProfileVersionView {
    pub id: Seq<char>,
    pub created_at: int,
    pub label: Seq<char>,
    pub profile: DeviceProfileView,
    pub is_current: bool,
}

impl View for DeviceProfileVersion {
    type V = DeviceProfileVersionView;

    open spec fn view(&self) -> DeviceProfileVersionView {
        DeviceProfileVersionView {
            id: self.id@,
            created_at: self.created_at as int,
            label: self.label@,
            profile: self.profile@,
            is_current: self.is_current,
        }
    }
}

impl Clone for DeviceProfileVersion {
    fn clone(&self) -> (r: Self)
        ensures
            r@ == self@,
    {
        DeviceProfileVersion {
            id: self.id.clone(),
            created_at: self.created_at,
            label: self.label.clone(),
            profile: self.profile.clone(),
            is_current: self.is_current,
        }
    }
}

/// The views of a device history.
pub open spec fn history_view(v: Seq<DeviceProfileVersion>) -> Seq<DeviceProfileVersionView> {
    v.map_values(|h: DeviceProfileVersion| h@)
}

/// A copy of a device history.
pub fn clone_history(v: &Vec<DeviceProfileVersion>) -> (r: Vec<DeviceProfileVersion>)
    ensures
        history_view(r@) == history_view(v@),
{
    let mut out: Vec<DeviceProfileVersion> = Vec::new();
    let mut i: usize = 0;
    while i < v.len()
        invariant
            i <= v.len(),
            out.len() == i,
            forall|j: int| 0 <= j < i ==> out@[j]@ == v@[j]@,
        decreases v.len() - i,
    {
        out.push(v[i].clone());
        i += 1;
    }
    assert(history_view(out@) =~= history_view(v@));
    out
}

/// The view of an optional quota.
pub open spec fn opt_quota_view(o: Option<QuotaData>) -> Option<QuotaDataView> {
    match o {
        Some(q) => Some(q@),
        None => None,
    }
}

/// The view of an optional timestamp.
pub open spec fn opt_int(o: Option<i64>) -> Option<int> {
    match o {
        Some(t) => Some(t as int),
        None => None,
    }
}

/// The full record of an account, as its detail file holds it.
#[derive(Debug)]
pub struct Account {
    pub id: String,
    pub email: String,
    pub name: Option<String>,
    pub token: TokenData,
    pub device_profile: Option<DeviceProfile>,
    pub device_history: Vec<DeviceProfileVersion>,
    pub quota: Option<QuotaData>,
    pub disabled: bool,
    pub disabled_reason: Option<String>,
    pub disabled_at: Option<i64>,
    pub proxy_disabled: bool,
    pub proxy_disabled_reason: Option<String>,
    pub proxy_disabled_at: Option<i64>,
    pub protected_models: Vec<String>,
    pub created_at: i64,
    pub last_used: i64,
}

/// The mathematical view of [`Account`].
pub struct AccountView {
    pub id: Seq<char>,
    pub email: Seq<char>,
    pub name: Option<Seq<char>>,
    pub token: TokenDataView,
    pub device_profile: Option<DeviceProfileView>,
    pub device_history: Seq<DeviceProfileVersionView>,
    pub quota: Option<QuotaDataView>,
    pub disabled: bool,
    pub disabled_reason: Option<Seq<char>>,
    pub disabled_at: Option<int>,
    pub proxy_disabled: bool,
    pub proxy_disabled_reason: Option<Seq<char>>,
    pub proxy_disabled_at: Option<int>,
    pub protected_models: Seq<Seq<char>>,
    pub created_at: int,
    pub last_used: int,
}

impl View for Account {
    type V = AccountView;

    open spec fn view(&self) -> AccountView {
        AccountView {
            id: self.id@,
            email: self.email@,
            name: opt_view(self.name),
            token: self.token@,
            device_profile: opt_profile_view(self.device_profile),
            device_history: history_view(self.device_history@),
            quota: opt_quota_view(self.quota),
            disabled: self.disabled,
            disabled_reason: opt_view(self.disabled_reason),
            disabled_at: opt_int(self.disabled_at),
            proxy_disabled: self.proxy_disabled,
            proxy_disabled_reason: opt_view(self.proxy_disabled_reason),
            proxy_disabled_at: opt_int(self.proxy_disabled_at),
            protected_models: strings_view(self.protected_models@),
            created_at: self.created_at as int,
            last_used: self.last_used as int,
        }
    }
}

impl Clone for Account {
    fn clone(&self) -> (r: Self)
        ensures
            r@ == self@,
    {
        Account {
            id: self.id.clone(),
            email: self.email.clone(),
            name: clone_opt(&self.name),
            token: self.token.clone(),
            device_profile: clone_opt_profile(&self.device_profile),
            device_history: clone_history(&self.device_history),
            quota: match &self.quota {
                Some(q) => Some(q.clone()),
                None => None,
            },
            disabled: self.disabled,
            disabled_reason: clone_opt(&self.disabled_reason),
            disabled_at: self.disabled_at,
            proxy_disabled: self.proxy_disabled,
            proxy_disabled_reason: clone_opt(&self.proxy_disabled_reason),
            proxy_disabled_at: self.proxy_disabled_at,
            protected_models: clone_strings(&self.protected_models),
            created_at: self.created_at,
            last_used: self.last_used,
        }
    }
}

impl Account {
    /// The record of an account that was created at time `now` and has
    /// nothing but its identity and its credentials.
    pub open spec fn fresh_view(
        id: Seq<char>,
        email: Seq<char>,
        token: TokenDataView,
        now: int,
    ) -> AccountView {
        AccountView {
            id,
            email,
            name: None,
            token,
            device_profile: None,
            device_history: Seq::empty(),
            quota: None,
            disabled: false,
            disabled_reason: None,
            disabled_at: None,
            proxy_disabled: false,
            proxy_disabled_reason: None,
            proxy_disabled_at: None,
            protected_models: Seq::empty(),
            created_at: now,
            last_used: now,
        }
    }

    /// A new account, created and last used at time `now`.
    pub fn new(id: String, email: String, token: TokenData, now: i64) -> (r: Self)
        ensures
            r@ == Self::fresh_view(id@, email@, token@, now as int),
    {
        let r = Account {
            id,
            email,
            name: None,
            token,
            device_profile: None,
            device_history: Vec::new(),
            quota: None,
            disabled: false,
            disabled_reason: None,
            disabled_at: None,
            proxy_disabled: false,
            proxy_disabled_reason: None,
            proxy_disabled_at: None,
            protected_models: Vec::new(),
            created_at: now,
            last_used: now,
        };
        assert(history_view(r.device_history@) =~= Seq::empty());
        assert(strings_view(r.protected_models@) =~= Seq::empty());
        r
    }

    /// Records that the account was used at time `now`.
    pub fn update_last_used(&mut self, now: i64)
        ensures
            final(self)@ == (AccountView { last_used: now as int, ..old(self)@ }),
    {
        self.last_used = now;
    }

    /// Replaces the quota of the account.
    pub fn update_quota(&mut self, quota: QuotaData)
        ensures
            final(self)@ == (AccountView { quota: Some(quota@), ..old(self)@ }),
    {
        self.quota = Some(quota);
    }
}

/// What a listing shows of an account.
#[derive(Debug)]
pub struct AccountSummary {
    pub id: String,
    pub email: String,
    pub name: Option<String>,
    pub disabled: bool,
    pub proxy_disabled: bool,
    pub protected_models: Vec<String>,
    pub created_at: i64,
    pub last_used: i64,
}

/// The mathematical view of [`AccountSummary`].
pub struct AccountSummaryView {
    pub id: Seq<char>,
    pub email: Seq<char>,
    pub name: Option<Seq<char>>,
    pub disabled: bool,
    pub proxy_disabled: bool,
    pub protected_models: Seq<Seq<char>>,
    pub created_at: int,
    pub last_used: int,
}

impl View for AccountSummary {
    type V = AccountSummaryView;

    open spec fn view(&self) -> AccountSummaryView {
        AccountSummaryView {
            id: self.id@,
            email: self.email@,
            name: opt_view(self.name),
            disabled: self.disabled,
            proxy_disabled: self.proxy_disabled,
            protected_models: strings_view(self.protected_models@),
            created_at: self.created_at as int,
            last_used: self.last_used as int,
        }
    }
}

impl Clone for AccountSummary {
    fn clone(&self) -> (r: Self)
        ensures
            r@ == self@,
    {
        AccountSummary {
            id: self.id.clone(),
            email: self.email.clone(),
            name: clone_opt(&self.name),
            disabled: self.disabled,
            proxy_disabled: self.proxy_disabled,
            protected_models: clone_strings(&self.protected_models),
            created_at: self.created_at,
            last_used: self.last_used,
        }
    }
}

/// The part of an account's record that a summary repeats.
pub open spec fn projection(a: AccountView) -> AccountSummaryView {
    AccountSummaryView {
        id: a.id,
        email: a.email,
        name: a.name,
        disabled: a.disabled,
        proxy_disabled: a.proxy_disabled,
        protected_models: a.protected_models,
        created_at: a.created_at,
        last_used: a.last_used,
    }
}

/// The summary of an account.
pub fn summary_of(account: &Account) -> (r: AccountSummary)
    ensures
        r@ == projection(account@),
{
    AccountSummary {
        id: account.id.clone(),
        email: account.email.clone(),
        name: clone_opt(&account.name),
        disabled: account.disabled,
        proxy_disabled: account.proxy_disabled,
        protected_models: clone_strings(&account.protected_models),
        created_at: account.created_at,
        last_used: account.last_used,
    }
}

/// The views of a list of summaries.
pub open spec fn summaries_view(v: Seq<AccountSummary>) -> Seq<AccountSummaryView> {
    v.map_values(|s: AccountSummary| s@)
}

/// The views of a list of accounts.
pub open spec fn accounts_view(v: Seq<Account>) -> Seq<AccountView> {
    v.map_values(|a: Account| a@)
}

/// The catalogue of accounts: their summaries in the order that the user
/// chose, and the account that is active.
#[derive(Debug)]
pub struct AccountIndex {
    pub version: String,
    pub accounts: Vec<AccountSummary>,
    pub current_account_id: Option<String>,
    /// Top-level fields of the index file that this library does not know,
    /// each with its name and its value as text; they are carried along.
    pub extra: Vec<(String, String)>,
}

/// The mathematical view of [`AccountIndex`].
pub struct AccountIndexView {
    pub version: Seq<char>,
    pub accounts: Seq<AccountSummaryView>,
    pub current_account_id: Option<Seq<char>>,
    pub extra: Seq<(Seq<char>, Seq<char>)>,
}

impl View for AccountIndex {
    type V = AccountIndexView;

    open spec fn view(&self) -> AccountIndexView {
        AccountIndexView {
            version: self.version@,
            accounts: summaries_view(self.accounts@),
            current_account_id: opt_view(self.current_account_id),
            extra: pairs_view(self.extra@),
        }
    }
}

/// A copy of a list of summaries.
pub fn clone_summaries(v: &Vec<AccountSummary>) -> (r: Vec<AccountSummary>)
    ensures
        summaries_view(r@) == summaries_view(v@),
{
    let mut out: Vec<AccountSummary> = Vec::new();
    let mut i: usize = 0;
    while i < v.len()
        invariant
            i <= v.len(),
            out.len() == i,
            forall|j: int| 0 <= j < i ==> out@[j]@ == v@[j]@,
        decreases v.len() - i,
    {
        out.push(v[i].clone());
        i += 1;
    }
    assert(summaries_view(out@) =~= summaries_view(v@));
    out
}

impl Clone for AccountIndex {
    fn clone(&self) -> (r: Self)
        ensures
            r@ == self@,
    {
        AccountIndex {
            version: self.version.clone(),
            accounts: clone_summaries(&self.accounts),
            current_account_id: clone_opt(&self.current_account_id),
            extra: clone_pairs(&self.extra),
        }
    }
}

/// The schema version that a new index carries.
pub const INDEX_VERSION: &'static str = "2.0";

impl AccountIndex {
    /// The index without accounts.
    pub open spec fn empty_view() -> AccountIndexView {
        AccountIndexView {
            version: INDEX_VERSION@,
            accounts: Seq::empty(),
            current_account_id: None,
            extra: Seq::empty(),
        }
    }

    /// An index without accounts.
    pub fn new() -> (r: Self)
        ensures
            r@ == Self::empty_view(),
    {
        let r = AccountIndex {
            version: owned(INDEX_VERSION),
            accounts: Vec::new(),
            current_account_id: None,
            extra: Vec::new(),
        };
        assert(summaries_view(r.accounts@) =~= Seq::empty());
        assert(pairs_view(r.extra@) =~= Seq::empty());
        r
    }
}

} // verus!
