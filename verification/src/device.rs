//! Device profiles of an account: the profile that is bound to it and the
//! history of the profiles it had.

use crate::ambient::{fresh_id, now_timestamp};
use crate::model::{
    clone_history, clone_opt_profile, history_view, opt_profile_view, Account, AccountView,
    DeviceProfile, DeviceProfileVersion, DeviceProfileVersionView, DeviceProfileView,
};
use crate::text::{opt_view, owned, str_eq};
use vstd::prelude::*;

verus! {

/// The device profiles that belong to an account: the one in the editor's
/// own storage, the one bound to the account, the account's history, and
/// the original one of this machine.
#[derive(Debug)]
pub struct DeviceProfiles {
    pub current_storage: Option<DeviceProfile>,
    pub bound_profile: Option<DeviceProfile>,
    pub history: Vec<DeviceProfileVersion>,
    pub baseline: Option<DeviceProfile>,
}

/// Puts together the device profiles that belong to an account.
/// `current_storage` is the profile in the editor's storage and `baseline`
/// the original profile of this machine, each if it could be read.
pub fn get_device_profiles(
    account: &Account,
    current_storage: Option<DeviceProfile>,
    baseline: Option<DeviceProfile>,
) -> (r: DeviceProfiles)
    ensures
        opt_profile_view(r.current_storage) == opt_profile_view(current_storage),
        opt_profile_view(r.bound_profile) == account@.device_profile,
        history_view(r.history@) == account@.device_history,
        opt_profile_view(r.baseline) == opt_profile_view(baseline),
{
    DeviceProfiles {
        current_storage,
        bound_profile: clone_opt_profile(&account.device_profile),
        history: clone_history(&account.device_history),
        baseline,
    }
}

/// The versions of an account's device profile; the same as
/// [`get_device_profiles`].
pub fn list_device_versions(
    account: &Account,
    current_storage: Option<DeviceProfile>,
    baseline: Option<DeviceProfile>,
) -> (r: DeviceProfiles)
    ensures
        opt_profile_view(r.current_storage) == opt_profile_view(current_storage),
        opt_profile_view(r.bound_profile) == account@.device_profile,
        history_view(r.history@) == account@.device_history,
        opt_profile_view(r.baseline) == opt_profile_view(baseline),
{
    get_device_profiles(account, current_storage, baseline)
}

/// At most one entry of the history is marked as current.
pub open spec fn at_most_one_current(h: Seq<DeviceProfileVersionView>) -> bool {
    forall|i: int, j: int|
        0 <= i < h.len() && 0 <= j < h.len() && i != j ==> !((#[trigger] h[i]).is_current && (
        #[trigger] h[j]).is_current)
}

/// No two entries of the history share an id.
pub open spec fn version_ids_unique(h: Seq<DeviceProfileVersionView>) -> bool {
    forall|i: int, j: int|
        0 <= i < h.len() && 0 <= j < h.len() && i != j ==> (#[trigger] h[i]).id != (
        #[trigger] h[j]).id
}

/// The history with exactly the entries marked as current that have the
/// id `version_id`.
pub open spec fn marked_current(h: Seq<DeviceProfileVersionView>, version_id: Seq<char>) -> Seq<
    DeviceProfileVersionView,
> {
    Seq::new(
        h.len(),
        |i: int| DeviceProfileVersionView { is_current: h[i].id == version_id, ..h[i] },
    )
}

/// The history with no entry marked as current.
pub open spec fn none_current(h: Seq<DeviceProfileVersionView>) -> Seq<DeviceProfileVersionView> {
    Seq::new(h.len(), |i: int| DeviceProfileVersionView { is_current: false, ..h[i] })
}

/// The label of a history entry that was given none.
pub const DEFAULT_LABEL: &'static str = "generated";

/// The label that a history entry gets.
pub open spec fn label_or_default(label: Option<Seq<char>>) -> Seq<char> {
    match label {
        Some(l) => l,
        None => DEFAULT_LABEL@,
    }
}

/// The record after `profile` was bound to the account at time `now`.
/// With `add_history` the history gets a new entry with the id
/// `version_id`, which alone is marked as current.
pub open spec fn profile_applied(
    account: AccountView,
    profile: DeviceProfileView,
    label: Option<Seq<char>>,
    add_history: bool,
    version_id: Seq<char>,
    now: int,
) -> AccountView {
    AccountView {
        device_profile: Some(profile),
        device_history: if add_history {
            none_current(account.device_history).push(
                DeviceProfileVersionView {
                    id: version_id,
                    created_at: now,
                    label: label_or_default(label),
                    profile,
                    is_current: true,
                },
            )
        } else {
            account.device_history
        },
        ..account
    }
}

/// Marks as current exactly the entries for which `mark` says so; with
/// `version_id` absent, none.
fn mark_history(history: &mut Vec<DeviceProfileVersion>, version_id: Option<&str>)
    ensures
        history_view(final(history)@) == (match version_id {
            Some(id) => marked_current(history_view(old(history)@), id@),
            None => none_current(history_view(old(history)@)),
        }),
{
    let mut out: Vec<DeviceProfileVersion> = Vec::new();
    let mut i: usize = 0;
    while i < history.len()
        invariant
            i <= history.len(),
            out.len() == i,
            forall|j: int|
                0 <= j < i ==> (#[trigger] out@[j])@ == (DeviceProfileVersionView {
                    is_current: match version_id {
                        Some(id) => history@[j]@.id == id@,
                        None => false,
                    },
                    ..history@[j]@
                }),
        decreases history.len() - i,
    {
        let mut entry = history[i].clone();
        entry.is_current = match version_id {
            Some(id) => str_eq(entry.id.as_str(), id),
            None => false,
        };
        out.push(entry);
        i += 1;
    }
    proof {
        match version_id {
            Some(id) => {
                assert(history_view(out@) =~= marked_current(history_view(history@), id@));
            },
            None => {
                assert(history_view(out@) =~= none_current(history_view(history@)));
            },
        }
    }
    *history = out;
}

/// Binds `profile` to the account at time `now`. With `add_history` the
/// history gets a new entry with the id `version_id` and the label `label`
/// (`generated` without one), which alone is marked as current.
pub fn apply_profile_to_account_with(
    account: &mut Account,
    profile: DeviceProfile,
    label: Option<String>,
    add_history: bool,
    version_id: String,
    now: i64,
)
    ensures
        final(account)@ == profile_applied(
            old(account)@,
            profile@,
            opt_view(label),
            add_history,
            version_id@,
            now as int,
        ),
        add_history ==> at_most_one_current(final(account)@.device_history),
{
    if add_history {
        mark_history(&mut account.device_history, None);
        let entry = DeviceProfileVersion {
            id: version_id,
            created_at: now,
            label: match label {
                Some(l) => l,
                None => owned(DEFAULT_LABEL),
            },
            profile: profile.clone(),
            is_current: true,
        };
        let ghost before = history_view(account.device_history@);
        account.device_history.push(entry);
        assert(history_view(account.device_history@) =~= before.push(entry@));
    }
    account.device_profile = Some(profile);
}

/// Binds `profile` to the account, now, under a fresh version id.
/// See [`apply_profile_to_account_with`].
pub fn apply_profile_to_account(
    account: &mut Account,
    profile: DeviceProfile,
    label: Option<String>,
    add_history: bool,
)
    ensures
        !add_history ==> final(account)@ == profile_applied(
            old(account)@,
            profile@,
            opt_view(label),
            false,
            Seq::empty(),
            0,
        ),
        add_history ==> final(account)@.device_history.len() > 0 && final(account)@
            == profile_applied(
            old(account)@,
            profile@,
            opt_view(label),
            true,
            final(account)@.device_history.last().id,
            final(account)@.device_history.last().created_at,
        ),
        add_history ==> at_most_one_current(final(account)@.device_history),
{
    let version_id = fresh_id();
    let now = now_timestamp();
    apply_profile_to_account_with(account, profile, label, add_history, version_id, now);
}

/// How the profile to bind is come by.
#[derive(Clone, Copy, Debug, PartialEq, Eq, Structural)]
pub enum BindMode {
    /// The profile in the editor's own storage is taken.
    Capture,
    /// A new profile is generated.
    Generate,
}

/// The message for a mode that is neither `capture` nor `generate`.
pub const BAD_MODE_MESSAGE: &'static str = "mode must be 'capture' or 'generate'";

/// The name of a mode, which is also the label of the history entry.
pub open spec fn mode_name(mode: BindMode) -> Seq<char> {
    match mode {
        BindMode::Capture => "capture"@,
        BindMode::Generate => "generate"@,
    }
}

/// The mode that a name stands for, or the message for a name that stands
/// for none.
pub open spec fn mode_named(name: Seq<char>) -> Result<BindMode, Seq<char>> {
    if name == "capture"@ {
        Ok(BindMode::Capture)
    } else if name == "generate"@ {
        Ok(BindMode::Generate)
    } else {
        Err(BAD_MODE_MESSAGE@)
    }
}

/// Reads the mode of a binding: `capture` or `generate`; any other name is
/// refused.
pub fn parse_bind_mode(name: &str) -> (r: Result<BindMode, String>)
    ensures
        match r {
            Ok(mode) => mode_named(name@) == Ok::<BindMode, Seq<char>>(mode),
            Err(message) => mode_named(name@) == Err::<BindMode, Seq<char>>(message@),
        },
{
    if str_eq(name, "capture") {
        Ok(BindMode::Capture)
    } else if str_eq(name, "generate") {
        Ok(BindMode::Generate)
    } else {
        Err(owned(BAD_MODE_MESSAGE))
    }
}

/// Binds `profile`, which was captured or generated as `mode` says, to
/// the account at time `now`, with a history entry labelled with the
/// mode's name.
pub fn bind_device_profile_with(
    account: &mut Account,
    mode: BindMode,
    profile: DeviceProfile,
    version_id: String,
    now: i64,
) -> (bound: DeviceProfile)
    ensures
        bound@ == profile@,
        final(account)@ == profile_applied(
            old(account)@,
            profile@,
            Some(mode_name(mode)),
            true,
            version_id@,
            now as int,
        ),
        at_most_one_current(final(account)@.device_history),
{
    let label = match mode {
        BindMode::Capture => owned("capture"),
        BindMode::Generate => owned("generate"),
    };
    let bound = profile.clone();
    apply_profile_to_account_with(account, profile, Some(label), true, version_id, now);
    bound
}

/// Binds `profile`, which was captured or generated as `mode` says, to
/// the account, now. See [`bind_device_profile_with`].
pub fn bind_device_profile(account: &mut Account, mode: BindMode, profile: DeviceProfile) -> (bound:
    DeviceProfile)
    ensures
        bound@ == profile@,
        final(account)@.device_history.len() > 0,
        final(account)@ == profile_applied(
            old(account)@,
            profile@,
            Some(mode_name(mode)),
            true,
            final(account)@.device_history.last().id,
            final(account)@.device_history.last().created_at,
        ),
        at_most_one_current(final(account)@.device_history),
{
    let version_id = fresh_id();
    let now = now_timestamp();
    bind_device_profile_with(account, mode, profile, version_id, now)
}

/// Binds the given profile to the account, now, with a history entry
/// labelled `label`, or `generated` without a label.
pub fn bind_device_profile_with_profile(
    account: &mut Account,
    profile: DeviceProfile,
    label: Option<String>,
) -> (bound: DeviceProfile)
    ensures
        bound@ == profile@,
        final(account)@.device_history.len() > 0,
        final(account)@ == profile_applied(
            old(account)@,
            profile@,
            opt_view(label),
            true,
            final(account)@.device_history.last().id,
            final(account)@.device_history.last().created_at,
        ),
        label is None ==> final(account)@.device_history.last().label == DEFAULT_LABEL@,
        at_most_one_current(final(account)@.device_history),
{
    let bound = profile.clone();
    apply_profile_to_account(account, profile, label, true);
    bound
}

/// Some entry of the history has the id `id`.
pub open spec fn has_version(h: Seq<DeviceProfileVersionView>, id: Seq<char>) -> bool {
    exists|i: int| 0 <= i < h.len() && (#[trigger] h[i]).id == id
}

/// `i` is the position of the first entry with the id `id`.
pub open spec fn first_version(h: Seq<DeviceProfileVersionView>, id: Seq<char>, i: int) -> bool {
    &&& 0 <= i < h.len()
    &&& h[i].id == id
    &&& forall|j: int| 0 <= j < i ==> (#[trigger] h[j]).id != id
}

/// The position of the first entry with the id `id`.
pub open spec fn version_position(h: Seq<DeviceProfileVersionView>, id: Seq<char>) -> int {
    choose|i: int| first_version(h, id, i)
}

/// The first entry with an id is at the position that [`version_position`]
/// names.
pub proof fn lemma_version_position(h: Seq<DeviceProfileVersionView>, id: Seq<char>, i: int)
    requires
        first_version(h, id, i),
    ensures
        version_position(h, id) == i,
        has_version(h, id),
{
    let c = version_position(h, id);
    assert(first_version(h, id, c));
    if c < i {
        assert(h[c].id == id);
    }
    if i < c {
        assert(h[i].id == id);
    }
}

/// The position of the first entry with the id `id`.
fn position_of_version(history: &Vec<DeviceProfileVersion>, id: &str) -> (r: Option<usize>)
    ensures
        match r {
            Some(i) => first_version(history_view(history@), id@, i as int),
            None => !has_version(history_view(history@), id@),
        },
{
    let mut i: usize = 0;
    while i < history.len()
        invariant
            i <= history.len(),
            forall|j: int| 0 <= j < i ==> (#[trigger] history_view(history@)[j]).id != id@,
        decreases history.len() - i,
    {
        if str_eq(history[i].id.as_str(), id) {
            return Some(i);
        }
        i += 1;
    }
    None
}

/// The version id that stands for the original profile of this machine.
pub const BASELINE_VERSION: &'static str = "baseline";

/// The version id that stands for the profile that is bound already.
pub const CURRENT_VERSION_ID: &'static str = "current";

/// The message for a baseline that was asked for and is not there.
pub const NO_BASELINE_MESSAGE: &'static str = "Global original profile not found";

/// The message for a bound profile that was asked for and is not there.
pub const NO_BOUND_PROFILE_MESSAGE: &'static str = "No currently bound profile";

/// The message for a version id that stands for no profile.
pub const NO_VERSION_MESSAGE: &'static str = "Device profile version not found";

/// The profile that a version id stands for, or the message that says why
/// there is none: `baseline` is the machine's original profile, an id of
/// the history is that entry's profile, `current` the bound profile.
pub open spec fn restore_target(
    account: AccountView,
    version_id: Seq<char>,
    baseline: Option<DeviceProfileView>,
) -> Result<DeviceProfileView, Seq<char>> {
    if version_id == BASELINE_VERSION@ {
        match baseline {
            Some(p) => Ok(p),
            None => Err(NO_BASELINE_MESSAGE@),
        }
    } else if has_version(account.device_history, version_id) {
        Ok(account.device_history[version_position(account.device_history, version_id)].profile)
    } else if version_id == CURRENT_VERSION_ID@ {
        match account.device_profile {
            Some(p) => Ok(p),
            None => Err(NO_BOUND_PROFILE_MESSAGE@),
        }
    } else {
        Err(NO_VERSION_MESSAGE@)
    }
}

/// Binds the profile that `version_id` stands for to the account and marks
/// as current exactly the history entries with that id. `baseline` is the
/// original profile of this machine, if there is one. Where the id stands
/// for no profile the account stays as it is.
pub fn restore_device_version(
    account: &mut Account,
    version_id: &str,
    baseline: Option<DeviceProfile>,
) -> (r: Result<DeviceProfile, String>)
    ensures
        match r {
            Ok(profile) => {
                &&& restore_target(old(account)@, version_id@, opt_profile_view(baseline)) == Ok::<
                    DeviceProfileView,
                    Seq<char>,
                >(profile@)
                &&& final(account)@ == (AccountView {
                    device_profile: Some(profile@),
                    device_history: marked_current(old(account)@.device_history, version_id@),
                    ..old(account)@
                })
            },
            Err(message) => {
                &&& restore_target(old(account)@, version_id@, opt_profile_view(baseline)) == Err::<
                    DeviceProfileView,
                    Seq<char>,
                >(message@)
                &&& final(account)@ == old(account)@
            },
        },
        r is Ok && version_ids_unique(old(account)@.device_history) ==> at_most_one_current(
            final(account)@.device_history,
        ),
{
    let target = if str_eq(version_id, BASELINE_VERSION) {
        match baseline {
            Some(p) => p,
            None => {
                return Err(owned(NO_BASELINE_MESSAGE));
            },
        }
    } else {
        match position_of_version(&account.device_history, version_id) {
            Some(i) => {
                proof {
                    lemma_version_position(old(account)@.device_history, version_id@, i as int);
                }
                account.device_history[i].profile.clone()
            },
            None => {
                if str_eq(version_id, CURRENT_VERSION_ID) {
                    match &account.device_profile {
                        Some(p) => p.clone(),
                        None => {
                            return Err(owned(NO_BOUND_PROFILE_MESSAGE));
                        },
                    }
                } else {
                    return Err(owned(NO_VERSION_MESSAGE));
                }
            },
        }
    };
    account.device_profile = Some(target.clone());
    mark_history(&mut account.device_history, Some(version_id));
    proof {
        let before = old(account)@.device_history;
        let after = account@.device_history;
        if version_ids_unique(before) {
            assert forall|i: int, j: int|
                0 <= i < after.len() && 0 <= j < after.len() && i != j implies !((
            #[trigger] after[i]).is_current && (#[trigger] after[j]).is_current) by {
                assert(after[i].is_current == (before[i].id == version_id@));
                assert(after[j].is_current == (before[j].id == version_id@));
            }
        }
    }
    Ok(target)
}

/// The message for the baseline, which cannot be deleted.
pub const BASELINE_UNDELETABLE_MESSAGE: &'static str = "Original profile cannot be deleted";

/// The message for a version that is marked as current and cannot be deleted.
pub const CURRENT_UNDELETABLE_MESSAGE: &'static str = "Currently bound profile cannot be deleted";

/// The message for a version that the history does not hold.
pub const NO_HISTORY_ENTRY_MESSAGE: &'static str = "Historical device profile not found";

/// Some entry of the history has the id `id` and is marked as current.
pub open spec fn is_current_version(h: Seq<DeviceProfileVersionView>, id: Seq<char>) -> bool {
    exists|i: int| 0 <= i < h.len() && (#[trigger] h[i]).id == id && h[i].is_current
}

/// The history without the entries that have the id `id`.
pub open spec fn without_version(h: Seq<DeviceProfileVersionView>, id: Seq<char>) -> Seq<
    DeviceProfileVersionView,
>
    decreases h.len(),
{
    if h.len() == 0 {
        Seq::empty()
    } else if h.last().id == id {
        without_version(h.drop_last(), id)
    } else {
        without_version(h.drop_last(), id).push(h.last())
    }
}

/// Why the version `version_id` cannot be deleted, if it cannot: the
/// baseline never, a version that is marked as current not, and one that
/// the history does not hold not either.
pub open spec fn delete_refusal(h: Seq<DeviceProfileVersionView>, version_id: Seq<char>) -> Option<
    Seq<char>,
> {
    if version_id == BASELINE_VERSION@ {
        Some(BASELINE_UNDELETABLE_MESSAGE@)
    } else if is_current_version(h, version_id) {
        Some(CURRENT_UNDELETABLE_MESSAGE@)
    } else if !has_version(h, version_id) {
        Some(NO_HISTORY_ENTRY_MESSAGE@)
    } else {
        None
    }
}

/// What is left of a history was in it and has another id, and nothing
/// else is missing.
pub proof fn lemma_without_version(h: Seq<DeviceProfileVersionView>, id: Seq<char>)
    ensures
        at_most_one_current(h) ==> at_most_one_current(without_version(h, id)),
        forall|x: DeviceProfileVersionView| #[trigger]
            without_version(h, id).contains(x) <==> h.contains(x) && x.id != id,
    decreases h.len(),
{
    if h.len() > 0 {
        let head = h.drop_last();
        let rest = without_version(head, id);
        let out = without_version(h, id);
        lemma_without_version(head, id);
        assert forall|x: DeviceProfileVersionView| #[trigger]
            out.contains(x) <==> h.contains(x) && x.id != id by {
            if out.contains(x) {
                let k = choose|k: int| 0 <= k < out.len() && out[k] == x;
                if k < rest.len() {
                    assert(rest.contains(out[k]));
                    let m = choose|m: int| 0 <= m < head.len() && head[m] == x;
                    assert(h[m] == x);
                } else {
                    assert(h[h.len() - 1] == x);
                }
            }
            if h.contains(x) && x.id != id {
                let m = choose|m: int| 0 <= m < h.len() && h[m] == x;
                if m < head.len() {
                    assert(head[m] == x);
                    assert(head.contains(x));
                    assert(rest.contains(x));
                    let k = choose|k: int| 0 <= k < rest.len() && rest[k] == x;
                    assert(out[k] == x);
                } else {
                    assert(out[out.len() - 1] == x);
                }
            }
        }
        if at_most_one_current(h) {
            assert forall|i: int, j: int|
                0 <= i < head.len() && 0 <= j < head.len() && i != j implies !((
            #[trigger] head[i]).is_current && (#[trigger] head[j]).is_current) by {
                assert(head[i] == h[i] && head[j] == h[j]);
            }
            assert forall|i: int, j: int|
                0 <= i < out.len() && 0 <= j < out.len() && i != j implies !((
            #[trigger] out[i]).is_current && (#[trigger] out[j]).is_current) by {
                if i < rest.len() && j < rest.len() {
                    assert(out[i] == rest[i] && out[j] == rest[j]);
                } else {
                    let other = if i < rest.len() {
                        i
                    } else {
                        j
                    };
                    assert(out[other] == rest[other]);
                    assert(rest.contains(rest[other]));
                    let m = choose|m: int| 0 <= m < head.len() && head[m] == rest[other];
                    assert(h[m] == rest[other]);
                    assert(h[h.len() - 1] == h.last());
                }
            }
        }
    }
}

/// Deletes the entries with the id `version_id` from the history. The
/// baseline cannot be deleted, nor a version that is marked as current,
/// nor one that the history does not hold: then the account stays as it is.
pub fn delete_device_version(account: &mut Account, version_id: &str) -> (r: Result<(), String>)
    ensures
        match r {
            Ok(_) => {
                &&& delete_refusal(old(account)@.device_history, version_id@) is None
                &&& final(account)@ == (AccountView {
                    device_history: without_version(old(account)@.device_history, version_id@),
                    ..old(account)@
                })
            },
            Err(message) => {
                &&& delete_refusal(old(account)@.device_history, version_id@) == Some(message@)
                &&& final(account)@ == old(account)@
            },
        },
        at_most_one_current(old(account)@.device_history) ==> at_most_one_current(
            final(account)@.device_history,
        ),
{
    if str_eq(version_id, BASELINE_VERSION) {
        return Err(owned(BASELINE_UNDELETABLE_MESSAGE));
    }
    let ghost all = history_view(account.device_history@);
    let mut kept: Vec<DeviceProfileVersion> = Vec::new();
    let mut found = false;
    let mut i: usize = 0;
    assert(all.take(0) =~= Seq::empty());
    assert(history_view(kept@) =~= Seq::empty());
    while i < account.device_history.len()
        invariant
            i <= account.device_history.len(),
            all == history_view(account.device_history@),
            *account == *old(account),
            version_id@ != BASELINE_VERSION@,
            history_view(kept@) == without_version(all.take(i as int), version_id@),
            found == has_version(all.take(i as int), version_id@),
            !is_current_version(all.take(i as int), version_id@),
        decreases account.device_history.len() - i,
    {
        proof {
            let next = all.take(i + 1);
            let prev = all.take(i as int);
            assert(next.drop_last() =~= prev);
            assert(next.last() == account.device_history@[i as int]@);
            assert(forall|j: int| 0 <= j < prev.len() ==> prev[j] == next[j]);
            assert(has_version(next, version_id@) <==> has_version(prev, version_id@)
                || next.last().id == version_id@) by {
                if has_version(next, version_id@) {
                    let k = choose|k: int|
                        0 <= k < next.len() && (#[trigger] next[k]).id == version_id@;
                    if k < prev.len() {
                        assert(prev[k].id == version_id@);
                    }
                }
                if has_version(prev, version_id@) {
                    let k = choose|k: int|
                        0 <= k < prev.len() && (#[trigger] prev[k]).id == version_id@;
                    assert(next[k].id == version_id@);
                }
                if next.last().id == version_id@ {
                    assert(next[next.len() - 1].id == version_id@);
                }
            }
        }
        if str_eq(account.device_history[i].id.as_str(), version_id) {
            if account.device_history[i].is_current {
                proof {
                    assert(all[i as int].id == version_id@ && all[i as int].is_current);
                }
                return Err(owned(CURRENT_UNDELETABLE_MESSAGE));
            }
            found = true;
        } else {
            let ghost before = history_view(kept@);
            kept.push(account.device_history[i].clone());
            assert(history_view(kept@) =~= before.push(account.device_history@[i as int]@));
        }
        proof {
            let next = all.take(i + 1);
            let prev = all.take(i as int);
            if is_current_version(next, version_id@) {
                let k = choose|k: int|
                    0 <= k < next.len() && (#[trigger] next[k]).id == version_id@
                        && next[k].is_current;
                if k < prev.len() {
                    assert(prev[k].id == version_id@ && prev[k].is_current);
                }
            }
        }
        i += 1;
    }
    assert(all.take(account.device_history.len() as int) =~= all);
    if !found {
        return Err(owned(NO_HISTORY_ENTRY_MESSAGE));
    }
    proof {
        lemma_without_version(all, version_id@);
    }
    account.device_history = kept;
    Ok(())
}

/// The message for an account without a bound profile.
pub const NO_PROFILE_MESSAGE: &'static str = "Account has no bound device profile";

/// The profile to write into the editor's storage for this account: the
/// one bound to it. The account counts as used at time `now`. Without a
/// bound profile the account stays as it is.
pub fn apply_device_profile_at(account: &mut Account, now: i64) -> (r: Result<
    DeviceProfile,
    String,
>)
    ensures
        match r {
            Ok(profile) => {
                &&& old(account)@.device_profile == Some(profile@)
                &&& final(account)@ == (AccountView { last_used: now as int, ..old(account)@ })
            },
            Err(message) => {
                &&& old(account)@.device_profile is None
                &&& message@ == NO_PROFILE_MESSAGE@
                &&& final(account)@ == old(account)@
            },
        },
{
    let profile = match &account.device_profile {
        Some(p) => p.clone(),
        None => {
            return Err(owned(NO_PROFILE_MESSAGE));
        },
    };
    account.update_last_used(now);
    Ok(profile)
}

/// The profile to write into the editor's storage for this account: the
/// one bound to it. The account counts as used now.
pub fn apply_device_profile(account: &mut Account) -> (r: Result<DeviceProfile, String>)
    ensures
        match r {
            Ok(profile) => {
                &&& old(account)@.device_profile == Some(profile@)
                &&& final(account)@ == (AccountView {
                    last_used: final(account)@.last_used,
                    ..old(account)@
                })
            },
            Err(message) => {
                &&& old(account)@.device_profile is None
                &&& message@ == NO_PROFILE_MESSAGE@
                &&& final(account)@ == old(account)@
            },
        },
{
    let now = now_timestamp();
    apply_device_profile_at(account, now)
}

/// The message that reports the binding of the original profile.
pub const ORIGINAL_RESTORED_MESSAGE: &'static str =
    "Reset current account bound profile to original (not applied to storage)";

/// The message for an original profile or an active account that is missing.
pub const NO_ORIGINAL_MESSAGE: &'static str = "Original profile not found, cannot restore";

/// Binds the original profile of this machine to the active account and
/// marks no history entry as current. `current` is the record of the
/// active account, if there is one and it could be read; `original` the
/// machine's original profile, if there is one. Gives the changed record
/// and a message, or an error where either is missing.
pub fn restore_original_device(current: Option<Account>, original: Option<DeviceProfile>) -> (r:
    Result<(Account, String), String>)
    ensures
        match r {
            Ok((account, message)) => {
                &&& current is Some
                &&& original is Some
                &&& account@ == (AccountView {
                    device_profile: Some(original->0@),
                    device_history: none_current(current->0@.device_history),
                    ..current->0@
                })
                &&& message@ == ORIGINAL_RESTORED_MESSAGE@
                &&& at_most_one_current(account@.device_history)
            },
            Err(message) => {
                &&& (current is None || original is None)
                &&& message@ == NO_ORIGINAL_MESSAGE@
            },
        },
{
    match current {
        Some(mut account) => {
            match original {
                Some(profile) => {
                    account.device_profile = Some(profile);
                    mark_history(&mut account.device_history, None);
                    Ok((account, owned(ORIGINAL_RESTORED_MESSAGE)))
                },
                None => Err(owned(NO_ORIGINAL_MESSAGE)),
            }
        },
        None => Err(owned(NO_ORIGINAL_MESSAGE)),
    }
}

} // verus!
