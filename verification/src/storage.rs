//! How the account store lies on disk: the names of its files, the protocol
//! by which a file is replaced as a whole, and the messages of its failures.

use crate::ambient::{fresh_id, now_timestamp};
use crate::process::Platform;
use crate::text::{
    clone_strings, concat2, ends_with_seq, i64_to_string, integer_text, is_blank, opt_view,
    owned, str_ends_with, str_is_blank, strings_view,
};
use vstd::prelude::*;
use vstd::string::StrSliceExecFns;

verus! {

/// The directory of the store below the user's home directory.
pub const DATA_DIR: &'static str = ".antigravity_tools";

/// The environment variable that names another directory for the store.
pub const DATA_DIR_VARIABLE: &'static str = "ABV_DATA_DIR";

/// The file that holds the index.
pub const ACCOUNTS_INDEX: &'static str = "accounts.json";

/// The directory, below the store's, that holds one file for each account.
pub const ACCOUNTS_DIR: &'static str = "accounts";

/// The message for a home directory that is not known.
pub const NO_HOME_MESSAGE: &'static str = "failed_to_get_home_dir";

/// The directory that the environment names for the store: the value of
/// the variable as it is, unless it is absent, empty or blank.
pub open spec fn override_of(value: Option<Seq<char>>) -> Option<Seq<char>> {
    match value {
        Some(v) => if is_blank(v) {
            None
        } else {
            Some(v)
        },
        None => None,
    }
}

/// The view of an optional string slice.
pub open spec fn opt_slice_view(o: Option<&str>) -> Option<Seq<char>> {
    match o {
        Some(s) => Some(s@),
        None => None,
    }
}

/// The directory that the environment names for the store. `value` is the
/// value of the variable [`DATA_DIR_VARIABLE`], if it is set.
pub fn data_dir_override(value: Option<&str>) -> (r: Option<String>)
    ensures
        opt_view(r) == override_of(opt_slice_view(value)),
{
    match value {
        Some(v) => {
            if str_is_blank(v) {
                None
            } else {
                Some(owned(v))
            }
        },
        None => None,
    }
}

/// A path in parts: a directory, and the names that lead down from it one
/// after the other. Putting the parts together is left to the program,
/// which knows the platform's rules for it.
#[derive(Debug)]
pub struct PathParts {
    pub base: String,
    pub below: Vec<String>,
}

/// The mathematical view of [`PathParts`].
pub struct PathPartsView {
    pub base: Seq<char>,
    pub below: Seq<Seq<char>>,
}

impl View for PathParts {
    type V = PathPartsView;

    open spec fn view(&self) -> PathPartsView {
        PathPartsView { base: self.base@, below: strings_view(self.below@) }
    }
}

/// The path of the names `below` under the directory `base`.
fn path_parts(base: &str, below: Vec<String>) -> (r: PathParts)
    ensures
        r@ == (PathPartsView { base: base@, below: strings_view(below@) }),
{
    PathParts { base: owned(base), below }
}

/// One name as a list.
fn one_name(name: &str) -> (r: Vec<String>)
    ensures
        strings_view(r@) == seq![name@],
{
    let mut out: Vec<String> = Vec::new();
    out.push(owned(name));
    assert(strings_view(out@) =~= seq![name@]);
    out
}

/// The directory of the store, and whether the environment named it.
#[derive(Debug)]
pub struct DataDir {
    /// The environment named the directory; else it lies below the home
    /// directory.
    pub custom: bool,
    pub path: PathParts,
}

/// The directory of the store: the one that the environment names, else
/// [`DATA_DIR`] below the home directory; without either an error.
pub open spec fn data_dir_of(value: Option<Seq<char>>, home: Option<Seq<char>>) -> Result<
    (bool, PathPartsView),
    Seq<char>,
> {
    match override_of(value) {
        Some(dir) => Ok((true, PathPartsView { base: dir, below: Seq::empty() })),
        None => match home {
            Some(h) => Ok((false, PathPartsView { base: h, below: seq![DATA_DIR@] })),
            None => Err(NO_HOME_MESSAGE@),
        },
    }
}

/// The directory of the store. `value` is the value of the variable
/// [`DATA_DIR_VARIABLE`], `home` the user's home directory, each if known.
pub fn get_data_dir(value: Option<&str>, home: Option<&str>) -> (r: Result<DataDir, String>)
    ensures
        match r {
            Ok(dir) => data_dir_of(opt_slice_view(value), opt_slice_view(home)) == Ok::<
                (bool, PathPartsView),
                Seq<char>,
            >((dir.custom, dir.path@)),
            Err(message) => data_dir_of(opt_slice_view(value), opt_slice_view(home)) == Err::<
                (bool, PathPartsView),
                Seq<char>,
            >(message@),
        },
{
    match data_dir_override(value) {
        Some(dir) => {
            let below: Vec<String> = Vec::new();
            assert(strings_view(below@) =~= Seq::empty());
            Ok(DataDir { custom: true, path: PathParts { base: dir, below } })
        },
        None => match home {
            Some(h) => Ok(DataDir { custom: false, path: path_parts(h, one_name(DATA_DIR)) }),
            None => Err(owned(NO_HOME_MESSAGE)),
        },
    }
}

/// The directory that holds the accounts' files: [`ACCOUNTS_DIR`] below
/// the store's directory.
pub fn get_accounts_dir(data_dir: &PathParts) -> (r: PathParts)
    ensures
        r@ == (PathPartsView {
            base: data_dir@.base,
            below: data_dir@.below.push(ACCOUNTS_DIR@),
        }),
{
    let mut below = clone_strings(&data_dir.below);
    let ghost before = strings_view(below@);
    below.push(owned(ACCOUNTS_DIR));
    assert(strings_view(below@) =~= before.push(ACCOUNTS_DIR@));
    PathParts { base: data_dir.base.clone(), below }
}

/// The name of the file of the account with the id `id`.
pub open spec fn account_file(id: Seq<char>) -> Seq<char> {
    id + ".json"@
}

/// The name of the file of the account with the id `account_id`.
pub fn account_file_name(account_id: &str) -> (r: String)
    ensures
        r@ == account_file(account_id@),
{
    concat2(account_id, ".json")
}

/// The id of the account that a file of the accounts' directory belongs
/// to: the name without `.json` at its end, if it ends so and is longer.
pub open spec fn account_id_of_file(file_name: Seq<char>) -> Option<Seq<char>> {
    if ends_with_seq(file_name, ".json"@) && file_name.len() > ".json"@.len() {
        Some(file_name.take(file_name.len() - ".json"@.len()))
    } else {
        None
    }
}

/// The id of the account that a file of the accounts' directory belongs
/// to; nothing for a file that is no account's.
pub fn detail_account_id(file_name: &str) -> (r: Option<String>)
    ensures
        opt_view(r) == account_id_of_file(file_name@),
{
    proof {
        reveal_strlit(".json");
    }
    let n = file_name.unicode_len();
    if str_ends_with(file_name, ".json") && n > 5 {
        assert(file_name@.subrange(0, n - 5) =~= file_name@.take(n - 5));
        Some(file_name.substring_char(0, n - 5).to_owned())
    } else {
        None
    }
}

/// The file of an account is known as that account's.
pub proof fn law_account_file_names_its_account(id: Seq<char>)
    requires
        id.len() > 0,
    ensures
        account_id_of_file(account_file(id)) == Some(id),
{
    let name = account_file(id);
    let ext = ".json"@;
    assert(name.subrange(name.len() - ext.len(), name.len() as int) =~= ext);
    assert(name.take(name.len() - ext.len()) =~= id);
}

/// The name of the file that a new content of `base` is written to first.
pub open spec fn temp_name(base: Seq<char>, unique: Seq<char>) -> Seq<char> {
    base + ".tmp."@ + unique
}

/// The name of the file that a new content of `base` is written to first;
/// `unique` tells it from the files of other writers.
pub fn temp_file_name(base: &str, unique: &str) -> (r: String)
    ensures
        r@ == temp_name(base@, unique@),
{
    let mut out = concat2(base, ".tmp.");
    out.append(unique);
    out
}

/// The name of the file that keeps an index that could not be parsed.
pub open spec fn backup_name(timestamp: int, unique: Seq<char>) -> Seq<char> {
    "accounts.json.corrupt-"@ + integer_text(timestamp) + "-"@ + unique
}

/// The name of the file that keeps an index that could not be parsed, made
/// at the time `timestamp`.
pub fn backup_file_name(timestamp: i64, unique: &str) -> (r: String)
    ensures
        r@ == backup_name(timestamp as int, unique@),
{
    let mut out = concat2("accounts.json.corrupt-", i64_to_string(timestamp).as_str());
    out.append("-");
    out.append(unique);
    out
}

/// The name of a file that keeps an index that could not be parsed, made now.
pub fn new_backup_file_name() -> (r: String)
    ensures
        exists|timestamp: int, unique: Seq<char>| r@ == #[trigger] backup_name(timestamp, unique),
{
    let timestamp = now_timestamp();
    let unique = fresh_id();
    let r = backup_file_name(timestamp, unique.as_str());
    assert(r@ == backup_name(timestamp as int, unique@));
    r
}

/// What the store does with its files.
#[derive(Clone, Copy, Debug, PartialEq, Eq, Structural)]
pub enum StorageOp {
    CreateCustomDataDir,
    CreateDataDir,
    CreateAccountsDir,
    ReadIndex,
    SerializeIndex,
    WriteTempIndex,
    ReplaceIndex,
    ReadAccount,
    ParseAccount,
    SerializeAccount,
    WriteTempAccount,
    ReplaceAccount,
    DeleteAccountFile,
    AcquireLock,
}

/// The tag that the message of a failure begins with.
pub open spec fn tag_of(op: StorageOp) -> Seq<char> {
    match op {
        StorageOp::CreateCustomDataDir => "failed_to_create_custom_data_dir"@,
        StorageOp::CreateDataDir => "failed_to_create_data_dir"@,
        StorageOp::CreateAccountsDir => "failed_to_create_accounts_dir"@,
        StorageOp::ReadIndex => "failed_to_read_account_index"@,
        StorageOp::SerializeIndex => "failed_to_serialize_account_index"@,
        StorageOp::WriteTempIndex => "failed_to_write_temp_index_file"@,
        StorageOp::ReplaceIndex => "failed_to_replace_index_file"@,
        StorageOp::ReadAccount => "failed_to_read_account_data"@,
        StorageOp::ParseAccount => "failed_to_parse_account_data"@,
        StorageOp::SerializeAccount => "failed_to_serialize_account_data"@,
        StorageOp::WriteTempAccount => "failed_to_write_temp_account_file"@,
        StorageOp::ReplaceAccount => "failed_to_replace_account_file"@,
        StorageOp::DeleteAccountFile => "failed_to_delete_account_file"@,
        StorageOp::AcquireLock => "failed_to_acquire_lock"@,
    }
}

/// The tag that the message of a failure begins with.
pub fn storage_tag(op: StorageOp) -> (r: &'static str)
    ensures
        r@ == tag_of(op),
{
    match op {
        StorageOp::CreateCustomDataDir => "failed_to_create_custom_data_dir",
        StorageOp::CreateDataDir => "failed_to_create_data_dir",
        StorageOp::CreateAccountsDir => "failed_to_create_accounts_dir",
        StorageOp::ReadIndex => "failed_to_read_account_index",
        StorageOp::SerializeIndex => "failed_to_serialize_account_index",
        StorageOp::WriteTempIndex => "failed_to_write_temp_index_file",
        StorageOp::ReplaceIndex => "failed_to_replace_index_file",
        StorageOp::ReadAccount => "failed_to_read_account_data",
        StorageOp::ParseAccount => "failed_to_parse_account_data",
        StorageOp::SerializeAccount => "failed_to_serialize_account_data",
        StorageOp::WriteTempAccount => "failed_to_write_temp_account_file",
        StorageOp::ReplaceAccount => "failed_to_replace_account_file",
        StorageOp::DeleteAccountFile => "failed_to_delete_account_file",
        StorageOp::AcquireLock => "failed_to_acquire_lock",
    }
}

/// The message of a failure: the tag of what failed, then what the system said.
pub open spec fn storage_message(op: StorageOp, detail: Seq<char>) -> Seq<char> {
    tag_of(op) + ": "@ + detail
}

/// The message of a failure: the tag of what failed, then what the system said.
pub fn storage_error(op: StorageOp, detail: &str) -> (r: String)
    ensures
        r@ == storage_message(op, detail@),
{
    let mut out = concat2(storage_tag(op), ": ");
    out.append(detail);
    out
}

/// What the system said of a file that could not be put in place.
pub open spec fn replace_detail(platform: Platform, detail: Seq<char>) -> Seq<char> {
    if platform == Platform::Windows {
        "MoveFileExW failed: "@ + detail
    } else {
        "rename failed: "@ + detail
    }
}

/// The file that is written.
#[derive(Clone, Copy, Debug, PartialEq, Eq, Structural)]
pub enum WriteTarget {
    Index,
    Account,
}

/// A file that is to be replaced as a whole: the content goes to the
/// temporary file, which then takes the place of the final one.
#[derive(Debug)]
pub struct AtomicWrite {
    pub target: WriteTarget,
    pub temp_name: String,
    pub final_name: String,
    pub content: String,
}

/// The mathematical view of [`AtomicWrite`].
pub struct AtomicWriteView {
    pub target: WriteTarget,
    pub temp_name: Seq<char>,
    pub final_name: Seq<char>,
    pub content: Seq<char>,
}

impl View for AtomicWrite {
    type V = AtomicWriteView;

    open spec fn view(&self) -> AtomicWriteView {
        AtomicWriteView {
            target: self.target,
            temp_name: self.temp_name@,
            final_name: self.final_name@,
            content: self.content@,
        }
    }
}

/// The view of the outcome of a serialisation.
pub open spec fn text_result(r: Result<String, String>) -> Result<Seq<char>, Seq<char>> {
    match r {
        Ok(s) => Ok(s@),
        Err(e) => Err(e@),
    }
}

/// The write of the index, or the failure of its serialisation.
pub open spec fn index_write(serialized: Result<Seq<char>, Seq<char>>, unique: Seq<char>) -> Result<
    AtomicWriteView,
    Seq<char>,
> {
    match serialized {
        Ok(content) => Ok(
            AtomicWriteView {
                target: WriteTarget::Index,
                temp_name: temp_name(ACCOUNTS_INDEX@, unique),
                final_name: ACCOUNTS_INDEX@,
                content,
            },
        ),
        Err(detail) => Err(storage_message(StorageOp::SerializeIndex, detail)),
    }
}

/// The write of an account's file, or the failure of its serialisation.
pub open spec fn account_write(
    account_id: Seq<char>,
    serialized: Result<Seq<char>, Seq<char>>,
    unique: Seq<char>,
) -> Result<AtomicWriteView, Seq<char>> {
    match serialized {
        Ok(content) => Ok(
            AtomicWriteView {
                target: WriteTarget::Account,
                temp_name: temp_name(account_id, unique),
                final_name: account_file(account_id),
                content,
            },
        ),
        Err(detail) => Err(storage_message(StorageOp::SerializeAccount, detail)),
    }
}

/// The view of the outcome of a plan.
pub open spec fn write_result(r: Result<AtomicWrite, String>) -> Result<AtomicWriteView, Seq<char>> {
    match r {
        Ok(w) => Ok(w@),
        Err(e) => Err(e@),
    }
}

/// Plans the write of the index. `serialized` is the index as text, or what
/// the serialiser said of its failure; `unique` makes the temporary name.
pub fn save_account_index_as(serialized: Result<String, String>, unique: &str) -> (r: Result<
    AtomicWrite,
    String,
>)
    ensures
        write_result(r) == index_write(text_result(serialized), unique@),
{
    match serialized {
        Ok(content) => Ok(
            AtomicWrite {
                target: WriteTarget::Index,
                temp_name: temp_file_name(ACCOUNTS_INDEX, unique),
                final_name: owned(ACCOUNTS_INDEX),
                content,
            },
        ),
        Err(detail) => Err(storage_error(StorageOp::SerializeIndex, detail.as_str())),
    }
}

/// Plans the write of the index under a fresh temporary name.
pub fn save_account_index(serialized: Result<String, String>) -> (r: Result<AtomicWrite, String>)
    ensures
        exists|unique: Seq<char>|
            write_result(r) == #[trigger] index_write(text_result(serialized), unique),
{
    let unique = fresh_id();
    let r = save_account_index_as(serialized, unique.as_str());
    assert(write_result(r) == index_write(text_result(serialized), unique@));
    r
}

/// Plans the write of the file of the account with the id `account_id`.
/// `serialized` is the record as text, or what the serialiser said of its
/// failure; `unique` makes the temporary name.
pub fn save_account_as(account_id: &str, serialized: Result<String, String>, unique: &str) -> (r:
    Result<AtomicWrite, String>)
    ensures
        write_result(r) == account_write(account_id@, text_result(serialized), unique@),
{
    match serialized {
        Ok(content) => Ok(
            AtomicWrite {
                target: WriteTarget::Account,
                temp_name: temp_file_name(account_id, unique),
                final_name: account_file_name(account_id),
                content,
            },
        ),
        Err(detail) => Err(storage_error(StorageOp::SerializeAccount, detail.as_str())),
    }
}

/// Plans the write of an account's file under a fresh temporary name.
pub fn save_account(account_id: &str, serialized: Result<String, String>) -> (r: Result<
    AtomicWrite,
    String,
>)
    ensures
        exists|unique: Seq<char>|
            write_result(r) == #[trigger] account_write(
                account_id@,
                text_result(serialized),
                unique,
            ),
{
    let unique = fresh_id();
    let r = save_account_as(account_id, serialized, unique.as_str());
    assert(write_result(r) == account_write(account_id@, text_result(serialized), unique@));
    r
}

/// How the two steps of a write went.
#[derive(Debug)]
pub enum WriteOutcome {
    /// The new content is in place.
    Replaced,
    /// The temporary file could not be written; the system said why.
    TempWriteFailed(String),
    /// The temporary file could not take the place of the final one.
    ReplaceFailed(String),
}

/// What follows from a write: whether the temporary file has to be
/// removed, and the result for the caller.
#[derive(Debug)]
pub struct WriteVerdict {
    pub remove_temp: bool,
    pub result: Result<(), String>,
}

/// The message of a write that failed, nothing for one that went well.
pub open spec fn write_failure(
    target: WriteTarget,
    platform: Platform,
    outcome: WriteOutcome,
) -> Option<Seq<char>> {
    match outcome {
        WriteOutcome::Replaced => None,
        WriteOutcome::TempWriteFailed(detail) => Some(
            storage_message(
                if target == WriteTarget::Index {
                    StorageOp::WriteTempIndex
                } else {
                    StorageOp::WriteTempAccount
                },
                detail@,
            ),
        ),
        WriteOutcome::ReplaceFailed(detail) => Some(
            storage_message(
                if target == WriteTarget::Index {
                    StorageOp::ReplaceIndex
                } else {
                    StorageOp::ReplaceAccount
                },
                replace_detail(platform, detail@),
            ),
        ),
    }
}

/// Concludes a write. A write that failed at either step leaves the final
/// file as it was: the temporary file is removed and the failure reported.
pub fn conclude_atomic_write(target: WriteTarget, platform: Platform, outcome: WriteOutcome) -> (r:
    WriteVerdict)
    ensures
        r.remove_temp == !(outcome is Replaced),
        match r.result {
            Ok(_) => write_failure(target, platform, outcome) is None,
            Err(message) => write_failure(target, platform, outcome) == Some(message@),
        },
{
    match outcome {
        WriteOutcome::Replaced => WriteVerdict { remove_temp: false, result: Ok(()) },
        WriteOutcome::TempWriteFailed(detail) => {
            let op = match target {
                WriteTarget::Index => StorageOp::WriteTempIndex,
                WriteTarget::Account => StorageOp::WriteTempAccount,
            };
            WriteVerdict { remove_temp: true, result: Err(storage_error(op, detail.as_str())) }
        },
        WriteOutcome::ReplaceFailed(detail) => {
            let op = match target {
                WriteTarget::Index => StorageOp::ReplaceIndex,
                WriteTarget::Account => StorageOp::ReplaceAccount,
            };
            let reason = match platform {
                Platform::Windows => concat2("MoveFileExW failed: ", detail.as_str()),
                _ => concat2("rename failed: ", detail.as_str()),
            };
            WriteVerdict { remove_temp: true, result: Err(storage_error(op, reason.as_str())) }
        },
    }
}

/// The views of a list of paths.
pub open spec fn paths_view(v: Seq<PathParts>) -> Seq<PathPartsView> {
    v.map_values(|p: PathParts| p@)
}

/// A path that is given as a whole.
pub open spec fn whole(path: Seq<char>) -> PathPartsView {
    PathPartsView { base: path, below: Seq::empty() }
}

/// The editor's executable in its directory below a directory of programs.
pub open spec fn below_programs(dir: Seq<char>) -> PathPartsView {
    PathPartsView { base: dir, below: seq!["Antigravity"@, "Antigravity.exe"@] }
}

/// The usual places of the editor on this platform, the likeliest first.
/// `home` is the user's home directory; the others are the directories
/// that Windows names for programs, each if known.
pub open spec fn usual_places(
    platform: Platform,
    home: Option<Seq<char>>,
    local_app_data: Option<Seq<char>>,
    program_files: Option<Seq<char>>,
    program_files_x86: Option<Seq<char>>,
) -> Seq<PathPartsView> {
    match platform {
        Platform::MacOs => seq![whole("/Applications/Antigravity.app"@)],
        Platform::Windows => {
            let user = match local_app_data {
                Some(dir) => seq![
                    PathPartsView {
                        base: dir,
                        below: seq!["Programs"@, "Antigravity"@, "Antigravity.exe"@],
                    },
                ],
                None => Seq::empty(),
            };
            let system = match program_files {
                Some(dir) => dir,
                None => "C:\\Program Files"@,
            };
            let system_x86 = match program_files_x86 {
                Some(dir) => dir,
                None => "C:\\Program Files (x86)"@,
            };
            user + seq![below_programs(system), below_programs(system_x86)]
        },
        Platform::Linux => {
            let user = match home {
                Some(dir) => seq![
                    PathPartsView { base: dir, below: seq![".local"@, "bin"@, "antigravity"@] },
                ],
                None => Seq::empty(),
            };
            user + seq![
                whole("/usr/bin/antigravity"@),
                whole("/opt/Antigravity/antigravity"@),
                whole("/usr/share/antigravity/antigravity"@),
            ]
        },
    }
}

/// A path that is given as a whole.
fn whole_path(path: &str) -> (r: PathParts)
    ensures
        r@ == whole(path@),
{
    let below: Vec<String> = Vec::new();
    assert(strings_view(below@) =~= Seq::empty());
    path_parts(path, below)
}

/// The editor's executable in its directory below a directory of programs.
fn path_below_programs(dir: &str) -> (r: PathParts)
    ensures
        r@ == below_programs(dir@),
{
    let mut below: Vec<String> = Vec::new();
    below.push(owned("Antigravity"));
    below.push(owned("Antigravity.exe"));
    assert(strings_view(below@) =~= seq!["Antigravity"@, "Antigravity.exe"@]);
    path_parts(dir, below)
}

/// The usual places of the editor on this platform, the likeliest first;
/// the editor is installed at the first that exists.
pub fn check_standard_locations(
    platform: Platform,
    home: Option<&str>,
    local_app_data: Option<&str>,
    program_files: Option<&str>,
    program_files_x86: Option<&str>,
) -> (r: Vec<PathParts>)
    ensures
        paths_view(r@) == usual_places(
            platform,
            opt_slice_view(home),
            opt_slice_view(local_app_data),
            opt_slice_view(program_files),
            opt_slice_view(program_files_x86),
        ),
{
    let mut out: Vec<PathParts> = Vec::new();
    match platform {
        Platform::MacOs => {
            out.push(whole_path("/Applications/Antigravity.app"));
        },
        Platform::Windows => {
            match local_app_data {
                Some(dir) => {
                    let mut below: Vec<String> = Vec::new();
                    below.push(owned("Programs"));
                    below.push(owned("Antigravity"));
                    below.push(owned("Antigravity.exe"));
                    assert(strings_view(below@) =~= seq![
                        "Programs"@,
                        "Antigravity"@,
                        "Antigravity.exe"@,
                    ]);
                    out.push(path_parts(dir, below));
                },
                None => {},
            }
            let system = match program_files {
                Some(dir) => dir,
                None => "C:\\Program Files",
            };
            let system_x86 = match program_files_x86 {
                Some(dir) => dir,
                None => "C:\\Program Files (x86)",
            };
            out.push(path_below_programs(system));
            out.push(path_below_programs(system_x86));
        },
        Platform::Linux => {
            match home {
                Some(dir) => {
                    let mut below: Vec<String> = Vec::new();
                    below.push(owned(".local"));
                    below.push(owned("bin"));
                    below.push(owned("antigravity"));
                    assert(strings_view(below@) =~= seq![".local"@, "bin"@, "antigravity"@]);
                    out.push(path_parts(dir, below));
                },
                None => {},
            }
            out.push(whole_path("/usr/bin/antigravity"));
            out.push(whole_path("/opt/Antigravity/antigravity"));
            out.push(whole_path("/usr/share/antigravity/antigravity"));
        },
    }
    assert(paths_view(out@) =~= usual_places(
        platform,
        opt_slice_view(home),
        opt_slice_view(local_app_data),
        opt_slice_view(program_files),
        opt_slice_view(program_files_x86),
    ));
    out
}

/// The position of the first of `count` places, from position `from` on,
/// that exists. `exists` says of each place, position by position, whether
/// it exists on disk; a place beyond its end counts as absent.
pub open spec fn first_existing(count: int, exists: Seq<bool>, from: int) -> Option<int>
    decreases count - from,
{
    if from < 0 || from >= count {
        None
    } else if from < exists.len() && exists[from] {
        Some(from)
    } else {
        first_existing(count, exists, from + 1)
    }
}

/// The view of an optional position.
pub open spec fn opt_position(o: Option<usize>) -> Option<int> {
    match o {
        Some(i) => Some(i as int),
        None => None,
    }
}

/// The position of the place at which the editor is installed: the first
/// of the usual places that exists.
pub fn first_existing_place(places: &Vec<PathParts>, exists: &[bool]) -> (r: Option<usize>)
    ensures
        opt_position(r) == first_existing(places.len() as int, exists@, 0),
{
    let mut i: usize = 0;
    while i < places.len()
        invariant
            i <= places.len(),
            first_existing(places.len() as int, exists@, 0) == first_existing(
                places.len() as int,
                exists@,
                i as int,
            ),
        decreases places.len() - i,
    {
        if i < exists.len() && exists[i] {
            return Some(i);
        }
        i += 1;
    }
    None
}

} // verus!
