use antigravity_core::process::Platform;
use antigravity_core::storage::{
    account_file_name, backup_file_name, check_standard_locations, conclude_atomic_write,
    data_dir_override, detail_account_id, first_existing_place, get_accounts_dir, get_data_dir,
    save_account, save_account_as, save_account_index, save_account_index_as, storage_error,
    storage_tag, temp_file_name, PathParts, StorageOp, WriteOutcome, WriteTarget,
};

fn parts(path: &PathParts) -> (String, Vec<String>) {
    (path.base.clone(), path.below.clone())
}

fn whole(path: &str) -> (String, Vec<String>) {
    (path.to_string(), Vec::new())
}

fn below(base: &str, names: &[&str]) -> (String, Vec<String>) {
    (base.to_string(), names.iter().map(|n| n.to_string()).collect())
}

#[test]
fn data_dir_follows_the_environment_unless_blank() {
    assert_eq!(data_dir_override(Some("/data")), Some("/data".to_string()));
    assert_eq!(data_dir_override(Some(" /data ")), Some(" /data ".to_string()));
    assert_eq!(data_dir_override(Some("")), None);
    assert_eq!(data_dir_override(Some("  \t\n")), None);
    assert_eq!(data_dir_override(None), None);

    let custom = get_data_dir(Some("/data"), Some("/home/u")).unwrap();
    assert!(custom.custom);
    assert_eq!(parts(&custom.path), whole("/data"));
    let home = get_data_dir(Some(" "), Some("/home/u")).unwrap();
    assert!(!home.custom);
    assert_eq!(parts(&home.path), below("/home/u", &[".antigravity_tools"]));
    let home = get_data_dir(None, Some("C:\\Users\\u")).unwrap();
    assert_eq!(parts(&home.path), below("C:\\Users\\u", &[".antigravity_tools"]));
    assert_eq!(get_data_dir(None, None).unwrap_err(), "failed_to_get_home_dir");
    assert_eq!(get_data_dir(Some(""), None).unwrap_err(), "failed_to_get_home_dir");
    assert_eq!(
        parts(&get_accounts_dir(&home.path)),
        below("C:\\Users\\u", &[".antigravity_tools", "accounts"])
    );
    assert_eq!(parts(&get_accounts_dir(&custom.path)), below("/data", &["accounts"]));
}

#[test]
fn file_names_follow_the_layout() {
    assert_eq!(account_file_name("abc"), "abc.json");
    assert_eq!(temp_file_name("accounts.json", "u-1"), "accounts.json.tmp.u-1");
    assert_eq!(temp_file_name("abc", "u-1"), "abc.tmp.u-1");
    assert_eq!(backup_file_name(1700000000, "u-1"), "accounts.json.corrupt-1700000000-u-1");
    assert_eq!(backup_file_name(0, "x"), "accounts.json.corrupt-0-x");
    assert_eq!(backup_file_name(-15, "x"), "accounts.json.corrupt--15-x");
    assert_eq!(
        backup_file_name(i64::MIN, "x"),
        "accounts.json.corrupt--9223372036854775808-x"
    );
    assert_eq!(
        backup_file_name(i64::MAX, "x"),
        "accounts.json.corrupt-9223372036854775807-x"
    );
}

#[test]
fn detail_files_name_their_account() {
    assert_eq!(detail_account_id("abc.json"), Some("abc".to_string()));
    assert_eq!(detail_account_id("a.b.json"), Some("a.b".to_string()));
    assert_eq!(detail_account_id(".json"), None);
    assert_eq!(detail_account_id("abc.tmp.123"), None);
    assert_eq!(detail_account_id("abc.JSON"), None);
    assert_eq!(detail_account_id("json"), None);
    assert_eq!(detail_account_id(""), None);
    assert_eq!(detail_account_id("é.json"), Some("é".to_string()));
    assert_eq!(detail_account_id(&account_file_name("id-7")), Some("id-7".to_string()));
}

#[test]
fn failures_carry_the_tag_of_the_operation() {
    assert_eq!(
        storage_error(StorageOp::ReadIndex, "denied"),
        "failed_to_read_account_index: denied"
    );
    let tags = [
        (StorageOp::CreateCustomDataDir, "failed_to_create_custom_data_dir"),
        (StorageOp::CreateDataDir, "failed_to_create_data_dir"),
        (StorageOp::CreateAccountsDir, "failed_to_create_accounts_dir"),
        (StorageOp::ReadIndex, "failed_to_read_account_index"),
        (StorageOp::SerializeIndex, "failed_to_serialize_account_index"),
        (StorageOp::WriteTempIndex, "failed_to_write_temp_index_file"),
        (StorageOp::ReplaceIndex, "failed_to_replace_index_file"),
        (StorageOp::ReadAccount, "failed_to_read_account_data"),
        (StorageOp::ParseAccount, "failed_to_parse_account_data"),
        (StorageOp::SerializeAccount, "failed_to_serialize_account_data"),
        (StorageOp::WriteTempAccount, "failed_to_write_temp_account_file"),
        (StorageOp::ReplaceAccount, "failed_to_replace_account_file"),
        (StorageOp::DeleteAccountFile, "failed_to_delete_account_file"),
        (StorageOp::AcquireLock, "failed_to_acquire_lock"),
    ];
    for (op, tag) in tags {
        assert_eq!(storage_tag(op), tag);
    }
}

#[test]
fn a_write_goes_through_a_temporary_file() {
    let plan = save_account_index_as(Ok("{}".to_string()), "u-1").unwrap();
    assert_eq!(plan.target, WriteTarget::Index);
    assert_eq!(plan.temp_name, "accounts.json.tmp.u-1");
    assert_eq!(plan.final_name, "accounts.json");
    assert_eq!(plan.content, "{}");
    let plan = save_account_as("abc", Ok("{\"id\":1}".to_string()), "u-2").unwrap();
    assert_eq!(plan.target, WriteTarget::Account);
    assert_eq!(plan.temp_name, "abc.tmp.u-2");
    assert_eq!(plan.final_name, "abc.json");
    assert_eq!(plan.content, "{\"id\":1}");
    assert_eq!(
        save_account_index_as(Err("bad".to_string()), "u").unwrap_err(),
        "failed_to_serialize_account_index: bad"
    );
    assert_eq!(
        save_account_as("abc", Err("bad".to_string()), "u").unwrap_err(),
        "failed_to_serialize_account_data: bad"
    );
}

#[test]
fn temporary_names_differ_from_write_to_write() {
    let a = save_account_index(Ok("{}".to_string())).unwrap();
    let b = save_account_index(Ok("{}".to_string())).unwrap();
    assert!(a.temp_name.starts_with("accounts.json.tmp."));
    assert_eq!(a.temp_name.len(), "accounts.json.tmp.".len() + 36);
    assert_ne!(a.temp_name, b.temp_name);
    assert_eq!(a.final_name, "accounts.json");
    let c = save_account("abc", Ok("x".to_string())).unwrap();
    assert!(c.temp_name.starts_with("abc.tmp."));
    assert_eq!(c.final_name, "abc.json");
    assert_eq!(
        save_account("abc", Err("bad".to_string())).unwrap_err(),
        "failed_to_serialize_account_data: bad"
    );
}

#[test]
fn a_failed_write_removes_the_temporary_file() {
    let ok = conclude_atomic_write(WriteTarget::Index, Platform::Linux, WriteOutcome::Replaced);
    assert!(!ok.remove_temp);
    assert!(ok.result.is_ok());

    let v = conclude_atomic_write(
        WriteTarget::Index,
        Platform::Linux,
        WriteOutcome::TempWriteFailed("full".into()),
    );
    assert!(v.remove_temp);
    assert_eq!(v.result.unwrap_err(), "failed_to_write_temp_index_file: full");

    let v = conclude_atomic_write(
        WriteTarget::Account,
        Platform::MacOs,
        WriteOutcome::TempWriteFailed("full".into()),
    );
    assert_eq!(v.result.unwrap_err(), "failed_to_write_temp_account_file: full");

    let v = conclude_atomic_write(
        WriteTarget::Index,
        Platform::Linux,
        WriteOutcome::ReplaceFailed("busy".into()),
    );
    assert!(v.remove_temp);
    assert_eq!(v.result.unwrap_err(), "failed_to_replace_index_file: rename failed: busy");

    let v = conclude_atomic_write(
        WriteTarget::Account,
        Platform::Windows,
        WriteOutcome::ReplaceFailed("busy".into()),
    );
    assert!(v.remove_temp);
    assert_eq!(
        v.result.unwrap_err(),
        "failed_to_replace_account_file: MoveFileExW failed: busy"
    );
}

fn places(list: &[PathParts]) -> Vec<(String, Vec<String>)> {
    list.iter().map(parts).collect()
}

#[test]
fn usual_places_depend_on_the_platform() {
    assert_eq!(
        places(&check_standard_locations(Platform::MacOs, Some("/Users/u"), None, None, None)),
        vec![whole("/Applications/Antigravity.app")]
    );
    assert_eq!(
        places(&check_standard_locations(Platform::Linux, Some("/home/u"), None, None, None)),
        vec![
            below("/home/u", &[".local", "bin", "antigravity"]),
            whole("/usr/bin/antigravity"),
            whole("/opt/Antigravity/antigravity"),
            whole("/usr/share/antigravity/antigravity"),
        ]
    );
    assert_eq!(check_standard_locations(Platform::Linux, None, None, None, None).len(), 3);
    assert_eq!(
        places(&check_standard_locations(
            Platform::Windows,
            None,
            Some("C:\\Users\\u\\AppData\\Local"),
            Some("D:\\Programs"),
            None
        )),
        vec![
            below("C:\\Users\\u\\AppData\\Local", &["Programs", "Antigravity", "Antigravity.exe"]),
            below("D:\\Programs", &["Antigravity", "Antigravity.exe"]),
            below("C:\\Program Files (x86)", &["Antigravity", "Antigravity.exe"]),
        ]
    );
    assert_eq!(
        places(&check_standard_locations(Platform::Windows, None, None, None, None)),
        vec![
            below("C:\\Program Files", &["Antigravity", "Antigravity.exe"]),
            below("C:\\Program Files (x86)", &["Antigravity", "Antigravity.exe"]),
        ]
    );
}

#[test]
fn the_editor_is_installed_at_the_first_place_that_exists() {
    let list = check_standard_locations(Platform::Linux, Some("/home/u"), None, None, None);
    assert_eq!(first_existing_place(&list, &[false, false, true, true]), Some(2));
    assert_eq!(first_existing_place(&list, &[true, false, true, true]), Some(0));
    assert_eq!(first_existing_place(&list, &[false, false, false, false]), None);
    assert_eq!(first_existing_place(&list, &[false, false]), None);
    assert_eq!(first_existing_place(&list, &[]), None);
    assert_eq!(first_existing_place(&list, &[false, false, false, false, true]), None);
    assert_eq!(first_existing_place(&Vec::new(), &[true]), None);
}
