use antigravity_core::process::{
    bundle_root_of, close_antigravity, get_antigravity_executable_path, get_antigravity_pids,
    get_args_from_running_process, get_path_from_running_process, get_process_info,
    get_self_family_pids, get_user_data_dir_from_process, graceful_timeout,
    is_antigravity_running, is_editor_main_process, is_helper_process, launch_failure,
    launch_target_path, open_exit_failure, process_facts, select_main_pid, self_and_ancestors,
    start_antigravity, user_data_dir_arguments, user_data_dir_candidates, DataDirArgument,
    LaunchKind, LaunchTarget, Platform, ProcessContext, ProcessInfo, ShutdownAction,
    ShutdownPhase,
};

fn process(pid: u32, parent: Option<u32>, name: &str, exe: &str, cmd: &[&str]) -> ProcessInfo {
    ProcessInfo {
        pid,
        parent,
        name: name.to_string(),
        exe: if exe.is_empty() { None } else { Some(exe.to_string()) },
        exe_canonical: if exe.is_empty() { None } else { Some(exe.to_string()) },
        cmd: cmd.iter().map(|s| s.to_string()).collect(),
    }
}

fn context(manual: Option<&str>) -> ProcessContext {
    ProcessContext {
        own_pid: 100,
        own_exe: Some("/opt/tools/antigravity_tools".to_string()),
        manual_path: manual.map(|s| s.to_string()),
    }
}

fn strings(list: &[&str]) -> Vec<String> {
    list.iter().map(|s| s.to_string()).collect()
}

fn sorted(pids: std::collections::HashSet<u32>) -> Vec<u32> {
    let mut list: Vec<u32> = pids.into_iter().collect();
    list.sort();
    list
}

#[test]
fn helpers_are_told_by_arguments_name_and_path() {
    let cases = [
        ("Antigravity", "/a/antigravity", vec!["antigravity"], false),
        ("Antigravity", "/a/antigravity", vec!["antigravity", "--type=renderer"], true),
        ("Antigravity", "/a/antigravity", vec!["antigravity", "--TYPE=gpu"], true),
        ("Antigravity Helper", "/a/antigravity", vec![], true),
        ("antigravity (Plugin)", "/a/antigravity", vec![], true),
        ("Renderer", "", vec![], true),
        ("gpu-process", "", vec![], true),
        ("chrome_crashpad_handler", "", vec![], true),
        ("Utility", "", vec![], true),
        ("AudioService", "", vec![], true),
        ("sandbox-exec", "", vec![], true),
        ("language_server_linux", "", vec![], true),
        ("antigravity", "/a/Crashpad/handler", vec![], true),
        ("antigravity", "/a/antigravity", vec!["--typed"], false),
    ];
    for (name, exe, cmd, expected) in cases {
        let p = process(1, None, name, exe, &cmd);
        assert_eq!(is_helper_process(&process_facts(&p)), expected, "{name} {exe} {cmd:?}");
    }
}

#[test]
fn facts_are_in_lower_case() {
    let p = process(7, Some(1), "AntiGravity", "/Opt/Antigravity", &["Antigravity", "--Flag"]);
    let facts = process_facts(&p);
    assert_eq!(facts.pid, 7);
    assert_eq!(facts.name, "antigravity");
    assert_eq!(facts.exe, "/opt/antigravity");
    assert_eq!(facts.args, strings(&["antigravity", "--flag"]));
    assert_eq!(facts.exe_canonical, Some("/Opt/Antigravity".to_string()));
    let none = process_facts(&process(8, None, "X", "", &[]));
    assert_eq!(none.exe, "");
    assert_eq!(none.exe_canonical, None);
}

#[test]
fn main_process_on_each_platform() {
    let ctx = context(None);
    let mac = process(1, None, "Antigravity", "/Applications/Antigravity.app/Contents/MacOS/Electron", &[]);
    let mac_framework = process(
        2,
        None,
        "Antigravity",
        "/Applications/Antigravity.app/Contents/Frameworks/x",
        &[],
    );
    let win = process(3, None, "Antigravity.exe", "C:\\a\\Antigravity.exe", &[]);
    let win_other = process(4, None, "Antigravity2.exe", "C:\\a\\Antigravity2.exe", &[]);
    let linux = process(5, None, "antigravity", "/usr/share/antigravity/antigravity", &[]);
    let linux_by_path = process(6, None, "electron", "/opt/antigravity/electron", &[]);
    let linux_tool = process(7, None, "antigravity_tools", "/opt/x/antigravity_tools", &[]);
    let check = |p: &ProcessInfo, platform: Platform| {
        is_editor_main_process(&process_facts(p), &ctx, platform, false)
    };
    assert!(check(&mac, Platform::MacOs));
    assert!(!check(&mac_framework, Platform::MacOs));
    assert!(!check(&mac, Platform::Windows));
    assert!(check(&win, Platform::Windows));
    assert!(!check(&win_other, Platform::Windows));
    assert!(check(&linux, Platform::Linux));
    assert!(check(&linux_by_path, Platform::Linux));
    assert!(!check(&linux_tool, Platform::Linux));
    assert!(!check(&win, Platform::Linux));
    // the family is kept apart on Linux only
    assert!(!is_editor_main_process(&process_facts(&linux), &ctx, Platform::Linux, true));
    assert!(is_editor_main_process(&process_facts(&mac), &ctx, Platform::MacOs, true));
}

#[test]
fn the_tool_itself_is_never_the_editor() {
    let ctx = context(None);
    let own_pid = process(100, None, "antigravity", "/usr/bin/antigravity", &[]);
    let own_exe = process(101, None, "antigravity", "/opt/tools/antigravity_tools", &[]);
    for platform in [Platform::Linux, Platform::MacOs, Platform::Windows] {
        assert!(!is_editor_main_process(&process_facts(&own_pid), &ctx, platform, false));
        assert!(!is_editor_main_process(&process_facts(&own_exe), &ctx, platform, false));
    }
}

#[test]
fn the_path_that_the_user_set_wins_unless_helper() {
    let ctx = context(Some("/custom/editor"));
    let by_path = process(1, None, "editor", "/custom/editor", &[]);
    let helper = process(2, None, "editor", "/custom/editor", &["editor", "--type=gpu"]);
    let other = process(3, None, "editor", "/custom/other", &[]);
    for platform in [Platform::Linux, Platform::Windows] {
        assert!(is_editor_main_process(&process_facts(&by_path), &ctx, platform, false));
        assert!(!is_editor_main_process(&process_facts(&helper), &ctx, platform, false));
        assert!(!is_editor_main_process(&process_facts(&other), &ctx, platform, false));
    }
    let mac_ctx = context(Some("/Apps/My Editor.app/Contents/MacOS/Electron"));
    let same_bundle = process(4, None, "Electron", "/Apps/My Editor.app/Contents/MacOS/Other", &[]);
    let other_bundle = process(5, None, "Electron", "/Apps/Other.app/Contents/MacOS/Electron", &[]);
    let no_bundle = process(6, None, "Electron", "/usr/bin/electron", &[]);
    assert!(is_editor_main_process(&process_facts(&same_bundle), &mac_ctx, Platform::MacOs, false));
    assert!(!is_editor_main_process(&process_facts(&other_bundle), &mac_ctx, Platform::MacOs, false));
    assert!(!is_editor_main_process(&process_facts(&no_bundle), &mac_ctx, Platform::MacOs, false));
}

#[test]
fn bundle_root_ends_with_the_first_app() {
    assert_eq!(
        bundle_root_of("/Applications/Antigravity.app/Contents/MacOS/Electron"),
        Some("/Applications/Antigravity.app".to_string())
    );
    assert_eq!(bundle_root_of("/A.app/B.app/x"), Some("/A.app".to_string()));
    assert_eq!(bundle_root_of("/Apps/é.app"), Some("/Apps/é.app".to_string()));
    assert_eq!(bundle_root_of("/usr/bin/x"), None);
    assert_eq!(
        launch_target_path(Platform::MacOs, "/A.app/Contents/MacOS/Helper"),
        "/A.app"
    );
    assert_eq!(launch_target_path(Platform::MacOs, "/usr/bin/x"), "/usr/bin/x");
    assert_eq!(launch_target_path(Platform::Linux, "/A.app/x"), "/A.app/x");
}

fn tree() -> Vec<ProcessInfo> {
    vec![
        process(1, None, "init", "/sbin/init", &[]),
        process(50, Some(1), "shell", "/bin/sh", &[]),
        process(100, Some(50), "antigravity_tools", "/opt/tools/antigravity_tools", &[]),
        process(200, Some(100), "antigravity", "/usr/bin/antigravity", &[]),
        process(201, Some(200), "antigravity", "/usr/bin/antigravity", &[]),
        process(300, Some(1), "antigravity", "/usr/bin/antigravity", &[]),
        process(301, Some(300), "antigravity", "/usr/bin/antigravity", &["antigravity", "--type=gpu"]),
        process(400, Some(50), "other", "/bin/other", &[]),
    ]
}

#[test]
fn family_is_ancestors_and_descendants() {
    let ps = tree();
    assert_eq!(self_and_ancestors(&ps, 100), vec![100, 50, 1]);
    assert_eq!(sorted(get_self_family_pids(&ps, 100)), vec![1, 50, 100, 200, 201]);
    assert_eq!(sorted(get_self_family_pids(&ps, 1)), vec![1, 50, 100, 200, 201, 300, 301, 400]);
    assert_eq!(sorted(get_self_family_pids(&ps, 999)), vec![999]);
    assert_eq!(sorted(get_self_family_pids(&Vec::new(), 5)), vec![5]);
}

#[test]
fn ancestors_stop_after_ten_generations() {
    let mut ps = Vec::new();
    for pid in 1..=20u32 {
        ps.push(process(pid, if pid > 1 { Some(pid - 1) } else { None }, "p", "", &[]));
    }
    assert_eq!(self_and_ancestors(&ps, 20), vec![20, 19, 18, 17, 16, 15, 14, 13, 12, 11, 10]);
    assert_eq!(self_and_ancestors(&ps, 3), vec![3, 2, 1]);
}

#[test]
fn family_survives_cycles() {
    let ps = vec![
        process(1, Some(3), "a", "", &[]),
        process(2, Some(1), "b", "", &[]),
        process(3, Some(2), "c", "", &[]),
        process(4, Some(2), "d", "", &[]),
    ];
    assert_eq!(self_and_ancestors(&ps, 1), vec![1, 3, 2]);
    assert_eq!(sorted(get_self_family_pids(&ps, 1)), vec![1, 2, 3]);
    let own_parent = vec![process(1, Some(1), "a", "", &[]), process(2, Some(1), "b", "", &[])];
    assert_eq!(sorted(get_self_family_pids(&own_parent, 1)), vec![1, 2]);
}

#[test]
fn descendants_are_found_in_any_order() {
    let ps = vec![
        process(5, Some(4), "e", "", &[]),
        process(4, Some(3), "d", "", &[]),
        process(3, Some(2), "c", "", &[]),
        process(2, Some(1), "b", "", &[]),
        process(1, None, "a", "", &[]),
    ];
    assert_eq!(sorted(get_self_family_pids(&ps, 1)), vec![1, 2, 3, 4, 5]);
    assert_eq!(sorted(get_self_family_pids(&ps, 3)), vec![1, 2, 3, 4, 5]);
}

#[test]
fn enumeration_leaves_out_family_and_helpers_on_linux() {
    let ps = tree();
    let ctx = context(None);
    assert_eq!(get_antigravity_pids(&ps, &ctx, Platform::Linux), vec![300]);
    assert!(is_antigravity_running(&ps, &ctx, Platform::Linux));
    assert!(get_antigravity_pids(&ps, &ctx, Platform::Windows).is_empty());
    assert!(!is_antigravity_running(&ps, &ctx, Platform::Windows));
    assert!(!is_antigravity_running(&Vec::new(), &ctx, Platform::Linux));
}

#[test]
fn main_process_prefers_the_path_that_the_user_set() {
    let ps = vec![
        process(10, None, "antigravity", "/usr/bin/antigravity", &[]),
        process(11, None, "antigravity", "/custom/antigravity", &[]),
        process(12, None, "antigravity", "/custom/antigravity", &["x", "--type=gpu"]),
    ];
    assert_eq!(select_main_pid(&ps, &vec![10, 11, 12], &context(Some("/custom/antigravity")), Platform::Linux), Some(11));
    assert_eq!(select_main_pid(&ps, &vec![12, 10, 11], &context(None), Platform::Linux), Some(10));
    assert_eq!(select_main_pid(&ps, &vec![12], &context(None), Platform::Linux), None);
    assert_eq!(select_main_pid(&ps, &vec![99], &context(None), Platform::Linux), None);
    assert_eq!(select_main_pid(&ps, &Vec::new(), &context(None), Platform::Linux), None);
}

#[test]
fn graceful_time_is_seven_tenths() {
    assert_eq!(graceful_timeout(0), 0);
    assert_eq!(graceful_timeout(1), 0);
    assert_eq!(graceful_timeout(2), 1);
    assert_eq!(graceful_timeout(10), 7);
    assert_eq!(graceful_timeout(20), 14);
    assert_eq!(graceful_timeout(19), 13);
    assert_eq!(graceful_timeout(u64::MAX), 12912720851596686130);
}

fn running() -> Vec<ProcessInfo> {
    vec![
        process(300, Some(1), "antigravity", "/usr/bin/antigravity", &[]),
        process(302, Some(1), "antigravity", "/usr/bin/antigravity", &[]),
    ]
}

#[test]
fn closing_asks_first_then_kills_then_fails() {
    let ctx = context(None);
    let ps = running();
    let (phase, action) = close_antigravity(ShutdownPhase::Start, &ps, &ctx, Platform::Linux, 2);
    assert_eq!(phase, ShutdownPhase::Waiting { polls: 0 });
    match action {
        ShutdownAction::Terminate { pids } => assert_eq!(pids, vec![300]),
        other => panic!("unexpected {:?}", other),
    }
    // two seconds allow one second of grace: two looks half a second apart
    let (phase, action) = close_antigravity(phase, &ps, &ctx, Platform::Linux, 2);
    assert_eq!(phase, ShutdownPhase::Waiting { polls: 1 });
    assert!(matches!(action, ShutdownAction::Wait { millis: 500 }));
    let (phase, action) = close_antigravity(phase, &ps, &ctx, Platform::Linux, 2);
    assert_eq!(phase, ShutdownPhase::Waiting { polls: 2 });
    assert!(matches!(action, ShutdownAction::Wait { millis: 500 }));
    let (phase, action) = close_antigravity(phase, &ps, &ctx, Platform::Linux, 2);
    assert_eq!(phase, ShutdownPhase::Settling);
    match action {
        ShutdownAction::Kill { pids, settle_millis } => {
            assert_eq!(pids, vec![300, 302]);
            assert_eq!(settle_millis, 1000);
        }
        other => panic!("unexpected {:?}", other),
    }
    let (phase, action) = close_antigravity(phase, &ps, &ctx, Platform::Linux, 2);
    assert_eq!(phase, ShutdownPhase::Settling);
    match action {
        ShutdownAction::Done(Err(message)) => assert_eq!(
            message,
            "Unable to close Antigravity process, please close manually and retry"
        ),
        other => panic!("unexpected {:?}", other),
    }
}

#[test]
fn closing_succeeds_as_soon_as_nothing_runs() {
    let ctx = context(None);
    let none: Vec<ProcessInfo> = Vec::new();
    for phase in [ShutdownPhase::Start, ShutdownPhase::Waiting { polls: 3 }, ShutdownPhase::Settling] {
        for platform in [Platform::Linux, Platform::MacOs, Platform::Windows] {
            let (_, action) = close_antigravity(phase, &none, &ctx, platform, 10);
            assert!(matches!(action, ShutdownAction::Done(Ok(()))));
        }
    }
}

#[test]
fn closing_without_a_main_process_asks_everyone() {
    // on a Mac both are in the bundle, neither can be picked when the path
    // that the user set is a helper's: with no path set the first is picked
    let ps = vec![
        process(1, None, "Antigravity", "/Applications/Antigravity.app/Contents/MacOS/a", &[]),
        process(2, None, "Antigravity", "/Applications/Antigravity.app/Contents/MacOS/b", &[]),
    ];
    let (_, action) = close_antigravity(ShutdownPhase::Start, &ps, &context(None), Platform::MacOs, 10);
    match action {
        ShutdownAction::Terminate { pids } => assert_eq!(pids, vec![1]),
        other => panic!("unexpected {:?}", other),
    }
}

#[test]
fn closing_takes_the_same_steps_on_windows() {
    let ps = vec![process(1, None, "Antigravity.exe", "C:\\a\\Antigravity.exe", &[])];
    let ctx = context(None);
    let (phase, action) = close_antigravity(ShutdownPhase::Start, &ps, &ctx, Platform::Windows, 1);
    assert_eq!(phase, ShutdownPhase::Waiting { polls: 0 });
    match action {
        ShutdownAction::Terminate { pids } => assert_eq!(pids, vec![1]),
        other => panic!("unexpected {:?}", other),
    }
    let (phase, action) = close_antigravity(phase, &ps, &ctx, Platform::Windows, 1);
    assert_eq!(phase, ShutdownPhase::Settling);
    match action {
        ShutdownAction::Kill { pids, settle_millis } => {
            assert_eq!(pids, vec![1]);
            assert_eq!(settle_millis, 1000);
        }
        other => panic!("unexpected {:?}", other),
    }
    let (_, action) = close_antigravity(phase, &ps, &ctx, Platform::Windows, 1);
    assert!(matches!(action, ShutdownAction::Done(Err(_))));
}

#[test]
fn closing_never_signals_the_tool_itself() {
    let ps = tree();
    let ctx = context(None);
    for platform in [Platform::Linux, Platform::MacOs, Platform::Windows] {
        for phase in [ShutdownPhase::Start, ShutdownPhase::Waiting { polls: 99 }] {
            let (_, action) = close_antigravity(phase, &ps, &ctx, platform, 2);
            let signalled = match action {
                ShutdownAction::Terminate { pids } => pids,
                ShutdownAction::Kill { pids, .. } => pids,
                _ => Vec::new(),
            };
            assert!(!signalled.contains(&100));
        }
    }
}

#[test]
fn closing_with_no_time_kills_at_the_first_look() {
    let (phase, action) = close_antigravity(
        ShutdownPhase::Waiting { polls: 0 },
        &running(),
        &context(None),
        Platform::Linux,
        1,
    );
    assert_eq!(phase, ShutdownPhase::Settling);
    assert!(matches!(action, ShutdownAction::Kill { .. }));
    let (phase, action) = close_antigravity(
        ShutdownPhase::Waiting { polls: u64::MAX },
        &running(),
        &context(None),
        Platform::Linux,
        u64::MAX,
    );
    assert_eq!(phase, ShutdownPhase::Settling);
    assert!(matches!(action, ShutdownAction::Kill { .. }));
}

fn target(path: &str, exists: bool, is_dir: bool) -> LaunchTarget {
    LaunchTarget { path: path.to_string(), exists, is_dir }
}

#[test]
fn launch_uses_the_path_that_the_user_set_if_it_exists() {
    let args = strings(&["--flag", "value"]);
    let t = target("/Apps/Antigravity.app", true, true);
    let plan = start_antigravity(Platform::MacOs, Some(&t), Some(&args), None).unwrap();
    assert_eq!(plan.kind, LaunchKind::ManualOpen);
    assert_eq!(plan.program, "open");
    assert_eq!(plan.args, strings(&["-a", "/Apps/Antigravity.app", "--flag", "value"]));
    assert!(!plan.hide_window);

    let t = target("/opt/editor/bin", true, true);
    let plan = start_antigravity(Platform::MacOs, Some(&t), None, None).unwrap();
    assert_eq!(plan.kind, LaunchKind::ManualOpen);
    assert_eq!(plan.args, strings(&["-a", "/opt/editor/bin"]));

    let t = target("/opt/editor/run", true, false);
    let plan = start_antigravity(Platform::MacOs, Some(&t), Some(&args), None).unwrap();
    assert_eq!(plan.kind, LaunchKind::ManualDirect);
    assert_eq!(plan.program, "/opt/editor/run");
    assert_eq!(plan.args, args);

    for platform in [Platform::Linux, Platform::Windows] {
        let plan = start_antigravity(platform, Some(&t), Some(&args), Some("ignored")).unwrap();
        assert_eq!(plan.kind, LaunchKind::Spawn);
        assert_eq!(plan.program, "/opt/editor/run");
        assert_eq!(plan.args, args);
        assert!(!plan.hide_window);
    }
}

#[test]
fn launch_falls_back_to_the_default_for_each_platform() {
    let args = strings(&["--flag"]);
    let missing = target("/gone", false, false);
    let plan = start_antigravity(Platform::MacOs, Some(&missing), Some(&args), None).unwrap();
    assert_eq!(plan.kind, LaunchKind::DefaultOpen);
    assert_eq!(plan.program, "open");
    assert_eq!(plan.args, strings(&["-a", "Antigravity", "--flag"]));

    let plan = start_antigravity(Platform::Linux, None, Some(&args), None).unwrap();
    assert_eq!(plan.kind, LaunchKind::Spawn);
    assert_eq!(plan.program, "antigravity");
    assert_eq!(plan.args, args);
    let plan = start_antigravity(Platform::Linux, None, None, None).unwrap();
    assert!(plan.args.is_empty());

    let plan = start_antigravity(Platform::Windows, None, None, None).unwrap();
    assert_eq!(plan.kind, LaunchKind::UrlScheme);
    assert_eq!(plan.program, "cmd");
    assert_eq!(plan.args, strings(&["/C", "start", "antigravity://"]));
    assert!(plan.hide_window);
    let plan = start_antigravity(Platform::Windows, None, Some(&Vec::new()), None).unwrap();
    assert_eq!(plan.kind, LaunchKind::UrlScheme);

    let plan =
        start_antigravity(Platform::Windows, None, Some(&args), Some("C:\\a\\Antigravity.exe"))
            .unwrap();
    assert_eq!(plan.kind, LaunchKind::Spawn);
    assert_eq!(plan.program, "C:\\a\\Antigravity.exe");
    assert_eq!(plan.args, args);
    assert!(plan.hide_window);
    assert_eq!(
        start_antigravity(Platform::Windows, None, Some(&args), None).unwrap_err(),
        "Startup arguments configured but cannot find Antigravity executable path. Please set the executable path manually in Settings."
    );
}

#[test]
fn launch_failures_say_what_was_tried() {
    assert_eq!(launch_failure(LaunchKind::ManualOpen, "e"), "Startup failed (open): e");
    assert_eq!(launch_failure(LaunchKind::ManualDirect, "e"), "Startup failed (direct): e");
    assert_eq!(launch_failure(LaunchKind::Spawn, "e"), "Startup failed: e");
    assert_eq!(launch_failure(LaunchKind::DefaultOpen, "e"), "Unable to execute open command: e");
    assert_eq!(
        launch_failure(LaunchKind::UrlScheme, "e"),
        "Startup failed, please open Antigravity manually"
    );
    assert_eq!(
        open_exit_failure("exit status: 1", "no app"),
        "Startup failed (open exited with exit status: 1): no app"
    );
}

#[test]
fn a_running_editor_tells_where_it_is_installed() {
    let ctx = context(None);
    let ps = vec![
        process(1, None, "antigravity", "", &["antigravity"]),
        process(2, None, "antigravity", "/Opt/Antigravity/antigravity", &["x", "--type=gpu"]),
        process(3, None, "antigravity", "/Opt/Antigravity/antigravity", &["x", "/a/node_modules/b"]),
        process(4, None, "antigravity", "/Opt/Antigravity/antigravity", &["prog", "--User-Data-Dir", "/D"]),
        process(5, None, "antigravity", "/other/antigravity", &[]),
    ];
    let (path, args) = get_process_info(&ps, &ctx, Platform::Linux);
    assert_eq!(path, Some("/Opt/Antigravity/antigravity".to_string()));
    assert_eq!(args, Some(strings(&["--user-data-dir", "/d"])));
    assert_eq!(
        get_path_from_running_process(&ps, &ctx, Platform::Linux),
        Some("/Opt/Antigravity/antigravity".to_string())
    );
    assert_eq!(
        get_args_from_running_process(&ps, &ctx, Platform::Linux),
        Some(strings(&["--user-data-dir", "/d"]))
    );
    assert_eq!(get_process_info(&ps, &ctx, Platform::Windows), (None, None));
    assert_eq!(
        get_antigravity_executable_path(&ps, &ctx, Platform::Windows, Some("C:\\std".into())),
        Some("C:\\std".to_string())
    );
    assert_eq!(get_antigravity_executable_path(&ps, &ctx, Platform::Windows, None), None);
    assert_eq!(
        get_antigravity_executable_path(&ps, &ctx, Platform::Linux, Some("/std".into())),
        Some("/Opt/Antigravity/antigravity".to_string())
    );
    let mac = vec![process(
        9,
        None,
        "Electron",
        "/Applications/Antigravity.app/Contents/MacOS/Electron",
        &[],
    )];
    assert_eq!(
        get_process_info(&mac, &ctx, Platform::MacOs),
        (Some("/Applications/Antigravity.app".to_string()), Some(Vec::new()))
    );
}

fn namings(list: &[DataDirArgument]) -> Vec<(&str, bool)> {
    list.iter().map(|a| (a.path.as_str(), a.joined)).collect()
}

#[test]
fn user_data_dir_is_read_from_both_forms() {
    let args = strings(&[
        "--foo",
        "--user-data-dir",
        "/one",
        "--user-data-dir=/two",
        "--user-data-dir=",
        "--user-data-dir=a=b",
        "--user-data-dir",
    ]);
    assert_eq!(
        namings(&user_data_dir_arguments(&args)),
        vec![("/one", false), ("/two", true), ("", true), ("a=b", true)]
    );
    assert!(user_data_dir_arguments(&Vec::new()).is_empty());
    assert!(user_data_dir_arguments(&strings(&["--user-data-dirx=/no"])).is_empty());
    let config = strings(&["--user-data-dir=/config"]);
    let running = strings(&["--user-data-dir", "/running"]);
    assert_eq!(
        namings(&user_data_dir_candidates(Some(&config), Some(&running))),
        vec![("/config", true), ("/running", false)]
    );
    assert!(user_data_dir_candidates(None, None).is_empty());
}

#[test]
fn user_data_dir_behind_an_equals_sign_has_to_exist() {
    let config = strings(&["--user-data-dir=/config"]);
    let running = strings(&["--user-data-dir", "/running"]);
    let dir = |exists: &[bool]| get_user_data_dir_from_process(Some(&config), Some(&running), exists);
    assert_eq!(dir(&[true, false]), Some("/config".to_string()));
    assert_eq!(dir(&[true, true]), Some("/config".to_string()));
    // the directory of the settings is missing: the running editor's counts,
    // which was named as an argument of its own and is not tested
    assert_eq!(dir(&[false, false]), Some("/running".to_string()));
    assert_eq!(dir(&[]), Some("/running".to_string()));
    assert_eq!(
        get_user_data_dir_from_process(Some(&running), Some(&config), &[false, true]),
        Some("/running".to_string())
    );
    assert_eq!(get_user_data_dir_from_process(Some(&config), None, &[false]), None);
    assert_eq!(get_user_data_dir_from_process(None, Some(&config), &[true]), Some("/config".to_string()));
    assert_eq!(get_user_data_dir_from_process(None, None, &[true]), None);
    let two = strings(&["--user-data-dir=/a", "--user-data-dir=/b"]);
    assert_eq!(get_user_data_dir_from_process(Some(&two), None, &[false, true]), Some("/b".to_string()));
}
