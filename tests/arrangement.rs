use windough::{
    capture_arrangement, capture_entry, check_record_name, entry_match_flags, entry_matches_path,
    get_root_dir_path, is_system_path, launch_default, path_resolution_index_default,
    reposition_default, reposition_plan, resolve_multiple_paths_default, retry_count_default,
    retry_interval_default, running_module_paths, select_launch_paths, validate_name,
    ConfigData, DisplayOp, NameError, Reconciler, WindowAction, WindowData, WindowDataEntry,
    WindowPosition, WindowRect, WindowSize, WindowSnapshot,
};

fn entry(pattern: &str, reposition: bool) -> WindowDataEntry {
    WindowDataEntry {
        application_path: pattern.to_string(),
        application_args: Vec::new(),
        resolve_multiple_paths: false,
        path_resolution_index: 0,
        launch: true,
        reposition,
        position: WindowPosition { top: 0, left: 0 },
        size: WindowSize { width: 800, height: 600 },
        minimized: false,
        maximised: false,
    }
}

fn record(name: &str, data: Vec<WindowDataEntry>) -> WindowData {
    WindowData { name: name.to_string(), data }
}

fn strings(v: &[&str]) -> Vec<String> {
    v.iter().map(|s| s.to_string()).collect()
}

#[derive(Clone, Copy, Debug, PartialEq)]
struct Shown {
    left: i32,
    top: i32,
    width: i32,
    height: i32,
    minimized: bool,
    maximized: bool,
}

fn run_ops(mut w: Shown, ops: &[DisplayOp]) -> Shown {
    for op in ops {
        match *op {
            DisplayOp::Restore => {
                if w.minimized {
                    w.minimized = false;
                } else {
                    w.maximized = false;
                }
            }
            DisplayOp::RestoreIfMaximized => {
                if w.maximized && !w.minimized {
                    w.maximized = false;
                }
            }
            DisplayOp::SetRect(p, s) => {
                w.left = p.left;
                w.top = p.top;
                w.width = s.width;
                w.height = s.height;
            }
            DisplayOp::Maximize => {
                w.minimized = false;
                w.maximized = true;
            }
            DisplayOp::Minimize => w.minimized = true,
        }
    }
    w
}

#[test]
fn defaults_have_documented_values() {
    assert_eq!(retry_count_default(), 5);
    assert_eq!(retry_interval_default(), 750);
    let c = ConfigData::default();
    assert_eq!(c.retry_count, 5);
    assert_eq!(c.retry_interval, 750);
    assert!(!resolve_multiple_paths_default());
    assert_eq!(path_resolution_index_default(), 0);
    assert!(launch_default());
    assert!(reposition_default());
}

#[test]
fn system_paths_are_recognised_in_any_case_and_separator() {
    assert!(is_system_path("C:\\Windows\\explorer.exe"));
    assert!(is_system_path("c:/WINDOWS/System32/cmd.exe"));
    assert!(is_system_path("c:\\windows"));
    assert!(!is_system_path("C:/Apps/editor.exe"));
    assert!(!is_system_path("D:\\Windows\\x.exe"));
    assert!(!is_system_path("c:\\window"));
    assert!(!is_system_path(""));
}

#[test]
fn glob_patterns_match_whole_paths() {
    assert!(entry_matches_path("C:/Apps/*.exe", "C:/Apps/editor.exe"));
    assert!(entry_matches_path("C:/Apps/editor.exe", "C:/Apps/editor.exe"));
    assert!(entry_matches_path("C:/Apps/edit?r.exe", "C:/Apps/editor.exe"));
    assert!(!entry_matches_path("C:/Apps/*.exe", "C:/Other/editor.exe"));
    assert!(!entry_matches_path("C:/Apps/editor.exe", "C:/Apps/editor.exe.bak"));
}

#[test]
fn invalid_glob_pattern_matches_nothing() {
    assert!(!entry_matches_path("C:/Apps/***.exe", "C:/Apps/editor.exe"));
    assert!(!entry_matches_path("C:/Apps/[.exe", "C:/Apps/[.exe"));
}

#[test]
fn names_are_validated() {
    assert_eq!(validate_name("work"), Ok(()));
    assert_eq!(validate_name("my-layout_2"), Ok(()));
    assert_eq!(validate_name(""), Err(NameError::InvalidName));
    assert_eq!(validate_name("two words"), Err(NameError::InvalidName));
    assert_eq!(validate_name("a/b"), Err(NameError::InvalidName));
    assert_eq!(validate_name("work\n"), Err(NameError::InvalidName));
}

#[test]
fn record_name_must_match_its_key() {
    let r = record("work", Vec::new());
    assert_eq!(check_record_name(&r, "work"), Ok(()));
    assert_eq!(check_record_name(&r, "home"), Err(NameError::NameMismatch));
    assert_eq!(check_record_name(&r, "wor"), Err(NameError::NameMismatch));
}

#[test]
fn root_dir_strips_trailing_data_components() {
    assert_eq!(
        get_root_dir_path("C:\\Users\\me\\AppData\\Roaming\\SirGolem\\Windough\\data"),
        "C:\\Users\\me\\AppData\\Roaming\\SirGolem\\Windough"
    );
    assert_eq!(get_root_dir_path("/home/me/.local/share/windough/data"), "/home/me/.local/share/windough");
    assert_eq!(get_root_dir_path("/x/data/data"), "/x");
    assert_eq!(get_root_dir_path("/x/data\\data"), "/x");
    assert_eq!(get_root_dir_path("/x/database"), "/x/database");
    assert_eq!(get_root_dir_path(""), "");
}

#[test]
fn capture_records_geometry_from_edges() {
    let rect = WindowRect { left: 10, top: 20, right: 810, bottom: 620 };
    let e = capture_entry("C:/Apps/editor.exe".to_string(), rect, true, false);
    assert_eq!(e.application_path, "C:/Apps/editor.exe");
    assert!(e.application_args.is_empty());
    assert_eq!(e.position, WindowPosition { top: 20, left: 10 });
    assert_eq!(e.size, WindowSize { width: 800, height: 600 });
    assert!(e.minimized);
    assert!(!e.maximised);
    assert!(e.launch && e.reposition && !e.resolve_multiple_paths);
    assert_eq!(e.path_resolution_index, 0);
}

#[test]
fn capture_skips_unresolved_windows() {
    let snaps = vec![
        WindowSnapshot {
            exe_path: Some("C:/A/a.exe".to_string()),
            rect: WindowRect { left: 0, top: 0, right: 100, bottom: 50 },
            minimized: false,
            maximized: true,
        },
        WindowSnapshot {
            exe_path: None,
            rect: WindowRect { left: 0, top: 0, right: 1, bottom: 1 },
            minimized: false,
            maximized: false,
        },
        WindowSnapshot {
            exe_path: Some("C:/B/b.exe".to_string()),
            rect: WindowRect { left: -5, top: 7, right: 5, bottom: 17 },
            minimized: true,
            maximized: false,
        },
    ];
    let r = capture_arrangement("desk".to_string(), &snaps);
    assert_eq!(r.name, "desk");
    assert_eq!(r.data.len(), 2);
    assert_eq!(r.data[0].application_path, "C:/A/a.exe");
    assert!(r.data[0].maximised);
    assert_eq!(r.data[1].application_path, "C:/B/b.exe");
    assert_eq!(r.data[1].position, WindowPosition { top: 7, left: -5 });
    assert_eq!(r.data[1].size, WindowSize { width: 10, height: 10 });
    assert!(r.data[1].minimized);
}

#[test]
fn reposition_plan_minimizes_last() {
    let mut e = entry("C:/Apps/editor.exe", true);
    e.maximised = true;
    e.minimized = true;
    let ops = reposition_plan(&e);
    assert_eq!(
        ops,
        vec![
            DisplayOp::Restore,
            DisplayOp::RestoreIfMaximized,
            DisplayOp::SetRect(e.position, e.size),
            DisplayOp::Maximize,
            DisplayOp::Minimize,
        ]
    );
    let plain = entry("C:/Apps/editor.exe", true);
    assert_eq!(reposition_plan(&plain).len(), 3);
}

#[test]
fn capture_then_reposition_restores_state() {
    let rect = WindowRect { left: -8, top: 30, right: 1272, bottom: 1000 };
    for (min, max) in [(false, false), (true, false), (false, true), (true, true)] {
        let e = capture_entry("C:/Apps/editor.exe".to_string(), rect, min, max);
        let before = Shown { left: 1, top: 2, width: 3, height: 4, minimized: !min, maximized: !max };
        let after = run_ops(before, &reposition_plan(&e));
        assert_eq!(after.left, rect.left);
        assert_eq!(after.top, rect.top);
        assert_eq!(after.left + after.width, rect.right);
        assert_eq!(after.top + after.height, rect.bottom);
        assert_eq!(after.minimized, min);
        assert_eq!(after.maximized, max);
    }
}

#[test]
fn launch_index_is_clamped_to_last_path() {
    let mut e = entry("C:/Apps/*/app.exe", true);
    e.path_resolution_index = 7;
    let expanded = strings(&["C:/Apps/a/app.exe", "C:/Apps/b/app.exe"]);
    assert_eq!(select_launch_paths(&e, &expanded, &Vec::new()), strings(&["C:/Apps/b/app.exe"]));
    e.path_resolution_index = 0;
    assert_eq!(select_launch_paths(&e, &expanded, &Vec::new()), strings(&["C:/Apps/a/app.exe"]));
}

#[test]
fn launch_all_paths_skips_running_ones() {
    let mut e = entry("C:/Apps/*/app.exe", true);
    e.resolve_multiple_paths = true;
    let expanded = strings(&["C:/Apps/a/app.exe", "C:/Apps/b/app.exe", "C:/Apps/c/app.exe"]);
    let running = strings(&["C:/Apps/b/app.exe"]);
    assert_eq!(
        select_launch_paths(&e, &expanded, &running),
        strings(&["C:/Apps/a/app.exe", "C:/Apps/c/app.exe"])
    );
}

#[test]
fn nothing_is_launched_without_paths_or_launch_flag() {
    let mut e = entry("C:/Apps/editor.exe", true);
    assert!(select_launch_paths(&e, &Vec::new(), &Vec::new()).is_empty());
    e.launch = false;
    let expanded = strings(&["C:/Apps/editor.exe"]);
    assert!(select_launch_paths(&e, &expanded, &Vec::new()).is_empty());
}

#[test]
fn running_paths_drop_unresolved_and_system_windows() {
    let lookups = vec![
        Some("C:/Apps/editor.exe".to_string()),
        None,
        Some("C:\\Windows\\explorer.exe".to_string()),
        Some("D:/Tools/term.exe".to_string()),
    ];
    assert_eq!(running_module_paths(&lookups), strings(&["C:/Apps/editor.exe", "D:/Tools/term.exe"]));
}

#[test]
fn unmatched_launch_ends_partial_after_all_attempts() {
    let rec = record("work", vec![entry("C:/Apps/editor.exe", true)]);
    let config = ConfigData { retry_count: 2, retry_interval: 750 };
    let running = running_module_paths(&Vec::new());
    let expanded = strings(&["C:/Apps/editor.exe"]);
    let to_launch = select_launch_paths(&rec.data[0], &expanded, &running);
    assert_eq!(to_launch, strings(&["C:/Apps/editor.exe"]));
    let mut r = Reconciler::new(rec, &config, false, false);
    let mut attempts = 0;
    while r.should_continue() {
        let expected = if attempts == 0 { WindowAction::Ignore } else { WindowAction::Skip };
        assert_eq!(r.classify(1, "C:/Other/tool.exe"), expected);
        r.finish_attempt();
        attempts += 1;
    }
    assert_eq!(attempts, 2);
    assert_eq!(r.pending_indices(), vec![0]);
    assert!(r.has_pending());
}

#[test]
fn second_window_of_matched_entry_is_foreign() {
    let rec = record("work", vec![entry("C:/Apps/*.exe", true)]);
    let config = ConfigData { retry_count: 3, retry_interval: 0 };
    let mut r = Reconciler::new(rec, &config, true, false);
    assert_eq!(r.classify(10, "C:/Apps/editor.exe"), WindowAction::Reposition(0));
    assert_eq!(r.classify(11, "C:/Apps/editor.exe"), WindowAction::Close);
    assert!(r.is_excluded(11));
    assert!(!r.is_excluded(10));
    assert!(r.is_matched(10));
    assert_eq!(r.classify(10, "C:/Apps/editor.exe"), WindowAction::Skip);
    assert_eq!(r.matched, vec![10]);
    assert_eq!(r.excluded, vec![11]);
    assert!(r.pending_indices().is_empty());
    assert!(!r.should_continue());
}

#[test]
fn matched_window_is_left_alone_in_later_attempts() {
    let config = ConfigData { retry_count: 3, retry_interval: 0 };
    let mut r = Reconciler::new(
        record("w", vec![entry("C:/Apps/a.exe", true), entry("C:/Apps/b.exe", true)]),
        &config,
        true,
        false,
    );
    assert_eq!(r.classify(1, "C:/Apps/a.exe"), WindowAction::Reposition(0));
    r.finish_attempt();
    assert!(r.should_continue());
    assert_eq!(r.classify(1, "C:/Apps/a.exe"), WindowAction::Skip);
    assert!(!r.is_excluded(1));
    assert_eq!(r.classify(2, "C:/Apps/b.exe"), WindowAction::Reposition(1));
    assert_eq!(r.matched, vec![1, 2]);
    assert!(r.excluded.is_empty());
    assert!(!r.should_continue());
}

#[test]
fn capture_leaves_out_system_windows() {
    let rect = WindowRect { left: 0, top: 0, right: 10, bottom: 10 };
    let snaps = vec![
        WindowSnapshot { exe_path: Some("C:\\Windows\\explorer.exe".to_string()), rect, minimized: false, maximized: false },
        WindowSnapshot { exe_path: Some("c:/windows/system32/cmd.exe".to_string()), rect, minimized: false, maximized: false },
        WindowSnapshot { exe_path: Some("C:/Apps/editor.exe".to_string()), rect, minimized: false, maximized: false },
    ];
    let r = capture_arrangement("desk".to_string(), &snaps);
    assert_eq!(r.data.len(), 1);
    assert_eq!(r.data[0].application_path, "C:/Apps/editor.exe");
}

#[test]
fn foreign_windows_are_minimized_or_ignored() {
    let config = ConfigData { retry_count: 1, retry_interval: 0 };
    let mut r = Reconciler::new(record("w", vec![entry("C:/Apps/a.exe", true)]), &config, false, true);
    assert_eq!(r.classify(5, "C:/Other/b.exe"), WindowAction::Minimize);
    let mut q = Reconciler::new(record("w", vec![entry("C:/Apps/a.exe", true)]), &config, true, true);
    assert_eq!(q.classify(5, "C:/Other/b.exe"), WindowAction::Close);
}

#[test]
fn excluded_window_is_never_reconsidered() {
    let config = ConfigData { retry_count: 5, retry_interval: 0 };
    let mut r = Reconciler::new(record("w", vec![entry("C:/Apps/a.exe", true)]), &config, true, false);
    assert_eq!(r.classify(7, "C:/Other/b.exe"), WindowAction::Close);
    assert_eq!(r.classify(7, "C:/Apps/a.exe"), WindowAction::Skip);
    assert_eq!(r.pending_indices(), vec![0]);
    assert_eq!(r.excluded, vec![7]);
}

#[test]
fn system_window_is_neither_matched_nor_excluded() {
    let config = ConfigData { retry_count: 5, retry_interval: 0 };
    let mut r = Reconciler::new(record("w", vec![entry("*", true)]), &config, true, false);
    assert_eq!(r.classify(3, "C:\\WINDOWS\\explorer.exe"), WindowAction::Skip);
    assert!(!r.is_excluded(3));
    assert_eq!(r.pending_indices(), vec![0]);
}

#[test]
fn entry_without_reposition_still_leaves_pending() {
    let config = ConfigData { retry_count: 5, retry_interval: 0 };
    let mut r = Reconciler::new(
        record("w", vec![entry("C:/Apps/a.exe", false), entry("C:/Apps/*.exe", true)]),
        &config,
        false,
        false,
    );
    assert_eq!(r.classify(1, "C:/Apps/a.exe"), WindowAction::Matched(0));
    assert_eq!(r.pending_indices(), vec![1]);
    assert_eq!(r.classify(2, "C:/Apps/a.exe"), WindowAction::Reposition(1));
    assert!(r.pending_indices().is_empty());
}

#[test]
fn first_pending_entry_in_order_wins() {
    let config = ConfigData { retry_count: 5, retry_interval: 0 };
    let mut r = Reconciler::new(
        record("w", vec![entry("C:/Apps/[.exe", true), entry("C:/Apps/*.exe", true), entry("C:/Apps/b.exe", true)]),
        &config,
        false,
        false,
    );
    assert_eq!(r.classify(1, "C:/Apps/b.exe"), WindowAction::Reposition(1));
    assert_eq!(r.classify(2, "C:/Apps/b.exe"), WindowAction::Reposition(2));
    assert_eq!(r.pending_indices(), vec![0]);
    assert_eq!(r.attempts, 0);
}

#[test]
fn classification_follows_match_flags() {
    let config = ConfigData { retry_count: 2, retry_interval: 0 };
    let mut r = Reconciler::new(
        record("w", vec![entry("C:/A/*.exe", true), entry("C:/B/*.exe", false)]),
        &config,
        true,
        false,
    );
    assert_eq!(r.classify_matched(5, false, &vec![false, true]), WindowAction::Matched(1));
    assert_eq!(r.classify_matched(6, false, &vec![false, true]), WindowAction::Close);
    assert_eq!(r.classify_matched(6, false, &vec![true, true]), WindowAction::Skip);
    assert_eq!(r.classify_matched(8, true, &vec![true, true]), WindowAction::Skip);
    assert!(!r.is_excluded(8));
    assert_eq!(r.classify_matched(7, false, &vec![true, true]), WindowAction::Reposition(0));
    assert!(r.pending_indices().is_empty());
    assert_eq!(r.excluded, vec![6]);
    assert_eq!(r.matched, vec![5, 7]);
    assert_eq!(r.classify_matched(5, false, &vec![true, true]), WindowAction::Skip);
    assert!(!r.should_continue());
}

#[test]
fn match_flags_cover_every_entry() {
    let entries = vec![
        entry("C:/Apps/*.exe", true),
        entry("C:/Other/*.exe", true),
        entry("C:/Apps/***.exe", true),
        entry("C:/Apps/editor.exe", true),
    ];
    assert_eq!(entry_match_flags(&entries, "C:/Apps/editor.exe"), vec![true, false, false, true]);
}

#[test]
fn attempts_stop_once_nothing_is_pending() {
    let config = ConfigData { retry_count: 5, retry_interval: 0 };
    let mut r = Reconciler::new(record("w", vec![entry("C:/Apps/a.exe", true)]), &config, false, false);
    assert!(r.should_continue());
    assert_eq!(r.classify(1, "C:/Apps/a.exe"), WindowAction::Reposition(0));
    r.finish_attempt();
    assert_eq!(r.attempts, 1);
    assert!(!r.should_continue());
    let empty = Reconciler::new(record("none", Vec::new()), &config, false, false);
    assert!(!empty.should_continue());
    let zero = ConfigData { retry_count: 0, retry_interval: 0 };
    let never = Reconciler::new(record("w", vec![entry("C:/Apps/a.exe", true)]), &zero, false, false);
    assert!(!never.should_continue());
}
