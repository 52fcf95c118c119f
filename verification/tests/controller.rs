use dirsize::controller::App;
use dirsize::clock::{Clock, Stamp, TimeOfDay};
use dirsize::journal::LOG_CAPACITY;
use dirsize::protocol::{
    command_for_key, deletion_report, Command, Effects, KeyCode, KeyEvent, Mode, Msg,
};
use dirsize::stats::{compute_stats_for_dir, DirStats, EntryKind, WalkEntry};

fn entry(path: &str, total_bytes: u128, file_count: u64) -> DirStats {
    DirStats { path: String::from(path), total_bytes, file_count, dir_count: 0 }
}

fn at(hour: u32, minute: u32, millis: u128) -> Stamp {
    Stamp { time_of_day: Some(TimeOfDay { hour, minute }), monotonic_nanos: millis * 1_000_000 }
}

fn press(code: KeyCode) -> KeyEvent {
    KeyEvent { code, unmodified: true, pressed: true }
}

fn nothing() -> Effects {
    Effects { quit: false, request_scan: false, delete: None }
}

fn rescan() -> Effects {
    Effects { quit: false, request_scan: true, delete: None }
}

fn lines(app: &App) -> Vec<String> {
    app.messages().iter().cloned().collect()
}

fn paths(app: &App) -> Vec<String> {
    app.entries().iter().map(|d| d.path.clone()).collect()
}

fn scanned(root: &str, list: Vec<DirStats>) -> App {
    let mut app = App::new(String::from(root));
    assert_eq!(app.apply_msg(Msg::RecomputeNow, at(8, 0, 0)), Some(String::from(root)));
    assert_eq!(app.apply_msg(Msg::ScanFinished(list), at(8, 0, 1_000)), None);
    app
}

fn x_and_y() -> Vec<DirStats> {
    vec![entry("/r/Y", 0, 0), entry("/r/X", 300, 3)]
}

#[test]
fn new_controller_browses_its_root() {
    let app = App::new(String::from("/r"));
    assert_eq!(app.cwd(), "/r");
    assert_eq!(app.selected(), 0);
    assert!(app.entries().is_empty());
    assert!(app.messages().is_empty());
    assert_eq!(app.last_error(), &None);
    assert!(!app.is_scanning());
    assert_eq!(app.mode(), &Mode::Normal);
    assert_eq!(app.selected_entry(), None);
}

#[test]
fn scenario_scan_of_two_children() {
    let walk_x = vec![
        WalkEntry { kind: EntryKind::Dir, depth: 0, len: None },
        WalkEntry { kind: EntryKind::File, depth: 1, len: Some(100) },
        WalkEntry { kind: EntryKind::File, depth: 1, len: Some(100) },
        WalkEntry { kind: EntryKind::File, depth: 1, len: Some(100) },
    ];
    let walk_y = vec![WalkEntry { kind: EntryKind::Dir, depth: 0, len: None }];
    let results = vec![
        compute_stats_for_dir(String::from("/r/Y"), &walk_y),
        compute_stats_for_dir(String::from("/r/X"), &walk_x),
    ];
    let app = scanned("/r", results);
    assert_eq!(app.entries(), &vec![entry("/r/X", 300, 3), entry("/r/Y", 0, 0)]);
    assert_eq!(app.selected(), 0);
    assert_eq!(app.selected_entry(), Some(&entry("/r/X", 300, 3)));
    assert!(!app.is_scanning());
}

#[test]
fn scenario_request_then_cancel_deletion() {
    let mut app = scanned("/r", x_and_y());
    assert_eq!(app.handle_key(press(KeyCode::Down)), nothing());
    assert_eq!(app.selected(), 1);
    assert_eq!(app.handle_key(press(KeyCode::Char('d'))), nothing());
    assert_eq!(app.mode(), &Mode::ConfirmDelete(String::from("/r/Y")));
    let before = app.entries().clone();
    assert_eq!(app.handle_key(press(KeyCode::Char('n'))), nothing());
    assert_eq!(app.mode(), &Mode::Normal);
    assert_eq!(app.entries(), &before);
    assert_eq!(app.selected(), 1);
    assert_eq!(lines(&app).last().unwrap(), "Deletion cancelled");
}

#[test]
fn escape_cancels_too() {
    let mut app = scanned("/r", x_and_y());
    app.handle_command(Command::RequestDelete);
    assert_eq!(app.handle_key(press(KeyCode::Esc)), nothing());
    assert_eq!(app.mode(), &Mode::Normal);
}

#[test]
fn scenario_confirmed_deletion_and_rescan() {
    let mut app = scanned("/r", x_and_y());
    app.handle_command(Command::MoveDown);
    app.handle_command(Command::RequestDelete);
    let fx = app.handle_key(press(KeyCode::Char('y')));
    assert_eq!(
        fx,
        Effects { quit: false, request_scan: true, delete: Some(String::from("/r/Y")) }
    );
    assert_eq!(app.mode(), &Mode::Normal);
    assert_eq!(app.apply_msg(Msg::RecomputeNow, at(8, 1, 60_000)), Some(String::from("/r")));
    for msg in deletion_report(String::from("/r/Y"), Ok(())) {
        assert_eq!(app.apply_msg(msg, at(8, 1, 60_500)), None);
    }
    let rescanned = Msg::ScanFinished(vec![entry("/r/X", 300, 3)]);
    assert_eq!(app.apply_msg(rescanned, at(8, 1, 61_000)), None);
    assert_eq!(paths(&app), vec!["/r/X"]);
    assert_eq!(app.selected(), 0);
    assert!(lines(&app).contains(&String::from("Deleted: /r/Y")));
}

#[test]
fn scenario_down_and_up_again() {
    let mut app = scanned("/r", x_and_y());
    assert_eq!(app.handle_key(press(KeyCode::Enter)), rescan());
    assert_eq!(app.cwd(), "/r/X");
    assert_eq!(app.selected(), 0);
    assert_eq!(lines(&app).last().unwrap(), "Entered /r/X");
    app.apply_msg(Msg::RecomputeNow, at(8, 2, 0));
    let children = vec![entry("/r/X/a", 1, 1), entry("/r/X/b", 2, 1)];
    app.apply_msg(Msg::ScanFinished(children), at(8, 2, 0));
    app.handle_command(Command::MoveDown);
    assert_eq!(app.selected(), 1);
    assert_eq!(app.handle_key(press(KeyCode::Backspace)), rescan());
    assert_eq!(app.cwd(), "/r");
    assert_eq!(app.selected(), 0);
    assert_eq!(lines(&app).last().unwrap(), "Up to /r");
    assert_eq!(app.handle_msg(Msg::RecomputeNow, &Clock::start()), Some(String::from("/r")));
}

#[test]
fn parent_of_a_nested_path_drops_the_last_component() {
    let mut app = App::new(String::from("/a/b/c"));
    assert_eq!(app.handle_command(Command::GoToParent), rescan());
    assert_eq!(app.cwd(), "/a/b");
    assert_eq!(app.handle_command(Command::GoToParent), rescan());
    assert_eq!(app.cwd(), "/a");
    assert_eq!(app.handle_command(Command::GoToParent), rescan());
    assert_eq!(app.cwd(), "/");
}

#[test]
fn no_parent_above_the_root() {
    let mut app = App::new(String::from("/"));
    assert_eq!(app.handle_command(Command::GoToParent), nothing());
    assert_eq!(app.cwd(), "/");
    assert_eq!(lines(&app), vec!["Already at filesystem root"]);
}

#[test]
fn given_parent_is_taken() {
    let mut app = scanned("/r/X", vec![entry("/r/X/a", 1, 1), entry("/r/X/b", 0, 0)]);
    app.handle_command(Command::MoveDown);
    assert_eq!(app.apply_command(Command::GoToParent, Some(String::from("/elsewhere"))), rescan());
    assert_eq!(app.cwd(), "/elsewhere");
    assert_eq!(app.selected(), 0);
    assert_eq!(app.apply_command(Command::GoToParent, None), nothing());
    assert_eq!(app.cwd(), "/elsewhere");
    assert_eq!(lines(&app).last().unwrap(), "Already at filesystem root");
}

#[test]
fn scan_request_is_gated() {
    let mut app = App::new(String::from("/r"));
    assert_eq!(app.apply_msg(Msg::RecomputeNow, at(9, 5, 0)), Some(String::from("/r")));
    assert!(app.is_scanning());
    assert_eq!(lines(&app), vec!["9:5 - scan started "]);
    assert_eq!(app.apply_msg(Msg::RecomputeNow, at(9, 6, 0)), None);
    assert_eq!(app.handle_msg(Msg::RecomputeNow, &Clock::start()), None);
    assert!(app.is_scanning());
    assert_eq!(lines(&app), vec!["9:5 - scan started "]);
    assert_eq!(app.apply_msg(Msg::ScanFinished(Vec::new()), at(9, 7, 0)), None);
    assert!(!app.is_scanning());
    assert_eq!(app.apply_msg(Msg::RecomputeNow, at(9, 8, 0)), Some(String::from("/r")));
}

#[test]
fn completed_scan_logs_its_duration() {
    let mut app = App::new(String::from("/r"));
    app.apply_msg(Msg::RecomputeNow, at(9, 5, 10_000));
    app.apply_msg(Msg::ScanFinished(x_and_y()), at(9, 6, 75_999));
    assert_eq!(lines(&app), vec!["9:5 - scan started ", "9:6 - scan completed (65s)"]);
}

#[test]
fn results_without_a_timed_scan() {
    let mut app = App::new(String::from("/r"));
    app.apply_msg(Msg::ScanFinished(x_and_y()), at(9, 6, 0));
    assert_eq!(lines(&app), vec!["Scan completed"]);
    assert_eq!(paths(&app), vec!["/r/X", "/r/Y"]);
    app.apply_msg(Msg::RecomputeNow, at(9, 7, 0));
    app.apply_msg(Msg::ScanFinished(Vec::new()), at(9, 7, 0));
    app.apply_msg(Msg::ScanFinished(Vec::new()), at(9, 7, 0));
    assert_eq!(lines(&app).last().unwrap(), "Scan completed");
}

#[test]
fn clock_is_read_for_a_scan() {
    let mut app = App::new(String::from("/r"));
    assert_eq!(app.handle_msg(Msg::RecomputeNow, &Clock::start()), Some(String::from("/r")));
    let line = lines(&app).pop().unwrap();
    let label = line.strip_suffix(" - scan started ").unwrap();
    let (hour, minute) = label.split_once(':').unwrap();
    assert!(hour.parse::<u32>().unwrap() < 24);
    assert!(minute.parse::<u32>().unwrap() < 60);
    assert_eq!(app.handle_msg(Msg::ScanFinished(x_and_y()), &Clock::start()), None);
    let line = lines(&app).pop().unwrap();
    assert!(line.contains(" - scan completed ("));
    assert!(line.ends_with("s)"));
    assert_eq!(paths(&app), vec!["/r/X", "/r/Y"]);
}

#[test]
fn scan_is_timed_on_one_clock() {
    let clock = Clock::start();
    let mut app = App::new(String::from("/r"));
    assert_eq!(app.handle_msg(Msg::RecomputeNow, &clock), Some(String::from("/r")));
    assert_eq!(app.handle_msg(Msg::ScanFinished(Vec::new()), &clock), None);
    let line = lines(&app).pop().unwrap();
    assert!(line.ends_with(" - scan completed (0s)"));
}

#[test]
fn clock_never_runs_backwards() {
    let clock = Clock::start();
    let first = clock.read();
    let second = clock.read();
    let time = first.time_of_day.unwrap();
    assert!(time.hour < 24 && time.minute < 60);
    assert!(second.monotonic_nanos >= first.monotonic_nanos);
    assert!(first.monotonic_nanos < 60 * 1_000_000_000);
}

#[test]
fn shown_error_of_a_failed_deletion_is_the_cause() {
    let mut app = scanned("/r", x_and_y());
    let before = lines(&app).len();
    let failed = Msg::DeleteFinished(String::from("/r/Y"), Err(String::from("denied")));
    assert_eq!(app.apply_msg(failed, at(8, 9, 0)), None);
    assert_eq!(app.last_error(), &Some(String::from("denied")));
    assert_eq!(lines(&app).len(), before + 1);
    assert_eq!(lines(&app).last().unwrap(), "Failed to delete /r/Y: denied");
    assert_eq!(paths(&app), vec!["/r/X", "/r/Y"]);
    assert_eq!(app.selected(), 0);
    assert_eq!(app.cwd(), "/r");
    assert_eq!(app.mode(), &Mode::Normal);
    assert!(!app.is_scanning());
}

#[test]
fn scan_without_a_time_of_day_shows_dashes() {
    let mut app = App::new(String::from("/r"));
    let unknown = Stamp { time_of_day: None, monotonic_nanos: 0 };
    assert_eq!(app.apply_msg(Msg::RecomputeNow, unknown), Some(String::from("/r")));
    let later = Stamp { time_of_day: None, monotonic_nanos: 3_000_000_000 };
    assert_eq!(app.apply_msg(Msg::ScanFinished(Vec::new()), later), None);
    assert_eq!(lines(&app), vec!["--:-- - scan started ", "--:-- - scan completed (3s)"]);
}

#[test]
fn tick_changes_nothing() {
    let mut app = scanned("/r", x_and_y());
    let before = lines(&app);
    assert_eq!(app.handle_msg(Msg::Tick, &Clock::start()), None);
    assert_eq!(app.apply_msg(Msg::Tick, at(1, 1, 1)), None);
    assert_eq!(lines(&app), before);
    assert_eq!(paths(&app), vec!["/r/X", "/r/Y"]);
    assert!(!app.is_scanning());
}

#[test]
fn same_results_twice_give_the_same_list() {
    let mut app = scanned("/r", x_and_y());
    app.handle_command(Command::MoveDown);
    let entries = app.entries().clone();
    let selected = app.selected();
    app.apply_msg(Msg::ScanFinished(x_and_y()), at(8, 3, 0));
    assert_eq!(app.entries(), &entries);
    assert_eq!(app.selected(), selected);
}

#[test]
fn results_are_taken_whatever_the_root() {
    let mut app = scanned("/r", x_and_y());
    app.apply_msg(Msg::RecomputeNow, at(8, 4, 0));
    app.handle_command(Command::Enter);
    assert_eq!(app.cwd(), "/r/X");
    app.apply_msg(Msg::ScanFinished(vec![entry("/r/Z", 1, 1)]), at(8, 4, 0));
    assert_eq!(paths(&app), vec!["/r/Z"]);
    assert_eq!(app.cwd(), "/r/X");
}

#[test]
fn selection_is_clamped_when_the_list_shrinks() {
    let three = vec![entry("a", 3, 1), entry("b", 2, 1), entry("c", 1, 1)];
    let mut app = scanned("/r", three);
    app.handle_command(Command::MoveDown);
    app.handle_command(Command::MoveDown);
    assert_eq!(app.selected(), 2);
    app.set_entries(vec![entry("a", 3, 1), entry("b", 2, 1)]);
    assert_eq!(app.selected(), 1);
    app.set_entries(Vec::new());
    assert_eq!(app.selected(), 0);
    assert_eq!(app.selected_entry(), None);
    app.set_entries(vec![entry("a", 3, 1)]);
    assert_eq!(app.selected(), 0);
}

#[test]
fn selection_stops_at_both_ends() {
    let mut app = scanned("/r", x_and_y());
    assert_eq!(app.handle_key(press(KeyCode::Up)), nothing());
    assert_eq!(app.selected(), 0);
    app.handle_key(press(KeyCode::Down));
    app.handle_key(press(KeyCode::Down));
    app.handle_key(press(KeyCode::Down));
    assert_eq!(app.selected(), 1);
    app.handle_key(press(KeyCode::Up));
    assert_eq!(app.selected(), 0);
}

#[test]
fn empty_list_admits_no_move_entry_or_deletion() {
    let mut app = App::new(String::from("/r"));
    assert_eq!(app.handle_command(Command::MoveDown), nothing());
    assert_eq!(app.handle_command(Command::MoveUp), nothing());
    assert_eq!(app.handle_command(Command::Enter), nothing());
    assert_eq!(app.handle_command(Command::RequestDelete), nothing());
    assert_eq!(app.selected(), 0);
    assert_eq!(app.cwd(), "/r");
    assert_eq!(app.mode(), &Mode::Normal);
    assert!(app.messages().is_empty());
}

#[test]
fn waiting_deletion_admits_only_its_answer() {
    let mut app = scanned("/r", x_and_y());
    app.handle_command(Command::RequestDelete);
    let waiting = Mode::ConfirmDelete(String::from("/r/X"));
    for cmd in [
        Command::MoveUp,
        Command::MoveDown,
        Command::Enter,
        Command::GoToParent,
        Command::RequestDelete,
    ] {
        assert_eq!(app.handle_command(cmd), nothing());
        assert_eq!(app.mode(), &waiting);
        assert_eq!(app.cwd(), "/r");
        assert_eq!(app.selected(), 0);
    }
    assert_eq!(app.handle_command(Command::ManualRefresh), rescan());
    assert_eq!(
        app.handle_command(Command::Quit),
        Effects { quit: true, request_scan: false, delete: None }
    );
    assert_eq!(app.mode(), &waiting);
}

#[test]
fn deletion_may_run_beside_a_scan() {
    let mut app = scanned("/r", x_and_y());
    assert_eq!(app.apply_msg(Msg::RecomputeNow, at(8, 5, 0)), Some(String::from("/r")));
    assert!(app.is_scanning());
    app.handle_command(Command::RequestDelete);
    assert_eq!(
        app.handle_command(Command::ConfirmDelete),
        Effects { quit: false, request_scan: true, delete: Some(String::from("/r/X")) }
    );
    assert!(app.is_scanning());
    assert_eq!(app.apply_msg(Msg::RecomputeNow, at(8, 5, 1)), None);
}

#[test]
fn browsing_admits_no_answer() {
    let mut app = scanned("/r", x_and_y());
    let before = lines(&app);
    assert_eq!(app.handle_command(Command::ConfirmDelete), nothing());
    assert_eq!(app.handle_command(Command::CancelDelete), nothing());
    assert_eq!(app.mode(), &Mode::Normal);
    assert_eq!(lines(&app), before);
}

#[test]
fn quit_and_refresh_leave_the_state() {
    let mut app = scanned("/r", x_and_y());
    assert_eq!(
        app.handle_key(press(KeyCode::Char('q'))),
        Effects { quit: true, request_scan: false, delete: None }
    );
    assert_eq!(app.handle_key(press(KeyCode::Char('r'))), rescan());
    assert_eq!(paths(&app), vec!["/r/X", "/r/Y"]);
    assert!(!app.is_scanning());
}

#[test]
fn keys_while_browsing() {
    let mode = Mode::Normal;
    assert_eq!(command_for_key(&mode, &press(KeyCode::Char('q'))), Some(Command::Quit));
    assert_eq!(command_for_key(&mode, &press(KeyCode::Char('r'))), Some(Command::ManualRefresh));
    assert_eq!(command_for_key(&mode, &press(KeyCode::Char('d'))), Some(Command::RequestDelete));
    assert_eq!(command_for_key(&mode, &press(KeyCode::Up)), Some(Command::MoveUp));
    assert_eq!(command_for_key(&mode, &press(KeyCode::Down)), Some(Command::MoveDown));
    assert_eq!(command_for_key(&mode, &press(KeyCode::Enter)), Some(Command::Enter));
    assert_eq!(command_for_key(&mode, &press(KeyCode::Backspace)), Some(Command::GoToParent));
    assert_eq!(command_for_key(&mode, &press(KeyCode::Char('y'))), None);
    assert_eq!(command_for_key(&mode, &press(KeyCode::Char('n'))), None);
    assert_eq!(command_for_key(&mode, &press(KeyCode::Esc)), None);
    assert_eq!(command_for_key(&mode, &press(KeyCode::Other)), None);
}

#[test]
fn keys_while_a_deletion_waits() {
    let mode = Mode::ConfirmDelete(String::from("/r/Y"));
    assert_eq!(command_for_key(&mode, &press(KeyCode::Char('y'))), Some(Command::ConfirmDelete));
    assert_eq!(command_for_key(&mode, &press(KeyCode::Char('n'))), Some(Command::CancelDelete));
    assert_eq!(command_for_key(&mode, &press(KeyCode::Esc)), Some(Command::CancelDelete));
    assert_eq!(command_for_key(&mode, &press(KeyCode::Char('q'))), None);
    assert_eq!(command_for_key(&mode, &press(KeyCode::Char('r'))), None);
    assert_eq!(command_for_key(&mode, &press(KeyCode::Enter)), None);
    assert_eq!(command_for_key(&mode, &press(KeyCode::Up)), None);
}

#[test]
fn only_presses_count() {
    let released = KeyEvent { code: KeyCode::Char('q'), unmodified: true, pressed: false };
    assert_eq!(command_for_key(&Mode::Normal, &released), None);
    let mut app = scanned("/r", x_and_y());
    assert_eq!(app.handle_key(released), nothing());
}

#[test]
fn arrows_with_a_modifier_do_not_move() {
    let held = KeyEvent { code: KeyCode::Down, unmodified: false, pressed: true };
    assert_eq!(command_for_key(&Mode::Normal, &held), None);
    let held = KeyEvent { code: KeyCode::Up, unmodified: false, pressed: true };
    assert_eq!(command_for_key(&Mode::Normal, &held), None);
    let held = KeyEvent { code: KeyCode::Enter, unmodified: false, pressed: true };
    assert_eq!(command_for_key(&Mode::Normal, &held), Some(Command::Enter));
}

#[test]
fn reported_error_is_shown_and_logged() {
    let mut app = App::new(String::from("/r"));
    assert_eq!(app.handle_msg(Msg::Error(String::from("boom")), &Clock::start()), None);
    assert_eq!(app.last_error(), &Some(String::from("boom")));
    assert_eq!(lines(&app), vec!["Error: boom"]);
    app.apply_msg(Msg::Error(String::from("again")), at(0, 0, 0));
    assert_eq!(app.last_error(), &Some(String::from("again")));
    assert_eq!(lines(&app), vec!["Error: boom", "Error: again"]);
}

#[test]
fn failed_deletion_is_shown_and_logged() {
    let mut app = App::new(String::from("/r"));
    let failed = Msg::DeleteFinished(String::from("/r/Y"), Err(String::from("denied")));
    assert_eq!(app.handle_msg(failed, &Clock::start()), None);
    assert_eq!(app.last_error(), &Some(String::from("denied")));
    assert_eq!(lines(&app), vec!["Failed to delete /r/Y: denied"]);
}

#[test]
fn finished_deletion_is_logged() {
    let mut app = App::new(String::from("/r"));
    let finished = Msg::DeleteFinished(String::from("/r/Y"), Ok(()));
    assert_eq!(app.handle_msg(finished, &Clock::start()), None);
    assert_eq!(app.last_error(), &None);
    assert_eq!(lines(&app), vec!["Deleted: /r/Y"]);
}

#[test]
fn deletion_report_asks_for_a_rescan() {
    assert_eq!(
        deletion_report(String::from("/r/Y"), Ok(())),
        vec![Msg::DeleteFinished(String::from("/r/Y"), Ok(())), Msg::RecomputeNow]
    );
    assert_eq!(
        deletion_report(String::from("/r/Y"), Err(String::from("gone"))),
        vec![
            Msg::DeleteFinished(String::from("/r/Y"), Err(String::from("gone"))),
            Msg::RecomputeNow
        ]
    );
}

#[test]
fn log_keeps_the_most_recent_lines() {
    let mut app = App::new(String::from("/r"));
    for i in 0..(LOG_CAPACITY + 50) {
        app.log(format!("line {}", i));
    }
    let kept = lines(&app);
    assert_eq!(kept.len(), LOG_CAPACITY);
    assert_eq!(LOG_CAPACITY, 200);
    for (k, line) in kept.iter().enumerate() {
        assert_eq!(line, &format!("line {}", k + 50));
    }
}

#[test]
fn log_below_capacity_loses_nothing() {
    let mut app = App::new(String::from("/r"));
    for i in 0..LOG_CAPACITY {
        app.log(format!("line {}", i));
    }
    let kept = lines(&app);
    assert_eq!(kept.len(), LOG_CAPACITY);
    assert_eq!(kept[0], "line 0");
    app.log(String::from("one more"));
    let kept = lines(&app);
    assert_eq!(kept.len(), LOG_CAPACITY);
    assert_eq!(kept[0], "line 1");
    assert_eq!(kept[LOG_CAPACITY - 1], "one more");
}
