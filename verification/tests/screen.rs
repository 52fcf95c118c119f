use dirsize::controller::App;
use dirsize::clock::Stamp;
use dirsize::present::{
    display_name, entry_row, entry_row_from, list_title, message_lines, pad_left_string,
    pad_right_string, shown_name, NAME_WIDTH, SIZE_WIDTH,
};
use dirsize::protocol::Msg;
use dirsize::stats::DirStats;

fn entry(path: &str, total_bytes: u128, file_count: u64) -> DirStats {
    DirStats { path: String::from(path), total_bytes, file_count, dir_count: 0 }
}

#[test]
fn padding_fills_up_to_the_width() {
    assert_eq!(pad_right_string("ab", 5), "ab   ");
    assert_eq!(pad_left_string("ab", 5), "   ab");
    assert_eq!(pad_right_string("", 2), "  ");
    assert_eq!(pad_left_string("", 0), "");
}

#[test]
fn padding_never_cuts() {
    assert_eq!(pad_right_string("abcdef", 3), "abcdef");
    assert_eq!(pad_left_string("abcdef", 3), "abcdef");
    assert_eq!(pad_right_string("abc", 3), "abc");
    assert_eq!(pad_left_string("abc", 3), "abc");
}

#[test]
fn padding_counts_characters_not_bytes() {
    assert_eq!(pad_right_string("żółw", 6), "żółw  ");
    assert_eq!(pad_left_string("żółw", 6), "  żółw");
    assert_eq!(pad_right_string("żółw", 6), format!("{:<6}", "żółw"));
}

#[test]
fn row_from_its_parts() {
    assert_eq!(NAME_WIDTH, 30);
    assert_eq!(SIZE_WIDTH, 10);
    assert_eq!(
        entry_row_from("X", "300 B", "3"),
        format!("X{}300 B  (3 files)", " ".repeat(29 + 2 + 5))
    );
    assert_eq!(
        entry_row_from("X", "300 B", "3"),
        format!("{:<30}  {:>10}  ({} files)", "X", "300 B", "3")
    );
    let long = "a-directory-with-a-name-longer-than-the-column";
    assert_eq!(
        entry_row_from(long, "1.50 MB", "12 345"),
        format!("{}     1.50 MB  (12 345 files)", long)
    );
}

#[test]
fn row_of_a_small_directory() {
    assert_eq!(
        entry_row(&entry("/r/X", 300, 3)),
        format!("{:<30}  {:>10}  (3 files)", "X", "300 B")
    );
}

#[test]
fn row_scales_the_size_and_groups_the_count() {
    assert_eq!(
        entry_row(&entry("/r/big", 1_500_000, 12_345)),
        format!("{:<30}  {:>10}  (12 345 files)", "big", "1.50 MB")
    );
    assert_eq!(
        entry_row(&entry("/r/huge", 2_000_000_000_000, 1_234_567)),
        format!("{:<30}  {:>10}  (1 234 567 files)", "huge", "2 TB")
    );
    assert_eq!(
        entry_row(&entry("/r/none", 0, 999)),
        format!("{:<30}  {:>10}  (999 files)", "none", "0 B")
    );
    assert_eq!(
        entry_row(&entry("/r/k", 1_000, 1_000)),
        format!("{:<30}  {:>10}  (1 000 files)", "k", "1 kB")
    );
}

#[test]
fn row_shows_the_low_64_bits_of_the_total() {
    let beyond = (1u128 << 64) + 5;
    assert_eq!(
        entry_row(&entry("/r/w", beyond, 1)),
        format!("{:<30}  {:>10}  (1 files)", "w", "5 B")
    );
}

#[test]
fn name_is_the_last_component() {
    assert_eq!(display_name(&String::from("/r/X")), "X");
    assert_eq!(display_name(&String::from("/r/X/")), "X");
    assert_eq!(display_name(&String::from("plain")), "plain");
}

#[test]
fn path_without_a_name_gets_a_placeholder() {
    assert_eq!(display_name(&String::from("/")), "<unknown>");
    assert_eq!(display_name(&String::from("/r/..")), "<unknown>");
    assert_eq!(display_name(&String::new()), "<unknown>");
}

#[test]
fn missing_component_gets_the_placeholder() {
    assert_eq!(shown_name(Some(String::from("X"))), "X");
    assert_eq!(shown_name(Some(String::new())), "");
    assert_eq!(shown_name(None), "<unknown>");
}

#[test]
fn title_names_the_root() {
    assert_eq!(list_title(&String::from("/r"), false), "Directories under /r");
    assert_eq!(list_title(&String::from("/r"), true), "Directories under /r  [scanning…]");
}

#[test]
fn messages_are_shown_newest_first() {
    let mut app = App::new(String::from("/r"));
    assert_eq!(message_lines(&app), Vec::<String>::new());
    app.log(String::from("one"));
    app.log(String::from("two"));
    app.log(String::from("three"));
    assert_eq!(message_lines(&app), vec!["three", "two", "one"]);
}

#[test]
fn error_is_shown_above_the_messages() {
    let mut app = App::new(String::from("/r"));
    app.log(String::from("one"));
    let at = Stamp { time_of_day: None, monotonic_nanos: 0 };
    app.apply_msg(Msg::Error(String::from("boom")), at);
    assert_eq!(message_lines(&app), vec!["ERROR: boom", "Error: boom", "one"]);
}

#[test]
fn failed_deletion_shows_its_cause() {
    let mut app = App::new(String::from("/r"));
    let at = Stamp { time_of_day: None, monotonic_nanos: 0 };
    app.apply_msg(Msg::DeleteFinished(String::from("/r/Y"), Err(String::from("denied"))), at);
    assert_eq!(message_lines(&app), vec!["ERROR: denied", "Failed to delete /r/Y: denied"]);
}

#[test]
fn highlight_follows_the_selection() {
    let mut app = App::new(String::from("/r"));
    assert_eq!(app.highlighted(), None);
    app.set_entries(vec![entry("a", 2, 1), entry("b", 1, 1)]);
    assert_eq!(app.highlighted(), Some(0));
    app.handle_command(dirsize::protocol::Command::MoveDown);
    assert_eq!(app.highlighted(), Some(1));
    app.set_entries(Vec::new());
    assert_eq!(app.highlighted(), None);
}
