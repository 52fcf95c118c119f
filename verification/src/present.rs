//! The text of the screen: what the list of directories and the message
//! pane show of the controller's state.

use crate::controller::App;
use crate::model::AppView;
use crate::stats::DirStats;
use crate::text::{decimal, grouped, grouped_string, opt_text_view, text_views};
use vstd::prelude::*;

verus! {

/// The width to which an entry's name is filled.
pub const NAME_WIDTH: usize = 30;

/// The width to which an entry's size is filled.
pub const SIZE_WIDTH: usize = 10;

/// The last component of a path as `std::path::Path::file_name` gives it on
/// the platform that the crate is built for; `None` for a path that ends in
/// a root or in `..`.
pub uninterp spec fn file_name_text(path: Seq<char>) -> Option<Seq<char>>;

/// A number of bytes as `humansize::format_size` writes it with its
/// `DECIMAL` options: scaled by thousands to a unit from `B` to `EB`.
pub uninterp spec fn human_size_text(bytes: u64) -> Seq<char>;

/// `n` blanks.
pub open spec fn spaces(n: nat) -> Seq<char> {
    Seq::new(n, |i: int| ' ')
}

/// `text` filled with blanks on the right up to `width` characters; a longer
/// text is left as it is.
pub open spec fn pad_right(text: Seq<char>, width: nat) -> Seq<char> {
    if text.len() >= width {
        text
    } else {
        text + spaces((width - text.len()) as nat)
    }
}

/// `text` filled with blanks on the left up to `width` characters; a longer
/// text is left as it is.
pub open spec fn pad_left(text: Seq<char>, width: nat) -> Seq<char> {
    if text.len() >= width {
        text
    } else {
        spaces((width - text.len()) as nat) + text
    }
}

/// The name under which a path is shown: its last component, or a
/// placeholder where it has none.
pub open spec fn display_name_text(path: Seq<char>) -> Seq<char> {
    match file_name_text(path) {
        Some(name) => name,
        None => "<unknown>"@,
    }
}

/// The low 64 bits of a total, which is what the list shows the size of.
pub open spec fn shown_bytes(total: u128) -> u64 {
    (total % 0x1_0000_0000_0000_0000) as u64
}

/// One row of the list, from its three parts: the name on the left, the size
/// on the right of its column, and the number of files in brackets.
pub open spec fn entry_row_text(name: Seq<char>, size: Seq<char>, files: Seq<char>) -> Seq<char> {
    pad_right(name, NAME_WIDTH as nat) + "  "@ + pad_left(size, SIZE_WIDTH as nat) + "  ("@
        + files + " files)"@
}

/// The title of the list.
pub open spec fn list_title_text(cwd: Seq<char>, scanning: bool) -> Seq<char> {
    if scanning {
        "Directories under "@ + cwd + "  [scanning…]"@
    } else {
        "Directories under "@ + cwd
    }
}

/// The lines of the message pane: the error that is shown, if there is one,
/// and below it the status log, newest line first.
pub open spec fn screen_messages(s: AppView) -> Seq<Seq<char>> {
    match s.last_error {
        Some(cause) => seq!["ERROR: "@ + cause] + s.messages.reverse(),
        None => s.messages.reverse(),
    }
}

/// Calls `std::path::Path::file_name`. Assumed, not proved: the result is a
/// function of the path's text alone, named `file_name_text`. A component of
/// a path that is valid text is valid text.
#[verifier::external_body]
pub(crate) fn file_name_of(path: &String) -> (name: Option<String>)
    ensures
        opt_text_view(name) == file_name_text(path@),
{
    std::path::Path::new(path.as_str()).file_name().map(|n| n.to_string_lossy().into_owned())
}

/// Calls `humansize::format_size` with the options `humansize::DECIMAL`.
/// Assumed, not proved: the result is a function of the number alone, named
/// `human_size_text`.
#[verifier::external_body]
pub(crate) fn human_size(bytes: u64) -> (text: String)
    ensures
        text@ == human_size_text(bytes),
{
    humansize::format_size(bytes, humansize::DECIMAL)
}

fn blanks(n: usize) -> (text: String)
    ensures
        text@ == spaces(n as nat),
{
    let mut text = String::new();
    let mut i: usize = 0;
    assert(text@ =~= spaces(0));
    while i < n
        invariant
            i <= n,
            text@ == spaces(i as nat),
        decreases n - i,
    {
        text.append(" ");
        proof {
            reveal_strlit(" ");
            assert(text@ =~= spaces((i + 1) as nat));
        }
        i = i + 1;
    }
    text
}

/// Fills `text` with blanks on the right up to `width` characters.
pub fn pad_right_string(text: &str, width: usize) -> (padded: String)
    ensures
        padded@ == pad_right(text@, width as nat),
{
    let len = text.unicode_len();
    let mut padded = String::from_str(text);
    if len < width {
        let fill = blanks(width - len);
        padded.append(fill.as_str());
    }
    padded
}

/// Fills `text` with blanks on the left up to `width` characters.
pub fn pad_left_string(text: &str, width: usize) -> (padded: String)
    ensures
        padded@ == pad_left(text@, width as nat),
{
    let len = text.unicode_len();
    if len < width {
        let mut padded = blanks(width - len);
        padded.append(text);
        padded
    } else {
        String::from_str(text)
    }
}

/// Puts one row of the list together from its three parts.
pub fn entry_row_from(name: &str, size: &str, files: &str) -> (row: String)
    ensures
        row@ == entry_row_text(name@, size@, files@),
{
    let mut row = pad_right_string(name, NAME_WIDTH);
    row.append("  ");
    let size = pad_left_string(size, SIZE_WIDTH);
    row.append(size.as_str());
    row.append("  (");
    row.append(files);
    row.append(" files)");
    row
}

/// The name to show for a path whose last component is `file_name`: that
/// component, or a placeholder where there is none.
pub fn shown_name(file_name: Option<String>) -> (name: String)
    ensures
        name@ == match file_name {
            Some(component) => component@,
            None => "<unknown>"@,
        },
{
    match file_name {
        Some(component) => component,
        None => String::from_str("<unknown>"),
    }
}

/// The name under which a path is shown.
pub fn display_name(path: &String) -> (name: String)
    ensures
        name@ == display_name_text(path@),
{
    shown_name(file_name_of(path))
}

/// The row of the list for one entry: its name, its size in a unit that
/// suits it, and the number of its files.
pub fn entry_row(entry: &DirStats) -> (row: String)
    ensures
        row@ == entry_row_text(
            display_name_text(entry.path@),
            human_size_text(shown_bytes(entry.total_bytes)),
            grouped(decimal(entry.file_count as nat)),
        ),
{
    let name = display_name(&entry.path);
    let size = human_size((entry.total_bytes % 0x1_0000_0000_0000_0000) as u64);
    let files = grouped_string(entry.file_count as u128);
    entry_row_from(name.as_str(), size.as_str(), files.as_str())
}

/// The title of the list: the root, and a mark while a scan is under way.
pub fn list_title(cwd: &String, scanning: bool) -> (title: String)
    ensures
        title@ == list_title_text(cwd@, scanning),
{
    let mut title = String::from_str("Directories under ");
    title.append(cwd.as_str());
    if scanning {
        title.append("  [scanning…]");
    }
    title
}

/// The lines of the message pane, top line first.
pub fn message_lines(app: &App) -> (lines: Vec<String>)
    ensures
        text_views(lines@) == screen_messages(app@),
{
    let mut lines: Vec<String> = Vec::new();
    if let Some(cause) = app.last_error() {
        let mut line = String::from_str("ERROR: ");
        line.append(cause.as_str());
        lines.push(line);
    }
    let log = app.messages();
    let ghost head = text_views(lines@);
    let mut i: usize = log.len();
    assert(text_views(lines@) =~= head + app@.messages.reverse().take(0));
    while i > 0
        invariant
            i <= log@.len(),
            text_views(log@) == app@.messages,
            text_views(lines@) == head + app@.messages.reverse().take(log@.len() - i),
        decreases i,
    {
        i = i - 1;
        let ghost before = lines@;
        lines.push(log[i].clone());
        proof {
            let done = log@.len() - i;
            let reversed = app@.messages.reverse();
            assert(reversed[done - 1] == app@.messages[i as int]);
            assert(text_views(log@)[i as int] == log@[i as int]@);
            assert(text_views(lines@) =~= text_views(before).push(log@[i as int]@));
            assert(reversed.take(done) =~= reversed.take(done - 1).push(reversed[done - 1]));
            assert(text_views(lines@) =~= head + reversed.take(done));
        }
    }
    proof {
        let reversed = app@.messages.reverse();
        assert(reversed.take(log@.len() as int) =~= reversed);
    }
    lines
}

} // verus!
