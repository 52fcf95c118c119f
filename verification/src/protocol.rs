//! What travels between the controller and the rest of the program: the
//! messages of the coordination channel, key presses, the commands that they
//! stand for, and the work that the controller asks for in return.

use crate::stats::{stats_views, DirStats, StatsView};
use vstd::prelude::*;

verus! {

/// A message on the coordination channel. Every sender's messages arrive in
/// the order sent; between senders no order is promised.
#[derive(Debug, PartialEq, Eq)]
pub enum Msg {
    /// A refresh was asked for, by the operator or by the schedule.
    RecomputeNow,
    /// The redraw timer fired.
    Tick,
    /// Something went wrong in the background.
    Error(String),
    /// A scan is complete; these are its results, one per child directory.
    ScanFinished(Vec<DirStats>),
    /// A deletion of the given path has ended, well or with the given cause.
    DeleteFinished(String, Result<(), String>),
}

/// A `Msg` as a mathematical value.
pub enum MsgView {
    RecomputeNow,
    Tick,
    Error(Seq<char>),
    ScanFinished(Seq<StatsView>),
    DeleteFinished(Seq<char>, Result<(), Seq<char>>),
}

impl View for Msg {
    type V = MsgView;

    open spec fn view(&self) -> MsgView {
        match self {
            Msg::RecomputeNow => MsgView::RecomputeNow,
            Msg::Tick => MsgView::Tick,
            Msg::Error(e) => MsgView::Error(e@),
            Msg::ScanFinished(list) => MsgView::ScanFinished(stats_views(list@)),
            Msg::DeleteFinished(path, outcome) => MsgView::DeleteFinished(
                path@,
                match outcome {
                    Ok(_) => Ok(()),
                    Err(cause) => Err(cause@),
                },
            ),
        }
    }
}

/// The navigation mode: browsing, or waiting for the operator to confirm
/// the deletion of one path.
#[derive(Debug, Clone, PartialEq, Eq)]
pub enum Mode {
    Normal,
    ConfirmDelete(String),
}

/// A `Mode` as a mathematical value.
pub enum ModeView {
    Normal,
    ConfirmDelete(Seq<char>),
}

impl View for Mode {
    type V = ModeView;

    open spec fn view(&self) -> ModeView {
        match self {
            Mode::Normal => ModeView::Normal,
            Mode::ConfirmDelete(target) => ModeView::ConfirmDelete(target@),
        }
    }
}

/// The keys that the controller tells apart.
#[derive(Debug, Clone, Copy, PartialEq, Eq)]
pub enum KeyCode {
    Char(char),
    Up,
    Down,
    Enter,
    Backspace,
    Esc,
    Other,
}

/// One event of the keyboard.
#[derive(Debug, Clone, Copy, PartialEq, Eq)]
pub struct KeyEvent {
    pub code: KeyCode,
    /// Whether no modifier key was held.
    pub unmodified: bool,
    /// Whether the key went down; releases and repeats are not presses.
    pub pressed: bool,
}

/// What the operator can ask of the controller.
#[derive(Debug, Clone, Copy, PartialEq, Eq)]
pub enum Command {
    MoveUp,
    MoveDown,
    Enter,
    GoToParent,
    RequestDelete,
    ConfirmDelete,
    CancelDelete,
    ManualRefresh,
    Quit,
}

/// What the controller asks of the program after a command.
#[derive(Debug, Clone, PartialEq, Eq)]
pub struct Effects {
    /// Leave the program.
    pub quit: bool,
    /// Put a `RecomputeNow` on the channel.
    pub request_scan: bool,
    /// Remove this directory tree in the background.
    pub delete: Option<String>,
}

/// An `Effects` as a mathematical value.
pub struct EffectsView {
    pub quit: bool,
    pub request_scan: bool,
    pub delete: Option<Seq<char>>,
}

impl EffectsView {
    /// Nothing to do.
    pub open spec fn none() -> EffectsView {
        EffectsView { quit: false, request_scan: false, delete: None }
    }

    /// Only a rescan.
    pub open spec fn rescan() -> EffectsView {
        EffectsView { quit: false, request_scan: true, delete: None }
    }
}

impl View for Effects {
    type V = EffectsView;

    open spec fn view(&self) -> EffectsView {
        EffectsView {
            quit: self.quit,
            request_scan: self.request_scan,
            delete: match self.delete {
                Some(target) => Some(target@),
                None => None,
            },
        }
    }
}

/// The command that a key stands for: none unless the key was pressed; while
/// browsing, `q` quits, `r` refreshes, the unmodified arrows move the
/// selection, Enter descends, Backspace ascends and `d` asks for a deletion;
/// while a deletion waits, `y` confirms it and `n` or Esc cancels it.
pub open spec fn key_command(mode: ModeView, key: KeyEvent) -> Option<Command> {
    if !key.pressed {
        None
    } else {
        match mode {
            ModeView::Normal => match key.code {
                KeyCode::Char(c) => if c == 'q' {
                    Some(Command::Quit)
                } else if c == 'r' {
                    Some(Command::ManualRefresh)
                } else if c == 'd' {
                    Some(Command::RequestDelete)
                } else {
                    None
                },
                KeyCode::Up => if key.unmodified {
                    Some(Command::MoveUp)
                } else {
                    None
                },
                KeyCode::Down => if key.unmodified {
                    Some(Command::MoveDown)
                } else {
                    None
                },
                KeyCode::Enter => Some(Command::Enter),
                KeyCode::Backspace => Some(Command::GoToParent),
                _ => None,
            },
            ModeView::ConfirmDelete(_) => match key.code {
                KeyCode::Char(c) => if c == 'y' {
                    Some(Command::ConfirmDelete)
                } else if c == 'n' {
                    Some(Command::CancelDelete)
                } else {
                    None
                },
                KeyCode::Esc => Some(Command::CancelDelete),
                _ => None,
            },
        }
    }
}

/// Reads a key as a command, given the mode in which it was struck.
pub fn command_for_key(mode: &Mode, key: &KeyEvent) -> (command: Option<Command>)
    ensures
        command == key_command(mode@, *key),
{
    if !key.pressed {
        return None;
    }
    match mode {
        Mode::Normal => match key.code {
            KeyCode::Char(c) => {
                if c == 'q' {
                    Some(Command::Quit)
                } else if c == 'r' {
                    Some(Command::ManualRefresh)
                } else if c == 'd' {
                    Some(Command::RequestDelete)
                } else {
                    None
                }
            },
            KeyCode::Up => {
                if key.unmodified {
                    Some(Command::MoveUp)
                } else {
                    None
                }
            },
            KeyCode::Down => {
                if key.unmodified {
                    Some(Command::MoveDown)
                } else {
                    None
                }
            },
            KeyCode::Enter => Some(Command::Enter),
            KeyCode::Backspace => Some(Command::GoToParent),
            _ => None,
        },
        Mode::ConfirmDelete(_) => match key.code {
            KeyCode::Char(c) => {
                if c == 'y' {
                    Some(Command::ConfirmDelete)
                } else if c == 'n' {
                    Some(Command::CancelDelete)
                } else {
                    None
                }
            },
            KeyCode::Esc => Some(Command::CancelDelete),
            _ => None,
        },
    }
}

/// What the deletion worker reports once an attempt to remove `target` has
/// ended: the outcome itself, and then a request for a fresh scan, which is
/// due whether or not the removal went through.
pub open spec fn deletion_messages(target: Seq<char>, outcome: Result<(), Seq<char>>) -> Seq<
    MsgView,
> {
    seq![MsgView::DeleteFinished(target, outcome), MsgView::RecomputeNow]
}

/// The views of a list of messages, in order.
pub open spec fn msg_views(msgs: Seq<Msg>) -> Seq<MsgView> {
    msgs.map_values(|m: Msg| m@)
}

/// The messages to send after an attempt to remove `target`, in the order in
/// which to send them.
pub fn deletion_report(target: String, outcome: Result<(), String>) -> (msgs: Vec<Msg>)
    ensures
        msg_views(msgs@) == deletion_messages(
            target@,
            match outcome {
                Ok(_) => Ok(()),
                Err(cause) => Err(cause@),
            },
        ),
{
    let mut msgs: Vec<Msg> = Vec::new();
    msgs.push(Msg::DeleteFinished(target, outcome));
    msgs.push(Msg::RecomputeNow);
    assert(msg_views(msgs@) =~= deletion_messages(
        target@,
        match outcome {
            Ok(_) => Ok(()),
            Err(cause) => Err(cause@),
        },
    ));
    msgs
}

} // verus!
