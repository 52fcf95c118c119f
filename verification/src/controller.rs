//! The controller: the one owner of the browser's state. It takes the
//! messages of the channel and the operator's commands in turn, and answers
//! each with the work that the program is to start.

use crate::clock::{seconds_between, Clock, Stamp};
use crate::journal::{lemma_push_line, LOG_CAPACITY};
use crate::model::AppView;
use crate::paths::parent_of;
use crate::protocol::{command_for_key, Command, Effects, KeyEvent, Mode, Msg};
use crate::ranking::{sort_by_size, sorted_desc};
use crate::stats::{stats_views, DirStats};
use crate::status::{
    at_root_text, cancelled_text, delete_failed_text, deleted_text, entered_text, error_text,
    scan_completed_text, scan_started_text, scan_untimed_text, up_text,
};
use crate::text::{opt_text_view, text_views};
use std::collections::VecDeque;
use vstd::prelude::*;

verus! {

/// The state of the controller. Its fields are its own: the state changes
/// only through the transitions below, and every one of them leaves the
/// selection in bounds, the entries ordered and the log within its capacity.
pub struct App {
    cwd: String,
    selected: usize,
    entries: Vec<DirStats>,
    messages: VecDeque<String>,
    last_error: Option<String>,
    last_scan_started: Option<u128>,
    is_scanning: bool,
    mode: Mode,
}

impl View for App {
    type V = AppView;

    closed spec fn view(&self) -> AppView {
        AppView {
            cwd: self.cwd@,
            selected: self.selected as nat,
            entries: stats_views(self.entries@),
            messages: text_views(self.messages@),
            last_error: opt_text_view(self.last_error),
            last_scan_started: match self.last_scan_started {
                Some(started) => Some(started as int),
                None => None,
            },
            is_scanning: self.is_scanning,
            mode: self.mode@,
        }
    }
}

impl App {
    #[verifier::type_invariant]
    spec fn well_formed(self) -> bool {
        self@.wf()
    }

    /// A controller that browses `cwd`, before its first scan.
    pub fn new(cwd: String) -> (app: App)
        ensures
            app@ == AppView::init(cwd@),
            app@.wf(),
    {
        let app = App {
            cwd,
            selected: 0,
            entries: Vec::new(),
            messages: VecDeque::with_capacity(LOG_CAPACITY),
            last_error: None,
            last_scan_started: None,
            is_scanning: false,
            mode: Mode::Normal,
        };
        assert(app@.entries =~= Seq::empty());
        assert(app@.messages =~= Seq::empty());
        app
    }

    /// The directory that is being browsed.
    pub fn cwd(&self) -> (cwd: &String)
        ensures
            cwd@ == self@.cwd,
    {
        &self.cwd
    }

    /// The index of the selected entry.
    pub fn selected(&self) -> (selected: usize)
        ensures
            selected == self@.selected,
            self@.selection_in_bounds(),
    {
        proof {
            use_type_invariant(self);
        }
        self.selected
    }

    /// The entries of the current list, largest first.
    pub fn entries(&self) -> (entries: &Vec<DirStats>)
        ensures
            stats_views(entries@) == self@.entries,
            sorted_desc(self@.entries),
    {
        proof {
            use_type_invariant(self);
        }
        &self.entries
    }

    /// The status log, oldest line first.
    pub fn messages(&self) -> (messages: &VecDeque<String>)
        ensures
            text_views(messages@) == self@.messages,
            messages@.len() <= LOG_CAPACITY,
    {
        proof {
            use_type_invariant(self);
        }
        &self.messages
    }

    /// The error that is shown, if there is one.
    pub fn last_error(&self) -> (error: &Option<String>)
        ensures
            opt_text_view(*error) == self@.last_error,
    {
        &self.last_error
    }

    /// Whether a scan is under way.
    pub fn is_scanning(&self) -> (scanning: bool)
        ensures
            scanning == self@.is_scanning,
    {
        self.is_scanning
    }

    /// The navigation mode.
    pub fn mode(&self) -> (mode: &Mode)
        ensures
            mode@ == self@.mode,
    {
        &self.mode
    }

    /// The entry under the selection; none where the list is empty.
    pub fn selected_entry(&self) -> (entry: Option<&DirStats>)
        ensures
            match entry {
                Some(e) => self@.selected_entry() == Some(e@),
                None => self@.selected_entry() is None,
            },
            entry is None <==> self@.entries.len() == 0,
    {
        proof {
            use_type_invariant(self);
        }
        if self.selected < self.entries.len() {
            Some(&self.entries[self.selected])
        } else {
            None
        }
    }

    /// The index to highlight in the list: the selection, where there is an
    /// entry under it.
    pub fn highlighted(&self) -> (index: Option<usize>)
        ensures
            index is Some <==> self@.entries.len() > 0,
            index matches Some(i) ==> i == self@.selected && i < self@.entries.len(),
    {
        proof {
            use_type_invariant(self);
        }
        if self.selected < self.entries.len() {
            Some(self.selected)
        } else {
            None
        }
    }

    /// Writes a line to the status log. A full log gives up its oldest line.
    pub fn log(&mut self, line: String)
        ensures
            final(self)@ == old(self)@.log(line@),
            final(self)@.wf(),
    {
        proof {
            use_type_invariant(&*self);
            lemma_push_line(self@.messages, line@);
        }
        // The log is taken out while it changes: the controller itself is
        // well formed at every step.
        let mut lines: VecDeque<String> = VecDeque::new();
        std::mem::swap(&mut self.messages, &mut lines);
        let ghost before = lines@;
        if lines.len() >= LOG_CAPACITY {
            lines.pop_front();
            assert(text_views(lines@) =~= text_views(before).drop_first());
        }
        let ghost kept = lines@;
        lines.push_back(line);
        assert(text_views(lines@) =~= text_views(kept).push(line@));
        std::mem::swap(&mut self.messages, &mut lines);
    }

    /// Replaces the entry list by the results of a scan: puts them in order,
    /// largest first, and brings the selection into bounds.
    pub fn set_entries(&mut self, list: Vec<DirStats>)
        ensures
            final(self)@ == old(self)@.set_entries(stats_views(list@)),
            final(self)@.wf(),
    {
        proof {
            use_type_invariant(&*self);
        }
        let sorted = sort_by_size(list);
        let len = sorted.len();
        if len == 0 {
            self.selected = 0;
        } else if self.selected >= len {
            self.selected = len - 1;
        }
        self.entries = sorted;
    }

    /// Takes one message of the channel that arrived at `at`. Returns the
    /// root to scan where a scan is to be sent off.
    pub fn apply_msg(&mut self, msg: Msg, at: Stamp) -> (scan: Option<String>)
        ensures
            final(self)@ == old(self)@.on_msg(msg@, at),
            opt_text_view(scan) == old(self)@.scan_to_start(msg@),
            final(self)@.wf(),
    {
        proof {
            use_type_invariant(&*self);
        }
        match msg {
            Msg::Tick => None,
            Msg::RecomputeNow => {
                if self.is_scanning {
                    None
                } else {
                    self.log(scan_started_text(&at));
                    self.is_scanning = true;
                    self.last_scan_started = Some(at.monotonic_nanos);
                    Some(self.cwd.clone())
                }
            },
            Msg::Error(cause) => {
                let line = error_text(&cause);
                self.last_error = Some(cause);
                self.log(line);
                None
            },
            Msg::ScanFinished(list) => {
                let line = match self.last_scan_started {
                    Some(started) => scan_completed_text(
                        &at,
                        seconds_between(started, at.monotonic_nanos),
                    ),
                    None => scan_untimed_text(),
                };
                self.is_scanning = false;
                self.last_scan_started = None;
                self.set_entries(list);
                self.log(line);
                None
            },
            Msg::DeleteFinished(path, outcome) => {
                match outcome {
                    Ok(_) => {
                        self.log(deleted_text(&path));
                    },
                    Err(cause) => {
                        let line = delete_failed_text(&path, &cause);
                        self.last_error = Some(cause);
                        self.log(line);
                    },
                }
                None
            },
        }
    }

    /// Takes one message of the channel as `apply_msg` does, at the time
    /// that `clock` shows. The clock is read only for the messages whose
    /// effect depends on it. Where it cannot tell the time of day, the
    /// status line shows dashes in its place.
    pub fn handle_msg(&mut self, msg: Msg, clock: &Clock) -> (scan: Option<String>)
        ensures
            exists|at: Stamp|
                at.in_range() && final(self)@ == #[trigger] old(self)@.on_msg(msg@, at),
            opt_text_view(scan) == old(self)@.scan_to_start(msg@),
            final(self)@.wf(),
    {
        let timed = match msg {
            Msg::RecomputeNow => true,
            Msg::ScanFinished(_) => true,
            _ => false,
        };
        let at = if timed {
            clock.read()
        } else {
            Stamp { time_of_day: None, monotonic_nanos: 0 }
        };
        self.apply_msg(msg, at)
    }

    /// Carries out a command, where `parent` is the parent of the root.
    /// Returns the work that the program is to start.
    pub fn apply_command(&mut self, cmd: Command, parent: Option<String>) -> (fx: Effects)
        ensures
            final(self)@ == old(self)@.on_command_with(cmd, opt_text_view(parent)),
            fx@ == old(self)@.effects_with(cmd, opt_text_view(parent)),
            final(self)@.wf(),
    {
        proof {
            use_type_invariant(&*self);
        }
        let mut fx = Effects { quit: false, request_scan: false, delete: None };
        let waiting: Option<String> = match &self.mode {
            Mode::Normal => None,
            Mode::ConfirmDelete(target) => Some(target.clone()),
        };
        match cmd {
            Command::Quit => {
                fx.quit = true;
            },
            Command::ManualRefresh => {
                fx.request_scan = true;
            },
            Command::MoveUp => {
                if waiting.is_none() && self.entries.len() > 0 && self.selected > 0 {
                    self.selected = self.selected - 1;
                }
            },
            Command::MoveDown => {
                if waiting.is_none() && self.entries.len() > 0 {
                    if self.selected + 1 < self.entries.len() {
                        self.selected = self.selected + 1;
                    } else {
                        self.selected = self.entries.len() - 1;
                    }
                }
            },
            Command::Enter => {
                if waiting.is_none() && self.selected < self.entries.len() {
                    let path = self.entries[self.selected].path.clone();
                    let line = entered_text(&path);
                    self.cwd = path;
                    self.selected = 0;
                    self.log(line);
                    fx.request_scan = true;
                }
            },
            Command::GoToParent => {
                if waiting.is_none() {
                    match parent {
                        Some(up) => {
                            let line = up_text(&up);
                            self.cwd = up;
                            self.selected = 0;
                            self.log(line);
                            fx.request_scan = true;
                        },
                        None => {
                            self.log(at_root_text());
                        },
                    }
                }
            },
            Command::RequestDelete => {
                if waiting.is_none() && self.selected < self.entries.len() {
                    self.mode = Mode::ConfirmDelete(self.entries[self.selected].path.clone());
                }
            },
            Command::ConfirmDelete => {
                if let Some(target) = waiting {
                    self.mode = Mode::Normal;
                    fx.request_scan = true;
                    fx.delete = Some(target);
                }
            },
            Command::CancelDelete => {
                if waiting.is_some() {
                    self.mode = Mode::Normal;
                    self.log(cancelled_text());
                }
            },
        }
        fx
    }

    /// Carries out a command. The parent of the root is asked for only
    /// where the command is to go there.
    pub fn handle_command(&mut self, cmd: Command) -> (fx: Effects)
        ensures
            final(self)@ == old(self)@.on_command(cmd),
            fx@ == old(self)@.effects_of(cmd),
            final(self)@.wf(),
    {
        let parent = match cmd {
            Command::GoToParent => parent_of(&self.cwd),
            _ => None,
        };
        self.apply_command(cmd, parent)
    }

    /// Takes one event of the keyboard: reads it as a command in the current
    /// mode and carries that out. A key that stands for nothing changes
    /// nothing.
    pub fn handle_key(&mut self, key: KeyEvent) -> (fx: Effects)
        ensures
            final(self)@ == old(self)@.on_key(key),
            fx@ == old(self)@.effects_of_key(key),
            final(self)@.wf(),
    {
        proof {
            use_type_invariant(&*self);
        }
        match command_for_key(&self.mode, &key) {
            Some(cmd) => {
                let parent = match cmd {
                    Command::GoToParent => parent_of(&self.cwd),
                    _ => None,
                };
                self.apply_command(cmd, parent)
            },
            None => Effects { quit: false, request_scan: false, delete: None },
        }
    }
}

} // verus!
