//! The controller as a state machine over mathematical values: its state,
//! what each message and each command does to it, and what holds of every
//! state that it can reach.

use crate::clock::{elapsed_seconds, Stamp};
use crate::journal::{lemma_push_line, push_line, LOG_CAPACITY};
use crate::paths::parent_path;
use crate::protocol::{key_command, Command, EffectsView, KeyEvent, ModeView, MsgView};
use crate::ranking::{lemma_sort_desc_permutes, lemma_sort_desc_sorted, sort_desc, sorted_desc};
use crate::stats::StatsView;
use crate::status::{
    at_root_line, cancelled_line, delete_failed_line, deleted_line, entered_line, error_line,
    scan_completed_line, scan_started_line, scan_untimed_line, up_line,
};
use vstd::prelude::*;

verus! {

/// The state of the controller.
pub struct AppView {
    /// The root: the directory that is being browsed.
    pub cwd: Seq<char>,
    /// The index of the selected entry.
    pub selected: nat,
    /// The last results for the root's children, largest first.
    pub entries: Seq<StatsView>,
    /// The status log, oldest line first.
    pub messages: Seq<Seq<char>>,
    /// The one error that is shown.
    pub last_error: Option<Seq<char>>,
    /// When the scan that is being timed was sent off, in nanoseconds on
    /// the clock that times it.
    pub last_scan_started: Option<int>,
    /// Whether a scan is under way.
    pub is_scanning: bool,
    pub mode: ModeView,
}

/// Where the selection lands in a list of `len` entries: on the last entry
/// where it was beyond it, on 0 where the list is empty, else where it was.
pub open spec fn clamp_selection(selected: nat, len: nat) -> nat {
    if len == 0 {
        0
    } else if selected >= len {
        (len - 1) as nat
    } else {
        selected
    }
}

impl AppView {
    /// The state in which the controller starts: browsing `cwd`, with
    /// nothing scanned, selected, logged or shown.
    pub open spec fn init(cwd: Seq<char>) -> AppView {
        AppView {
            cwd,
            selected: 0,
            entries: Seq::empty(),
            messages: Seq::empty(),
            last_error: None,
            last_scan_started: None,
            is_scanning: false,
            mode: ModeView::Normal,
        }
    }

    /// The selection points at an entry, or is 0 where there is none.
    pub open spec fn selection_in_bounds(self) -> bool {
        self.selected < self.entries.len() || (self.entries.len() == 0 && self.selected == 0)
    }

    /// What holds of every state of the controller: the selection is in
    /// bounds, the entries are ordered, and the log is within its capacity.
    pub open spec fn wf(self) -> bool {
        &&& self.selection_in_bounds()
        &&& sorted_desc(self.entries)
        &&& self.messages.len() <= LOG_CAPACITY
    }

    /// The entry under the selection.
    pub open spec fn selected_entry(self) -> Option<StatsView> {
        if self.selected < self.entries.len() {
            Some(self.entries[self.selected as int])
        } else {
            None
        }
    }

    /// The state after `line` was written to the log.
    pub open spec fn log(self, line: Seq<char>) -> AppView {
        AppView { messages: push_line(self.messages, line), ..self }
    }

    /// The state after the entry list was replaced by the results `list`:
    /// these are put in order, and the selection is brought into bounds.
    pub open spec fn set_entries(self, list: Seq<StatsView>) -> AppView {
        AppView {
            entries: sort_desc(list),
            selected: clamp_selection(self.selected, list.len()),
            ..self
        }
    }

    /// The state after a message of the channel that arrived at `at`.
    ///
    /// Results of a scan are taken over whichever root they were gathered
    /// for: a scan that was sent off before the root changed still fills the
    /// list when it comes back.
    pub open spec fn on_msg(self, msg: MsgView, at: Stamp) -> AppView {
        match msg {
            MsgView::Tick => self,
            MsgView::RecomputeNow => if self.is_scanning {
                self
            } else {
                AppView {
                    is_scanning: true,
                    last_scan_started: Some(at.monotonic_nanos as int),
                    ..self.log(scan_started_line(at))
                }
            },
            MsgView::Error(cause) => AppView { last_error: Some(cause), ..self }.log(
                error_line(cause),
            ),
            MsgView::ScanFinished(list) => {
                let line = match self.last_scan_started {
                    Some(started) => scan_completed_line(
                        at,
                        elapsed_seconds(started, at.monotonic_nanos as int),
                    ),
                    None => scan_untimed_line(),
                };
                let listed = self.set_entries(list);
                AppView { is_scanning: false, last_scan_started: None, ..listed }.log(line)
            },
            MsgView::DeleteFinished(path, outcome) => match outcome {
                Ok(_) => self.log(deleted_line(path)),
                Err(cause) => AppView { last_error: Some(cause), ..self }.log(
                    delete_failed_line(path, cause),
                ),
            },
        }
    }

    /// The root for which a scan is to be sent off after a message: the
    /// current one, on a request that finds no scan under way.
    pub open spec fn scan_to_start(self, msg: MsgView) -> Option<Seq<char>> {
        if msg is RecomputeNow && !self.is_scanning {
            Some(self.cwd)
        } else {
            None
        }
    }

    /// The state after a command, where `parent` is the parent of the root.
    /// A command that the mode does not admit changes nothing.
    pub open spec fn on_command_with(self, cmd: Command, parent: Option<Seq<char>>) -> AppView {
        match self.mode {
            ModeView::Normal => match cmd {
                Command::MoveUp => if self.entries.len() > 0 && self.selected > 0 {
                    AppView { selected: (self.selected - 1) as nat, ..self }
                } else {
                    self
                },
                Command::MoveDown => if self.selected + 1 < self.entries.len() {
                    AppView { selected: self.selected + 1, ..self }
                } else if self.entries.len() > 0 {
                    AppView { selected: (self.entries.len() - 1) as nat, ..self }
                } else {
                    self
                },
                Command::Enter => match self.selected_entry() {
                    Some(entry) => AppView { cwd: entry.path, selected: 0, ..self }.log(
                        entered_line(entry.path),
                    ),
                    None => self,
                },
                Command::GoToParent => match parent {
                    Some(up) => AppView { cwd: up, selected: 0, ..self }.log(up_line(up)),
                    None => self.log(at_root_line()),
                },
                Command::RequestDelete => match self.selected_entry() {
                    Some(entry) => AppView { mode: ModeView::ConfirmDelete(entry.path), ..self },
                    None => self,
                },
                _ => self,
            },
            ModeView::ConfirmDelete(_) => match cmd {
                Command::ConfirmDelete => AppView { mode: ModeView::Normal, ..self },
                Command::CancelDelete => AppView { mode: ModeView::Normal, ..self }.log(
                    cancelled_line(),
                ),
                _ => self,
            },
        }
    }

    /// The work asked for after a command, where `parent` is the parent of
    /// the root.
    pub open spec fn effects_with(self, cmd: Command, parent: Option<Seq<char>>) -> EffectsView {
        match cmd {
            Command::Quit => EffectsView { quit: true, request_scan: false, delete: None },
            Command::ManualRefresh => EffectsView::rescan(),
            _ => match self.mode {
                ModeView::Normal => match cmd {
                    Command::Enter => if self.selected_entry() is Some {
                        EffectsView::rescan()
                    } else {
                        EffectsView::none()
                    },
                    Command::GoToParent => if parent is Some {
                        EffectsView::rescan()
                    } else {
                        EffectsView::none()
                    },
                    _ => EffectsView::none(),
                },
                ModeView::ConfirmDelete(target) => match cmd {
                    Command::ConfirmDelete => EffectsView {
                        quit: false,
                        request_scan: true,
                        delete: Some(target),
                    },
                    _ => EffectsView::none(),
                },
            },
        }
    }

    /// The state after a command.
    pub open spec fn on_command(self, cmd: Command) -> AppView {
        self.on_command_with(cmd, parent_path(self.cwd))
    }

    /// The work asked for after a command.
    pub open spec fn effects_of(self, cmd: Command) -> EffectsView {
        self.effects_with(cmd, parent_path(self.cwd))
    }

    /// The state after an event of the keyboard.
    pub open spec fn on_key(self, key: KeyEvent) -> AppView {
        match key_command(self.mode, key) {
            Some(cmd) => self.on_command(cmd),
            None => self,
        }
    }

    /// The work asked for after an event of the keyboard.
    pub open spec fn effects_of_key(self, key: KeyEvent) -> EffectsView {
        match key_command(self.mode, key) {
            Some(cmd) => self.effects_of(cmd),
            None => EffectsView::none(),
        }
    }
}

/// One thing that happens to the controller: a message of the channel with
/// the time of its arrival, an event of the keyboard, or a command.
pub enum Input {
    Msg(MsgView, Stamp),
    Key(KeyEvent),
    Command(Command),
}

/// The state after one input.
pub open spec fn step(s: AppView, input: Input) -> AppView {
    match input {
        Input::Msg(msg, at) => s.on_msg(msg, at),
        Input::Key(key) => s.on_key(key),
        Input::Command(cmd) => s.on_command(cmd),
    }
}

/// The state after a run of inputs.
pub open spec fn run(s: AppView, inputs: Seq<Input>) -> AppView
    decreases inputs.len(),
{
    if inputs.len() == 0 {
        s
    } else {
        step(run(s, inputs.drop_last()), inputs.last())
    }
}

/// Whether an input sends off a scan in state `s`.
pub open spec fn starts_scan(s: AppView, input: Input) -> bool {
    input matches Input::Msg(msg, _) && s.scan_to_start(msg) is Some
}

/// Whether an input reports a scan as complete.
pub open spec fn finishes_scan(input: Input) -> bool {
    input matches Input::Msg(msg, _) && msg is ScanFinished
}

/// How many scans a run of inputs sends off.
pub open spec fn scans_started(s: AppView, inputs: Seq<Input>) -> nat
    decreases inputs.len(),
{
    if inputs.len() == 0 {
        0
    } else {
        scans_started(s, inputs.drop_last()) + if starts_scan(
            run(s, inputs.drop_last()),
            inputs.last(),
        ) {
            1nat
        } else {
            0nat
        }
    }
}

/// How many scans a run of inputs reports as complete.
pub open spec fn scans_finished(inputs: Seq<Input>) -> nat
    decreases inputs.len(),
{
    if inputs.len() == 0 {
        0
    } else {
        scans_finished(inputs.drop_last()) + if finishes_scan(inputs.last()) {
            1nat
        } else {
            0nat
        }
    }
}

/// 1 where no scan is under way, else 0.
pub open spec fn idle(s: AppView) -> nat {
    if s.is_scanning {
        0
    } else {
        1
    }
}

/// The starting state is well formed.
pub proof fn lemma_init_wf(cwd: Seq<char>)
    ensures
        AppView::init(cwd).wf(),
        AppView::init(cwd).selected == 0,
{
}

/// Writing to the log keeps a state well formed.
pub proof fn lemma_log_wf(s: AppView, line: Seq<char>)
    requires
        s.wf(),
    ensures
        s.log(line).wf(),
{
    lemma_push_line(s.messages, line);
}

/// New results leave the list ordered and the selection in bounds, wherever
/// the selection was.
pub proof fn lemma_set_entries_wf(s: AppView, list: Seq<StatsView>)
    requires
        s.messages.len() <= LOG_CAPACITY,
    ensures
        s.set_entries(list).wf(),
        s.set_entries(list).entries.len() == list.len(),
{
    lemma_sort_desc_sorted(list);
    lemma_sort_desc_permutes(list);
}

/// After any message the selection is in bounds, the entries are ordered and
/// the log is within its capacity.
pub proof fn lemma_on_msg_wf(s: AppView, msg: MsgView, at: Stamp)
    requires
        s.wf(),
    ensures
        s.on_msg(msg, at).wf(),
{
    match msg {
        MsgView::Tick => {},
        MsgView::RecomputeNow => {
            lemma_log_wf(s, scan_started_line(at));
        },
        MsgView::Error(cause) => {
            lemma_log_wf(AppView { last_error: Some(cause), ..s }, error_line(cause));
        },
        MsgView::ScanFinished(list) => {
            lemma_set_entries_wf(s, list);
            let line = match s.last_scan_started {
                Some(started) => scan_completed_line(
                    at,
                    elapsed_seconds(started, at.monotonic_nanos as int),
                ),
                None => scan_untimed_line(),
            };
            lemma_log_wf(
                AppView { is_scanning: false, last_scan_started: None, ..s.set_entries(list) },
                line,
            );
        },
        MsgView::DeleteFinished(path, outcome) => {
            match outcome {
                Ok(_) => {
                    lemma_log_wf(s, deleted_line(path));
                },
                Err(cause) => {
                    lemma_log_wf(
                        AppView { last_error: Some(cause), ..s },
                        delete_failed_line(path, cause),
                    );
                },
            }
        },
    }
}

/// After any command the selection is in bounds, the entries are ordered and
/// the log is within its capacity, whatever the parent of the root is.
pub proof fn lemma_on_command_wf(s: AppView, cmd: Command, parent: Option<Seq<char>>)
    requires
        s.wf(),
    ensures
        s.on_command_with(cmd, parent).wf(),
        s.on_command(cmd).wf(),
{
    lemma_on_command_with_wf(s, cmd, parent);
    lemma_on_command_with_wf(s, cmd, parent_path(s.cwd));
}

proof fn lemma_on_command_with_wf(s: AppView, cmd: Command, parent: Option<Seq<char>>)
    requires
        s.wf(),
    ensures
        s.on_command_with(cmd, parent).wf(),
{
    match s.mode {
        ModeView::Normal => match cmd {
            Command::Enter => match s.selected_entry() {
                Some(entry) => {
                    lemma_log_wf(
                        AppView { cwd: entry.path, selected: 0, ..s },
                        entered_line(entry.path),
                    );
                },
                None => {},
            },
            Command::GoToParent => match parent {
                Some(up) => {
                    lemma_log_wf(AppView { cwd: up, selected: 0, ..s }, up_line(up));
                },
                None => {
                    lemma_log_wf(s, at_root_line());
                },
            },
            _ => {},
        },
        ModeView::ConfirmDelete(_) => match cmd {
            Command::CancelDelete => {
                lemma_log_wf(AppView { mode: ModeView::Normal, ..s }, cancelled_line());
            },
            _ => {},
        },
    }
}

/// After any event of the keyboard the state is well formed.
pub proof fn lemma_on_key_wf(s: AppView, key: KeyEvent)
    requires
        s.wf(),
    ensures
        s.on_key(key).wf(),
{
    match key_command(s.mode, key) {
        Some(cmd) => {
            lemma_on_command_wf(s, cmd, None);
        },
        None => {},
    }
}

/// After any one input the state is well formed.
pub proof fn lemma_step_wf(s: AppView, input: Input)
    requires
        s.wf(),
    ensures
        step(s, input).wf(),
{
    match input {
        Input::Msg(msg, at) => {
            lemma_on_msg_wf(s, msg, at);
        },
        Input::Key(key) => {
            lemma_on_key_wf(s, key);
        },
        Input::Command(cmd) => {
            lemma_on_command_wf(s, cmd, None);
        },
    }
}

/// Every state that the controller can reach is well formed: after any run
/// of inputs the selection is below the number of entries, or is 0 where
/// there are none, and each entry is at least as large as the one after it.
pub proof fn lemma_run_wf(s: AppView, inputs: Seq<Input>)
    requires
        s.wf(),
    ensures
        run(s, inputs).wf(),
        run(s, inputs).selected < run(s, inputs).entries.len() || (run(s, inputs).entries.len()
            == 0 && run(s, inputs).selected == 0),
        forall|i: int|
            0 <= i && i + 1 < run(s, inputs).entries.len() ==> run(
                s,
                inputs,
            ).entries[i].total_bytes >= #[trigger] run(s, inputs).entries[i + 1].total_bytes,
    decreases inputs.len(),
{
    if inputs.len() > 0 {
        lemma_run_wf(s, inputs.drop_last());
        lemma_step_wf(run(s, inputs.drop_last()), inputs.last());
    }
}

/// A request for a scan that finds one under way does nothing at all; one
/// that finds none marks a scan as under way and sends one off, for the
/// current root. No other message sends off a scan or marks one.
pub proof fn lemma_scan_gate(s: AppView, msg: MsgView, at: Stamp)
    ensures
        s.is_scanning && msg is RecomputeNow ==> s.on_msg(msg, at) == s && s.scan_to_start(msg)
            is None,
        !s.is_scanning && msg is RecomputeNow ==> s.on_msg(msg, at).is_scanning
            && s.scan_to_start(msg) == Some(s.cwd) && s.on_msg(msg, at).cwd == s.cwd,
        !(msg is RecomputeNow) ==> s.scan_to_start(msg) is None,
        !(msg is RecomputeNow) && !(msg is ScanFinished) ==> s.on_msg(msg, at).is_scanning
            == s.is_scanning,
        msg is ScanFinished ==> !s.on_msg(msg, at).is_scanning,
{
}

/// No command marks a scan as under way or as complete: a command asks for
/// a scan through the channel.
pub proof fn lemma_command_leaves_scan_flag(s: AppView, cmd: Command)
    ensures
        s.on_command(cmd).is_scanning == s.is_scanning,
{
}

/// No key marks a scan as under way or as complete.
pub proof fn lemma_key_leaves_scan_flag(s: AppView, key: KeyEvent)
    ensures
        s.on_key(key).is_scanning == s.is_scanning,
{
}

/// At most one scan is in flight: over any run of inputs, the scans sent
/// off exceed the scans reported complete by one at most, and by one only if
/// the run began with none under way and ends with one under way.
pub proof fn lemma_one_scan_in_flight(s: AppView, inputs: Seq<Input>)
    ensures
        scans_started(s, inputs) + idle(run(s, inputs)) <= scans_finished(inputs) + idle(s),
    decreases inputs.len(),
{
    if inputs.len() > 0 {
        let before = run(s, inputs.drop_last());
        lemma_one_scan_in_flight(s, inputs.drop_last());
        match inputs.last() {
            Input::Msg(msg, at) => {
                lemma_scan_gate(before, msg, at);
            },
            Input::Key(key) => {
                lemma_key_leaves_scan_flag(before, key);
            },
            Input::Command(cmd) => {
                lemma_command_leaves_scan_flag(before, cmd);
            },
        }
    }
}

/// An error that is reported becomes the one error shown, and a failed
/// deletion shows its cause as it was reported. Either writes one line to
/// the log and leaves the rest of the state as it was; a deletion that went
/// through leaves the error shown before.
pub proof fn lemma_errors_are_surfaced(
    s: AppView,
    path: Seq<char>,
    cause: Seq<char>,
    at: Stamp,
)
    ensures
        s.on_msg(MsgView::DeleteFinished(path, Err(cause)), at) == (AppView {
            last_error: Some(cause),
            messages: push_line(s.messages, delete_failed_line(path, cause)),
            ..s
        }),
        s.on_msg(MsgView::Error(cause), at) == (AppView {
            last_error: Some(cause),
            messages: push_line(s.messages, error_line(cause)),
            ..s
        }),
        s.on_msg(MsgView::DeleteFinished(path, Ok(())), at) == (AppView {
            messages: push_line(s.messages, deleted_line(path)),
            ..s
        }),
{
}

/// The same results taken over twice give the list and the selection that
/// they give when taken over once.
pub proof fn lemma_rescan_idempotent(
    s: AppView,
    list: Seq<StatsView>,
    first: Stamp,
    second: Stamp,
)
    ensures
        s.set_entries(list).set_entries(list) == s.set_entries(list),
        s.on_msg(MsgView::ScanFinished(list), first).on_msg(
            MsgView::ScanFinished(list),
            second,
        ).entries == s.on_msg(MsgView::ScanFinished(list), first).entries,
        s.on_msg(MsgView::ScanFinished(list), first).on_msg(
            MsgView::ScanFinished(list),
            second,
        ).selected == s.on_msg(MsgView::ScanFinished(list), first).selected,
{
}

/// A deletion is asked for by a confirmation given while a deletion waits,
/// whether or not a scan is under way, by nothing else, and for the path
/// that waits. A deletion waits only after a
/// request made while browsing with an entry selected, and then for that
/// entry's path. Messages of the channel change neither mode nor root.
pub proof fn lemma_confirmation_gate(
    s: AppView,
    cmd: Command,
    parent: Option<Seq<char>>,
    msg: MsgView,
    at: Stamp,
)
    ensures
        s.effects_with(cmd, parent).delete is Some <==> cmd is ConfirmDelete && s.mode
            is ConfirmDelete,
        s.effects_with(cmd, parent).delete is Some ==> s.mode == ModeView::ConfirmDelete(
            s.effects_with(cmd, parent).delete->0,
        ) && s.on_command_with(cmd, parent).mode is Normal,
        s.mode is Normal && s.on_command_with(cmd, parent).mode is ConfirmDelete ==> cmd
            is RequestDelete && s.selected_entry() is Some && s.on_command_with(cmd, parent).mode
            == ModeView::ConfirmDelete(s.selected_entry()->0.path),
        s.mode is ConfirmDelete && s.on_command_with(cmd, parent).mode is Normal ==> cmd
            is ConfirmDelete || cmd is CancelDelete,
        s.mode is ConfirmDelete ==> s.on_command_with(cmd, parent).cwd == s.cwd,
        s.on_msg(msg, at).mode == s.mode,
        s.on_msg(msg, at).cwd == s.cwd,
{
}

/// Calling a deletion off changes only the mode and the log: the entries,
/// the selection and the root stay, and no work is asked for.
pub proof fn lemma_cancel_is_harmless(s: AppView, parent: Option<Seq<char>>)
    requires
        s.mode is ConfirmDelete,
    ensures
        s.on_command_with(Command::CancelDelete, parent).mode is Normal,
        s.on_command_with(Command::CancelDelete, parent).entries == s.entries,
        s.on_command_with(Command::CancelDelete, parent).selected == s.selected,
        s.on_command_with(Command::CancelDelete, parent).cwd == s.cwd,
        s.effects_with(Command::CancelDelete, parent) == EffectsView::none(),
{
}

} // verus!
