//! The interactive screen as a state machine: keys and benchmark messages
//! come in, the new state and the outside work to do come out.

use vstd::prelude::*;
use vstd::view::View as _;
use crate::bench::{BenchMessage, TestKind};
use crate::drives::{Drive, file_name_of, name_or_whole, path_display_name};
use crate::history::HistoryEntry;
use crate::settings::{self, Settings, SettingsField, FIELD_COUNT, field_at, spec_next_size, next_size};

verus! {

/// The keys the screen reacts to; every other key is `Other`.
#[derive(Debug, Clone, Copy, PartialEq, Eq, Structural)]
pub enum Key {
    Left,
    Right,
    Up,
    Down,
    Enter,
    Esc,
    Char(char),
    Other,
}

/// Outside work the screen asks for after a key or a message.
pub enum Action {
    /// Nothing to do.
    Nothing,
    /// Start a suite of `tests` of `size_mb` MiB in the directory `test_path`.
    StartSuite { test_path: String, size_mb: u64, tests: Vec<TestKind> },
    /// Stop the running suite.
    Cancel,
    /// Stop the running suite, then list the drives again (`show_drives`).
    CancelAndRescan,
    /// List the drives again (`show_drives`).
    Rescan,
    /// Save the test size for later sessions.
    SaveTestSize(u64),
    /// Save the fullscreen flag for later sessions.
    SaveFullscreen(bool),
    /// A new test started: the live speed starts again from zero.
    ResetLiveSpeed,
    /// `bytes` more bytes were moved in `nanos` nanoseconds: update the live speed.
    UpdateLiveSpeed { bytes: u64, nanos: u64 },
    /// Record the finished run, on the drive named `drive`, in the history
    /// (`set_history` with the saved list).
    SaveHistory { drive: String },
}

/// Where the benchmark screen is.
pub enum AppState<R> {
    /// Choosing a drive.
    SelectDrive { drives: Vec<Drive>, selected: usize },
    /// A suite is running.
    Running {
        current_test: TestKind,
        /// The last progress report of the current test, `(bytes done, bytes in all)`.
        progress: Option<(u64, u64)>,
        /// Bytes done at the last update of the live speed.
        prev_bytes: u64,
        /// Time into the test at the last update of the live speed.
        prev_elapsed_nanos: u64,
        completed: Vec<(TestKind, R)>,
    },
    /// A suite finished with these results.
    Complete { results: Vec<(TestKind, R)> },
}

/// The live speed is updated only after more than 50 ms have passed since
/// the last update.
pub const LIVE_UPDATE_NANOS: u64 = 50000000;

/// The state of the whole screen.
pub struct App<R> {
    pub state: AppState<R>,
    pub view: settings::View,
    pub drive_name: String,
    pub display_path: String,
    pub test_path: String,
    pub settings: Settings,
    pub spinner_tick: usize,
    pub should_quit: bool,
    pub history: Vec<HistoryEntry<R>>,
    pub history_idx: usize,
}

/// The direction in which an arrow key switches tabs.
pub open spec fn tab_dir(key: Key) -> int {
    match key {
        Key::Right => 1,
        Key::Left => -1,
        _ => 0,
    }
}

pub open spec fn is_up(key: Key) -> bool {
    key == Key::Up || key == Key::Char('k')
}

pub open spec fn is_down(key: Key) -> bool {
    key == Key::Down || key == Key::Char('j')
}

/// The drive name a finished run is recorded under: the last component of
/// the path shown, or the whole path when it has none.
pub open spec fn run_drive_name(display_path: Seq<char>) -> Seq<char> {
    name_or_whole(file_name_of(display_path), display_path)
}

impl<R> App<R> {
    /// The selected drive is in the list whenever the list is not empty.
    pub open spec fn wf(&self) -> bool {
        match self.state {
            AppState::SelectDrive { drives, selected } => drives@.len() == 0 || selected < drives@.len(),
            _ => true,
        }
    }

    /// The tabs, left to right: the history tab shows only when there is history.
    pub open spec fn tabs(&self) -> Seq<settings::View> {
        seq![settings::View::Benchmark]
            + (if self.history@.len() > 0 { seq![settings::View::History] } else { seq![] })
            + seq![settings::View::Settings]
    }

    /// The position of the current tab, if it is shown.
    pub open spec fn tab_position(&self) -> Option<int> {
        match self.view {
            settings::View::Benchmark => Some(0),
            settings::View::History => if self.history@.len() > 0 { Some(1) } else { None },
            settings::View::Settings => Some(self.tabs().len() - 1),
        }
    }

    /// The tab `dir` steps from the current one, if there is one.
    pub open spec fn spec_next_tab(&self, dir: int) -> Option<settings::View> {
        match self.tab_position() {
            Some(pos) => {
                let next = pos + dir;
                if 0 <= next < self.tabs().len() { Some(self.tabs()[next]) } else { None }
            },
            None => None,
        }
    }

    /// Everything but the benchmark state is unchanged.
    pub open spec fn same_but_state(&self, other: &App<R>) -> bool {
        &&& other.view == self.view
        &&& other.drive_name == self.drive_name
        &&& other.display_path == self.display_path
        &&& other.test_path == self.test_path
        &&& other.settings == self.settings
        &&& other.spinner_tick == self.spinner_tick
        &&& other.should_quit == self.should_quit
        &&& other.history == self.history
        &&& other.history_idx == self.history_idx
    }

    /// The screen after a suite starts: `post` runs the first enabled test
    /// from the beginning, and `act` starts the suite; with no test enabled
    /// nothing happens.
    pub open spec fn start_step(&self, post: &App<R>, act: &Action) -> bool {
        let enabled = self.settings.spec_enabled_tests();
        if enabled.len() == 0 {
            &&& *post == *self
            &&& act is Nothing
        } else {
            &&& self.same_but_state(post)
            &&& post.state matches AppState::Running {
                current_test, progress, prev_bytes, prev_elapsed_nanos, completed }
            &&& current_test == enabled[0]
            &&& progress is None
            &&& prev_bytes == 0
            &&& prev_elapsed_nanos == 0
            &&& completed@.len() == 0
            &&& act matches Action::StartSuite { test_path, size_mb, tests }
            &&& test_path == self.test_path
            &&& size_mb == self.settings.test_size_mb
            &&& tests@ == enabled
        }
    }

    /// The screen after going back to the drive list: an empty list until
    /// `show_drives` fills it.
    pub open spec fn back_to_drives(&self, post: &App<R>) -> bool {
        &&& self.same_but_state(post)
        &&& post.state matches AppState::SelectDrive { drives, selected }
        &&& drives@.len() == 0
        &&& selected == 0
    }

    /// A key on the benchmark tab.
    pub open spec fn benchmark_key_step(&self, key: Key, post: &App<R>, act: &Action) -> bool {
        match self.state {
            AppState::SelectDrive { drives, selected } => {
                if key == Key::Char('q') || key == Key::Esc {
                    *post == App { should_quit: true, ..*self } && act is Nothing
                } else if is_up(key) {
                    &&& *post == App {
                        state: AppState::SelectDrive {
                            drives,
                            selected: if selected > 0 { (selected - 1) as usize } else { selected },
                        },
                        ..*self
                    }
                    &&& act is Nothing
                } else if is_down(key) {
                    &&& *post == App {
                        state: AppState::SelectDrive {
                            drives,
                            selected: if selected + 1 < drives@.len() { (selected + 1) as usize } else { selected },
                        },
                        ..*self
                    }
                    &&& act is Nothing
                } else if key == Key::Enter {
                    if drives@.len() == 0 {
                        *post == *self && act is Nothing
                    } else {
                        let d = drives@[selected as int];
                        App {
                            drive_name: d.name,
                            display_path: d.mount,
                            test_path: d.test_path,
                            ..*self
                        }.start_step(post, act)
                    }
                } else {
                    *post == *self && act is Nothing
                }
            },
            AppState::Running { .. } => {
                if key == Key::Char('q') {
                    *post == App { should_quit: true, ..*self } && act is Cancel
                } else if key == Key::Esc {
                    self.back_to_drives(post) && act is CancelAndRescan
                } else {
                    *post == *self && act is Nothing
                }
            },
            AppState::Complete { .. } => {
                if key == Key::Char('q') {
                    *post == App { should_quit: true, ..*self } && act is Nothing
                } else if key == Key::Char('r') {
                    self.start_step(post, act)
                } else if key == Key::Esc {
                    self.back_to_drives(post) && act is Rescan
                } else {
                    *post == *self && act is Nothing
                }
            },
        }
    }

    /// A key on the history tab.
    pub open spec fn history_key_step(&self, key: Key, post: &App<R>, act: &Action) -> bool {
        &&& act is Nothing
        &&& if key == Key::Char('q') {
            *post == App { should_quit: true, ..*self }
        } else if key == Key::Esc {
            *post == App { view: settings::View::Benchmark, ..*self }
        } else if is_up(key) {
            *post == App {
                history_idx: if self.history_idx > 0 { (self.history_idx - 1) as usize } else { self.history_idx },
                ..*self
            }
        } else if is_down(key) {
            *post == App {
                history_idx: if self.history_idx + 1 < self.history@.len() {
                    (self.history_idx + 1) as usize
                } else {
                    self.history_idx
                },
                ..*self
            }
        } else {
            *post == *self
        }
    }

    /// The settings after Enter or space on the focused row.
    pub open spec fn toggled(s: Settings) -> Settings {
        match s.focused {
            SettingsField::TestSize => Settings { test_size_mb: spec_next_size(s.test_size_mb), ..s },
            SettingsField::Fullscreen => Settings { fullscreen: !s.fullscreen, ..s },
            SettingsField::SeqWrite => Settings { seq_write: !s.seq_write, ..s },
            SettingsField::SeqRead => Settings { seq_read: !s.seq_read, ..s },
            SettingsField::RandWrite => Settings { rand_write: !s.rand_write, ..s },
            SettingsField::RandRead => Settings { rand_read: !s.rand_read, ..s },
        }
    }

    /// A key on the settings tab.
    pub open spec fn settings_key_step(&self, key: Key, post: &App<R>, act: &Action) -> bool {
        let s = self.settings;
        let idx = s.focused.spec_index();
        if key == Key::Char('q') {
            *post == App { should_quit: true, ..*self } && act is Nothing
        } else if key == Key::Esc {
            *post == App { view: settings::View::Benchmark, ..*self } && act is Nothing
        } else if is_up(key) {
            &&& *post == App {
                settings: Settings { focused: if idx > 0 { field_at(idx - 1) } else { s.focused }, ..s },
                ..*self
            }
            &&& act is Nothing
        } else if is_down(key) {
            &&& *post == App {
                settings: Settings { focused: if idx + 1 < FIELD_COUNT { field_at(idx + 1) } else { s.focused }, ..s },
                ..*self
            }
            &&& act is Nothing
        } else if key == Key::Enter || key == Key::Char(' ') {
            let t = Self::toggled(s);
            &&& *post == App { settings: t, ..*self }
            &&& match s.focused {
                SettingsField::TestSize => *act == Action::SaveTestSize(t.test_size_mb),
                SettingsField::Fullscreen => *act == Action::SaveFullscreen(t.fullscreen),
                _ => act is Nothing,
            }
        } else {
            *post == *self && act is Nothing
        }
    }

    /// The end of a suite: its results are shown and recorded, or, when no
    /// test finished, the drive list comes back.
    pub open spec fn finish_step(&self, post: &App<R>, act: &Action) -> bool {
        match self.state {
            AppState::Running { completed, .. } => {
                if completed@.len() == 0 {
                    self.back_to_drives(post) && act is Rescan
                } else {
                    &&& *post == App {
                        state: AppState::Complete { results: completed },
                        view: settings::View::Benchmark,
                        ..*self
                    }
                    &&& act matches Action::SaveHistory { drive }
                    &&& drive@ == run_drive_name(self.display_path@)
                }
            },
            _ => *post == *self && act is Nothing,
        }
    }

    /// A message from the running suite. Messages only change a running
    /// benchmark; the end of a suite is handled by `finish_step`.
    pub open spec fn message_step(&self, msg: BenchMessage<R>, post: &App<R>, act: &Action) -> bool {
        match msg {
            BenchMessage::SuiteComplete => self.finish_step(post, act),
            BenchMessage::Error(_) => self.finish_step(post, act),
            BenchMessage::TestStarted { test } => match self.state {
                AppState::Running { completed, .. } => {
                    &&& *post == App {
                        state: AppState::Running {
                            current_test: test,
                            progress: None,
                            prev_bytes: 0,
                            prev_elapsed_nanos: 0,
                            completed,
                        },
                        ..*self
                    }
                    &&& act is ResetLiveSpeed
                },
                _ => *post == *self && act is Nothing,
            },
            BenchMessage::Progress { test: _, bytes_done, bytes_total, elapsed_nanos } => match self.state {
                AppState::Running { current_test, progress: _, prev_bytes, prev_elapsed_nanos, completed } => {
                    let dt = if elapsed_nanos >= prev_elapsed_nanos { elapsed_nanos - prev_elapsed_nanos } else { 0 };
                    let db = if bytes_done >= prev_bytes { bytes_done - prev_bytes } else { 0 };
                    if dt > LIVE_UPDATE_NANOS {
                        &&& *post == App {
                            state: AppState::Running {
                                current_test,
                                progress: Some((bytes_done, bytes_total)),
                                prev_bytes: bytes_done,
                                prev_elapsed_nanos: elapsed_nanos,
                                completed,
                            },
                            ..*self
                        }
                        &&& *act == Action::UpdateLiveSpeed { bytes: db as u64, nanos: dt as u64 }
                    } else {
                        &&& *post == App {
                            state: AppState::Running {
                                current_test,
                                progress: Some((bytes_done, bytes_total)),
                                prev_bytes,
                                prev_elapsed_nanos,
                                completed,
                            },
                            ..*self
                        }
                        &&& act is Nothing
                    }
                },
                _ => *post == *self && act is Nothing,
            },
            BenchMessage::TestComplete { test, result } => match self.state {
                AppState::Running { current_test, progress, prev_bytes, prev_elapsed_nanos, completed } => {
                    &&& post.same_but_state(self)
                    &&& post.state matches AppState::Running {
                        current_test: c2, progress: p2, prev_bytes: b2, prev_elapsed_nanos: e2, completed: done2 }
                    &&& c2 == current_test && p2 == progress && b2 == prev_bytes && e2 == prev_elapsed_nanos
                    &&& done2@ == completed@.push((test, result))
                    &&& act is Nothing
                },
                _ => *post == *self && act is Nothing,
            },
        }
    }

    /// A key on whatever tab is shown: the arrows left and right switch tabs
    /// when there is a tab that way, and every other key goes to the tab.
    pub open spec fn key_step(&self, key: Key, post: &App<R>, act: &Action) -> bool {
        if tab_dir(key) != 0 && self.spec_next_tab(tab_dir(key)) is Some {
            *post == App { view: self.spec_next_tab(tab_dir(key))->0, ..*self } && act is Nothing
        } else {
            match self.view {
                settings::View::Benchmark => self.benchmark_key_step(key, post, act),
                settings::View::History => self.history_key_step(key, post, act),
                settings::View::Settings => self.settings_key_step(key, post, act),
            }
        }
    }
}


impl<R> App<R> {
    /// A fresh screen on the drive list, with the given history and settings.
    pub fn new(drives: Vec<Drive>, history: Vec<HistoryEntry<R>>, settings: Settings) -> (app: App<R>)
        ensures
            app.state == (AppState::<R>::SelectDrive { drives, selected: 0 }),
            app.view == settings::View::Benchmark,
            app.drive_name@.len() == 0,
            app.display_path@.len() == 0,
            app.test_path@.len() == 0,
            app.settings == settings,
            app.spinner_tick == 0,
            !app.should_quit,
            app.history == history,
            app.history_idx == 0,
            app.wf(),
    {
        App {
            state: AppState::SelectDrive { drives, selected: 0 },
            view: settings::View::Benchmark,
            drive_name: String::new(),
            display_path: String::new(),
            test_path: String::new(),
            settings,
            spinner_tick: 0,
            should_quit: false,
            history,
            history_idx: 0,
        }
    }

    fn next_tab(&self, dir: i8) -> (res: Option<settings::View>)
        requires
            dir == 1 || dir == -1,
        ensures
            res == self.spec_next_tab(dir as int),
    {
        let has_history = self.history.len() > 0;
        let len: usize = if has_history { 3 } else { 2 };
        let pos: usize = match self.view {
            settings::View::Benchmark => 0,
            settings::View::History => {
                if has_history {
                    1
                } else {
                    return None;
                }
            },
            settings::View::Settings => len - 1,
        };
        let next: usize = if dir < 0 {
            if pos == 0 {
                return None;
            }
            pos - 1
        } else {
            if pos + 1 >= len {
                return None;
            }
            pos + 1
        };
        let ghost tabs = self.tabs();
        if next == 0 {
            assert(tabs[0] == settings::View::Benchmark);
            Some(settings::View::Benchmark)
        } else if next == len - 1 {
            assert(tabs[len - 1] == settings::View::Settings);
            Some(settings::View::Settings)
        } else {
            assert(tabs[1] == settings::View::History);
            Some(settings::View::History)
        }
    }

    fn start_benchmark(&mut self) -> (act: Action)
        ensures
            old(self).start_step(final(self), &act),
    {
        let enabled = self.settings.enabled_tests();
        if enabled.len() == 0 {
            return Action::Nothing;
        }
        let first_test = enabled[0];
        self.state = AppState::Running {
            current_test: first_test,
            progress: None,
            prev_bytes: 0,
            prev_elapsed_nanos: 0,
            completed: Vec::new(),
        };
        Action::StartSuite {
            test_path: self.test_path.clone(),
            size_mb: self.settings.test_size_mb,
            tests: enabled,
        }
    }

    fn go_back_to_drives(&mut self)
        ensures
            old(self).back_to_drives(final(self)),
    {
        self.state = AppState::SelectDrive { drives: Vec::new(), selected: 0 };
    }

    fn handle_benchmark_key(&mut self, key: Key) -> (act: Action)
        requires
            key == Key::Enter ==> old(self).wf(),
        ensures
            old(self).benchmark_key_step(key, final(self), &act),
    {
        match &self.state {
            AppState::SelectDrive { drives, selected } => {
                let sel = *selected;
                let n = drives.len();
                if key == Key::Char('q') || key == Key::Esc {
                    self.should_quit = true;
                    Action::Nothing
                } else if key == Key::Up || key == Key::Char('k') {
                    if sel > 0 {
                        self.set_selected(sel - 1);
                    }
                    Action::Nothing
                } else if key == Key::Down || key == Key::Char('j') {
                    if n > 0 && sel < n - 1 {
                        self.set_selected(sel + 1);
                    }
                    Action::Nothing
                } else if key == Key::Enter {
                    if n == 0 {
                        return Action::Nothing;
                    }
                    let name = drives[sel].name.clone();
                    let mount = drives[sel].mount.clone();
                    let test_path = drives[sel].test_path.clone();
                    self.drive_name = name;
                    self.display_path = mount;
                    self.test_path = test_path;
                    self.start_benchmark()
                } else {
                    Action::Nothing
                }
            },
            AppState::Running { .. } => {
                if key == Key::Char('q') {
                    self.should_quit = true;
                    Action::Cancel
                } else if key == Key::Esc {
                    self.go_back_to_drives();
                    Action::CancelAndRescan
                } else {
                    Action::Nothing
                }
            },
            AppState::Complete { .. } => {
                if key == Key::Char('q') {
                    self.should_quit = true;
                    Action::Nothing
                } else if key == Key::Char('r') {
                    self.start_benchmark()
                } else if key == Key::Esc {
                    self.go_back_to_drives();
                    Action::Rescan
                } else {
                    Action::Nothing
                }
            },
        }
    }

    fn set_selected(&mut self, sel: usize)
        requires
            old(self).state is SelectDrive,
        ensures
            *final(self) == (App {
                state: AppState::SelectDrive { drives: old(self).state->drives, selected: sel },
                ..*old(self)
            }),
    {
        let mut state = AppState::Complete { results: Vec::new() };
        std::mem::swap(&mut state, &mut self.state);
        match state {
            AppState::SelectDrive { drives, selected: _ } => {
                self.state = AppState::SelectDrive { drives, selected: sel };
            },
            _ => {
                self.state = state;
            },
        }
    }

    fn handle_history_key(&mut self, key: Key) -> (act: Action)
        ensures
            old(self).history_key_step(key, final(self), &act),
    {
        if key == Key::Char('q') {
            self.should_quit = true;
        } else if key == Key::Esc {
            self.view = settings::View::Benchmark;
        } else if key == Key::Up || key == Key::Char('k') {
            if self.history_idx > 0 {
                self.history_idx = self.history_idx - 1;
            }
        } else if key == Key::Down || key == Key::Char('j') {
            if self.history.len() > 0 && self.history_idx < self.history.len() - 1 {
                self.history_idx = self.history_idx + 1;
            }
        }
        Action::Nothing
    }

    fn handle_settings_key(&mut self, key: Key) -> (act: Action)
        ensures
            old(self).settings_key_step(key, final(self), &act),
    {
        if key == Key::Char('q') {
            self.should_quit = true;
            Action::Nothing
        } else if key == Key::Esc {
            self.view = settings::View::Benchmark;
            Action::Nothing
        } else if key == Key::Up || key == Key::Char('k') {
            let idx = self.settings.focused.index();
            if idx > 0 {
                self.settings.focused = SettingsField::at(idx - 1);
            }
            Action::Nothing
        } else if key == Key::Down || key == Key::Char('j') {
            let idx = self.settings.focused.index();
            if idx + 1 < FIELD_COUNT {
                self.settings.focused = SettingsField::at(idx + 1);
            }
            Action::Nothing
        } else if key == Key::Enter || key == Key::Char(' ') {
            match self.settings.focused {
                SettingsField::TestSize => {
                    self.settings.test_size_mb = next_size(self.settings.test_size_mb);
                    Action::SaveTestSize(self.settings.test_size_mb)
                },
                SettingsField::Fullscreen => {
                    self.settings.fullscreen = !self.settings.fullscreen;
                    Action::SaveFullscreen(self.settings.fullscreen)
                },
                SettingsField::SeqWrite => {
                    self.settings.seq_write = !self.settings.seq_write;
                    Action::Nothing
                },
                SettingsField::SeqRead => {
                    self.settings.seq_read = !self.settings.seq_read;
                    Action::Nothing
                },
                SettingsField::RandWrite => {
                    self.settings.rand_write = !self.settings.rand_write;
                    Action::Nothing
                },
                SettingsField::RandRead => {
                    self.settings.rand_read = !self.settings.rand_read;
                    Action::Nothing
                },
            }
        } else {
            Action::Nothing
        }
    }

    fn finish_with_results(&mut self) -> (act: Action)
        ensures
            old(self).finish_step(final(self), &act),
    {
        let mut state = AppState::Complete { results: Vec::new() };
        std::mem::swap(&mut state, &mut self.state);
        match state {
            AppState::Running { current_test, progress, prev_bytes, prev_elapsed_nanos, completed } => {
                if completed.len() == 0 {
                    self.state = AppState::SelectDrive { drives: Vec::new(), selected: 0 };
                    Action::Rescan
                } else {
                    let drive = path_display_name(self.display_path.as_str());
                    self.view = settings::View::Benchmark;
                    self.state = AppState::Complete { results: completed };
                    Action::SaveHistory { drive }
                }
            },
            other => {
                self.state = other;
                Action::Nothing
            },
        }
    }

    /// Reacts to a message from the running suite: see `message_step`.
    pub fn on_message(&mut self, msg: BenchMessage<R>) -> (act: Action)
        ensures
            old(self).message_step(msg, final(self), &act),
            old(self).wf() ==> final(self).wf(),
    {
        match msg {
            BenchMessage::SuiteComplete => self.finish_with_results(),
            BenchMessage::Error(_) => self.finish_with_results(),
            BenchMessage::TestStarted { test } => {
                let mut state = AppState::Complete { results: Vec::new() };
                std::mem::swap(&mut state, &mut self.state);
                match state {
                    AppState::Running { current_test: _, progress: _, prev_bytes: _, prev_elapsed_nanos: _, completed } => {
                        self.state = AppState::Running {
                            current_test: test,
                            progress: None,
                            prev_bytes: 0,
                            prev_elapsed_nanos: 0,
                            completed,
                        };
                        Action::ResetLiveSpeed
                    },
                    other => {
                        self.state = other;
                        Action::Nothing
                    },
                }
            },
            BenchMessage::Progress { test: _, bytes_done, bytes_total, elapsed_nanos } => {
                let mut state = AppState::Complete { results: Vec::new() };
                std::mem::swap(&mut state, &mut self.state);
                match state {
                    AppState::Running { current_test, progress: _, prev_bytes, prev_elapsed_nanos, completed } => {
                        let dt = elapsed_nanos.saturating_sub(prev_elapsed_nanos);
                        let db = bytes_done.saturating_sub(prev_bytes);
                        if dt > LIVE_UPDATE_NANOS {
                            self.state = AppState::Running {
                                current_test,
                                progress: Some((bytes_done, bytes_total)),
                                prev_bytes: bytes_done,
                                prev_elapsed_nanos: elapsed_nanos,
                                completed,
                            };
                            Action::UpdateLiveSpeed { bytes: db, nanos: dt }
                        } else {
                            self.state = AppState::Running {
                                current_test,
                                progress: Some((bytes_done, bytes_total)),
                                prev_bytes,
                                prev_elapsed_nanos,
                                completed,
                            };
                            Action::Nothing
                        }
                    },
                    other => {
                        self.state = other;
                        Action::Nothing
                    },
                }
            },
            BenchMessage::TestComplete { test, result } => {
                let mut state = AppState::Complete { results: Vec::new() };
                std::mem::swap(&mut state, &mut self.state);
                match state {
                    AppState::Running { current_test, progress, prev_bytes, prev_elapsed_nanos, completed } => {
                        let mut completed = completed;
                        completed.push((test, result));
                        self.state = AppState::Running {
                            current_test,
                            progress,
                            prev_bytes,
                            prev_elapsed_nanos,
                            completed,
                        };
                        Action::Nothing
                    },
                    other => {
                        self.state = other;
                        Action::Nothing
                    },
                }
            },
        }
    }

    /// Advances the spinner one step.
    pub fn tick(&mut self)
        ensures
            *final(self) == (App { spinner_tick: old(self).spinner_tick.wrapping_add(1), ..*old(self) }),
    {
        self.spinner_tick = self.spinner_tick.wrapping_add(1);
    }

    /// Shows a new list of drives, the first one selected.
    pub fn show_drives(&mut self, drives: Vec<Drive>)
        ensures
            old(self).same_but_state(final(self)),
            final(self).state == (AppState::<R>::SelectDrive { drives, selected: 0 }),
            final(self).wf(),
    {
        self.state = AppState::SelectDrive { drives, selected: 0 };
    }

    /// Replaces the history with the list saved after a run.
    pub fn set_history(&mut self, history: Vec<HistoryEntry<R>>)
        ensures
            *final(self) == (App { history, ..*old(self) }),
    {
        self.history = history;
    }

    /// Reacts to a key: see `key_step` for what each key does. Enter on the
    /// drive list takes the selected drive, so it needs the selection to be
    /// in the list.
    pub fn handle_key(&mut self, key: Key) -> (act: Action)
        requires
            key == Key::Enter ==> old(self).wf(),
        ensures
            old(self).key_step(key, final(self), &act),
            old(self).wf() ==> final(self).wf(),
    {
        let dir: i8 = match key {
            Key::Right => 1,
            Key::Left => -1,
            _ => 0,
        };
        if dir != 0 {
            if let Some(next) = self.next_tab(dir) {
                self.view = next;
                return Action::Nothing;
            }
        }
        match self.view {
            settings::View::Benchmark => self.handle_benchmark_key(key),
            settings::View::History => self.handle_history_key(key),
            settings::View::Settings => self.handle_settings_key(key),
        }
    }
}


/// Switching tabs one way and then back returns to the tab one started on.
pub proof fn lemma_tab_switch_returns<R>(app: App<R>, dir: int)
    requires
        dir == 1 || dir == -1,
        app.spec_next_tab(dir) is Some,
    ensures
        (App { view: app.spec_next_tab(dir)->0, ..app }).spec_next_tab(-dir) == Some(app.view),
{
    let t = app.tabs();
    let moved = App { view: app.spec_next_tab(dir)->0, ..app };
    assert(moved.tabs() == t);
    if app.history@.len() > 0 {
        assert(t =~= seq![settings::View::Benchmark, settings::View::History, settings::View::Settings]);
    } else {
        assert(t =~= seq![settings::View::Benchmark, settings::View::Settings]);
    }
}

/// `q` quits from every tab and every benchmark state.
pub proof fn lemma_q_quits<R>(app: App<R>, post: App<R>, act: Action)
    requires
        app.key_step(Key::Char('q'), &post, &act),
    ensures
        post.should_quit,
{
}

/// Pressing Enter or space twice on a test's row or on the fullscreen row
/// leaves the settings as they were.
pub proof fn lemma_toggle_twice(s: Settings)
    requires
        s.focused != SettingsField::TestSize,
    ensures
        App::<u8>::toggled(App::<u8>::toggled(s)) == s,
{
}

/// Moving the focus down and then up on the settings tab returns to the row
/// one started on, unless the focus was already on the last row.
pub proof fn lemma_focus_down_up(s: Settings)
    requires
        s.focused.spec_index() + 1 < FIELD_COUNT,
    ensures
        field_at(field_at(s.focused.spec_index() + 1).spec_index() - 1) == s.focused,
{
}

/// On the history tab the selected run stays within the history: keys move
/// it by at most one place and never past the last run.
pub proof fn lemma_history_idx_in_range<R>(app: App<R>, key: Key, post: App<R>, act: Action)
    requires
        app.view == settings::View::History,
        tab_dir(key) == 0,
        app.history_key_step(key, &post, &act),
        app.history_idx < app.history@.len(),
        app.history@.len() <= usize::MAX,
    ensures
        post.history_idx < post.history@.len(),
        post.history_idx == app.history_idx || post.history_idx == app.history_idx + 1
            || post.history_idx + 1 == app.history_idx,
{
}

/// A suite is started only with at least one test enabled, and it runs
/// exactly the enabled tests, in order, at the chosen size, in the chosen
/// drive's directory; the screen then follows its first test.
pub proof fn lemma_start_runs_enabled<R>(app: App<R>, key: Key, post: App<R>, act: Action)
    requires
        app.key_step(key, &post, &act),
        act is StartSuite,
    ensures
        app.settings.spec_enabled_tests().len() > 0,
        act->StartSuite_tests@ == app.settings.spec_enabled_tests(),
        act->StartSuite_size_mb == app.settings.test_size_mb,
        act->StartSuite_test_path == post.test_path,
        post.state matches AppState::Running { current_test, .. }
            && current_test == app.settings.spec_enabled_tests()[0],
{
}

/// The results of a suite are the completed tests in the order they
/// completed: each completion adds one result at the end.
pub proof fn lemma_results_in_completion_order<R>(app: App<R>, test: TestKind, result: R, post: App<R>, act: Action)
    requires
        app.state is Running,
        app.message_step(BenchMessage::TestComplete { test, result }, &post, &act),
    ensures
        post.state->Running_completed@ == app.state->Running_completed@.push((test, result)),
{
}

/// On the drive list, Up (or `k`) moves the selection one place up, stopping
/// at the first drive, and Down (or `j`) one place down, stopping at the last;
/// the list itself is unchanged, and the selection stays a valid position,
/// so that Enter can always take the selected drive.
pub proof fn lemma_drive_selection<R>(app: App<R>, key: Key, post: App<R>, act: Action)
    requires
        app.wf(),
        app.view == settings::View::Benchmark,
        app.state is SelectDrive,
        app.state->SelectDrive_drives@.len() <= usize::MAX,
        is_up(key) || is_down(key),
        app.key_step(key, &post, &act),
    ensures
        post.state is SelectDrive,
        post.state->SelectDrive_drives == app.state->SelectDrive_drives,
        is_up(key) ==> post.state->SelectDrive_selected == (if app.state->SelectDrive_selected > 0 {
            app.state->SelectDrive_selected - 1
        } else {
            0
        }),
        is_down(key) ==> post.state->SelectDrive_selected == (if app.state->SelectDrive_drives@.len() == 0 {
            app.state->SelectDrive_selected as int
        } else if app.state->SelectDrive_selected + 1 < app.state->SelectDrive_drives@.len() {
            app.state->SelectDrive_selected + 1
        } else {
            app.state->SelectDrive_drives@.len() - 1
        }),
        post.wf(),
        act is Nothing,
{
}

/// On the settings tab, Enter or space on a test's row or on the fullscreen
/// row negates exactly that setting and changes nothing else; doing it twice
/// gives back the screen one started with.
pub proof fn lemma_settings_toggle<R>(
    app: App<R>,
    k1: Key,
    mid: App<R>,
    a1: Action,
    k2: Key,
    post: App<R>,
    a2: Action,
)
    requires
        app.view == settings::View::Settings,
        app.settings.focused != SettingsField::TestSize,
        k1 == Key::Enter || k1 == Key::Char(' '),
        k2 == Key::Enter || k2 == Key::Char(' '),
        app.key_step(k1, &mid, &a1),
        mid.key_step(k2, &post, &a2),
    ensures
        mid == (App { settings: App::<R>::toggled(app.settings), ..app }),
        App::<R>::toggled(app.settings).focused == app.settings.focused,
        app.settings.focused == SettingsField::Fullscreen ==> mid.settings.fullscreen == !app.settings.fullscreen,
        app.settings.focused == SettingsField::SeqWrite ==> mid.settings.seq_write == !app.settings.seq_write,
        app.settings.focused == SettingsField::SeqRead ==> mid.settings.seq_read == !app.settings.seq_read,
        app.settings.focused == SettingsField::RandWrite ==> mid.settings.rand_write == !app.settings.rand_write,
        app.settings.focused == SettingsField::RandRead ==> mid.settings.rand_read == !app.settings.rand_read,
        post == app,
{
}

/// On the settings tab, Enter or space on the size row moves to the next
/// size and asks to save it; on the fullscreen row it asks to save the new
/// flag; on a test's row it asks to save nothing.
pub proof fn lemma_settings_save<R>(app: App<R>, key: Key, post: App<R>, act: Action)
    requires
        app.view == settings::View::Settings,
        key == Key::Enter || key == Key::Char(' '),
        app.key_step(key, &post, &act),
    ensures
        app.settings.focused == SettingsField::TestSize ==> {
            &&& post.settings.test_size_mb == spec_next_size(app.settings.test_size_mb)
            &&& act == Action::SaveTestSize(spec_next_size(app.settings.test_size_mb))
        },
        app.settings.focused == SettingsField::Fullscreen ==> {
            &&& post.settings.fullscreen == !app.settings.fullscreen
            &&& act == Action::SaveFullscreen(!app.settings.fullscreen)
        },
        (app.settings.focused != SettingsField::TestSize && app.settings.focused != SettingsField::Fullscreen)
            ==> act is Nothing,
{
}

/// When the running suite announces a test, the screen follows that test
/// from its start: it becomes the current test, its progress and the live
/// speed's reference point start again from zero, the results so far are
/// kept, and nothing else changes. Outside a run the message changes nothing.
pub proof fn lemma_test_started<R>(app: App<R>, test: TestKind, post: App<R>, act: Action)
    requires
        app.message_step(BenchMessage::TestStarted { test }, &post, &act),
    ensures
        app.state is Running ==> {
            &&& post.state is Running
            &&& post.state->Running_current_test == test
            &&& post.state->Running_progress is None
            &&& post.state->Running_prev_bytes == 0
            &&& post.state->Running_prev_elapsed_nanos == 0
            &&& post.state->Running_completed == app.state->Running_completed
            &&& post.view == app.view
            &&& post.settings == app.settings
            &&& post.history == app.history
            &&& post.should_quit == app.should_quit
            &&& act is ResetLiveSpeed
        },
        !(app.state is Running) ==> post == app && act is Nothing,
{
}

/// A progress report while a suite runs is shown as the test's progress.
/// The live speed is updated only when more than 50 ms have passed since its
/// last update, from the bytes and the time since then, and that point
/// becomes the new reference; otherwise the reference is kept. The current
/// test and the results so far are kept. Outside a run nothing changes.
pub proof fn lemma_progress<R>(
    app: App<R>,
    test: TestKind,
    done: u64,
    total: u64,
    elapsed: u64,
    post: App<R>,
    act: Action,
)
    requires
        app.message_step(
            BenchMessage::Progress { test, bytes_done: done, bytes_total: total, elapsed_nanos: elapsed },
            &post,
            &act,
        ),
    ensures
        app.state is Running ==> {
            let prev_bytes = app.state->Running_prev_bytes;
            let prev_time = app.state->Running_prev_elapsed_nanos;
            &&& post.state is Running
            &&& post.state->Running_current_test == app.state->Running_current_test
            &&& post.state->Running_completed == app.state->Running_completed
            &&& post.state->Running_progress == Some((done, total))
            &&& post.view == app.view
            &&& post.settings == app.settings
            &&& if elapsed > prev_time + 50_000_000 {
                &&& post.state->Running_prev_bytes == done
                &&& post.state->Running_prev_elapsed_nanos == elapsed
                &&& act matches Action::UpdateLiveSpeed { bytes, nanos }
                &&& nanos == elapsed - prev_time
                &&& bytes == (if done >= prev_bytes { done - prev_bytes } else { 0 })
            } else {
                &&& post.state->Running_prev_bytes == prev_bytes
                &&& post.state->Running_prev_elapsed_nanos == prev_time
                &&& act is Nothing
            }
        },
        !(app.state is Running) ==> post == app && act is Nothing,
{
}

/// Enter or space on the settings tab changes exactly the focused row's
/// setting: a test's row or the fullscreen row negates that flag, the size
/// row moves to the next size, and every other setting, the focus, the tab
/// and the benchmark state stay as they were.
pub proof fn lemma_toggle_one_field<R>(app: App<R>, key: Key, post: App<R>, act: Action)
    requires
        app.view == settings::View::Settings,
        key == Key::Enter || key == Key::Char(' '),
        app.key_step(key, &post, &act),
    ensures
        ({
            let s = app.settings;
            let t = post.settings;
            let f = s.focused;
            &&& t.focused == f
            &&& t.seq_write == (if f == SettingsField::SeqWrite { !s.seq_write } else { s.seq_write })
            &&& t.seq_read == (if f == SettingsField::SeqRead { !s.seq_read } else { s.seq_read })
            &&& t.rand_write == (if f == SettingsField::RandWrite { !s.rand_write } else { s.rand_write })
            &&& t.rand_read == (if f == SettingsField::RandRead { !s.rand_read } else { s.rand_read })
            &&& t.fullscreen == (if f == SettingsField::Fullscreen { !s.fullscreen } else { s.fullscreen })
            &&& (f != SettingsField::TestSize ==> t.test_size_mb == s.test_size_mb)
        }),
        post.view == app.view,
        post.state == app.state,
        post.history == app.history,
        post.should_quit == app.should_quit,
{
}

/// When the suite ends (it completes, or reports an error) during a run:
/// with no finished test the screen goes back to the drive list, which is
/// listed anew; otherwise the finished tests' results are shown, in the
/// order they finished, on the benchmark tab, and the run is recorded under
/// the shown path's last component (the whole path when it has none).
pub proof fn lemma_suite_end<R>(app: App<R>, msg: BenchMessage<R>, post: App<R>, act: Action)
    requires
        msg is SuiteComplete || msg is Error,
        app.state is Running,
        app.message_step(msg, &post, &act),
    ensures
        app.state->Running_completed@.len() == 0 ==> {
            &&& post.state is SelectDrive
            &&& post.state->SelectDrive_drives@.len() == 0
            &&& post.state->SelectDrive_selected == 0
            &&& post.view == app.view
            &&& act is Rescan
        },
        app.state->Running_completed@.len() > 0 ==> {
            &&& post.state is Complete
            &&& post.state->Complete_results == app.state->Running_completed
            &&& post.view == settings::View::Benchmark
            &&& post.settings == app.settings
            &&& post.history == app.history
            &&& act matches Action::SaveHistory { drive }
            &&& drive@ == name_or_whole(file_name_of(app.display_path@), app.display_path@)
        },
{
}

/// Enter on a non-empty drive list takes the selected drive: its name, mount
/// point and test directory become the screen's, and the suite of enabled
/// tests starts in that test directory; with no test enabled the drive is
/// taken but nothing starts.
pub proof fn lemma_enter_takes_selected<R>(app: App<R>, post: App<R>, act: Action)
    requires
        app.wf(),
        app.view == settings::View::Benchmark,
        app.state is SelectDrive,
        app.state->SelectDrive_drives@.len() > 0,
        app.key_step(Key::Enter, &post, &act),
    ensures
        ({
            let d = app.state->SelectDrive_drives@[app.state->SelectDrive_selected as int];
            &&& post.drive_name == d.name
            &&& post.display_path == d.mount
            &&& post.test_path == d.test_path
            &&& app.settings.spec_enabled_tests().len() > 0 ==> {
                &&& post.state is Running
                &&& act matches Action::StartSuite { test_path, size_mb, tests }
                &&& test_path == d.test_path
                &&& size_mb == app.settings.test_size_mb
                &&& tests@ == app.settings.spec_enabled_tests()
            }
        }),
        app.settings.spec_enabled_tests().len() == 0 ==> post.state == app.state && act is Nothing,
{
}

/// During a run, Esc cancels it and goes back to the drive list, and `q`
/// cancels it and quits; on the results, `r` runs the suite again, Esc goes
/// back to the drive list and `q` quits.
pub proof fn lemma_run_keys<R>(app: App<R>, key: Key, post: App<R>, act: Action)
    requires
        app.view == settings::View::Benchmark,
        app.key_step(key, &post, &act),
    ensures
        app.state is Running && key == Key::Esc ==> act is CancelAndRescan && post.state is SelectDrive
            && post.should_quit == app.should_quit,
        app.state is Running && key == Key::Char('q') ==> act is Cancel && post.should_quit,
        app.state is Complete && key == Key::Esc ==> act is Rescan && post.state is SelectDrive,
        app.state is Complete && key == Key::Char('q') ==> act is Nothing && post.should_quit,
        app.state is Complete && key == Key::Char('r') && app.settings.spec_enabled_tests().len() > 0
            ==> act is StartSuite && post.state is Running
                && post.state->Running_current_test == app.settings.spec_enabled_tests()[0],
{
}

} // verus!
