//! The state of the dashboard and what is asked of the world around it.

use crate::config;
use crate::config::{Config, ConditionType, StatusBarItem};
use crate::text;
use vstd::prelude::*;
use vstd::string::*;

verus! {

/// What the sidebar lists.
#[derive(Clone, Copy, PartialEq, Eq, Structural, Debug)]
pub enum SidebarMode {
    Commands,
    History,
    Gists,
}

/// The selected row of a list and the first row shown.
#[derive(Clone, Copy, PartialEq, Eq, Structural, Debug)]
pub struct ListState {
    pub selected: Option<usize>,
    pub offset: usize,
}

/// A gist as it is listed.
pub struct GistEntry {
    pub label: String,
    pub info: String,
    pub command: String,
    pub mtime: Option<std::time::SystemTime>,
    pub path: Option<String>,
    pub remote_name: String,
}

pub ghost struct GistEntryView {
    pub label: Seq<char>,
    pub info: Seq<char>,
    pub command: Seq<char>,
    pub mtime: Option<std::time::SystemTime>,
    pub path: Option<Seq<char>>,
    pub remote_name: Seq<char>,
}

impl View for GistEntry {
    type V = GistEntryView;

    open spec fn view(&self) -> GistEntryView {
        GistEntryView {
            label: self.label@,
            info: self.info@,
            command: self.command@,
            mtime: self.mtime,
            path: text::opt_text(self.path),
            remote_name: self.remote_name@,
        }
    }
}

/// The gists that a sequence of entries holds.
pub open spec fn entry_views(v: Seq<GistEntry>) -> Seq<GistEntryView> {
    v.map_values(|e: GistEntry| e@)
}

/// A mouse button.
#[derive(Clone, Copy, PartialEq, Eq, Structural, Debug)]
pub enum MouseButton {
    Left,
    Right,
    Middle,
}

/// What the mouse did.
#[derive(Clone, Copy, PartialEq, Eq, Structural, Debug)]
pub enum MouseKind {
    Down(MouseButton),
    Up(MouseButton),
    Drag(MouseButton),
    Moved,
    ScrollUp,
    ScrollDown,
    ScrollLeft,
    ScrollRight,
}

/// What the mouse did, where, and whether the control key was held.
#[derive(Clone, Copy, PartialEq, Eq, Structural, Debug)]
pub struct MouseEvent {
    pub kind: MouseKind,
    pub column: u16,
    pub row: u16,
    pub control: bool,
}

/// A key.
#[derive(Clone, Copy, PartialEq, Eq, Structural, Debug)]
pub enum KeyCode {
    Char(char),
    Enter,
    Backspace,
    Tab,
    Esc,
    Up,
    Down,
    Left,
    Right,
    Home,
    End,
    Delete,
    PageUp,
    PageDown,
    F(u8),
    Other,
}

/// A key with the modifiers held.
#[derive(Clone, Copy, PartialEq, Eq, Structural, Debug)]
pub struct KeyEvent {
    pub code: KeyCode,
    pub shift: bool,
    pub control: bool,
}

/// Something that happened at the terminal.
#[derive(Clone, Copy, PartialEq, Eq, Structural, Debug)]
pub enum Event {
    Key(KeyEvent),
    Mouse(MouseEvent),
    Resize(u16, u16),
    Other,
}

/// What the event loop takes up one by one.
pub enum Message {
    Event(Event),
    PtyData,
    Tick,
    /// Device code, user code and the address to enter it at.
    DeviceCodeSuccess(String, String, String),
    /// An access token.
    AuthSuccess(String),
    AuthError(String),
    FetchGists,
    DeleteGist(usize),
    CreateNewGist,
    /// The name given to a new gist.
    ConfirmNewGistName(String),
    UpdateBinary,
    GistsFetched(Vec<GistEntry>),
    /// A message, and whether it tells of a success.
    GistUploadStatus(String, bool),
}

pub ghost enum MessageView {
    Event(Event),
    PtyData,
    Tick,
    DeviceCodeSuccess(Seq<char>, Seq<char>, Seq<char>),
    AuthSuccess(Seq<char>),
    AuthError(Seq<char>),
    FetchGists,
    DeleteGist(usize),
    CreateNewGist,
    ConfirmNewGistName(Seq<char>),
    UpdateBinary,
    GistsFetched(Seq<GistEntryView>),
    GistUploadStatus(Seq<char>, bool),
}

impl View for Message {
    type V = MessageView;

    open spec fn view(&self) -> MessageView {
        match self {
            Message::Event(e) => MessageView::Event(*e),
            Message::PtyData => MessageView::PtyData,
            Message::Tick => MessageView::Tick,
            Message::DeviceCodeSuccess(d, u, v) => MessageView::DeviceCodeSuccess(d@, u@, v@),
            Message::AuthSuccess(t) => MessageView::AuthSuccess(t@),
            Message::AuthError(e) => MessageView::AuthError(e@),
            Message::FetchGists => MessageView::FetchGists,
            Message::DeleteGist(i) => MessageView::DeleteGist(*i),
            Message::CreateNewGist => MessageView::CreateNewGist,
            Message::ConfirmNewGistName(n) => MessageView::ConfirmNewGistName(n@),
            Message::UpdateBinary => MessageView::UpdateBinary,
            Message::GistsFetched(g) => MessageView::GistsFetched(entry_views(g@)),
            Message::GistUploadStatus(m, ok) => MessageView::GistUploadStatus(m@, *ok),
        }
    }
}

/// What is asked of the world around the dashboard.
pub enum Action {
    /// Put a message into the event loop's queue.
    Post(Message),
    /// Write to the shell.
    Write(String),
    /// Ask for the values of the prompts in a command, then write it.
    SendCommand(String),
    /// Put the terminal text between two cells on the clipboard.
    CopySelection { start: (u16, u16), end: (u16, u16) },
    /// Move the terminal's view to so many rows above the last.
    SetScrollback(usize),
    /// Move the terminal's view down from the top of its history by the given
    /// part of it.
    ScrollFromTop { part: u16, whole: u16 },
    /// Move the terminal's view to the history above the given part of it.
    ScrollToPart { part: u16, whole: u16 },
    /// Select the row of the sidebar that lies at the given part of the list.
    PickRow { part: u16, whole: u16, rows: usize },
    /// Read the shell's history anew.
    RefreshHistory,
    /// Note the time of change of a file that is about to be edited.
    TrackEdit(String),
    /// Upload a file as a gist; say so if it was not asked for.
    Upload { token: String, path: String, remote_name: String, automatic: bool },
    /// Delete a file.
    RemoveFile(String),
    /// Delete a gist at GitHub.
    DeleteRemote { token: String, remote_name: String },
    /// Ask GitHub for a device code.
    RequestDeviceCode { client_id: String, scope: String },
    /// Wait for GitHub to hand out a token for a device code.
    PollToken { client_id: String, device_code: String },
    /// Download the gists.
    DownloadGists { token: String },
    /// Write the configuration.
    SaveConfig,
    /// Make a new script of the given name and open it.
    CreateScript { filename: String },
    /// Download a new version of the program.
    UpdateProgram { url: String },
}

pub ghost enum ActionView {
    Post(MessageView),
    Write(Seq<char>),
    SendCommand(Seq<char>),
    CopySelection { start: (u16, u16), end: (u16, u16) },
    SetScrollback(usize),
    ScrollFromTop { part: u16, whole: u16 },
    ScrollToPart { part: u16, whole: u16 },
    PickRow { part: u16, whole: u16, rows: usize },
    RefreshHistory,
    TrackEdit(Seq<char>),
    Upload { token: Seq<char>, path: Seq<char>, remote_name: Seq<char>, automatic: bool },
    RemoveFile(Seq<char>),
    DeleteRemote { token: Seq<char>, remote_name: Seq<char> },
    RequestDeviceCode { client_id: Seq<char>, scope: Seq<char> },
    PollToken { client_id: Seq<char>, device_code: Seq<char> },
    DownloadGists { token: Seq<char> },
    SaveConfig,
    CreateScript { filename: Seq<char> },
    UpdateProgram { url: Seq<char> },
}

impl View for Action {
    type V = ActionView;

    open spec fn view(&self) -> ActionView {
        match self {
            Action::Post(m) => ActionView::Post(m@),
            Action::Write(t) => ActionView::Write(t@),
            Action::SendCommand(t) => ActionView::SendCommand(t@),
            Action::CopySelection { start, end } => ActionView::CopySelection {
                start: *start,
                end: *end,
            },
            Action::SetScrollback(n) => ActionView::SetScrollback(*n),
            Action::ScrollFromTop { part, whole } => ActionView::ScrollFromTop {
                part: *part,
                whole: *whole,
            },
            Action::ScrollToPart { part, whole } => ActionView::ScrollToPart {
                part: *part,
                whole: *whole,
            },
            Action::PickRow { part, whole, rows } => ActionView::PickRow {
                part: *part,
                whole: *whole,
                rows: *rows,
            },
            Action::RefreshHistory => ActionView::RefreshHistory,
            Action::TrackEdit(p) => ActionView::TrackEdit(p@),
            Action::Upload { token, path, remote_name, automatic } => ActionView::Upload {
                token: token@,
                path: path@,
                remote_name: remote_name@,
                automatic: *automatic,
            },
            Action::RemoveFile(p) => ActionView::RemoveFile(p@),
            Action::DeleteRemote { token, remote_name } => ActionView::DeleteRemote {
                token: token@,
                remote_name: remote_name@,
            },
            Action::RequestDeviceCode { client_id, scope } => ActionView::RequestDeviceCode {
                client_id: client_id@,
                scope: scope@,
            },
            Action::PollToken { client_id, device_code } => ActionView::PollToken {
                client_id: client_id@,
                device_code: device_code@,
            },
            Action::DownloadGists { token } => ActionView::DownloadGists { token: token@ },
            Action::SaveConfig => ActionView::SaveConfig,
            Action::CreateScript { filename } => ActionView::CreateScript { filename: filename@ },
            Action::UpdateProgram { url } => ActionView::UpdateProgram { url: url@ },
        }
    }
}

/// The requests that a sequence of actions holds.
pub open spec fn action_views(v: Seq<Action>) -> Seq<ActionView> {
    v.map_values(|a: Action| a@)
}

/// No actions.
pub fn no_actions() -> (r: Vec<Action>)
    ensures
        action_views(r@) == Seq::<ActionView>::empty(),
{
    let r: Vec<Action> = Vec::new();
    assert(action_views(r@) =~= Seq::<ActionView>::empty());
    r
}

/// One action.
pub fn one_action(a: Action) -> (r: Vec<Action>)
    ensures
        action_views(r@) == seq![a@],
{
    let mut r: Vec<Action> = Vec::new();
    r.push(a);
    assert(action_views(r@) =~= seq![a@]);
    r
}

/// Two actions.
pub fn two_actions(a: Action, b: Action) -> (r: Vec<Action>)
    ensures
        action_views(r@) == seq![a@, b@],
{
    let mut r: Vec<Action> = Vec::new();
    r.push(a);
    r.push(b);
    assert(action_views(r@) =~= seq![a@, b@]);
    r
}

/// Appends the actions of `more`.
pub fn append_actions(actions: &mut Vec<Action>, more: Vec<Action>)
    ensures
        action_views(final(actions)@) == action_views(old(actions)@) + action_views(more@),
{
    let mut rest = more;
    let ghost before = actions@;
    actions.append(&mut rest);
    assert(action_views(actions@) =~= action_views(before) + action_views(more@));
}

/// A file in the editor as values.
pub open spec fn edit_view(e: Option<(String, std::time::SystemTime)>) -> Option<
    (Seq<char>, std::time::SystemTime),
> {
    match e {
        Some((path, time)) => Some((path@, time)),
        None => None,
    }
}

/// What is selected of the terminal's text.
#[derive(Clone, Copy, Debug)]
pub struct Selection {
    pub is_selecting: bool,
    /// Row and column where it began.
    pub start: Option<(u16, u16)>,
    /// Row and column where it ends.
    pub end: Option<(u16, u16)>,
}

/// What the mouse drags.
#[derive(Clone, Copy, PartialEq, Eq, Structural, Debug)]
pub struct Drags {
    pub scrollbar: bool,
    pub sidebar_scrollbar: bool,
    /// The edge of the sidebar.
    pub sidebar: bool,
    pub term_scrollbar: bool,
}

/// The bookmarked commands, column by column.
pub struct CommandList {
    /// The labels.
    pub items: Vec<String>,
    pub commands: Vec<String>,
    pub infos: Vec<String>,
    pub mtimes: Vec<Option<std::time::SystemTime>>,
    /// The file that each command comes from.
    pub paths: Vec<Option<String>>,
}

pub ghost struct CommandListView {
    pub items: Seq<Seq<char>>,
    pub commands: Seq<Seq<char>>,
    pub infos: Seq<Seq<char>>,
    pub mtimes: Seq<Option<std::time::SystemTime>>,
    pub paths: Seq<Option<Seq<char>>>,
}

impl View for CommandList {
    type V = CommandListView;

    open spec fn view(&self) -> CommandListView {
        CommandListView {
            items: text::texts(self.items@),
            commands: text::texts(self.commands@),
            infos: text::texts(self.infos@),
            mtimes: self.mtimes@,
            paths: text::opt_texts(self.paths@),
        }
    }
}

/// The shell's history, column by column.
pub struct HistoryList {
    pub items: Vec<String>,
    pub commands: Vec<String>,
}

pub ghost struct HistoryListView {
    pub items: Seq<Seq<char>>,
    pub commands: Seq<Seq<char>>,
}

impl View for HistoryList {
    type V = HistoryListView;

    open spec fn view(&self) -> HistoryListView {
        HistoryListView {
            items: text::texts(self.items@),
            commands: text::texts(self.commands@),
        }
    }
}

/// The gists, column by column.
pub struct GistList {
    /// The labels.
    pub items: Vec<String>,
    pub commands: Vec<String>,
    pub infos: Vec<String>,
    pub mtimes: Vec<Option<std::time::SystemTime>>,
    pub paths: Vec<Option<String>>,
    pub remote_names: Vec<String>,
}

pub ghost struct GistListView {
    pub items: Seq<Seq<char>>,
    pub commands: Seq<Seq<char>>,
    pub infos: Seq<Seq<char>>,
    pub mtimes: Seq<Option<std::time::SystemTime>>,
    pub paths: Seq<Option<Seq<char>>>,
    pub remote_names: Seq<Seq<char>>,
}

impl View for GistList {
    type V = GistListView;

    open spec fn view(&self) -> GistListView {
        GistListView {
            items: text::texts(self.items@),
            commands: text::texts(self.commands@),
            infos: text::texts(self.infos@),
            mtimes: self.mtimes@,
            paths: text::opt_texts(self.paths@),
            remote_names: text::texts(self.remote_names@),
        }
    }
}

/// What the sidebar lists and how it is used.
pub struct Sidebar {
    /// The selected row and the first row shown.
    pub state: ListState,
    pub width: u16,
    pub mode: SidebarMode,
    pub search_query: String,
    pub is_search_focused: bool,
    /// When a row was last clicked, in nanoseconds since the start.
    pub last_click_time: Option<u64>,
    pub last_clicked_index: Option<usize>,
}

pub ghost struct SidebarView {
    pub state: ListState,
    pub width: u16,
    pub mode: SidebarMode,
    pub search_query: Seq<char>,
    pub is_search_focused: bool,
    pub last_click_time: Option<u64>,
    pub last_clicked_index: Option<usize>,
}

impl View for Sidebar {
    type V = SidebarView;

    open spec fn view(&self) -> SidebarView {
        SidebarView {
            state: self.state,
            width: self.width,
            mode: self.mode,
            search_query: self.search_query@,
            is_search_focused: self.is_search_focused,
            last_click_time: self.last_click_time,
            last_clicked_index: self.last_clicked_index,
        }
    }
}

/// What is known of the shell.
pub struct ShellWatch {
    pub pid: u32,
    /// Whether it runs a command.
    pub is_busy: bool,
    /// Whether it did when last looked at.
    pub was_busy: bool,
    /// The file in the editor and its time of change when it was opened.
    pub editing_file: Option<(String, std::time::SystemTime)>,
    /// Rounds since the git state was last read.
    pub git_counter: u32,
}

pub ghost struct ShellWatchView {
    pub pid: u32,
    pub is_busy: bool,
    pub was_busy: bool,
    pub editing_file: Option<(Seq<char>, std::time::SystemTime)>,
    pub git_counter: u32,
}

impl View for ShellWatch {
    type V = ShellWatchView;

    open spec fn view(&self) -> ShellWatchView {
        ShellWatchView {
            pid: self.pid,
            is_busy: self.is_busy,
            was_busy: self.was_busy,
            editing_file: edit_view(self.editing_file),
            git_counter: self.git_counter,
        }
    }
}

/// The settings as they are shown and typed.
pub struct Settings {
    pub is_shown: bool,
    pub github_user_code: Option<String>,
    pub github_verification_uri: Option<String>,
    pub github_device_code: Option<String>,
    pub login_error: Option<String>,
    /// The personal access token.
    pub pat_input: String,
    pub is_pat_focused: bool,
    pub update_url_input: String,
    pub is_update_url_focused: bool,
    pub update_disabled_reason: Option<String>,
    pub editor_input: String,
    pub is_editor_focused: bool,
}

pub ghost struct SettingsView {
    pub is_shown: bool,
    pub github_user_code: Option<Seq<char>>,
    pub github_verification_uri: Option<Seq<char>>,
    pub github_device_code: Option<Seq<char>>,
    pub login_error: Option<Seq<char>>,
    pub pat_input: Seq<char>,
    pub is_pat_focused: bool,
    pub update_url_input: Seq<char>,
    pub is_update_url_focused: bool,
    pub update_disabled_reason: Option<Seq<char>>,
    pub editor_input: Seq<char>,
    pub is_editor_focused: bool,
}

impl View for Settings {
    type V = SettingsView;

    open spec fn view(&self) -> SettingsView {
        SettingsView {
            is_shown: self.is_shown,
            github_user_code: text::opt_text(self.github_user_code),
            github_verification_uri: text::opt_text(self.github_verification_uri),
            github_device_code: text::opt_text(self.github_device_code),
            login_error: text::opt_text(self.login_error),
            pat_input: self.pat_input@,
            is_pat_focused: self.is_pat_focused,
            update_url_input: self.update_url_input@,
            is_update_url_focused: self.is_update_url_focused,
            update_disabled_reason: text::opt_text(self.update_disabled_reason),
            editor_input: self.editor_input@,
            is_editor_focused: self.is_editor_focused,
        }
    }
}

/// The questions that are open.
pub struct Dialogs {
    pub show_upload_confirm: bool,
    pub pending_gist_file: Option<String>,
    pub show_new_gist_dialog: bool,
    pub new_gist_name_input: String,
    pub show_delete_confirm: bool,
    pub gist_index_to_delete: Option<usize>,
}

pub ghost struct DialogsView {
    pub show_upload_confirm: bool,
    pub pending_gist_file: Option<Seq<char>>,
    pub show_new_gist_dialog: bool,
    pub new_gist_name_input: Seq<char>,
    pub show_delete_confirm: bool,
    pub gist_index_to_delete: Option<usize>,
}

impl View for Dialogs {
    type V = DialogsView;

    open spec fn view(&self) -> DialogsView {
        DialogsView {
            show_upload_confirm: self.show_upload_confirm,
            pending_gist_file: text::opt_text(self.pending_gist_file),
            show_new_gist_dialog: self.show_new_gist_dialog,
            new_gist_name_input: self.new_gist_name_input@,
            show_delete_confirm: self.show_delete_confirm,
            gist_index_to_delete: self.gist_index_to_delete,
        }
    }
}

/// The state of the dashboard.
pub struct App {
    /// The branch and state of the git repository, if there is one.
    pub git_info: Option<String>,
    /// Used and total memory in bytes.
    pub mem_usage: (u64, u64),
    pub selection: Selection,
    pub drags: Drags,
    pub commands: CommandList,
    pub history: HistoryList,
    pub gists: GistList,
    pub sidebar: Sidebar,
    pub shell: ShellWatch,
    pub show_menu: bool,
    /// Column and row of the mouse.
    pub mouse_pos: Option<(u16, u16)>,
    pub should_quit: bool,
    /// When a key was last pressed, in nanoseconds since the start.
    pub last_activity: u64,
    pub config: Config,
    pub auth_token: Option<String>,
    pub loading_gist: bool,
    pub settings: Settings,
    pub dialogs: Dialogs,
}

pub ghost struct AppView {
    pub git_info: Option<Seq<char>>,
    pub mem_usage: (u64, u64),
    pub selection: Selection,
    pub drags: Drags,
    pub commands: CommandListView,
    pub history: HistoryListView,
    pub gists: GistListView,
    pub sidebar: SidebarView,
    pub shell: ShellWatchView,
    pub show_menu: bool,
    pub mouse_pos: Option<(u16, u16)>,
    pub should_quit: bool,
    pub last_activity: u64,
    pub config: config::ConfigView,
    pub auth_token: Option<Seq<char>>,
    pub loading_gist: bool,
    pub settings: SettingsView,
    pub dialogs: DialogsView,
}

impl View for App {
    type V = AppView;

    open spec fn view(&self) -> AppView {
        AppView {
            git_info: text::opt_text(self.git_info),
            mem_usage: self.mem_usage,
            selection: self.selection,
            drags: self.drags,
            commands: self.commands@,
            history: self.history@,
            gists: self.gists@,
            sidebar: self.sidebar@,
            shell: self.shell@,
            show_menu: self.show_menu,
            mouse_pos: self.mouse_pos,
            should_quit: self.should_quit,
            last_activity: self.last_activity,
            config: self.config@,
            auth_token: text::opt_text(self.auth_token),
            loading_gist: self.loading_gist,
            settings: self.settings@,
            dialogs: self.dialogs@,
        }
    }
}

/// How many of three flags are set.
pub open spec fn flags(a: bool, b: bool, c: bool) -> int {
    (if a {
        1int
    } else {
        0
    }) + (if b {
        1int
    } else {
        0
    }) + (if c {
        1int
    } else {
        0
    })
}

impl AppView {
    /// What every state of the dashboard keeps to: the columns of each list are
    /// equally long, a selection has both ends, a question of deletion has its
    /// gist, a question of upload its file, and at most one field of the
    /// settings has the focus.
    pub open spec fn wf(self) -> bool {
        &&& self.commands.commands.len() == self.commands.items.len()
        &&& self.commands.infos.len() == self.commands.items.len()
        &&& self.commands.mtimes.len() == self.commands.items.len()
        &&& self.commands.paths.len() == self.commands.items.len()
        &&& self.history.commands.len() == self.history.items.len()
        &&& self.gists.commands.len() == self.gists.items.len()
        &&& self.gists.infos.len() == self.gists.items.len()
        &&& self.gists.mtimes.len() == self.gists.items.len()
        &&& self.gists.paths.len() == self.gists.items.len()
        &&& self.gists.remote_names.len() == self.gists.items.len()
        &&& self.selection.start is Some == self.selection.end is Some
        &&& self.selection.is_selecting ==> self.selection.start is Some
        &&& self.dialogs.show_delete_confirm == self.dialogs.gist_index_to_delete is Some
        &&& self.dialogs.pending_gist_file is Some ==> self.dialogs.show_upload_confirm
        &&& flags(
            self.settings.is_pat_focused,
            self.settings.is_update_url_focused,
            self.settings.is_editor_focused,
        ) <= 1
        &&& self.shell.git_counter < 4
    }

    /// An item of a status bar is shown.
    pub open spec fn shows_item(self, item: config::ItemView) -> bool {
        match item.condition {
            Some(ConditionType::HasGit) => self.git_info is Some,
            Some(ConditionType::HasSelection) => self.selection.start is Some
                && self.selection.end is Some && !self.selection.is_selecting,
            None => true,
        }
    }
}

/// The state at the start.
pub open spec fn first_state(
    commands: CommandListView,
    shell_pid: u32,
    config: config::ConfigView,
    now: u64,
) -> AppView {
    let token = config::usable_token(config.auth.personal_access_token);
    AppView {
        git_info: None,
        mem_usage: (0, 0),
        selection: Selection { is_selecting: false, start: None, end: None },
        drags: Drags {
            scrollbar: false,
            sidebar_scrollbar: false,
            sidebar: false,
            term_scrollbar: false,
        },
        commands,
        history: HistoryListView { items: Seq::empty(), commands: Seq::empty() },
        gists: GistListView {
            items: Seq::empty(),
            commands: Seq::empty(),
            infos: Seq::empty(),
            mtimes: Seq::empty(),
            paths: Seq::empty(),
            remote_names: Seq::empty(),
        },
        sidebar: SidebarView {
            state: ListState { selected: Some(0), offset: 0 },
            width: 40,
            mode: SidebarMode::Commands,
            search_query: Seq::empty(),
            is_search_focused: false,
            last_click_time: None,
            last_clicked_index: None,
        },
        shell: ShellWatchView {
            pid: shell_pid,
            is_busy: false,
            was_busy: false,
            editing_file: None,
            git_counter: 0,
        },
        show_menu: false,
        mouse_pos: None,
        should_quit: false,
        last_activity: now,
        config,
        auth_token: token,
        loading_gist: false,
        settings: SettingsView {
            is_shown: false,
            github_user_code: None,
            github_verification_uri: None,
            github_device_code: None,
            login_error: None,
            pat_input: match token {
                Some(t) => t,
                None => Seq::empty(),
            },
            is_pat_focused: false,
            update_url_input: config.auth.update_url,
            is_update_url_focused: false,
            update_disabled_reason: None,
            editor_input: config.external_editor,
            is_editor_focused: false,
        },
        dialogs: DialogsView {
            show_upload_confirm: false,
            pending_gist_file: None,
            show_new_gist_dialog: false,
            new_gist_name_input: Seq::empty(),
            show_delete_confirm: false,
            gist_index_to_delete: None,
        },
    }
}

/// Empty texts.
fn no_texts() -> (r: Vec<String>)
    ensures
        text::texts(r@) == Seq::<Seq<char>>::empty(),
{
    let r: Vec<String> = Vec::new();
    assert(text::texts(r@) =~= Seq::empty());
    r
}

/// An empty text.
fn no_text() -> (r: String)
    ensures
        r@ == Seq::<char>::empty(),
{
    let r = String::new();
    assert(r@ =~= Seq::empty());
    r
}

impl Settings {
    /// The settings at the start, with the token that is logged in with.
    fn new(config: &Config, token: &Option<String>) -> (r: Settings)
        ensures
            r@ == (SettingsView {
                is_shown: false,
                github_user_code: None,
                github_verification_uri: None,
                github_device_code: None,
                login_error: None,
                pat_input: match *token {
                    Some(t) => t@,
                    None => Seq::empty(),
                },
                is_pat_focused: false,
                update_url_input: config@.auth.update_url,
                is_update_url_focused: false,
                update_disabled_reason: None,
                editor_input: config@.external_editor,
                is_editor_focused: false,
            }),
    {
        Settings {
            is_shown: false,
            github_user_code: None,
            github_verification_uri: None,
            github_device_code: None,
            login_error: None,
            pat_input: match token {
                Some(t) => t.clone(),
                None => no_text(),
            },
            is_pat_focused: false,
            update_url_input: config.auth.update_url.clone(),
            is_update_url_focused: false,
            update_disabled_reason: None,
            editor_input: config.external_editor.clone(),
            is_editor_focused: false,
        }
    }
}

impl GistList {
    /// No gists.
    pub fn empty() -> (r: GistList)
        ensures
            r@ == (GistListView {
                items: Seq::empty(),
                commands: Seq::empty(),
                infos: Seq::empty(),
                mtimes: Seq::empty(),
                paths: Seq::empty(),
                remote_names: Seq::empty(),
            }),
    {
        let paths: Vec<Option<String>> = Vec::new();
        assert(text::opt_texts(paths@) =~= Seq::empty());
        GistList {
            items: no_texts(),
            commands: no_texts(),
            infos: no_texts(),
            mtimes: Vec::new(),
            paths,
            remote_names: no_texts(),
        }
    }
}

impl App {
    /// The state at the start: the commands read, the number of the shell's
    /// process, the configuration and the time.
    pub fn new(commands: CommandList, shell_pid: u32, config: Config, now: u64) -> (r: App)
        ensures
            r@ == first_state(commands@, shell_pid, config@, now),
    {
        let auth_token = config::login_token(&config.auth);
        let settings = Settings::new(&config, &auth_token);
        App {
            git_info: None,
            mem_usage: (0, 0),
            selection: Selection { is_selecting: false, start: None, end: None },
            drags: Drags {
                scrollbar: false,
                sidebar_scrollbar: false,
                sidebar: false,
                term_scrollbar: false,
            },
            commands,
            history: HistoryList { items: no_texts(), commands: no_texts() },
            gists: GistList::empty(),
            sidebar: Sidebar {
                state: ListState { selected: Some(0), offset: 0 },
                width: 40,
                mode: SidebarMode::Commands,
                search_query: no_text(),
                is_search_focused: false,
                last_click_time: None,
                last_clicked_index: None,
            },
            shell: ShellWatch {
                pid: shell_pid,
                is_busy: false,
                was_busy: false,
                editing_file: None,
                git_counter: 0,
            },
            show_menu: false,
            mouse_pos: None,
            should_quit: false,
            last_activity: now,
            config,
            auth_token,
            loading_gist: false,
            settings,
            dialogs: Dialogs {
                show_upload_confirm: false,
                pending_gist_file: None,
                show_new_gist_dialog: false,
                new_gist_name_input: no_text(),
                show_delete_confirm: false,
                gist_index_to_delete: None,
            },
        }
    }

    /// What to do first: the gists are fetched where the user is logged in.
    pub fn first_actions(&self) -> (r: Vec<Action>)
        ensures
            action_views(r@) == (if self@.auth_token is Some {
                seq![ActionView::Post(MessageView::FetchGists)]
            } else {
                Seq::empty()
            }),
    {
        if self.auth_token.is_some() {
            one_action(Action::Post(Message::FetchGists))
        } else {
            no_actions()
        }
    }
}

/// The state at the start is well formed where the columns of the commands are
/// equally long.
pub proof fn law_first_state_wf(
    commands: CommandListView,
    shell_pid: u32,
    config: config::ConfigView,
    now: u64,
)
    requires
        commands.commands.len() == commands.items.len(),
        commands.infos.len() == commands.items.len(),
        commands.mtimes.len() == commands.items.len(),
        commands.paths.len() == commands.items.len(),
    ensures
        first_state(commands, shell_pid, config, now).wf(),
{
}

impl App {
    /// Whether an item of a status bar is shown.
    pub fn is_item_visible(&self, item: &StatusBarItem) -> (r: bool)
        ensures
            r == self@.shows_item(item@),
    {
        match item.condition {
            Some(ConditionType::HasGit) => self.git_info.is_some(),
            Some(ConditionType::HasSelection) => self.selection.start.is_some()
                && self.selection.end.is_some() && !self.selection.is_selecting,
            None => true,
        }
    }
}

/// At the start the commands are listed from their first row on, with nothing
/// searched for, selected or dragged; no dialog is open, and a token of the
/// configuration that serves as a login is used and shown.
pub proof fn law_first_state(
    commands: CommandListView,
    pid: u32,
    conf: config::ConfigView,
    now: u64,
)
    ensures
        ({
            let m = first_state(commands, pid, conf, now);
            let token = config::usable_token(conf.auth.personal_access_token);
            &&& m.commands == commands
            &&& m.config == conf
            &&& m.shell.pid == pid && !m.shell.is_busy && !m.shell.was_busy
                && m.shell.editing_file is None
            &&& m.sidebar.mode is Commands && m.sidebar.search_query.len() == 0
                && !m.sidebar.is_search_focused && m.sidebar.state.selected == Some(0usize)
                && m.sidebar.state.offset == 0 && m.sidebar.width == 40
            &&& m.history.items.len() == 0 && m.gists.items.len() == 0
            &&& !m.show_menu && !m.settings.is_shown && !m.dialogs.show_upload_confirm
                && !m.dialogs.show_delete_confirm && !m.dialogs.show_new_gist_dialog
            &&& !m.should_quit && !m.loading_gist
            &&& m.selection.start is None && m.selection.end is None && !m.selection.is_selecting
            &&& m.auth_token == token
            &&& token matches Some(t) ==> m.settings.pat_input == t
            &&& token is None ==> m.settings.pat_input.len() == 0
            &&& m.settings.editor_input == conf.external_editor
            &&& m.settings.update_url_input == conf.auth.update_url
            &&& m.settings.update_disabled_reason is None
            &&& m.last_activity == now
        }),
{
}

/// An item of a status bar without a condition is always shown; one for git only
/// in a repository, one for a selection only once something is selected.
pub proof fn law_items_have_conditions(m: AppView, item: config::ItemView)
    ensures
        item.condition is None ==> m.shows_item(item),
        item.condition == Some(ConditionType::HasGit) ==> m.shows_item(item) == (m.git_info is Some),
        item.condition == Some(ConditionType::HasSelection) ==> m.shows_item(item) == (
        m.selection.start is Some && m.selection.end is Some && !m.selection.is_selecting),
{
}

} // verus!
