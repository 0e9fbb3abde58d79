//! What the event loop's messages do.

use crate::app;
use crate::app::{Action, App, Event, GistEntry, GistList, Message, SidebarMode};
use crate::config;
use crate::handlers;
use crate::keys;
use crate::screen;
use crate::shell;
use crate::text;
use crate::ui::geometry::Rect;
use vstd::prelude::*;
use vstd::string::*;

verus! {

/// What a new script holds.
pub const NEW_SCRIPT: &'static str = "#!/bin/bash\n# IDENTIFIER description tags\n\necho 'Hello World'\n";

/// The name of the file for a new script: made of the name given, or else of
/// the time.
pub open spec fn script_filename(name: Seq<char>, timestamp: Seq<char>) -> Seq<char> {
    let given = text::trim(name);
    if given.len() == 0 {
        "script_"@ + timestamp + ".sh"@
    } else {
        "script-"@ + text::replace(given, " "@, "_"@) + ".sh"@
    }
}

/// The name of the file for a new script.
pub fn new_script_filename(name: &str, timestamp: &str) -> (r: String)
    ensures
        r@ == script_filename(name@, timestamp@),
{
    let given = text::trim_text(name);
    if given.as_str().is_empty() {
        text::concat3("script_", timestamp, ".sh")
    } else {
        let safe = text::replace_all(given.as_str(), " ", "_");
        text::concat3("script-", safe.as_str(), ".sh")
    }
}

/// The digits of a year, a month and a day, an underscore, and those of hours,
/// minutes and seconds. A year beyond four digits has more, behind a sign.
pub open spec fn is_timestamp(t: Seq<char>) -> bool {
    let n = t.len() as int;
    &&& n >= 15
    &&& t[n - 7] == '_'
    &&& forall|i: int| n - 11 <= i < n && i != n - 7 ==> text::is_digit(#[trigger] t[i])
    &&& n == 15 ==> forall|i: int| 0 <= i < 8 ==> text::is_digit(#[trigger] t[i])
}

/// The local time in digits, as `chrono::Local::now` and its `format` give it:
/// the year, two digits each for the month and the day, an underscore, and two
/// digits each for hours, minutes and seconds. Which time it is rests on the
/// clock and the time zone and is left unsaid.
#[verifier::external_body]
fn local_timestamp() -> (r: String)
    ensures
        is_timestamp(r@),
{
    chrono::Local::now().format("%Y%m%d_%H%M%S").to_string()
}

/// The address of an update for the processor at hand.
pub open spec fn update_address(url: Seq<char>, is_arm: bool) -> Seq<char> {
    if is_arm && !text::contains(url, "/tbm.arm"@) {
        text::replace(url, "/download/tbm"@, "/download/tbm.arm"@)
    } else {
        url
    }
}

/// The address of an update for the processor at hand.
pub fn update_url(url: &str, is_arm: bool) -> (r: String)
    ensures
        r@ == update_address(url@, is_arm),
{
    if is_arm && !text::text_contains(url, "/tbm.arm") {
        text::replace_all(url, "/download/tbm", "/download/tbm.arm")
    } else {
        url.to_owned()
    }
}

/// The gists without row `i`.
pub open spec fn gists_without(g: app::GistListView, i: int) -> app::GistListView {
    app::GistListView {
        items: g.items.remove(i),
        commands: g.commands.remove(i),
        infos: g.infos.remove(i),
        mtimes: g.mtimes.remove(i),
        paths: g.paths.remove(i),
        remote_names: g.remote_names.remove(i),
    }
}

/// The gists with one more in front.
pub open spec fn gists_with(e: app::GistEntryView, g: app::GistListView) -> app::GistListView {
    app::GistListView {
        items: seq![e.label] + g.items,
        commands: seq![e.command] + g.commands,
        infos: seq![e.info] + g.infos,
        mtimes: seq![e.mtime] + g.mtimes,
        paths: seq![e.path] + g.paths,
        remote_names: seq![e.remote_name] + g.remote_names,
    }
}

/// Gists column by column.
pub open spec fn gist_columns(entries: Seq<app::GistEntryView>) -> app::GistListView {
    app::GistListView {
        items: entries.map_values(|e: app::GistEntryView| e.label),
        commands: entries.map_values(|e: app::GistEntryView| e.command),
        infos: entries.map_values(|e: app::GistEntryView| e.info),
        mtimes: entries.map_values(|e: app::GistEntryView| e.mtime),
        paths: entries.map_values(|e: app::GistEntryView| e.path),
        remote_names: entries.map_values(|e: app::GistEntryView| e.remote_name),
    }
}

/// What is asked for when the gist in row `i` is deleted: its file goes, and the
/// gist at GitHub where the user is logged in.
pub open spec fn deletions(m: app::AppView, i: int) -> Seq<app::ActionView> {
    let local = match m.gists.paths[i] {
        Some(path) => seq![app::ActionView::RemoveFile(path)],
        None => Seq::empty(),
    };
    let remote = match m.auth_token {
        Some(token) => seq![
            app::ActionView::DeleteRemote { token, remote_name: m.gists.remote_names[i] },
        ],
        None => Seq::empty(),
    };
    local + remote
}

/// What a message does; `is_arm` tells the processor, `timestamp` is the local
/// time in digits. Events of the terminal are taken elsewhere.
pub open spec fn message_taken(
    m: app::AppView,
    msg: app::MessageView,
    is_arm: bool,
    timestamp: Seq<char>,
) -> (app::AppView, Seq<app::ActionView>) {
    match msg {
        app::MessageView::DeviceCodeSuccess(device_code, user_code, uri) => (
            app::AppView {
                settings: app::SettingsView {
                    github_device_code: Some(device_code),
                    github_user_code: Some(user_code),
                    github_verification_uri: Some(uri),
                    login_error: None,
                    ..m.settings
                },
                ..m
            },
            seq![
                app::ActionView::PollToken {
                    client_id: match m.config.auth.github_client_id {
                        Some(id) => id,
                        None => Seq::empty(),
                    },
                    device_code,
                },
            ],
        ),
        app::MessageView::AuthSuccess(token) => (
            app::AppView {
                auth_token: Some(token),
                config: config::ConfigView {
                    auth: config::AuthView {
                        personal_access_token: Some(token),
                        ..m.config.auth
                    },
                    ..m.config
                },
                settings: app::SettingsView { is_shown: false, login_error: None, ..m.settings },
                ..m
            },
            seq![app::ActionView::SaveConfig],
        ),
        app::MessageView::AuthError(error) => (
            app::AppView {
                settings: app::SettingsView { login_error: Some(error), ..m.settings },
                ..m
            },
            Seq::empty(),
        ),
        app::MessageView::FetchGists => match m.auth_token {
            Some(token) => (
                app::AppView { loading_gist: true, ..m },
                seq![app::ActionView::DownloadGists { token }],
            ),
            None => (
                app::AppView {
                    loading_gist: true,
                    settings: app::SettingsView {
                        login_error: Some("Not logged in to GitHub."@),
                        is_shown: true,
                        ..m.settings
                    },
                    ..m
                },
                Seq::empty(),
            ),
        },
        app::MessageView::DeleteGist(i) => if i < m.gists.items.len() {
            (
                app::AppView { gists: gists_without(m.gists, i as int), ..m },
                deletions(m, i as int),
            )
        } else {
            (m, Seq::empty())
        },
        app::MessageView::CreateNewGist => (
            app::AppView {
                dialogs: app::DialogsView {
                    show_new_gist_dialog: true,
                    new_gist_name_input: Seq::empty(),
                    ..m.dialogs
                },
                ..m
            },
            Seq::empty(),
        ),
        app::MessageView::ConfirmNewGistName(name) => (
            app::AppView {
                dialogs: app::DialogsView { show_new_gist_dialog: false, ..m.dialogs },
                ..m
            },
            seq![
                app::ActionView::CreateScript { filename: script_filename(name, timestamp) },
            ],
        ),
        app::MessageView::UpdateBinary => (
            m,
            seq![
                app::ActionView::UpdateProgram {
                    url: update_address(m.settings.update_url_input, is_arm),
                },
            ],
        ),
        app::MessageView::GistsFetched(entries) => (
            app::AppView {
                loading_gist: false,
                gists: gist_columns(entries),
                sidebar: app::SidebarView {
                    mode: SidebarMode::Gists,
                    state: app::ListState { selected: Some(0), ..m.sidebar.state },
                    ..m.sidebar
                },
                ..m
            },
            Seq::empty(),
        ),
        app::MessageView::GistUploadStatus(message, _) => (
            m,
            seq![app::ActionView::Write(shell::echo_command(message))],
        ),
        app::MessageView::Event(_) | app::MessageView::PtyData | app::MessageView::Tick => (
            m,
            Seq::empty(),
        ),
    }
}

impl GistList {
    /// Adds a gist at the end.
    pub fn push(&mut self, e: &GistEntry)
        ensures
            final(self)@ == (app::GistListView {
                items: old(self)@.items.push(e@.label),
                commands: old(self)@.commands.push(e@.command),
                infos: old(self)@.infos.push(e@.info),
                mtimes: old(self)@.mtimes.push(e@.mtime),
                paths: old(self)@.paths.push(e@.path),
                remote_names: old(self)@.remote_names.push(e@.remote_name),
            }),
    {
        let ghost at = (
            self.items@,
            self.commands@,
            self.infos@,
            self.paths@,
            self.remote_names@,
        );
        self.items.push(e.label.clone());
        self.commands.push(e.command.clone());
        self.infos.push(e.info.clone());
        self.mtimes.push(e.mtime);
        self.paths.push(text::copy_opt(&e.path));
        self.remote_names.push(e.remote_name.clone());
        assert(text::texts(self.items@) =~= text::texts(at.0).push(e@.label));
        assert(text::texts(self.commands@) =~= text::texts(at.1).push(e@.command));
        assert(text::texts(self.infos@) =~= text::texts(at.2).push(e@.info));
        assert(text::opt_texts(self.paths@) =~= text::opt_texts(at.3).push(e@.path));
        assert(text::texts(self.remote_names@) =~= text::texts(at.4).push(e@.remote_name));
    }

    /// Adds a gist in front.
    pub fn push_front(&mut self, e: &GistEntry)
        ensures
            final(self)@ == gists_with(e@, old(self)@),
    {
        let ghost at = (
            self.items@,
            self.commands@,
            self.infos@,
            self.paths@,
            self.remote_names@,
            self.mtimes@,
        );
        self.items.insert(0, e.label.clone());
        self.commands.insert(0, e.command.clone());
        self.infos.insert(0, e.info.clone());
        self.mtimes.insert(0, e.mtime);
        self.paths.insert(0, text::copy_opt(&e.path));
        self.remote_names.insert(0, e.remote_name.clone());
        assert(text::texts(self.items@) =~= seq![e@.label] + text::texts(at.0));
        assert(text::texts(self.commands@) =~= seq![e@.command] + text::texts(at.1));
        assert(text::texts(self.infos@) =~= seq![e@.info] + text::texts(at.2));
        assert(text::opt_texts(self.paths@) =~= seq![e@.path] + text::opt_texts(at.3));
        assert(text::texts(self.remote_names@) =~= seq![e@.remote_name] + text::texts(at.4));
        assert(self.mtimes@ =~= seq![e@.mtime] + at.5);
    }

    /// Removes the gist in row `i`.
    pub fn remove(&mut self, i: usize)
        requires
            i < old(self)@.items.len(),
            old(self)@.commands.len() == old(self)@.items.len(),
            old(self)@.infos.len() == old(self)@.items.len(),
            old(self)@.mtimes.len() == old(self)@.items.len(),
            old(self)@.paths.len() == old(self)@.items.len(),
            old(self)@.remote_names.len() == old(self)@.items.len(),
        ensures
            final(self)@ == gists_without(old(self)@, i as int),
    {
        let ghost before = self@;
        let _ = self.items.remove(i);
        let _ = self.commands.remove(i);
        let _ = self.infos.remove(i);
        let _ = self.mtimes.remove(i);
        let _ = self.paths.remove(i);
        let _ = self.remote_names.remove(i);
        assert(text::texts(self.items@) =~= before.items.remove(i as int));
        assert(text::texts(self.commands@) =~= before.commands.remove(i as int));
        assert(text::texts(self.infos@) =~= before.infos.remove(i as int));
        assert(text::opt_texts(self.paths@) =~= before.paths.remove(i as int));
        assert(text::texts(self.remote_names@) =~= before.remote_names.remove(i as int));
    }

    /// Gists column by column.
    pub fn from_entries(entries: &Vec<GistEntry>) -> (r: GistList)
        ensures
            r@ == gist_columns(app::entry_views(entries@)),
    {
        let ghost views = app::entry_views(entries@);
        let mut r = GistList::empty();
        let mut i: usize = 0;
        let ghost none = gist_columns(views.take(0));
        assert(r@.items =~= none.items);
        assert(r@.commands =~= none.commands);
        assert(r@.infos =~= none.infos);
        assert(r@.mtimes =~= none.mtimes);
        assert(r@.paths =~= none.paths);
        assert(r@.remote_names =~= none.remote_names);
        while i < entries.len()
            invariant
                i <= entries@.len(),
                views == app::entry_views(entries@),
                r@ == gist_columns(views.take(i as int)),
            decreases entries@.len() - i,
        {
            let ghost before = r@;
            r.push(&entries[i]);
            let ghost after = gist_columns(views.take(i as int + 1));
            proof {
                assert(views[i as int] == entries@[i as int]@);
                assert(r@.items =~= after.items);
                assert(r@.commands =~= after.commands);
                assert(r@.infos =~= after.infos);
                assert(r@.mtimes =~= after.mtimes);
                assert(r@.paths =~= after.paths);
                assert(r@.remote_names =~= after.remote_names);
            }
            i = i + 1;
        }
        assert(views.take(views.len() as int) =~= views);
        r
    }
}

impl App {
    fn delete_gist(&mut self, i: usize) -> (r: Vec<Action>)
        requires
            old(self)@.wf(),
        ensures
            final(self)@ == message_taken(
                old(self)@,
                app::MessageView::DeleteGist(i),
                false,
                Seq::empty(),
            ).0,
            app::action_views(r@) == message_taken(
                old(self)@,
                app::MessageView::DeleteGist(i),
                false,
                Seq::empty(),
            ).1,
    {
        assert(self@.gists.paths.len() == self.gists.paths@.len());
        if i >= self.gists.paths.len() {
            return app::no_actions();
        }
        assert(self@.gists.paths[i as int] == text::opt_text(self.gists.paths@[i as int]));
        assert(self@.gists.remote_names.len() == self.gists.remote_names@.len());
        assert(self@.gists.remote_names[i as int] == self.gists.remote_names@[i as int]@);
        let mut actions = match text::copy_opt(&self.gists.paths[i]) {
            Some(path) => app::one_action(Action::RemoveFile(path)),
            None => app::no_actions(),
        };
        let remote = match &self.auth_token {
            Some(token) => app::one_action(
                Action::DeleteRemote {
                    token: token.clone(),
                    remote_name: self.gists.remote_names[i].clone(),
                },
            ),
            None => app::no_actions(),
        };
        app::append_actions(&mut actions, remote);
        self.gists.remove(i);
        actions
    }

    fn take_device_code(&mut self, device_code: String, user_code: String, uri: String) -> (r: Vec<
        Action,
    >)
        ensures
            final(self)@ == message_taken(
                old(self)@,
                app::MessageView::DeviceCodeSuccess(device_code@, user_code@, uri@),
                false,
                Seq::empty(),
            ).0,
            app::action_views(r@) == message_taken(
                old(self)@,
                app::MessageView::DeviceCodeSuccess(device_code@, user_code@, uri@),
                false,
                Seq::empty(),
            ).1,
    {
        self.settings.github_device_code = Some(device_code.clone());
        self.settings.github_user_code = Some(user_code);
        self.settings.github_verification_uri = Some(uri);
        self.settings.login_error = None;
        let client_id = match text::copy_opt(&self.config.auth.github_client_id) {
            Some(id) => id,
            None => String::new(),
        };
        assert(client_id@ =~= match self@.config.auth.github_client_id {
            Some(id) => id,
            None => Seq::empty(),
        });
        app::one_action(Action::PollToken { client_id, device_code })
    }

    fn take_token(&mut self, token: String) -> (r: Vec<Action>)
        ensures
            final(self)@ == message_taken(
                old(self)@,
                app::MessageView::AuthSuccess(token@),
                false,
                Seq::empty(),
            ).0,
            app::action_views(r@) == seq![app::ActionView::SaveConfig],
    {
        self.auth_token = Some(token.clone());
        self.config.auth.personal_access_token = Some(token);
        self.settings.is_shown = false;
        self.settings.login_error = None;
        app::one_action(Action::SaveConfig)
    }

    fn fetch_gists(&mut self) -> (r: Vec<Action>)
        ensures
            final(self)@ == message_taken(
                old(self)@,
                app::MessageView::FetchGists,
                false,
                Seq::empty(),
            ).0,
            app::action_views(r@) == message_taken(
                old(self)@,
                app::MessageView::FetchGists,
                false,
                Seq::empty(),
            ).1,
    {
        self.loading_gist = true;
        match text::copy_opt(&self.auth_token) {
            Some(token) => app::one_action(Action::DownloadGists { token }),
            None => {
                self.settings.login_error = Some("Not logged in to GitHub.".to_owned());
                self.settings.is_shown = true;
                app::no_actions()
            },
        }
    }

    fn take_gists(&mut self, entries: &Vec<GistEntry>)
        ensures
            final(self)@ == message_taken(
                old(self)@,
                app::MessageView::GistsFetched(app::entry_views(entries@)),
                false,
                Seq::empty(),
            ).0,
    {
        self.loading_gist = false;
        self.gists = GistList::from_entries(entries);
        self.sidebar.mode = SidebarMode::Gists;
        self.sidebar.state.selected = Some(0);
    }

    fn take_error(&mut self, error: String) -> (r: Vec<Action>)
        ensures
            final(self)@ == message_taken(old(self)@, app::MessageView::AuthError(error@), false, Seq::empty()).0,
            app::action_views(r@) == message_taken(old(self)@, app::MessageView::AuthError(error@), false, Seq::empty()).1,
    {
        self.settings.login_error = Some(error);
        app::no_actions()
    }

    fn ask_gist_name(&mut self) -> (r: Vec<Action>)
        ensures
            final(self)@ == message_taken(old(self)@, app::MessageView::CreateNewGist, false, Seq::empty()).0,
            app::action_views(r@) == message_taken(old(self)@, app::MessageView::CreateNewGist, false, Seq::empty()).1,
    {
        self.dialogs.show_new_gist_dialog = true;
        self.dialogs.new_gist_name_input = String::new();
        assert(self.dialogs.new_gist_name_input@ =~= Seq::empty());
        app::no_actions()
    }

    fn confirm_gist_name(&mut self, name: String, timestamp: &str) -> (r: Vec<Action>)
        ensures
            final(self)@ == message_taken(old(self)@, app::MessageView::ConfirmNewGistName(name@), false, timestamp@).0,
            app::action_views(r@) == message_taken(old(self)@, app::MessageView::ConfirmNewGistName(name@), false, timestamp@).1,
    {
        self.dialogs.show_new_gist_dialog = false;
        let filename = new_script_filename(name.as_str(), timestamp);
        app::one_action(Action::CreateScript { filename })
    }

    /// Takes a message that is no event of the terminal. `timestamp` is the
    /// local time in digits.
    pub fn take_message_at(&mut self, msg: Message, is_arm: bool, timestamp: &str) -> (r: Vec<Action>)
        requires
            old(self)@.wf(),
        ensures
            final(self)@ == message_taken(old(self)@, msg@, is_arm, timestamp@).0,
            app::action_views(r@) == message_taken(old(self)@, msg@, is_arm, timestamp@).1,
    {
        match msg {
            Message::DeviceCodeSuccess(device_code, user_code, uri) => self.take_device_code(
                device_code,
                user_code,
                uri,
            ),
            Message::AuthSuccess(token) => self.take_token(token),
            Message::AuthError(error) => self.take_error(error),
            Message::FetchGists => self.fetch_gists(),
            Message::DeleteGist(i) => self.delete_gist(i),
            Message::CreateNewGist => self.ask_gist_name(),
            Message::ConfirmNewGistName(name) => self.confirm_gist_name(name, timestamp),
            Message::UpdateBinary => {
                let url = update_url(self.settings.update_url_input.as_str(), is_arm);
                app::one_action(Action::UpdateProgram { url })
            },
            Message::GistsFetched(entries) => {
                self.take_gists(&entries);
                app::no_actions()
            },
            Message::GistUploadStatus(message, _) => {
                app::one_action(Action::Write(shell::echo_line(message.as_str())))
            },
            Message::Event(_) | Message::PtyData | Message::Tick => app::no_actions(),
        }
    }

    /// Takes a message that is no event of the terminal. A new script without a
    /// name is named after the time, whatever that is.
    pub fn take_message(&mut self, msg: Message, is_arm: bool) -> (r: Vec<Action>)
        requires
            old(self)@.wf(),
        ensures
            exists|timestamp: Seq<char>|
                #![trigger message_taken(old(self)@, msg@, is_arm, timestamp)]
                is_timestamp(timestamp) && final(self)@ == message_taken(old(self)@, msg@, is_arm, timestamp).0
                    && app::action_views(r@) == message_taken(
                    old(self)@,
                    msg@,
                    is_arm,
                    timestamp,
                ).1,
    {
        let timestamp = local_timestamp();
        assert(is_timestamp(timestamp@));
        self.take_message_at(msg, is_arm, timestamp.as_str())
    }

    /// Takes up a script that was just made: it is opened in the editor and
    /// listed first.
    pub fn open_new_script(
        &mut self,
        path: &str,
        filename: &str,
        mtime: std::time::SystemTime,
    ) -> (r: Vec<Action>)
        ensures
            final(self)@ == script_opened(old(self)@, path@, filename@, mtime).0,
            app::action_views(r@) == script_opened(old(self)@, path@, filename@, mtime).1,
    {
        self.shell.editing_file = Some((path.to_owned(), mtime));
        let line = shell::edit_line(self.config.external_editor.as_str(), path);
        let entry = GistEntry {
            label: "NEW SCRIPT".to_owned(),
            info: "__SCRIPT__".to_owned(),
            command: path.to_owned(),
            mtime: Some(mtime),
            path: Some(path.to_owned()),
            remote_name: filename.to_owned(),
        };
        self.gists.push_front(&entry);
        app::one_action(Action::Write(line))
    }

    /// Notes the file that is opened in the editor, if its time of change is
    /// known.
    pub fn track_edit(&mut self, path: &str, mtime: Option<std::time::SystemTime>)
        ensures
            final(self)@ == (app::AppView {
                shell: app::ShellWatchView {
                    editing_file: match mtime {
                        Some(time) => Some((path@, time)),
                        None => old(self)@.shell.editing_file,
                    },
                    ..old(self)@.shell
                },
                ..old(self)@
            }),
    {
        if let Some(time) = mtime {
            self.shell.editing_file = Some((path.to_owned(), time));
        }
    }

    /// Takes an event of the terminal: a key, what the mouse does, or a change
    /// of size. The result is `None` where the screen is too small to tell what
    /// the mouse does, or the terminal's view too high to be moved; nothing is
    /// said of the state then.
    pub fn take_event(
        &mut self,
        event: Event,
        size: Rect,
        terminal: &vt100::Screen,
        now: u64,
        exe: &str,
    ) -> (r: Option<Vec<Action>>)
        requires
            old(self)@.wf(),
            event is Mouse ==> handlers::bars::bars_placeable(old(self)@),
        ensures
            match event {
                Event::Key(k) => {
                    let sc = screen::screen_state(*terminal);
                    match r {
                        Some(actions) => sc.can_scroll() && final(self)@ == keys::key_pressed(
                            old(self)@,
                            k,
                            sc,
                            now,
                        ).0 && app::action_views(actions@) == keys::key_pressed(
                            old(self)@,
                            k,
                            sc,
                            now,
                        ).1,
                        None => !sc.can_scroll(),
                    }
                },
                Event::Mouse(e) => {
                    let m = moused(old(self)@, e);
                    let sc = screen::screen_state(*terminal);
                    match r {
                        Some(actions) => sc.can_scroll() && handlers::is_click_outcome(
                            m,
                            e,
                            size,
                            sc,
                            now,
                            exe@,
                            Some((final(self)@, app::action_views(actions@))),
                        ),
                        None => !sc.can_scroll() || handlers::is_click_outcome(
                            m,
                            e,
                            size,
                            sc,
                            now,
                            exe@,
                            None,
                        ),
                    }
                },
                _ => r matches Some(actions) && final(self)@ == old(self)@ && actions@.len() == 0,
            },
    {
        match event {
            Event::Key(k) => {
                let sc = screen::read_state(terminal);
                if sc.scrollback > usize::MAX - 20 {
                    return None;
                }
                Some(self.press_key(k, sc, now))
            },
            Event::Mouse(e) => {
                self.mouse_pos = Some((e.column, e.row));
                assert(self@ == moused(old(self)@, e));
                proof {
                    handlers::bars::lemma_placeable_depends(old(self)@, self@);
                }
                handlers::handle_click(self, e, size, terminal, now, exe)
            },
            _ => Some(Vec::new()),
        }
    }
}

/// The state once the mouse's place is noted.
pub open spec fn moused(m: app::AppView, e: app::MouseEvent) -> app::AppView {
    app::AppView { mouse_pos: Some((e.column, e.row)), ..m }
}

/// What follows once a new script was made.
pub open spec fn script_opened(
    m: app::AppView,
    path: Seq<char>,
    filename: Seq<char>,
    mtime: std::time::SystemTime,
) -> (app::AppView, Seq<app::ActionView>) {
    (
        app::AppView {
            shell: app::ShellWatchView { editing_file: Some((path, mtime)), ..m.shell },
            gists: gists_with(
                app::GistEntryView {
                    label: "NEW SCRIPT"@,
                    info: "__SCRIPT__"@,
                    command: path,
                    mtime: Some(mtime),
                    path: Some(path),
                    remote_name: filename,
                },
                m.gists,
            ),
            ..m
        },
        seq![app::ActionView::Write(shell::editor_command(m.config.external_editor, path))],
    )
}

/// A message keeps the state well formed.
pub proof fn law_message_keeps_wf(
    m: app::AppView,
    msg: app::MessageView,
    is_arm: bool,
    timestamp: Seq<char>,
)
    requires
        m.wf(),
    ensures
        message_taken(m, msg, is_arm, timestamp).0.wf(),
{
}

/// A new script keeps the state well formed.
pub proof fn law_new_script_keeps_wf(
    m: app::AppView,
    path: Seq<char>,
    filename: Seq<char>,
    mtime: std::time::SystemTime,
)
    requires
        m.wf(),
    ensures
        script_opened(m, path, filename, mtime).0.wf(),
{
}

/// Deleting the script that was just made leaves the gists as they were.
pub proof fn law_delete_undoes_new_script(
    m: app::AppView,
    path: Seq<char>,
    filename: Seq<char>,
    mtime: std::time::SystemTime,
    is_arm: bool,
    timestamp: Seq<char>,
)
    requires
        m.wf(),
    ensures
        message_taken(
            script_opened(m, path, filename, mtime).0,
            app::MessageView::DeleteGist(0),
            is_arm,
            timestamp,
        ).0.gists == m.gists,
{
    let opened = script_opened(m, path, filename, mtime).0;
    let after = gists_without(opened.gists, 0);
    assert(after.items =~= m.gists.items);
    assert(after.commands =~= m.gists.commands);
    assert(after.infos =~= m.gists.infos);
    assert(after.mtimes =~= m.gists.mtimes);
    assert(after.paths =~= m.gists.paths);
    assert(after.remote_names =~= m.gists.remote_names);
}

/// The name of the file for a new script ends as that of a shell script does.
pub proof fn law_script_filename_ends(name: Seq<char>, timestamp: Seq<char>)
    ensures
        text::ends_with(script_filename(name, timestamp), ".sh"@),
{
    let f = script_filename(name, timestamp);
    assert(f.skip(f.len() - ".sh"@.len()) =~= ".sh"@);
}

/// The deletion of a gist takes its row, and no other, from the list, deletes the
/// file that it is kept in, and deletes it at GitHub under its own name where the
/// user is logged in. A row that there is not changes nothing.
pub proof fn law_deletion_takes_its_gist(
    m: app::AppView,
    row: usize,
    is_arm: bool,
    timestamp: Seq<char>,
)
    requires
        m.wf(),
    ensures
        ({
            let (after, actions) = message_taken(
                m,
                app::MessageView::DeleteGist(row),
                is_arm,
                timestamp,
            );
            let g = m.gists;
            let r = after.gists;
            &&& row >= g.items.len() ==> after == m && actions.len() == 0
            &&& row < g.items.len() ==> {
                &&& after == (app::AppView { gists: r, ..m })
                &&& r.items.len() == g.items.len() - 1
                &&& forall|i: int|
                    0 <= i < r.items.len() ==> ({
                        let j = if i < row {
                            i
                        } else {
                            i + 1
                        };
                        &&& #[trigger] r.items[i] == g.items[j]
                        &&& r.commands[i] == g.commands[j]
                        &&& r.infos[i] == g.infos[j]
                        &&& r.mtimes[i] == g.mtimes[j]
                        &&& r.paths[i] == g.paths[j]
                        &&& r.remote_names[i] == g.remote_names[j]
                    })
                &&& g.paths[row as int] matches Some(p) ==> actions.contains(
                    app::ActionView::RemoveFile(p),
                )
                &&& m.auth_token matches Some(t) ==> actions.contains(
                    app::ActionView::DeleteRemote {
                        token: t,
                        remote_name: g.remote_names[row as int],
                    },
                )
                &&& forall|k: int|
                    0 <= k < actions.len() ==> match #[trigger] actions[k] {
                        app::ActionView::RemoveFile(p) => g.paths[row as int] == Some(p),
                        app::ActionView::DeleteRemote { token, remote_name } => m.auth_token
                            == Some(token) && remote_name == g.remote_names[row as int],
                        _ => false,
                    }
                &&& actions.len() <= 2
            }
        }),
{
    if row < m.gists.items.len() {
        let (_, actions) = message_taken(m, app::MessageView::DeleteGist(row), is_arm, timestamp);
        if let Some(p) = m.gists.paths[row as int] {
            assert(actions[0] == app::ActionView::RemoveFile(p));
        }
        if let Some(t) = m.auth_token {
            assert(actions[actions.len() - 1] == app::ActionView::DeleteRemote {
                token: t,
                remote_name: m.gists.remote_names[row as int],
            });
        }
    }
}

/// A login keeps the token, in the state and in the configuration that is written,
/// and closes the settings. A failed one is told in the settings. A device code is
/// kept with the user's code and the address, and GitHub is asked for a token for
/// it.
pub proof fn law_login_messages(
    m: app::AppView,
    a: Seq<char>,
    b: Seq<char>,
    c: Seq<char>,
    is_arm: bool,
    timestamp: Seq<char>,
)
    ensures
        message_taken(m, app::MessageView::AuthSuccess(a), is_arm, timestamp) == (
            app::AppView {
                auth_token: Some(a),
                config: config::ConfigView {
                    auth: config::AuthView { personal_access_token: Some(a), ..m.config.auth },
                    ..m.config
                },
                settings: app::SettingsView { is_shown: false, login_error: None, ..m.settings },
                ..m
            },
            seq![app::ActionView::SaveConfig],
        ),
        message_taken(m, app::MessageView::AuthError(a), is_arm, timestamp) == (
            app::AppView {
                settings: app::SettingsView { login_error: Some(a), ..m.settings },
                ..m
            },
            Seq::<app::ActionView>::empty(),
        ),
        message_taken(m, app::MessageView::DeviceCodeSuccess(a, b, c), is_arm, timestamp) == (
            app::AppView {
                settings: app::SettingsView {
                    github_device_code: Some(a),
                    github_user_code: Some(b),
                    github_verification_uri: Some(c),
                    login_error: None,
                    ..m.settings
                },
                ..m
            },
            seq![
                app::ActionView::PollToken {
                    client_id: match m.config.auth.github_client_id {
                        Some(id) => id,
                        None => Seq::empty(),
                    },
                    device_code: a,
                },
            ],
        ),
{
}

/// Gists are downloaded with the user's token; who is not logged in is told so in
/// the settings, which open. What comes back is listed entry by entry, from the
/// first row on.
pub proof fn law_gists_are_fetched_and_listed(
    m: app::AppView,
    entries: Seq<app::GistEntryView>,
    is_arm: bool,
    timestamp: Seq<char>,
)
    ensures
        ({
            let (after, actions) = message_taken(
                m,
                app::MessageView::FetchGists,
                is_arm,
                timestamp,
            );
            &&& m.auth_token matches Some(token) ==> actions == seq![
                app::ActionView::DownloadGists { token },
            ] && after == (app::AppView { loading_gist: true, ..m })
            &&& m.auth_token is None ==> actions.len() == 0 && after == (app::AppView {
                loading_gist: true,
                settings: app::SettingsView {
                    is_shown: true,
                    login_error: Some("Not logged in to GitHub."@),
                    ..m.settings
                },
                ..m
            })
        }),
        ({
            let (after, actions) = message_taken(
                m,
                app::MessageView::GistsFetched(entries),
                is_arm,
                timestamp,
            );
            let g = after.gists;
            &&& actions.len() == 0
            &&& !after.loading_gist
            &&& after.sidebar.mode is Gists
            &&& after.sidebar.state.selected == Some(0usize)
            &&& g.items.len() == entries.len()
            &&& forall|i: int|
                0 <= i < entries.len() ==> {
                    &&& #[trigger] g.items[i] == entries[i].label
                    &&& g.commands[i] == entries[i].command
                    &&& g.infos[i] == entries[i].info
                    &&& g.mtimes[i] == entries[i].mtime
                    &&& g.paths[i] == entries[i].path
                    &&& g.remote_names[i] == entries[i].remote_name
                }
            &&& after == (app::AppView {
                loading_gist: false,
                gists: g,
                sidebar: app::SidebarView {
                    mode: SidebarMode::Gists,
                    state: app::ListState {
                        selected: Some(0),
                        offset: m.sidebar.state.offset,
                    },
                    ..m.sidebar
                },
                ..m
            })
        }),
{
}

/// A new script is asked for by name, with an empty field. The name that is given
/// makes the name of its file: without the blanks around it, with an underscore for
/// each space in it. Without a name, the time does.
pub proof fn law_new_script_is_named(
    m: app::AppView,
    name: Seq<char>,
    is_arm: bool,
    timestamp: Seq<char>,
)
    ensures
        message_taken(m, app::MessageView::CreateNewGist, is_arm, timestamp) == (
            app::AppView {
                dialogs: app::DialogsView {
                    show_new_gist_dialog: true,
                    new_gist_name_input: Seq::empty(),
                    ..m.dialogs
                },
                ..m
            },
            Seq::<app::ActionView>::empty(),
        ),
        ({
            let (after, actions) = message_taken(
                m,
                app::MessageView::ConfirmNewGistName(name),
                is_arm,
                timestamp,
            );
            let given = text::trim(name);
            let safe = Seq::new(
                given.len(),
                |i: int|
                    if given[i] == ' ' {
                        '_'
                    } else {
                        given[i]
                    },
            );
            &&& after == (app::AppView {
                dialogs: app::DialogsView { show_new_gist_dialog: false, ..m.dialogs },
                ..m
            })
            &&& actions == seq![
                app::ActionView::CreateScript {
                    filename: if given.len() == 0 {
                        "script_"@ + timestamp + ".sh"@
                    } else {
                        "script-"@ + safe + ".sh"@
                    },
                },
            ]
        }),
{
    reveal_strlit(" ");
    reveal_strlit("_");
    let given = text::trim(name);
    text::law_replace_character(given, " "@, "_"@);
    let safe = Seq::new(
        given.len(),
        |i: int|
            if given[i] == ' ' {
                '_'
            } else {
                given[i]
            },
    );
    assert(text::replace(given, " "@, "_"@) =~= safe);
}

/// An update is asked for at the address that was typed; for an arm processor at
/// that of its own program, unless the address already is one of those.
pub proof fn law_update_is_for_the_processor(
    m: app::AppView,
    before: Seq<char>,
    after: Seq<char>,
    is_arm: bool,
    timestamp: Seq<char>,
)
    ensures
        ({
            let url = m.settings.update_url_input;
            let asked = message_taken(m, app::MessageView::UpdateBinary, is_arm, timestamp);
            let at = |u: Seq<char>| (m, seq![app::ActionView::UpdateProgram { url: u }]);
            let has_arm = exists|a: Seq<char>, b: Seq<char>| url == #[trigger] (a + "/tbm.arm"@ + b);
            let has_none = forall|a: Seq<char>, b: Seq<char>| url != #[trigger] (a + "/download/tbm"@ + b);
            &&& !is_arm || has_arm || has_none ==> asked == at(url)
            &&& is_arm && !has_arm && url == before + "/download/tbm"@ + after && !text::contains(
                after,
                "/download/tbm"@,
            ) && text::find(url, "/download/tbm"@) == Some(before.len() as int) ==> asked == at(
                before + "/download/tbm.arm"@ + after,
            )
        }),
{
    reveal_strlit("/download/tbm");
    let url = m.settings.update_url_input;
    text::law_contains_is_made_of(url, "/tbm.arm"@);
    text::law_contains_is_made_of(url, "/download/tbm"@);
    text::law_replace_goes_on_behind(url, "/download/tbm"@, Seq::empty(), "/download/tbm.arm"@);
    text::law_replace_goes_on_behind(before, "/download/tbm"@, after, "/download/tbm.arm"@);
    text::law_replace_goes_on_behind(after, "/download/tbm"@, Seq::empty(), "/download/tbm.arm"@);
}

/// What is told of an upload is typed as one line that shows it; events, output of
/// the shell and the clock do nothing here.
pub proof fn law_upload_status_is_shown(
    m: app::AppView,
    message: Seq<char>,
    ok: bool,
    e: Event,
    is_arm: bool,
    timestamp: Seq<char>,
)
    ensures
        ({
            let (after, actions) = message_taken(
                m,
                app::MessageView::GistUploadStatus(message, ok),
                is_arm,
                timestamp,
            );
            &&& after == m
            &&& actions.len() == 1
            &&& exists|word: Seq<char>|
                actions[0] == app::ActionView::Write(#[trigger] ("echo "@ + word + "\r"@))
                    && shell::shell_word(word, shell::Quoting::Plain) == Some(message)
        }),
        message_taken(m, app::MessageView::Event(e), is_arm, timestamp) == (
            m,
            Seq::<app::ActionView>::empty(),
        ),
        message_taken(m, app::MessageView::PtyData, is_arm, timestamp) == (
            m,
            Seq::<app::ActionView>::empty(),
        ),
        message_taken(m, app::MessageView::Tick, is_arm, timestamp) == (
            m,
            Seq::<app::ActionView>::empty(),
        ),
{
    shell::law_echo_shows_message(message);
    let word = "'"@ + shell::quoted_message(message) + "'"@;
    assert(shell::echo_command(message) == "echo "@ + word + "\r"@);
}

/// A new script comes first in the list of gists, as a script that runs from its
/// file and has the file's name at GitHub; it is opened in the editor, and its time
/// of change is noted. The other gists follow as they were.
pub proof fn law_new_script_is_listed_and_opened(
    m: app::AppView,
    path: Seq<char>,
    filename: Seq<char>,
    mtime: std::time::SystemTime,
)
    requires
        m.wf(),
    ensures
        ({
            let (after, actions) = script_opened(m, path, filename, mtime);
            let g = after.gists;
            &&& g.items[0] == "NEW SCRIPT"@
            &&& g.infos[0] == "__SCRIPT__"@
            &&& g.commands[0] == path
            &&& g.mtimes[0] == Some(mtime)
            &&& g.paths[0] == Some(path)
            &&& g.remote_names[0] == filename
            &&& g.items.len() == m.gists.items.len() + 1
            &&& forall|i: int|
                0 <= i < m.gists.items.len() ==> {
                    &&& g.items[i + 1] == #[trigger] m.gists.items[i]
                    &&& g.commands[i + 1] == m.gists.commands[i]
                    &&& g.infos[i + 1] == m.gists.infos[i]
                    &&& g.mtimes[i + 1] == m.gists.mtimes[i]
                    &&& g.paths[i + 1] == m.gists.paths[i]
                    &&& g.remote_names[i + 1] == m.gists.remote_names[i]
                }
            &&& after.shell.editing_file == Some((path, mtime))
            &&& after == (app::AppView {
                gists: g,
                shell: app::ShellWatchView { editing_file: Some((path, mtime)), ..m.shell },
                ..m
            })
            &&& actions.len() == 1
            &&& exists|word: Seq<char>|
                actions[0] == app::ActionView::Write(
                    #[trigger] (m.config.external_editor + " "@ + word + "\r"@),
                ) && shell::shell_word(word, shell::Quoting::Plain) == Some(path)
        }),
{
    shell::law_editor_opens_path(m.config.external_editor, path);
    let word = "'"@ + shell::quoted_path(path) + "'"@;
    assert(shell::editor_command(m.config.external_editor, path) == m.config.external_editor + " "@
        + word + "\r"@);
}

/// The place of the mouse is noted as column and row, and nothing else changes.
pub proof fn law_place_of_the_mouse_is_noted(m: app::AppView, e: app::MouseEvent)
    ensures
        moused(m, e).mouse_pos == Some((e.column, e.row)),
        moused(m, e) == (app::AppView { mouse_pos: moused(m, e).mouse_pos, ..m }),
{
}

} // verus!
