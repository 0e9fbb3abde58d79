//! What a key does.

use crate::app;
use crate::app::{Action, App, KeyCode, KeyEvent, Message};
use crate::config;
use crate::handlers::{bars, dialogs};
use crate::screen::ScreenState;
use crate::text;
use crate::ui::geometry;
use vstd::prelude::*;
use vstd::string::*;

verus! {

/// A text field after a key, if the key edits it.
pub open spec fn edited(s: Seq<char>, code: KeyCode) -> Option<Seq<char>> {
    match code {
        KeyCode::Backspace => Some(
            if s.len() == 0 {
                s
            } else {
                s.drop_last()
            },
        ),
        KeyCode::Char(c) => Some(s.push(c)),
        _ => None,
    }
}

/// A text field after a key, if the key edits it.
pub fn edit_field(s: &str, code: KeyCode) -> (r: Option<String>)
    ensures
        text::opt_text(r) == edited(s@, code),
{
    match code {
        KeyCode::Backspace => {
            let mut v = text::to_chars(s);
            if v.len() > 0 {
                let _ = v.pop();
            }
            Some(text::to_text(v.as_slice()))
        },
        KeyCode::Char(c) => {
            let mut t = s.to_owned();
            t.push(c);
            Some(t)
        },
        _ => None,
    }
}

/// The answer that a key gives to a question, if it gives one.
pub open spec fn key_answer(code: KeyCode) -> Option<bool> {
    match code {
        KeyCode::Char('y') | KeyCode::Char('Y') => Some(true),
        KeyCode::Char('n') | KeyCode::Char('N') | KeyCode::Esc => Some(false),
        _ => None,
    }
}

/// The answer that a key gives to a question, if it gives one.
pub fn answer_of_key(code: KeyCode) -> (r: Option<bool>)
    ensures
        r == key_answer(code),
{
    match code {
        KeyCode::Char('y') | KeyCode::Char('Y') => Some(true),
        KeyCode::Char('n') | KeyCode::Char('N') | KeyCode::Esc => Some(false),
        _ => None,
    }
}

/// A letter together with the control key gives escape and the letter's number
/// in the alphabet; of a character beyond the first 256, the last byte of its
/// number counts.
pub open spec fn control_sequence(c: char) -> Option<Seq<char>> {
    let n = (c as u32) % 256;
    if 97 <= n <= 122 {
        Some("\x1b"@ + seq![((n - 96) as u8) as char])
    } else if c == '[' {
        Some("\x1b"@)
    } else {
        None
    }
}

/// What a function key sends.
pub open spec fn function_sequence(n: u8) -> Option<Seq<char>> {
    match n {
        1 => Some("\x1bOP"@),
        2 => Some("\x1bOQ"@),
        3 => Some("\x1bOR"@),
        4 => Some("\x1bOS"@),
        5 => Some("\x1b[15~"@),
        6 => Some("\x1b[17~"@),
        7 => Some("\x1b[18~"@),
        8 => Some("\x1b[19~"@),
        9 => Some("\x1b[20~"@),
        10 => Some("\x1b[21~"@),
        11 => Some("\x1b[23~"@),
        12 => Some("\x1b[24~"@),
        _ => None,
    }
}

/// What a key sends to the shell, if it sends something.
pub open spec fn key_sequence(k: KeyEvent) -> Option<Seq<char>> {
    if k.code == KeyCode::Char('c') && k.control {
        Some("\x03"@)
    } else if k.control {
        match k.code {
            KeyCode::Char(c) => control_sequence(c),
            _ => None,
        }
    } else {
        match k.code {
            KeyCode::Char(c) => Some(seq![c]),
            KeyCode::Enter => Some("\r"@),
            KeyCode::Backspace => Some("\x08"@),
            KeyCode::Tab => Some("\x09"@),
            KeyCode::Esc => Some("\x1b"@),
            KeyCode::Up => Some("\x1b[A"@),
            KeyCode::Down => Some("\x1b[B"@),
            KeyCode::Right => Some("\x1b[C"@),
            KeyCode::Left => Some("\x1b[D"@),
            KeyCode::Home => Some("\x1b[H"@),
            KeyCode::End => Some("\x1b[F"@),
            KeyCode::Delete => Some("\x1b[3~"@),
            KeyCode::F(n) => function_sequence(n),
            _ => None,
        }
    }
}

/// What a letter sends together with the control key.
pub fn control_text(c: char) -> (r: Option<String>)
    ensures
        text::opt_text(r) == control_sequence(c),
{
    let n: u32 = (c as u32) % 256;
    if 97 <= n && n <= 122 {
        let b: u8 = (n - 96) as u8;
        let mut t = "\x1b".to_owned();
        let ghost before = t@;
        t.push(b as char);
        assert(t@ =~= before + seq![((n - 96) as u8) as char]);
        Some(t)
    } else if c == '[' {
        Some("\x1b".to_owned())
    } else {
        None
    }
}

/// What a function key sends.
pub fn function_text(n: u8) -> (r: Option<String>)
    ensures
        text::opt_text(r) == function_sequence(n),
{
    match n {
        1 => Some("\x1bOP".to_owned()),
        2 => Some("\x1bOQ".to_owned()),
        3 => Some("\x1bOR".to_owned()),
        4 => Some("\x1bOS".to_owned()),
        5 => Some("\x1b[15~".to_owned()),
        6 => Some("\x1b[17~".to_owned()),
        7 => Some("\x1b[18~".to_owned()),
        8 => Some("\x1b[19~".to_owned()),
        9 => Some("\x1b[20~".to_owned()),
        10 => Some("\x1b[21~".to_owned()),
        11 => Some("\x1b[23~".to_owned()),
        12 => Some("\x1b[24~".to_owned()),
        _ => None,
    }
}

/// What a key sends to the shell, if it sends something.
pub fn key_text(k: KeyEvent) -> (r: Option<String>)
    ensures
        text::opt_text(r) == key_sequence(k),
{
    if k.control {
        match k.code {
            KeyCode::Char(c) => if c == 'c' {
                Some("\x03".to_owned())
            } else {
                control_text(c)
            },
            _ => None,
        }
    } else {
        match k.code {
            KeyCode::Char(c) => {
                let mut t: String = String::new();
                t.push(c);
                assert(t@ =~= seq![c]);
                Some(t)
            },
            KeyCode::Enter => Some("\r".to_owned()),
            KeyCode::Backspace => Some("\x08".to_owned()),
            KeyCode::Tab => Some("\x09".to_owned()),
            KeyCode::Esc => Some("\x1b".to_owned()),
            KeyCode::Up => Some("\x1b[A".to_owned()),
            KeyCode::Down => Some("\x1b[B".to_owned()),
            KeyCode::Right => Some("\x1b[C".to_owned()),
            KeyCode::Left => Some("\x1b[D".to_owned()),
            KeyCode::Home => Some("\x1b[H".to_owned()),
            KeyCode::End => Some("\x1b[F".to_owned()),
            KeyCode::Delete => Some("\x1b[3~".to_owned()),
            KeyCode::F(n) => function_text(n),
            _ => None,
        }
    }
}

/// What a key sends to the shell, as an action.
pub open spec fn typed(k: KeyEvent) -> Seq<app::ActionView> {
    match key_sequence(k) {
        Some(t) => seq![app::ActionView::Write(t)],
        None => Seq::empty(),
    }
}

/// What a key does while a name for a new gist is asked for.
pub open spec fn new_gist_key(m: app::AppView, code: KeyCode) -> (
    app::AppView,
    Seq<app::ActionView>,
) {
    let name = m.dialogs.new_gist_name_input;
    match code {
        KeyCode::Esc => (
            app::AppView {
                dialogs: app::DialogsView {
                    show_new_gist_dialog: false,
                    new_gist_name_input: Seq::empty(),
                    ..m.dialogs
                },
                ..m
            },
            Seq::empty(),
        ),
        KeyCode::Enter => (
            app::AppView {
                dialogs: app::DialogsView { new_gist_name_input: Seq::empty(), ..m.dialogs },
                ..m
            },
            seq![app::ActionView::Post(app::MessageView::ConfirmNewGistName(name))],
        ),
        _ => match edited(name, code) {
            Some(t) => (
                app::AppView {
                    dialogs: app::DialogsView { new_gist_name_input: t, ..m.dialogs },
                    ..m
                },
                Seq::empty(),
            ),
            None => (m, Seq::empty()),
        },
    }
}

/// What follows when the token is entered.
pub open spec fn pat_entered(m: app::AppView) -> (app::AppView, Seq<app::ActionView>) {
    let s = m.settings;
    let token = text::trim(s.pat_input);
    if token.len() > 0 {
        (
            app::AppView {
                settings: app::SettingsView { is_pat_focused: false, login_error: None, ..s },
                auth_token: Some(token),
                config: config::ConfigView {
                    auth: config::AuthView {
                        personal_access_token: Some(token),
                        ..m.config.auth
                    },
                    ..m.config
                },
                ..m
            },
            seq![app::ActionView::SaveConfig],
        )
    } else {
        (m, Seq::empty())
    }
}

/// What a key does in the field of the token.
pub open spec fn pat_key(m: app::AppView, code: KeyCode) -> (app::AppView, Seq<app::ActionView>) {
    let s = m.settings;
    match code {
        KeyCode::Esc => (
            app::AppView { settings: app::SettingsView { is_pat_focused: false, ..s }, ..m },
            Seq::empty(),
        ),
        KeyCode::Enter => pat_entered(m),
        _ => match edited(s.pat_input, code) {
            Some(t) => (
                app::AppView { settings: app::SettingsView { pat_input: t, ..s }, ..m },
                Seq::empty(),
            ),
            None => (m, Seq::empty()),
        },
    }
}

/// What follows when the update's address is entered.
pub open spec fn update_url_entered(m: app::AppView) -> (app::AppView, Seq<app::ActionView>) {
    let s = m.settings;
    let url = text::trim(s.update_url_input);
    if url.len() > 0 {
        (
            app::AppView {
                settings: app::SettingsView { is_update_url_focused: false, ..s },
                config: config::ConfigView {
                    auth: config::AuthView { update_url: url, ..m.config.auth },
                    ..m.config
                },
                ..m
            },
            seq![app::ActionView::SaveConfig],
        )
    } else {
        (m, Seq::empty())
    }
}

/// What a key does in the field of the update's address.
pub open spec fn update_url_key(m: app::AppView, code: KeyCode) -> (
    app::AppView,
    Seq<app::ActionView>,
) {
    let s = m.settings;
    match code {
        KeyCode::Esc => (
            app::AppView { settings: app::SettingsView { is_update_url_focused: false, ..s }, ..m },
            Seq::empty(),
        ),
        KeyCode::Enter => update_url_entered(m),
        _ => match edited(s.update_url_input, code) {
            Some(t) => (
                app::AppView { settings: app::SettingsView { update_url_input: t, ..s }, ..m },
                Seq::empty(),
            ),
            None => (m, Seq::empty()),
        },
    }
}

/// What follows when the editor is entered.
pub open spec fn editor_entered(m: app::AppView) -> (app::AppView, Seq<app::ActionView>) {
    let s = m.settings;
    let editor = text::trim(s.editor_input);
    if editor.len() > 0 {
        (
            app::AppView {
                settings: app::SettingsView { is_editor_focused: false, ..s },
                config: config::ConfigView { external_editor: editor, ..m.config },
                ..m
            },
            seq![app::ActionView::SaveConfig],
        )
    } else {
        (m, Seq::empty())
    }
}

/// What a key does in the field of the editor.
pub open spec fn editor_key(m: app::AppView, code: KeyCode) -> (
    app::AppView,
    Seq<app::ActionView>,
) {
    let s = m.settings;
    match code {
        KeyCode::Esc => (
            app::AppView { settings: app::SettingsView { is_editor_focused: false, ..s }, ..m },
            Seq::empty(),
        ),
        KeyCode::Enter => editor_entered(m),
        _ => match edited(s.editor_input, code) {
            Some(t) => (
                app::AppView { settings: app::SettingsView { editor_input: t, ..s }, ..m },
                Seq::empty(),
            ),
            None => (m, Seq::empty()),
        },
    }
}

/// What a key does while the settings are shown.
pub open spec fn settings_key(m: app::AppView, code: KeyCode) -> (
    app::AppView,
    Seq<app::ActionView>,
) {
    if m.settings.is_pat_focused {
        pat_key(m, code)
    } else if m.settings.is_update_url_focused {
        update_url_key(m, code)
    } else if m.settings.is_editor_focused {
        editor_key(m, code)
    } else if code is Esc {
        (
            app::AppView { settings: app::SettingsView { is_shown: false, ..m.settings }, ..m },
            Seq::empty(),
        )
    } else {
        (m, Seq::empty())
    }
}

/// What a key does in the search field.
pub open spec fn search_key(m: app::AppView, code: KeyCode) -> app::AppView {
    let s = m.sidebar;
    match code {
        KeyCode::Esc | KeyCode::Enter => app::AppView {
            sidebar: app::SidebarView { is_search_focused: false, ..s },
            ..m
        },
        _ => match edited(s.search_query, code) {
            Some(t) => app::AppView {
                sidebar: app::SidebarView {
                    search_query: t,
                    state: app::ListState { selected: Some(0), ..s.state },
                    ..s
                },
                ..m
            },
            None => m,
        },
    }
}

/// What a key does: the open dialog takes it, then the search field, then the
/// shell.
pub open spec fn key_taken(m: app::AppView, k: KeyEvent) -> (app::AppView, Seq<app::ActionView>) {
    if m.dialogs.show_upload_confirm {
        match key_answer(k.code) {
            Some(yes) => dialogs::upload_answered(m, yes),
            None => (m, Seq::empty()),
        }
    } else if m.dialogs.show_delete_confirm {
        match key_answer(k.code) {
            Some(yes) => dialogs::delete_answered(m, yes),
            None => (m, Seq::empty()),
        }
    } else if m.dialogs.show_new_gist_dialog {
        new_gist_key(m, k.code)
    } else if m.settings.is_shown {
        settings_key(m, k.code)
    } else if m.sidebar.is_search_focused {
        (search_key(m, k.code), Seq::empty())
    } else {
        (m, typed(k))
    }
}

/// The key asks for a copy of the selected text.
pub open spec fn is_copy_key(k: KeyEvent) -> bool {
    k.control && (k.code == KeyCode::Char('C') || (k.code == KeyCode::Char('c') && k.shift))
}

/// What a key does. Copying and paging through the terminal come first; any
/// other key moves the terminal's view to its end.
pub open spec fn key_pressed(m: app::AppView, k: KeyEvent, sc: ScreenState, now: u64) -> (
    app::AppView,
    Seq<app::ActionView>,
) {
    let active = app::AppView { last_activity: now, ..m };
    if is_copy_key(k) {
        (active, bars::copied(active))
    } else if k.shift && k.code is PageUp {
        (active, seq![app::ActionView::SetScrollback((sc.scrollback + 20) as usize)])
    } else if k.shift && k.code is PageDown {
        (
            active,
            seq![app::ActionView::SetScrollback(geometry::floored(sc.scrollback - 20) as usize)],
        )
    } else {
        let taken = key_taken(active, k);
        (taken.0, seq![app::ActionView::SetScrollback(0)] + taken.1)
    }
}

impl App {
    fn take_new_gist_key(&mut self, code: KeyCode) -> (r: Vec<Action>)
        ensures
            final(self)@ == new_gist_key(old(self)@, code).0,
            app::action_views(r@) == new_gist_key(old(self)@, code).1,
    {
        match code {
            KeyCode::Esc => {
                self.dialogs.show_new_gist_dialog = false;
                self.dialogs.new_gist_name_input = String::new();
                app::no_actions()
            },
            KeyCode::Enter => {
                let name = self.dialogs.new_gist_name_input.clone();
                self.dialogs.new_gist_name_input = String::new();
                app::one_action(Action::Post(Message::ConfirmNewGistName(name)))
            },
            _ => {
                if let Some(t) = edit_field(self.dialogs.new_gist_name_input.as_str(), code) {
                    self.dialogs.new_gist_name_input = t;
                }
                app::no_actions()
            },
        }
    }

    fn enter_pat(&mut self) -> (r: Vec<Action>)
        ensures
            final(self)@ == pat_entered(old(self)@).0,
            app::action_views(r@) == pat_entered(old(self)@).1,
    {
        let token = text::trim_text(self.settings.pat_input.as_str());
        if token.as_str().is_empty() {
            return app::no_actions();
        }
        self.auth_token = Some(token.clone());
        self.config.auth.personal_access_token = Some(token);
        self.settings.is_pat_focused = false;
        self.settings.login_error = None;
        app::one_action(Action::SaveConfig)
    }

    fn take_pat_key(&mut self, code: KeyCode) -> (r: Vec<Action>)
        ensures
            final(self)@ == pat_key(old(self)@, code).0,
            app::action_views(r@) == pat_key(old(self)@, code).1,
    {
        match code {
            KeyCode::Esc => {
                self.settings.is_pat_focused = false;
                app::no_actions()
            },
            KeyCode::Enter => self.enter_pat(),
            _ => {
                if let Some(t) = edit_field(self.settings.pat_input.as_str(), code) {
                    self.settings.pat_input = t;
                }
                app::no_actions()
            },
        }
    }

    fn enter_update_url(&mut self) -> (r: Vec<Action>)
        ensures
            final(self)@ == update_url_entered(old(self)@).0,
            app::action_views(r@) == update_url_entered(old(self)@).1,
    {
        let url = text::trim_text(self.settings.update_url_input.as_str());
        if url.as_str().is_empty() {
            return app::no_actions();
        }
        self.config.auth.update_url = url;
        self.settings.is_update_url_focused = false;
        app::one_action(Action::SaveConfig)
    }

    fn take_update_url_key(&mut self, code: KeyCode) -> (r: Vec<Action>)
        ensures
            final(self)@ == update_url_key(old(self)@, code).0,
            app::action_views(r@) == update_url_key(old(self)@, code).1,
    {
        match code {
            KeyCode::Esc => {
                self.settings.is_update_url_focused = false;
                app::no_actions()
            },
            KeyCode::Enter => self.enter_update_url(),
            _ => {
                if let Some(t) = edit_field(self.settings.update_url_input.as_str(), code) {
                    self.settings.update_url_input = t;
                }
                app::no_actions()
            },
        }
    }

    fn enter_editor(&mut self) -> (r: Vec<Action>)
        ensures
            final(self)@ == editor_entered(old(self)@).0,
            app::action_views(r@) == editor_entered(old(self)@).1,
    {
        let editor = text::trim_text(self.settings.editor_input.as_str());
        if editor.as_str().is_empty() {
            return app::no_actions();
        }
        self.config.external_editor = editor;
        self.settings.is_editor_focused = false;
        app::one_action(Action::SaveConfig)
    }

    fn take_editor_key(&mut self, code: KeyCode) -> (r: Vec<Action>)
        ensures
            final(self)@ == editor_key(old(self)@, code).0,
            app::action_views(r@) == editor_key(old(self)@, code).1,
    {
        match code {
            KeyCode::Esc => {
                self.settings.is_editor_focused = false;
                app::no_actions()
            },
            KeyCode::Enter => self.enter_editor(),
            _ => {
                if let Some(t) = edit_field(self.settings.editor_input.as_str(), code) {
                    self.settings.editor_input = t;
                }
                app::no_actions()
            },
        }
    }

    fn take_settings_key(&mut self, code: KeyCode) -> (r: Vec<Action>)
        ensures
            final(self)@ == settings_key(old(self)@, code).0,
            app::action_views(r@) == settings_key(old(self)@, code).1,
    {
        if self.settings.is_pat_focused {
            self.take_pat_key(code)
        } else if self.settings.is_update_url_focused {
            self.take_update_url_key(code)
        } else if self.settings.is_editor_focused {
            self.take_editor_key(code)
        } else {
            if code == KeyCode::Esc {
                self.settings.is_shown = false;
            }
            app::no_actions()
        }
    }

    fn take_search_key(&mut self, code: KeyCode)
        ensures
            final(self)@ == search_key(old(self)@, code),
    {
        match code {
            KeyCode::Esc | KeyCode::Enter => {
                self.sidebar.is_search_focused = false;
            },
            _ => {
                if let Some(t) = edit_field(self.sidebar.search_query.as_str(), code) {
                    self.sidebar.search_query = t;
                    self.sidebar.state.selected = Some(0);
                }
            },
        }
    }

    fn take_key(&mut self, k: KeyEvent) -> (r: Vec<Action>)
        requires
            old(self)@.wf(),
        ensures
            final(self)@ == key_taken(old(self)@, k).0,
            app::action_views(r@) == key_taken(old(self)@, k).1,
    {
        if self.dialogs.show_upload_confirm {
            match answer_of_key(k.code) {
                Some(yes) => self.answer_upload(yes),
                None => app::no_actions(),
            }
        } else if self.dialogs.show_delete_confirm {
            match answer_of_key(k.code) {
                Some(yes) => self.answer_delete(yes),
                None => app::no_actions(),
            }
        } else if self.dialogs.show_new_gist_dialog {
            self.take_new_gist_key(k.code)
        } else if self.settings.is_shown {
            self.take_settings_key(k.code)
        } else if self.sidebar.is_search_focused {
            self.take_search_key(k.code);
            app::no_actions()
        } else {
            match key_text(k) {
                Some(t) => app::one_action(Action::Write(t)),
                None => app::no_actions(),
            }
        }
    }

    /// Takes a key. `now` is the time in nanoseconds since the start.
    pub fn press_key(&mut self, k: KeyEvent, sc: ScreenState, now: u64) -> (r: Vec<Action>)
        requires
            old(self)@.wf(),
            sc.can_scroll(),
        ensures
            final(self)@ == key_pressed(old(self)@, k, sc, now).0,
            app::action_views(r@) == key_pressed(old(self)@, k, sc, now).1,
    {
        self.last_activity = now;
        if k.control && (k.code == KeyCode::Char('C') || (k.code == KeyCode::Char('c')
            && k.shift)) {
            return self.copy_action();
        }
        if k.shift && k.code == KeyCode::PageUp {
            return app::one_action(Action::SetScrollback(sc.scrollback + 20));
        }
        if k.shift && k.code == KeyCode::PageDown {
            return app::one_action(Action::SetScrollback(sc.scrollback.saturating_sub(20)));
        }
        let mut actions = app::one_action(Action::SetScrollback(0));
        let more = self.take_key(k);
        app::append_actions(&mut actions, more);
        actions
    }
}

/// A key keeps the state well formed.
pub proof fn law_key_keeps_wf(m: app::AppView, k: KeyEvent, sc: ScreenState, now: u64)
    requires
        m.wf(),
    ensures
        key_pressed(m, k, sc, now).0.wf(),
{
    let active = app::AppView { last_activity: now, ..m };
    lemma_settings_key_keeps_wf(active, k.code);
}

proof fn lemma_settings_key_keeps_wf(m: app::AppView, code: KeyCode)
    requires
        m.wf(),
    ensures
        settings_key(m, code).0.wf(),
{
    assert(pat_key(m, code).0.wf());
    assert(update_url_key(m, code).0.wf());
    assert(editor_key(m, code).0.wf());
}

/// While a dialog is open, the settings are shown or the search field has the
/// focus, no key reaches the shell.
pub proof fn law_dialogs_keep_keys(m: app::AppView, k: KeyEvent, sc: ScreenState, now: u64)
    requires
        m.dialogs.show_upload_confirm || m.dialogs.show_delete_confirm
            || m.dialogs.show_new_gist_dialog || m.settings.is_shown
            || m.sidebar.is_search_focused,
    ensures
        forall|i: int|
            0 <= i < key_pressed(m, k, sc, now).1.len() ==> !((#[trigger] key_pressed(
                m,
                k,
                sc,
                now,
            ).1[i]) is Write),
{
}

/// A gist is deleted by a key only while the question of its deletion is open.
pub proof fn law_key_deletes_only_when_asked(
    m: app::AppView,
    k: KeyEvent,
    sc: ScreenState,
    now: u64,
    i: usize,
)
    ensures
        key_pressed(m, k, sc, now).1.contains(
            app::ActionView::Post(app::MessageView::DeleteGist(i)),
        ) ==> m.dialogs.show_delete_confirm && m.dialogs.gist_index_to_delete == Some(i),
{
}

/// Backspace takes back the character typed before it.
pub proof fn law_backspace_takes_back(s: Seq<char>, c: char)
    ensures
        edited(edited(s, KeyCode::Char(c))->0, KeyCode::Backspace) == Some(s),
{
    assert(s.push(c).drop_last() =~= s);
}

/// A key is taken neither as a request for a copy nor for paging.
pub open spec fn is_plain_key(k: KeyEvent) -> bool {
    &&& !(k.control && k.code == KeyCode::Char('C'))
    &&& !(k.control && k.shift && k.code == KeyCode::Char('c'))
    &&& !(k.shift && (k.code is PageUp || k.code is PageDown))
}

/// A key leads to the deletion of a gist or to an upload only where it is y or Y,
/// and only to what the open question is about.
pub proof fn law_only_yes_deletes_or_uploads(
    m: app::AppView,
    k: KeyEvent,
    sc: ScreenState,
    now: u64,
    i: int,
)
    requires
        0 <= i < key_pressed(m, k, sc, now).1.len(),
    ensures
        ({
            let action = key_pressed(m, k, sc, now).1[i];
            let yes = k.code == KeyCode::Char('y') || k.code == KeyCode::Char('Y');
            &&& action matches app::ActionView::Post(app::MessageView::DeleteGist(row)) ==> yes
                && m.dialogs.show_delete_confirm && m.dialogs.gist_index_to_delete == Some(row)
            &&& action matches app::ActionView::Upload { token, path, remote_name, automatic }
                ==> yes && m.dialogs.show_upload_confirm && m.dialogs.pending_gist_file == Some(
                path,
            ) && m.auth_token == Some(token) && !automatic
            &&& !(action is RemoveFile) && !(action is DeleteRemote)
        }),
{
}

/// The state with both questions closed.
pub open spec fn question_closed(m: app::AppView, upload: bool) -> app::AppView {
    app::AppView {
        dialogs: if upload {
            app::DialogsView { show_upload_confirm: false, pending_gist_file: None, ..m.dialogs }
        } else {
            app::DialogsView {
                show_delete_confirm: false,
                gist_index_to_delete: None,
                ..m.dialogs
            }
        },
        ..m
    }
}

/// While a question is open, n, N and Esc close it and lead to nothing else; any
/// other key but y and Y leaves it open and leads to nothing at all.
pub proof fn law_no_closes_the_question(
    m: app::AppView,
    k: KeyEvent,
    sc: ScreenState,
    now: u64,
)
    requires
        m.dialogs.show_upload_confirm || m.dialogs.show_delete_confirm,
        is_plain_key(k),
        k.code != KeyCode::Char('y'),
        k.code != KeyCode::Char('Y'),
    ensures
        ({
            let (after, actions) = key_pressed(m, k, sc, now);
            let no = k.code == KeyCode::Char('n') || k.code == KeyCode::Char('N') || k.code is Esc;
            let active = app::AppView { last_activity: now, ..m };
            &&& actions == seq![app::ActionView::SetScrollback(0)]
            &&& no ==> after == question_closed(active, m.dialogs.show_upload_confirm)
            &&& !no ==> after == active
        }),
{
}

/// While the deletion of a gist is asked about, and nothing else, y and Y close
/// the question and ask for the deletion of that gist.
pub proof fn law_yes_deletes_the_gist_asked_about(
    m: app::AppView,
    k: KeyEvent,
    sc: ScreenState,
    now: u64,
    row: usize,
)
    requires
        !m.dialogs.show_upload_confirm,
        m.dialogs.show_delete_confirm,
        m.dialogs.gist_index_to_delete == Some(row),
        is_plain_key(k),
        k.code == KeyCode::Char('y') || k.code == KeyCode::Char('Y'),
    ensures
        key_pressed(m, k, sc, now) == (
            question_closed(app::AppView { last_activity: now, ..m }, false),
            seq![
                app::ActionView::SetScrollback(0),
                app::ActionView::Post(app::MessageView::DeleteGist(row)),
            ],
        ),
{
    assert(key_pressed(m, k, sc, now).1 =~= seq![
        app::ActionView::SetScrollback(0),
        app::ActionView::Post(app::MessageView::DeleteGist(row)),
    ]);
}

/// While the upload of a file is asked about, y and Y close the question, and the
/// file is uploaded under the name of the first gist that is kept in it, where
/// there is one and the user is logged in.
pub proof fn law_yes_uploads_the_file_asked_about(
    m: app::AppView,
    k: KeyEvent,
    sc: ScreenState,
    now: u64,
    path: Seq<char>,
    token: Seq<char>,
    row: int,
)
    requires
        m.wf(),
        m.dialogs.show_upload_confirm,
        m.dialogs.pending_gist_file == Some(path),
        m.auth_token == Some(token),
        0 <= row < m.gists.paths.len(),
        m.gists.paths[row] == Some(path),
        forall|j: int| 0 <= j < row ==> #[trigger] m.gists.paths[j] != Some(path),
        is_plain_key(k),
        k.code == KeyCode::Char('y') || k.code == KeyCode::Char('Y'),
    ensures
        key_pressed(m, k, sc, now) == (
            question_closed(app::AppView { last_activity: now, ..m }, true),
            seq![
                app::ActionView::SetScrollback(0),
                app::ActionView::Upload {
                    token,
                    path,
                    remote_name: m.gists.remote_names[row],
                    automatic: false,
                },
            ],
        ),
{
    dialogs::law_first_row_of_path(m.gists.paths, path, 0);
    assert(key_pressed(m, k, sc, now).1 =~= seq![
        app::ActionView::SetScrollback(0),
        app::ActionView::Upload {
            token,
            path,
            remote_name: m.gists.remote_names[row],
            automatic: false,
        },
    ]);
}

/// A key with the control key that asks for a copy, and paging with the shift key,
/// do just that, whatever is open.
pub proof fn law_copy_and_paging_come_first(
    m: app::AppView,
    k: KeyEvent,
    sc: ScreenState,
    now: u64,
)
    requires
        !is_plain_key(k),
        sc.scrollback + 20 <= usize::MAX,
    ensures
        ({
            let (after, actions) = key_pressed(m, k, sc, now);
            &&& after == (app::AppView { last_activity: now, ..m })
            &&& k.code is PageUp ==> actions == seq![
                app::ActionView::SetScrollback((sc.scrollback + 20) as usize),
            ]
            &&& k.code is PageDown ==> actions == seq![
                app::ActionView::SetScrollback(
                    (if sc.scrollback >= 20 {
                        sc.scrollback - 20
                    } else {
                        0
                    }) as usize,
                ),
            ]
            &&& k.code is Char ==> actions == match (m.selection.start, m.selection.end) {
                (Some(start), Some(end)) => seq![app::ActionView::CopySelection { start, end }],
                _ => Seq::empty(),
            }
        }),
{
}

/// Nothing on the dashboard takes the keys, so that they go to the shell.
pub open spec fn shell_has_keys(m: app::AppView) -> bool {
    &&& !m.dialogs.show_upload_confirm
    &&& !m.dialogs.show_delete_confirm
    &&& !m.dialogs.show_new_gist_dialog
    &&& !m.settings.is_shown
    &&& !m.sidebar.is_search_focused
}

/// A key that the shell gets is written to it, the view of the terminal goes to
/// its end, and nothing else changes: a character as it is, the others as a
/// terminal sends them.
pub proof fn law_keys_reach_the_shell(
    m: app::AppView,
    k: KeyEvent,
    sc: ScreenState,
    now: u64,
)
    requires
        shell_has_keys(m),
        is_plain_key(k),
    ensures
        ({
            let (after, actions) = key_pressed(m, k, sc, now);
            let home = app::ActionView::SetScrollback(0);
            let sent = |t: Seq<char>| seq![home, app::ActionView::Write(t)];
            &&& after == (app::AppView { last_activity: now, ..m })
            &&& actions.len() > 0 && actions[0] == home
            &&& !k.control ==> {
                &&& k.code matches KeyCode::Char(c) ==> actions == sent(seq![c])
                &&& k.code is Enter ==> actions == sent("\r"@)
                &&& k.code is Backspace ==> actions == sent("\x08"@)
                &&& k.code is Tab ==> actions == sent("\t"@)
                &&& k.code is Esc ==> actions == sent("\x1b"@)
                &&& k.code is Up ==> actions == sent("\x1b[A"@)
                &&& k.code is Down ==> actions == sent("\x1b[B"@)
                &&& k.code is Right ==> actions == sent("\x1b[C"@)
                &&& k.code is Left ==> actions == sent("\x1b[D"@)
                &&& k.code is Home ==> actions == sent("\x1b[H"@)
                &&& k.code is End ==> actions == sent("\x1b[F"@)
                &&& k.code is Delete ==> actions == sent("\x1b[3~"@)
                &&& k.code is PageUp || k.code is PageDown || k.code is Other ==> actions
                    =~= seq![home]
                &&& k.code matches KeyCode::F(n) ==> {
                    &&& 1 <= n <= 4 ==> actions =~= sent(seq!['\x1b', 'O', ('O' as u8 + n) as u8 as char])
                    &&& n == 5 ==> actions == sent("\x1b[15~"@)
                    &&& n == 6 ==> actions == sent("\x1b[17~"@)
                    &&& n == 7 ==> actions == sent("\x1b[18~"@)
                    &&& n == 8 ==> actions == sent("\x1b[19~"@)
                    &&& n == 9 ==> actions == sent("\x1b[20~"@)
                    &&& n == 10 ==> actions == sent("\x1b[21~"@)
                    &&& n == 11 ==> actions == sent("\x1b[23~"@)
                    &&& n == 12 ==> actions == sent("\x1b[24~"@)
                    &&& n == 0 || n > 12 ==> actions =~= seq![home]
                }
            }
            &&& k.control && k.code == KeyCode::Char('c') ==> actions == sent("\x03"@)
            &&& k.control && k.code == KeyCode::Char('[') ==> actions == sent("\x1b"@)
            &&& k.control && !(k.code is Char) ==> actions =~= seq![home]
        }),
{
    reveal_strlit("\t");
    reveal_strlit("\x09");
    reveal_strlit("\x1bOP");
    reveal_strlit("\x1bOQ");
    reveal_strlit("\x1bOR");
    reveal_strlit("\x1bOS");
    let home = app::ActionView::SetScrollback(0);
    let actions = key_pressed(m, k, sc, now).1;
    assert("\t"@ =~= "\x09"@);
    assert(actions =~= match key_sequence(k) {
        Some(t) => seq![home, app::ActionView::Write(t)],
        None => seq![home],
    });
    if let KeyCode::F(n) = k.code {
        if !k.control && 1 <= n <= 4 {
            let t = seq!['\x1b', 'O', ('O' as u8 + n) as u8 as char];
            assert(key_sequence(k)->0 =~= t);
        }
    }
}

/// A small letter with the control key, c aside, is sent as an escape and the
/// letter's place in the alphabet.
pub proof fn law_control_letters(m: app::AppView, k: KeyEvent, sc: ScreenState, now: u64, c: char)
    requires
        shell_has_keys(m),
        is_plain_key(k),
        k.control,
        k.code == KeyCode::Char(c),
        'a' <= c <= 'z',
        c != 'c',
    ensures
        key_pressed(m, k, sc, now).1 == seq![
            app::ActionView::SetScrollback(0),
            app::ActionView::Write(seq!['\x1b', ((c as u32 - 'a' as u32 + 1) as u8) as char]),
        ],
{
    reveal_strlit("\x1b");
    let t = seq!['\x1b', ((c as u32 - 'a' as u32 + 1) as u8) as char];
    assert(key_sequence(k)->0 =~= t);
    assert(key_pressed(m, k, sc, now).1 =~= seq![
        app::ActionView::SetScrollback(0),
        app::ActionView::Write(t),
    ]);
}

/// What a key makes of a text that is typed: a character comes at its end, and
/// backspace takes the last one away, if there is one.
pub open spec fn is_typed(before: Seq<char>, code: KeyCode, after: Seq<char>) -> bool {
    match code {
        KeyCode::Char(c) => after.len() == before.len() + 1 && after.last() == c && before
            == after.drop_last(),
        KeyCode::Backspace => if before.len() == 0 {
            after.len() == 0
        } else {
            after.len() == before.len() - 1 && before.drop_last() == after
        },
        _ => after == before,
    }
}

/// A key that is typed into the search field changes the query, and with it the
/// first row is selected; Enter and Esc leave the field. Nothing reaches the shell.
pub proof fn law_search_field_takes_keys(
    m: app::AppView,
    k: KeyEvent,
    sc: ScreenState,
    now: u64,
)
    requires
        is_plain_key(k),
        m.sidebar.is_search_focused,
        !m.dialogs.show_upload_confirm && !m.dialogs.show_delete_confirm
            && !m.dialogs.show_new_gist_dialog && !m.settings.is_shown,
    ensures
        ({
            let (after, actions) = key_pressed(m, k, sc, now);
            let leaves = k.code is Enter || k.code is Esc;
            let types = k.code is Char || k.code is Backspace;
            &&& actions == seq![app::ActionView::SetScrollback(0)]
            &&& is_typed(m.sidebar.search_query, k.code, after.sidebar.search_query)
            &&& after.sidebar.is_search_focused == !leaves
            &&& after.sidebar.state.selected == if types {
                Some(0usize)
            } else {
                m.sidebar.state.selected
            }
            &&& after == (app::AppView {
                last_activity: now,
                sidebar: app::SidebarView {
                    search_query: after.sidebar.search_query,
                    is_search_focused: after.sidebar.is_search_focused,
                    state: app::ListState {
                        selected: after.sidebar.state.selected,
                        offset: m.sidebar.state.offset,
                    },
                    ..m.sidebar
                },
                ..m
            })
        }),
{
    if let KeyCode::Char(c) = k.code {
        assert(m.sidebar.search_query.push(c).drop_last() =~= m.sidebar.search_query);
    }
}

/// While a name for a new script is asked for, keys are typed into it. Enter hands
/// the name on as it stands, and Esc drops it.
pub proof fn law_name_field_takes_keys(m: app::AppView, k: KeyEvent, sc: ScreenState, now: u64)
    requires
        is_plain_key(k),
        m.dialogs.show_new_gist_dialog,
        !m.dialogs.show_upload_confirm && !m.dialogs.show_delete_confirm,
    ensures
        ({
            let (after, actions) = key_pressed(m, k, sc, now);
            let name = m.dialogs.new_gist_name_input;
            let home = app::ActionView::SetScrollback(0);
            &&& k.code is Enter ==> actions == seq![
                home,
                app::ActionView::Post(app::MessageView::ConfirmNewGistName(name)),
            ]
            &&& !(k.code is Enter) ==> actions == seq![home]
            &&& k.code is Enter || k.code is Esc ==> after.dialogs.new_gist_name_input.len() == 0
            &&& !(k.code is Enter || k.code is Esc) ==> is_typed(
                name,
                k.code,
                after.dialogs.new_gist_name_input,
            )
            &&& after.dialogs.show_new_gist_dialog == !(k.code is Esc)
            &&& after == (app::AppView {
                last_activity: now,
                dialogs: app::DialogsView {
                    show_new_gist_dialog: after.dialogs.show_new_gist_dialog,
                    new_gist_name_input: after.dialogs.new_gist_name_input,
                    ..m.dialogs
                },
                ..m
            })
        }),
{
    if let KeyCode::Char(c) = k.code {
        assert(m.dialogs.new_gist_name_input.push(c).drop_last()
            =~= m.dialogs.new_gist_name_input);
    }
    assert(key_pressed(m, k, sc, now).1 =~= if k.code is Enter {
        seq![
            app::ActionView::SetScrollback(0),
            app::ActionView::Post(
                app::MessageView::ConfirmNewGistName(m.dialogs.new_gist_name_input),
            ),
        ]
    } else {
        seq![app::ActionView::SetScrollback(0)]
    });
}

/// The settings are shown, and no question is open.
pub open spec fn settings_have_keys(m: app::AppView) -> bool {
    &&& m.settings.is_shown
    &&& !m.dialogs.show_upload_confirm
    &&& !m.dialogs.show_delete_confirm
    &&& !m.dialogs.show_new_gist_dialog
}

/// A key that is typed while the settings are shown goes to the field with the
/// focus, and to no other. Esc leaves the field, or else closes the settings.
pub proof fn law_settings_fields_take_keys(
    m: app::AppView,
    k: KeyEvent,
    sc: ScreenState,
    now: u64,
)
    requires
        m.wf(),
        is_plain_key(k),
        settings_have_keys(m),
        !(k.code is Enter),
    ensures
        ({
            let (after, actions) = key_pressed(m, k, sc, now);
            let s = m.settings;
            let t = after.settings;
            let esc = k.code is Esc;
            let none = !s.is_pat_focused && !s.is_update_url_focused && !s.is_editor_focused;
            &&& actions == seq![app::ActionView::SetScrollback(0)]
            &&& s.is_pat_focused ==> is_typed(s.pat_input, k.code, t.pat_input)
            &&& !s.is_pat_focused ==> t.pat_input == s.pat_input
            &&& s.is_update_url_focused ==> is_typed(s.update_url_input, k.code, t.update_url_input)
            &&& !s.is_update_url_focused ==> t.update_url_input == s.update_url_input
            &&& s.is_editor_focused ==> is_typed(s.editor_input, k.code, t.editor_input)
            &&& !s.is_editor_focused ==> t.editor_input == s.editor_input
            &&& t.is_pat_focused == (s.is_pat_focused && !esc)
            &&& t.is_update_url_focused == (s.is_update_url_focused && !esc)
            &&& t.is_editor_focused == (s.is_editor_focused && !esc)
            &&& t.is_shown == !(none && esc)
            &&& after == (app::AppView {
                last_activity: now,
                settings: app::SettingsView {
                    pat_input: t.pat_input,
                    update_url_input: t.update_url_input,
                    editor_input: t.editor_input,
                    is_pat_focused: t.is_pat_focused,
                    is_update_url_focused: t.is_update_url_focused,
                    is_editor_focused: t.is_editor_focused,
                    is_shown: t.is_shown,
                    ..s
                },
                ..m
            })
        }),
{
    if let KeyCode::Char(c) = k.code {
        assert(m.settings.pat_input.push(c).drop_last() =~= m.settings.pat_input);
        assert(m.settings.update_url_input.push(c).drop_last() =~= m.settings.update_url_input);
        assert(m.settings.editor_input.push(c).drop_last() =~= m.settings.editor_input);
    }
    assert(key_pressed(m, k, sc, now).1 =~= seq![app::ActionView::SetScrollback(0)]);
}

/// Enter in a field of the settings takes what was typed, without the blanks
/// around it, and writes the configuration, unless nothing was typed: the token
/// logs the user in, the address is that of the update, and the editor opens files
/// from now on.
pub proof fn law_settings_are_entered(m: app::AppView, k: KeyEvent, sc: ScreenState, now: u64)
    requires
        m.wf(),
        is_plain_key(k),
        settings_have_keys(m),
        k.code is Enter,
    ensures
        ({
            let (after, actions) = key_pressed(m, k, sc, now);
            let s = m.settings;
            let home = app::ActionView::SetScrollback(0);
            let typed = text::trim(
                if s.is_pat_focused {
                    s.pat_input
                } else if s.is_update_url_focused {
                    s.update_url_input
                } else if s.is_editor_focused {
                    s.editor_input
                } else {
                    Seq::empty()
                },
            );
            let active = app::AppView { last_activity: now, ..m };
            &&& typed.len() == 0 ==> after == active && actions == seq![home]
            &&& typed.len() > 0 ==> actions == seq![home, app::ActionView::SaveConfig]
            &&& typed.len() > 0 && s.is_pat_focused ==> after == (app::AppView {
                auth_token: Some(typed),
                config: config::ConfigView {
                    auth: config::AuthView {
                        personal_access_token: Some(typed),
                        ..m.config.auth
                    },
                    ..m.config
                },
                settings: app::SettingsView { is_pat_focused: false, login_error: None, ..s },
                ..active
            })
            &&& typed.len() > 0 && s.is_update_url_focused ==> after == (app::AppView {
                config: config::ConfigView {
                    auth: config::AuthView { update_url: typed, ..m.config.auth },
                    ..m.config
                },
                settings: app::SettingsView { is_update_url_focused: false, ..s },
                ..active
            })
            &&& typed.len() > 0 && s.is_editor_focused ==> after == (app::AppView {
                config: config::ConfigView { external_editor: typed, ..m.config },
                settings: app::SettingsView { is_editor_focused: false, ..s },
                ..active
            })
        }),
{
    let home = app::ActionView::SetScrollback(0);
    let actions = key_pressed(m, k, sc, now).1;
    assert(text::trim(Seq::<char>::empty()).len() == 0);
    assert(actions =~= seq![home] || actions =~= seq![home, app::ActionView::SaveConfig]);
}

} // verus!
