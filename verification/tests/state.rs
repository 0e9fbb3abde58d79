use termbookman::app::{
    Action, App, CommandList, GistEntry, KeyCode, KeyEvent, Message, SidebarMode,
};
use termbookman::config::Config;
use termbookman::messages::{new_script_filename, update_url, NEW_SCRIPT};
use std::time::{Duration, SystemTime};
use termbookman::screen::{MouseEncoding, MouseMode, ScreenState};
use termbookman::stats::{edit_of, Edit};
use termbookman::ui::modals::Dialog;

fn strings(words: &[&str]) -> Vec<String> {
    words.iter().map(|w| w.to_string()).collect()
}

fn no_commands() -> CommandList {
    CommandList {
        items: Vec::new(),
        commands: Vec::new(),
        infos: Vec::new(),
        mtimes: Vec::new(),
        paths: Vec::new(),
    }
}

fn new_app() -> App {
    App::new(no_commands(), 7, Config::default(), 3)
}

fn gist(label: &str, path: Option<&str>, name: &str) -> GistEntry {
    GistEntry {
        label: label.to_string(),
        info: "info".to_string(),
        command: "command".to_string(),
        mtime: None,
        path: path.map(|p| p.to_string()),
        remote_name: name.to_string(),
    }
}

fn calm() -> ScreenState {
    ScreenState {
        mouse_mode: MouseMode::Off,
        mouse_encoding: MouseEncoding::Default,
        alternate_screen: false,
        hide_cursor: false,
        application_cursor: false,
        scrollback: 30,
        scrollback_len: 100,
        rows: 38,
        cols: 80,
        cursor_row: 0,
        cursor_col: 0,
    }
}

fn key(code: KeyCode) -> KeyEvent {
    KeyEvent { code, shift: false, control: false }
}

fn control(c: char) -> KeyEvent {
    KeyEvent { code: KeyCode::Char(c), shift: false, control: true }
}

fn press(app: &mut App, k: KeyEvent) -> Vec<Action> {
    app.press_key(k, calm(), 5)
}

fn typed(app: &mut App, k: KeyEvent) -> String {
    let actions = press(app, k);
    assert!(matches!(actions[0], Action::SetScrollback(0)));
    match actions.get(1) {
        Some(Action::Write(t)) => t.clone(),
        None => String::new(),
        _ => panic!("no text"),
    }
}

#[test]
fn the_first_state_is_calm() {
    let app = new_app();
    assert_eq!(app.sidebar.width, 40);
    assert_eq!(app.sidebar.state.selected, Some(0));
    assert_eq!(app.sidebar.mode, SidebarMode::Commands);
    assert_eq!(app.shell.pid, 7);
    assert_eq!(app.last_activity, 3);
    assert!(app.auth_token.is_none() && app.first_actions().is_empty());
    let mut config = Config::default();
    config.auth.personal_access_token = Some("tok".to_string());
    let logged = App::new(no_commands(), 1, config, 0);
    assert_eq!(logged.settings.pat_input, "tok");
    assert!(matches!(logged.first_actions()[0], Action::Post(Message::FetchGists)));
}

#[test]
fn keys_are_sent_to_the_shell() {
    let mut app = new_app();
    assert_eq!(typed(&mut app, key(KeyCode::Char('é'))), "é");
    assert_eq!(typed(&mut app, key(KeyCode::Enter)), "\r");
    assert_eq!(typed(&mut app, key(KeyCode::Backspace)), "\x08");
    assert_eq!(typed(&mut app, key(KeyCode::Tab)), "\t");
    assert_eq!(typed(&mut app, key(KeyCode::Esc)), "\x1b");
    assert_eq!(typed(&mut app, key(KeyCode::Up)), "\x1b[A");
    assert_eq!(typed(&mut app, key(KeyCode::Down)), "\x1b[B");
    assert_eq!(typed(&mut app, key(KeyCode::Right)), "\x1b[C");
    assert_eq!(typed(&mut app, key(KeyCode::Left)), "\x1b[D");
    assert_eq!(typed(&mut app, key(KeyCode::Home)), "\x1b[H");
    assert_eq!(typed(&mut app, key(KeyCode::End)), "\x1b[F");
    assert_eq!(typed(&mut app, key(KeyCode::Delete)), "\x1b[3~");
    assert_eq!(typed(&mut app, key(KeyCode::F(1))), "\x1bOP");
    assert_eq!(typed(&mut app, key(KeyCode::F(4))), "\x1bOS");
    assert_eq!(typed(&mut app, key(KeyCode::F(12))), "\x1b[24~");
    assert_eq!(typed(&mut app, key(KeyCode::F(13))), "");
    assert_eq!(typed(&mut app, key(KeyCode::PageUp)), "");
}

#[test]
fn control_keys_are_sent_as_escapes() {
    let mut app = new_app();
    assert_eq!(typed(&mut app, control('c')), "\x03");
    assert_eq!(typed(&mut app, control('a')), "\x1b\x01");
    assert_eq!(typed(&mut app, control('z')), "\x1b\x1a");
    assert_eq!(typed(&mut app, control('[')), "\x1b");
    assert_eq!(typed(&mut app, control('1')), "");
    assert_eq!(typed(&mut app, control('\u{161}')), "\x1b\x01");
}

#[test]
fn shift_turns_pages() {
    let mut app = new_app();
    let up = press(&mut app, KeyEvent { code: KeyCode::PageUp, shift: true, control: false });
    assert!(up.len() == 1 && matches!(up[0], Action::SetScrollback(50)));
    let down = press(&mut app, KeyEvent { code: KeyCode::PageDown, shift: true, control: false });
    assert!(matches!(down[0], Action::SetScrollback(10)));
}

#[test]
fn a_key_copies_the_selection() {
    let mut app = new_app();
    assert!(press(&mut app, control('C')).is_empty());
    app.selection.start = Some((0, 1));
    app.selection.end = Some((2, 3));
    let copied = press(&mut app, KeyEvent { code: KeyCode::Char('c'), shift: true, control: true });
    assert!(matches!(copied[0], Action::CopySelection { start: (0, 1), end: (2, 3) }));
}

#[test]
fn keys_answer_questions() {
    let mut app = new_app();
    app.dialogs.show_delete_confirm = true;
    app.dialogs.gist_index_to_delete = Some(4);
    assert_eq!(press(&mut app, key(KeyCode::Char('x'))).len(), 1);
    assert!(app.dialogs.show_delete_confirm);
    let gone = press(&mut app, key(KeyCode::Char('Y')));
    assert!(matches!(gone[1], Action::Post(Message::DeleteGist(4))));
    app.dialogs.show_upload_confirm = true;
    app.dialogs.pending_gist_file = Some("/f".to_string());
    assert_eq!(press(&mut app, key(KeyCode::Esc)).len(), 1);
    assert!(!app.dialogs.show_upload_confirm && app.dialogs.pending_gist_file.is_none());
}

#[test]
fn a_name_for_a_gist_is_typed() {
    let mut app = new_app();
    app.take_message_at(Message::CreateNewGist, false, "t");
    assert!(app.dialogs.show_new_gist_dialog);
    press(&mut app, key(KeyCode::Char('a')));
    press(&mut app, key(KeyCode::Char('b')));
    press(&mut app, key(KeyCode::Backspace));
    assert_eq!(app.dialogs.new_gist_name_input, "a");
    let done = press(&mut app, key(KeyCode::Enter));
    assert!(matches!(&done[1], Action::Post(Message::ConfirmNewGistName(n)) if n == "a"));
    assert_eq!(app.dialogs.new_gist_name_input, "");
    press(&mut app, key(KeyCode::Esc));
    assert!(!app.dialogs.show_new_gist_dialog);
}

#[test]
fn settings_are_typed_and_saved() {
    let mut app = new_app();
    app.settings.is_shown = true;
    app.settings.is_pat_focused = true;
    assert_eq!(press(&mut app, key(KeyCode::Enter)).len(), 1);
    assert!(app.settings.is_pat_focused);
    app.settings.pat_input = " tok ".to_string();
    app.settings.login_error = Some("old".to_string());
    let saved = press(&mut app, key(KeyCode::Enter));
    assert!(matches!(saved[1], Action::SaveConfig));
    assert_eq!(app.auth_token, Some("tok".to_string()));
    assert_eq!(app.config.auth.personal_access_token, Some("tok".to_string()));
    assert!(!app.settings.is_pat_focused && app.settings.login_error.is_none());
    app.settings.is_editor_focused = true;
    app.settings.editor_input = "vi".to_string();
    press(&mut app, key(KeyCode::Char('m')));
    press(&mut app, key(KeyCode::Enter));
    assert_eq!(app.config.external_editor, "vim");
    app.settings.is_update_url_focused = true;
    app.settings.update_url_input = "http://u".to_string();
    press(&mut app, key(KeyCode::Enter));
    assert_eq!(app.config.auth.update_url, "http://u");
    press(&mut app, key(KeyCode::Esc));
    assert!(!app.settings.is_shown);
}

#[test]
fn the_search_takes_keys() {
    let mut app = new_app();
    app.sidebar.is_search_focused = true;
    app.sidebar.state.selected = Some(3);
    press(&mut app, key(KeyCode::Char('g')));
    assert_eq!(app.sidebar.search_query, "g");
    assert_eq!(app.sidebar.state.selected, Some(0));
    press(&mut app, key(KeyCode::Backspace));
    press(&mut app, key(KeyCode::Backspace));
    assert_eq!(app.sidebar.search_query, "");
    press(&mut app, key(KeyCode::Enter));
    assert!(!app.sidebar.is_search_focused);
}

#[test]
fn names_of_scripts_are_safe() {
    assert_eq!(new_script_filename("  my tool ", "t"), "script-my_tool.sh");
    assert_eq!(new_script_filename("x.sh", "t"), "script-x.sh.sh");
    assert_eq!(new_script_filename(" \t", "20240102_030405"), "script_20240102_030405.sh");
}

#[test]
fn a_nameless_script_is_named_after_the_time() {
    let mut app = new_app();
    app.dialogs.show_new_gist_dialog = true;
    let made = app.take_message(Message::ConfirmNewGistName(" ".to_string()), false);
    match &made[0] {
        Action::CreateScript { filename } => {
            assert_eq!(filename.len(), "script_20240102_030405.sh".len());
            let digits = filename[7..22].replace('_', "");
            assert!(digits.len() == 14 && digits.chars().all(|c| c.is_ascii_digit()));
        }
        _ => panic!("no script"),
    }
    assert!(!app.dialogs.show_new_gist_dialog);
}

#[test]
fn updates_fit_the_processor() {
    let url = "https://x/releases/download/tbm";
    assert_eq!(update_url(url, false), url);
    assert_eq!(update_url(url, true), "https://x/releases/download/tbm.arm");
    let arm = "https://x/download/tbm.arm/tbm.arm";
    assert_eq!(update_url(arm, true), arm);
}

#[test]
fn logging_in_is_remembered() {
    let mut app = new_app();
    app.config.auth.github_client_id = Some("id".to_string());
    let code = Message::DeviceCodeSuccess("d".to_string(), "u".to_string(), "v".to_string());
    let polled = app.take_message_at(code, false, "t");
    match &polled[0] {
        Action::PollToken { client_id, device_code } => {
            assert_eq!((client_id.as_str(), device_code.as_str()), ("id", "d"))
        }
        _ => panic!("no poll"),
    }
    assert_eq!(app.settings.github_user_code, Some("u".to_string()));
    app.settings.is_shown = true;
    let saved = app.take_message_at(Message::AuthSuccess("tok".to_string()), false, "t");
    assert!(matches!(saved[0], Action::SaveConfig));
    assert!(!app.settings.is_shown);
    app.take_message_at(Message::AuthError("bad".to_string()), false, "t");
    assert_eq!(app.settings.login_error, Some("bad".to_string()));
}

#[test]
fn gists_are_fetched_only_when_logged_in() {
    let mut app = new_app();
    assert!(app.take_message_at(Message::FetchGists, false, "t").is_empty());
    assert_eq!(app.settings.login_error, Some("Not logged in to GitHub.".to_string()));
    assert!(app.settings.is_shown && app.loading_gist);
    app.auth_token = Some("tok".to_string());
    let sent = app.take_message_at(Message::FetchGists, false, "t");
    assert!(matches!(&sent[0], Action::DownloadGists { token } if token == "tok"));
    let got = vec![gist("a", Some("/a"), "a.sh"), gist("b", None, "b.sh")];
    app.take_message_at(Message::GistsFetched(got), false, "t");
    assert!(!app.loading_gist);
    assert_eq!(app.gists.items, strings(&["a", "b"]));
    assert_eq!(app.sidebar.mode, SidebarMode::Gists);
}

#[test]
fn a_deleted_gist_leaves_everywhere() {
    let mut app = new_app();
    let got = vec![gist("a", Some("/a"), "a.sh"), gist("b", None, "b.sh")];
    app.take_message_at(Message::GistsFetched(got), false, "t");
    app.auth_token = Some("tok".to_string());
    let first = app.take_message_at(Message::DeleteGist(0), false, "t");
    assert!(matches!(&first[0], Action::RemoveFile(p) if p == "/a"));
    assert!(matches!(&first[1], Action::DeleteRemote { remote_name, .. } if remote_name == "a.sh"));
    assert_eq!(app.gists.items, strings(&["b"]));
    assert!(app.take_message_at(Message::DeleteGist(5), false, "t").is_empty());
}

#[test]
fn a_new_script_is_listed_and_opened() {
    let mut app = new_app();
    app.config.external_editor = "nano".to_string();
    let time = std::time::SystemTime::UNIX_EPOCH;
    let opened = app.open_new_script("/gists/s.sh", "s.sh", time);
    assert!(matches!(&opened[0], Action::Write(t) if t == "nano '/gists/s.sh'\r"));
    assert_eq!(app.gists.items, strings(&["NEW SCRIPT"]));
    assert_eq!(app.gists.infos, strings(&["__SCRIPT__"]));
    assert_eq!(app.shell.editing_file, Some(("/gists/s.sh".to_string(), time)));
    assert!(NEW_SCRIPT.starts_with("#!/bin/bash\n# IDENTIFIER"));
    app.take_message_at(Message::DeleteGist(0), false, "t");
    assert!(app.gists.items.is_empty());
}

#[test]
fn news_is_echoed_in_the_shell() {
    let mut app = new_app();
    let said = app.take_message_at(Message::GistUploadStatus("it's".to_string(), true), false, "t");
    assert!(matches!(&said[0], Action::Write(t) if t == "echo 'it'\"'\"'s'\r"));
    assert!(app.take_message_at(Message::Tick, false, "t").is_empty());
    app.settings.update_url_input = "u/download/tbm".to_string();
    let update = app.take_message_at(Message::UpdateBinary, true, "t");
    assert!(matches!(&update[0], Action::UpdateProgram { url } if url == "u/download/tbm.arm"));
}

#[test]
fn a_closed_editor_gives_its_file_once() {
    let mut app = new_app();
    let time = std::time::SystemTime::UNIX_EPOCH;
    app.track_edit("/f", Some(time));
    app.track_edit("/g", None);
    assert!(app.update_stats(&vec![Some(7), None], (1, 2)).is_none());
    assert!(app.shell.is_busy);
    assert_eq!(app.mem_usage, (1, 2));
    assert_eq!(app.update_stats(&vec![Some(8)], (1, 2)), Some(("/f".to_string(), time)));
    assert!(!app.shell.is_busy && app.shell.editing_file.is_none());
    assert!(app.update_stats(&Vec::new(), (1, 2)).is_none());
}

#[test]
fn a_changed_gist_gets_new_labels_and_is_uploaded() {
    let mut app = new_app();
    let got = vec![gist("a", Some("/a"), "a.sh"), gist("b", Some("/b"), "b.sh")];
    app.take_message_at(Message::GistsFetched(got), false, "t");
    let content = "#!/bin/sh\n# NEW about it\necho\n";
    let upload = app.try_take_change("/b", Edit::Gist, Some(content), no_commands());
    assert_eq!(upload, Some(Some("/b".to_string())));
    assert_eq!(app.gists.items, strings(&["a", "NEW"]));
    assert_eq!(app.gists.infos, strings(&["info", "__SCRIPT__ about it echo"]));
    assert!(app.upload_action("/b", true).is_empty());
    app.auth_token = Some("tok".to_string());
    let sent = app.upload_action("/b", true);
    assert!(matches!(&sent[0], Action::Upload { remote_name, automatic: true, .. } if remote_name == "b.sh"));
    let local = app.try_take_change("/exe/commands.txt", Edit::Commands, None, no_commands());
    assert_eq!(local, Some(None));
    let wide = format!("#!/bin/sh\n{}é{}\n", "x".repeat(96), "x".repeat(20));
    assert_eq!(app.try_take_change("/b", Edit::Gist, Some(&wide), no_commands()), None);
}

#[test]
fn a_file_has_changed_if_its_time_is_later() {
    let noted = SystemTime::UNIX_EPOCH + Duration::from_secs(100);
    let later = noted + Duration::from_nanos(1);
    let earlier = noted - Duration::from_secs(1);
    assert_eq!(edit_of(noted, Some(later), Some(true)), Edit::Gist);
    assert_eq!(edit_of(noted, Some(later), Some(false)), Edit::Commands);
    assert_eq!(edit_of(noted, Some(later), None), Edit::Unchanged);
    assert_eq!(edit_of(noted, Some(noted), Some(true)), Edit::Unchanged);
    assert_eq!(edit_of(noted, Some(earlier), Some(true)), Edit::Unchanged);
    assert_eq!(edit_of(noted, None, Some(true)), Edit::Unchanged);
    let mut app = new_app();
    assert_eq!(app.try_take_change("/b", Edit::Unchanged, Some("x"), no_commands()), Some(None));
}

#[test]
fn dialogs_are_shown_in_turn() {
    let mut app = new_app();
    assert!(app.shown_dialogs().is_empty());
    app.dialogs.show_delete_confirm = true;
    app.show_menu = true;
    assert_eq!(app.shown_dialogs(), vec![Dialog::Menu, Dialog::Delete]);
    app.settings.is_shown = true;
    app.dialogs.show_upload_confirm = true;
    app.dialogs.show_new_gist_dialog = true;
    assert_eq!(
        app.shown_dialogs(),
        vec![Dialog::Menu, Dialog::Settings, Dialog::Upload, Dialog::NewGist, Dialog::Delete]
    );
}

#[test]
fn git_is_asked_now_and_then() {
    let mut app = new_app();
    assert!(app.git_due());
    app.take_git(Some("main\n"), Some(" \n"));
    assert_eq!(app.git_info, Some("GIT: main (clean)".to_string()));
    assert!(!app.git_due() && !app.git_due() && !app.git_due());
    assert!(app.git_due());
    app.take_git(Some("dev"), Some(" M a\n"));
    assert_eq!(app.git_info, Some("GIT: dev (modified)".to_string()));
    app.take_git(Some("dev"), None);
    assert_eq!(app.git_info, Some("GIT: dev (unknown)".to_string()));
    app.take_git(None, None);
    assert_eq!(app.git_info, None);
}

#[test]
fn the_history_is_read_from_a_file_or_a_listing() {
    let mut app = new_app();
    app.refresh_history(Some("a\nb\n"), Some("1 x y"));
    assert_eq!(app.history.items, strings(&["b", "a"]));
    assert_eq!(app.history.commands, app.history.items);
    app.refresh_history(None, Some("  1  x y\n"));
    assert_eq!(app.history.items, strings(&["x y"]));
    app.refresh_history(None, None);
    assert!(app.history.items.is_empty());
}

#[test]
fn answers_to_prompts_are_trimmed() {
    let app = new_app();
    let mut cmd = "a <prompt:name> b".to_string();
    assert_eq!(app.process_prompt(&mut cmd, None).unwrap().name, "name");
    assert!(app.process_prompt(&mut cmd, Some(" v \n")).is_none());
    assert_eq!(cmd, "a v b");
}
