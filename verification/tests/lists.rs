use termbookman::app::{App, CommandList, GistEntry, HistoryList, SidebarMode};
use termbookman::cli::{announce, announce_passed, not_found_text, plan, terminal_size, wants_version, Plan};
use termbookman::commands::{load_commands, title_of_file, try_load_commands, CachedFile};
use termbookman::config::{config_plan, login_token, AuthConfig, Config, ConfigFile};
use termbookman::gists::{gist_downloads, read_gist_list, safe_filename, title_of_gist, Download, GistBook};
use termbookman::github::{
    delete_message, delete_request, device_code_params, device_code_reply, find_gist_id, poll_reply,
    refusal_text, update_message, UpdateStage,
    plan_delete, plan_upload, read_device_code, read_list, read_poll, request_result,
    upload_message, upload_request, Method, PollStep, Stage,
};
use termbookman::app::{GistList, Message};
use termbookman::json::{parse_json, Json};
use termbookman::ui::geometry::Rect;

fn strings(words: &[&str]) -> Vec<String> {
    words.iter().map(|w| w.to_string()).collect()
}

fn file(name: &str, content: &str) -> CachedFile {
    CachedFile {
        path: format!("/gists/{}", name),
        filename: name.to_string(),
        mtime: None,
        content: content.to_string(),
    }
}

fn list(labels: &[&str], commands: &[&str], infos: &[&str]) -> CommandList {
    CommandList {
        items: strings(labels),
        commands: strings(commands),
        infos: strings(infos),
        mtimes: vec![None; labels.len()],
        paths: vec![None; labels.len()],
    }
}

#[test]
fn commands_come_from_the_book_and_the_gists() {
    let files = vec![
        file("more.txt", "# termbookman\nls -a\n"),
        file("script-backup.sh", "#!/bin/bash\necho\n"),
        file("notes.txt", "just text"),
        file("notes.txt", "more text"),
    ];
    let all = load_commands(Some(("/exe/commands.txt", "ls\n# up date\nsudo apt\n")), &files);
    assert_eq!(all.items, strings(&["ls", "up", "ls2", "backup.sh", "notes.txt", "notes.txt2"]));
    assert_eq!(
        all.commands,
        strings(&["ls", "sudo apt", "ls -a", "/gists/script-backup.sh", "notes.txt", "notes.txt2"])
    );
    assert_eq!(
        all.infos,
        strings(&["", "date", "", "__SCRIPT__ echo", "GIST: notes.txt", "GIST: notes.txt"])
    );
    assert_eq!(all.paths[0], Some("/exe/commands.txt".to_string()));
    assert_eq!(all.paths[3], Some("/gists/script-backup.sh".to_string()));
    assert_eq!(all.mtimes.len(), 6);
}

#[test]
fn scripts_are_named_by_themselves_or_their_file() {
    let files = vec![
        file("a.sh", "#!/bin/sh\n# RUN it all\n"),
        file("b.sh", "#!/bin/sh\n# RUN again\n"),
    ];
    let all = try_load_commands(None, &files).unwrap();
    assert_eq!(all.items, strings(&["RUN", "RUN2"]));
    assert_eq!(all.infos[0], "__SCRIPT__ it all");
    assert_eq!(title_of_file("scriptscript--x y "), "x y");
    assert_eq!(title_of_gist("script-_tool.sh"), "tool.sh");
    assert_eq!(title_of_file("script-_tool.sh"), "_tool.sh");
}

#[test]
fn a_script_that_cannot_be_shown_is_not_loaded() {
    let wide = format!("#!/bin/sh\n{}é{}\n", "x".repeat(96), "x".repeat(20));
    assert!(try_load_commands(None, &vec![file("w.sh", &wide)]).is_none());
}

#[test]
fn the_command_line_is_understood() {
    let l = list(
        &["ls", "tool", "ask", "tool"],
        &["ls -la", "plain", "ping <prompt:Host>", "/gists/tool.sh"],
        &["", "", "", "__SCRIPT__ x"],
    );
    assert!(matches!(plan(&strings(&["tbm"]), &l), Plan::Dashboard));
    assert!(wants_version(&strings(&["tbm", "--version"])));
    assert!(wants_version(&strings(&["tbm", "-v", "x"])));
    assert!(!wants_version(&strings(&["tbm"])));
    match plan(&strings(&["tbm", "ls"]), &l) {
        Plan::RunCommand { command, .. } => assert_eq!(command, "ls -la"),
        _ => panic!("no command"),
    }
    match plan(&strings(&["tbm", "ask"]), &l) {
        Plan::RunPrompted { command, .. } => assert_eq!(command, "ping <prompt:Host>"),
        _ => panic!("no prompt"),
    }
    match plan(&strings(&["tbm", "script", "tool"]), &l) {
        Plan::RunScript { path, .. } => assert_eq!(path, "/gists/tool.sh"),
        _ => panic!("no script"),
    }
    match plan(&strings(&["tbm", "print", "tool"]), &l) {
        Plan::ShowCommand(command) => assert_eq!(command, "plain"),
        _ => panic!("nothing shown"),
    }
    match plan(&strings(&["tbm", "print", "script", "tool"]), &l) {
        Plan::ShowFile(path) => assert_eq!(path, "/gists/tool.sh"),
        _ => panic!("no file shown"),
    }
    assert!(matches!(plan(&strings(&["tbm", "print", "none"]), &l), Plan::Nothing));
    match plan(&strings(&["tbm", "print"]), &l) {
        Plan::NotFound(label) => assert_eq!(label, "print"),
        _ => panic!("found"),
    }
}

#[test]
fn what_runs_is_announced() {
    assert_eq!(
        announce_passed(true, Some("2h"), "x.sh"),
        "\x1b[90mExecuting script [gist from local cache, saved 2h ago]: x.sh\x1b[0m"
    );
    assert_eq!(announce(false, None, "ls"), "\x1b[90mExecuting: ls\x1b[0m");
    let now = std::time::SystemTime::now();
    assert_eq!(
        announce(false, Some(now), "ls"),
        "\x1b[90mExecuting [gist from local cache, saved 0m ago]: ls\x1b[0m"
    );
    assert_eq!(not_found_text("x"), "\x1b[90mtermbookman: command not found: x\x1b[0m");
}

#[test]
fn the_terminal_starts_smaller_on_a_large_screen() {
    let small = Rect { x: 0, y: 0, width: 80, height: 24 };
    let large = Rect { x: 0, y: 0, width: 200, height: 60 };
    assert_eq!(terminal_size(small), (24, 80));
    assert_eq!(terminal_size(large), (58, 175));
    let huge = Rect { x: 0, y: 0, width: 500, height: 400 };
    let rows = ratatui::layout::Rect::new(0, 0, 500, 398).height;
    assert!(rows < 398);
    assert_eq!(terminal_size(huge), (rows, 475));
}

#[test]
fn tokens_that_are_placeholders_do_not_count() {
    let mut auth = AuthConfig::default();
    assert_eq!(login_token(&auth), None);
    auth.personal_access_token = Some("YOUR_TOKEN_HERE".to_string());
    assert_eq!(login_token(&auth), None);
    auth.personal_access_token = Some(String::new());
    assert_eq!(login_token(&auth), None);
    auth.personal_access_token = Some("abc".to_string());
    assert_eq!(login_token(&auth), Some("abc".to_string()));
}

#[test]
fn a_missing_configuration_is_written() {
    let missing = config_plan(&ConfigFile::Missing { dir_exists: false });
    assert!(missing.create_dir && missing.write_default && missing.use_default);
    let there = config_plan(&ConfigFile::Missing { dir_exists: true });
    assert!(!there.create_dir && there.write_default);
    let loaded = config_plan(&ConfigFile::Loaded);
    assert!(!loaded.write_default && !loaded.use_default);
    let broken = config_plan(&ConfigFile::Unusable);
    assert!(!broken.write_default && broken.use_default);
    let nowhere = config_plan(&ConfigFile::NoPlace);
    assert!(!nowhere.create_dir && nowhere.use_default);
}

const GISTS: &str = r#"[
  {"id": "one", "files": {"a.sh": {"raw_url": "http://x/a"}, "b.sh": {"raw_url": ""}}},
  {"id": "none", "files": 7},
  {"id": "two", "files": {"c d.sh": {"raw_url": "http://x/c"}, "a.sh": {}}}
]"#;

#[test]
fn gists_are_found_by_their_files() {
    let all = parse_json(GISTS).unwrap();
    assert_eq!(find_gist_id(&all, "a.sh"), Some("one".to_string()));
    assert_eq!(find_gist_id(&all, "c d.sh"), Some("two".to_string()));
    assert_eq!(find_gist_id(&all, "x"), None);
    assert_eq!(find_gist_id(&Json::Null, "a.sh"), None);
}

#[test]
fn files_with_an_address_are_downloaded() {
    let files = read_gist_list(GISTS).unwrap();
    let names: Vec<&str> = files.iter().map(|f| f.filename.as_str()).collect();
    let urls: Vec<&str> = files.iter().map(|f| f.raw_url.as_str()).collect();
    assert_eq!(names, vec!["a.sh", "c d.sh"]);
    assert_eq!(urls, vec!["http://x/a", "http://x/c"]);
    assert!(read_gist_list("{\"message\": \"no\"}").is_none());
    assert!(read_gist_list("not json").is_none());
    assert_eq!(safe_filename("c d.sh"), "c_d.sh");
    assert!(gist_downloads(&Json::Array(Vec::new())).unwrap().is_empty());
}

#[test]
fn json_is_taken_apart() {
    let all = parse_json(r#"{"a": [null, true, 1.5, "t"], "b": {"c": "d"}}"#).unwrap();
    assert_eq!(all.get("b").unwrap().get_text("c"), Some("d".to_string()));
    assert_eq!(all.get_text("a"), None);
    assert!(all.get("x").is_none());
    match all.get("a") {
        Some(Json::Array(v)) => {
            assert!(matches!(v[0], Json::Null));
            assert!(matches!(v[1], Json::Bool(true)));
            assert!(matches!(v[2], Json::Number));
            assert!(matches!(&v[3], Json::Text(t) if t == "t"));
        }
        _ => panic!("no array"),
    }
}

#[test]
fn an_upload_changes_the_gist_that_has_the_file() {
    let all = parse_json(GISTS).unwrap();
    let change = upload_request(&all, "a.sh", "new");
    assert_eq!(change.method, Method::Patch);
    assert_eq!(change.url, "https://api.github.com/gists/one");
    let body = change.body.unwrap();
    let content = body.get("files").unwrap().get("a.sh").unwrap().get_text("content");
    assert_eq!(content, Some("new".to_string()));
    assert!(body.get("public").is_none());
}

#[test]
fn an_upload_of_a_new_file_makes_a_gist() {
    let all = parse_json(GISTS).unwrap();
    let made = upload_request(&all, "new.sh", "text");
    assert_eq!(made.method, Method::Post);
    assert_eq!(made.url, "https://api.github.com/gists");
    let body = made.body.unwrap();
    assert_eq!(body.get_text("description"), Some("Uploaded via termbookman".to_string()));
    assert!(matches!(body.get("public"), Some(Json::Bool(false))));
}

#[test]
fn a_deletion_needs_a_gist() {
    let all = parse_json(GISTS).unwrap();
    let gone = delete_request(&all, "c d.sh").unwrap();
    assert_eq!(gone.method, Method::Delete);
    assert_eq!(gone.url, "https://api.github.com/gists/two");
    assert!(gone.body.is_none());
    assert!(delete_request(&all, "x").is_none());
}

#[test]
fn a_deletion_is_refused_without_a_list_or_a_gist() {
    let asked = plan_delete(true, "200 OK", Some(GISTS), "c d.sh");
    match asked {
        Ok(q) => assert_eq!((q.method, q.url.as_str()), (Method::Delete, "https://api.github.com/gists/two")),
        Err(e) => panic!("{}", e),
    }
    let refused = |ok: bool, status: &str, body: Option<&str>, name: &str| plan_delete(ok, status, body, name).err();
    assert_eq!(refused(false, "401 Unauthorized", Some(GISTS), "a.sh"), Some("Failed to list gists: 401 Unauthorized".to_string()));
    assert_eq!(refused(true, "200 OK", Some(GISTS), "x"), Some("Gist not found on GitHub".to_string()));
    assert_eq!(refused(true, "200 OK", Some("{}"), "x"), Some("Gist not found on GitHub".to_string()));
    assert_eq!(refused(true, "200 OK", Some("no"), "x"), Some("error decoding response body".to_string()));
    assert_eq!(refused(true, "200 OK", None, "x"), Some("error decoding response body".to_string()));
    assert!(matches!(read_list(true, "200 OK", Some("[]")), Ok(Json::Array(v)) if v.is_empty()));
}

#[test]
fn an_upload_needs_a_list() {
    assert!(matches!(plan_upload(true, "200 OK", Some(GISTS), "a.sh", "t"), Ok(q) if q.method == Method::Patch));
    assert!(matches!(plan_upload(true, "200 OK", Some("[]"), "a.sh", "t"), Ok(q) if q.method == Method::Post));
    assert_eq!(plan_upload(false, "500", None, "a.sh", "t").err(), Some("Failed to list gists: 500".to_string()));
    assert_eq!(request_result(Method::Patch, true, "200 OK", ""), Ok(()));
    assert_eq!(request_result(Method::Patch, false, "404", ""), Err("Failed to update gist: 404".to_string()));
}

#[test]
fn replies_are_read_from_their_text() {
    assert!(matches!(
        read_device_code(Some(r#"{"device_code": "d", "user_code": "u", "verification_uri": "v"}"#), "200 OK"),
        Message::DeviceCodeSuccess(..)
    ));
    assert!(matches!(read_device_code(None, "500"), Message::AuthError(e) if e == "Failed to parse device code (Status: 500)"));
    assert!(matches!(read_poll(Some(r#"{"access_token": "t"}"#)), PollStep::Granted(t) if t == "t"));
    assert!(matches!(read_poll(Some("<html>")), PollStep::Wait));
    assert!(matches!(read_poll(None), PollStep::Wait));
}

#[test]
fn refusals_name_the_status() {
    assert_eq!(refusal_text(Method::Patch, "404", "b"), "Failed to update gist: 404");
    assert_eq!(refusal_text(Method::Post, "422", "b"), "Failed to create gist: 422 - b");
    assert_eq!(refusal_text(Method::Delete, "403", "b"), "Failed to delete gist: 403");
}

fn news(m: Message) -> (String, bool) {
    match m {
        Message::GistUploadStatus(t, ok) => (t, ok),
        _ => panic!("no news"),
    }
}

#[test]
fn uploads_and_deletions_are_reported() {
    assert_eq!(news(upload_message("a", false, &Stage::Started)), ("[Uploading Gist: a]".to_string(), true));
    assert_eq!(news(upload_message("a", true, &Stage::Done)), ("✓ Auto-upload success: a".to_string(), true));
    let failed = Stage::Failed("e".to_string());
    assert_eq!(news(upload_message("a", false, &failed)), ("✗ Gist upload failed: e".to_string(), false));
    assert_eq!(news(delete_message("a", &Stage::Started)), ("[Deleting Gist: a]".to_string(), true));
    assert_eq!(news(delete_message("a", &Stage::Done)), ("✓ Gist deleted: a".to_string(), true));
    assert_eq!(news(delete_message("a", &failed)), ("✗ Gist deletion failed: e".to_string(), false));
}

#[test]
fn updates_are_reported() {
    let said = |stage: UpdateStage| news(update_message(&stage));
    let e = || "e".to_string();
    assert_eq!(said(UpdateStage::Checking), ("[Update: Checking for latest binary...]".to_string(), true));
    assert_eq!(said(UpdateStage::Downloading), ("[Update: Downloading from GitHub...]".to_string(), true));
    assert_eq!(said(UpdateStage::Done), ("✓ Update successful! Please restart the app.".to_string(), true));
    assert_eq!(said(UpdateStage::NoPath(e())), ("✗ Update failed: Could not get current exe path (e)".to_string(), false));
    assert_eq!(said(UpdateStage::Network(e())), ("✗ Update failed: Network error (e)".to_string(), false));
    assert_eq!(said(UpdateStage::Refused("404 Not Found".to_string())), ("✗ Update failed: GitHub returned status 404 Not Found".to_string(), false));
    assert_eq!(said(UpdateStage::Unreadable(e())), ("✗ Update failed: Error reading response bytes (e)".to_string(), false));
    assert_eq!(said(UpdateStage::NotWritten(e())), ("✗ Update failed: Could not write temporary file (e)".to_string(), false));
    assert_eq!(
        said(UpdateStage::NotReplaced(e())),
        ("✗ Update failed: Could not replace binary (Permission error? Try running as sudo) (e)".to_string(), false)
    );
}

#[test]
fn a_scope_is_asked_for_where_it_is_given() {
    let pair = |k: &str, v: &str| (k.to_string(), v.to_string());
    assert_eq!(device_code_params("id", ""), vec![pair("client_id", "id")]);
    assert_eq!(device_code_params("id", "gist"), vec![pair("client_id", "id"), pair("scope", "gist")]);
}

#[test]
fn a_device_code_is_read_from_the_reply() {
    let good = parse_json(r#"{"device_code": "d", "user_code": "u", "verification_uri": "v"}"#);
    match device_code_reply(good.as_ref(), "200 OK") {
        Message::DeviceCodeSuccess(d, u, v) => assert_eq!((d, u, v), ("d".to_string(), "u".to_string(), "v".to_string())),
        _ => panic!("no code"),
    }
    let bad = parse_json(r#"{"error": "e", "error_description": "long"}"#);
    match device_code_reply(bad.as_ref(), "400") {
        Message::AuthError(e) => assert_eq!(e, "GitHub: long"),
        _ => panic!("no error"),
    }
    match device_code_reply(None, "500") {
        Message::AuthError(e) => assert_eq!(e, "Failed to parse device code (Status: 500)"),
        _ => panic!("no error"),
    }
}

#[test]
fn a_token_is_waited_for() {
    let granted = parse_json(r#"{"access_token": "t"}"#);
    assert!(matches!(poll_reply(granted.as_ref()), PollStep::Granted(t) if t == "t"));
    let pending = parse_json(r#"{"error": "authorization_pending"}"#);
    assert!(matches!(poll_reply(pending.as_ref()), PollStep::Wait));
    let slow = parse_json(r#"{"error": "slow_down"}"#);
    assert!(matches!(poll_reply(slow.as_ref()), PollStep::SlowDown));
    let refused = parse_json(r#"{"error": "expired_token"}"#);
    assert!(matches!(poll_reply(refused.as_ref()), PollStep::Refused(e) if e == "expired_token"));
    assert!(matches!(poll_reply(None), PollStep::Wait));
}

fn download(name: &str, content: &str) -> Download {
    Download {
        filename: name.to_string(),
        raw_url: format!("http://x/{}", name),
        content: content.to_string(),
        path: format!("/gists/{}", name),
        time: std::time::SystemTime::UNIX_EPOCH,
    }
}

#[test]
fn downloads_are_taken_up() {
    let mut book = GistBook::new();
    assert!(book.try_take_up(&download("b.txt", "# termbookman\n# one first\nls\nls\n")));
    assert!(book.try_take_up(&download("script-x.sh", "#!/bin/sh\necho hi\n")));
    assert!(book.try_take_up(&download("n.txt", "text")));
    let labels: Vec<&str> = book.entries.iter().map(|e| e.label.as_str()).collect();
    let infos: Vec<&str> = book.entries.iter().map(|e| e.info.as_str()).collect();
    let commands: Vec<&str> = book.entries.iter().map(|e| e.command.as_str()).collect();
    assert_eq!(labels, vec!["one", "ls", "x.sh", "n.txt"]);
    assert_eq!(infos, vec!["first", "", "__SCRIPT__ echo hi", "n.txt"]);
    assert_eq!(commands, vec!["ls", "ls", "/gists/script-x.sh", "curl -sL http://x/n.txt"]);
    assert_eq!(book.entries[2].remote_name, "script-x.sh");
    assert_eq!(book.entries[0].path, Some("/gists/b.txt".to_string()));
    let wide = format!("#!/bin/sh\n{}é{}\n", "x".repeat(96), "x".repeat(20));
    assert!(!book.try_take_up(&download("w.sh", &wide)));
    assert_eq!(book.entries.len(), 4);
}

#[test]
fn the_list_is_filtered_by_the_search() {
    let l = list(&["Git", "list", "top"], &["git", "ls", "top"], &["", "uses GIT", ""]);
    let mut app = App::new(l, 1, Config::default(), 0);
    assert_eq!(app.matching_rows(), vec![0, 1, 2]);
    app.sidebar.search_query = "gIt".to_string();
    assert_eq!(app.matching_rows(), vec![0, 1]);
    app.sidebar.search_query = "git ".to_string();
    assert!(app.matching_rows().is_empty());
    app.sidebar.search_query = "gi".to_string();
    app.sidebar.mode = SidebarMode::History;
    app.history = HistoryList { items: strings(&["git log", "ls"]), commands: strings(&["git log", "ls"]) };
    assert_eq!(app.matching_rows(), vec![0]);
}

#[test]
fn gists_are_kept_column_by_column() {
    let entry = GistEntry {
        label: "l".to_string(),
        info: "i".to_string(),
        command: "c".to_string(),
        mtime: None,
        path: None,
        remote_name: "r".to_string(),
    };
    let mut gists = GistList::from_entries(&vec![entry]);
    assert_eq!(gists.items, strings(&["l"]));
    assert_eq!(gists.remote_names, strings(&["r"]));
    gists.remove(0);
    assert!(gists.items.is_empty() && gists.infos.is_empty() && gists.paths.is_empty());
}
