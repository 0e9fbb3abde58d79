use termbookman::app::{
    Action, App, CommandList, Event, HistoryList, KeyCode, KeyEvent, Message, MouseButton,
    MouseEvent, MouseKind, SidebarMode,
};
use termbookman::app::GistEntry;
use termbookman::app::GistList;
use termbookman::config::{ActionType, ConditionType, Config, ItemType, StatusBarItem};
use termbookman::handlers::{click, click_areas, handle_click, ClickAreas};
use termbookman::screen::{read_state, MouseEncoding, MouseMode, ScreenState};
use termbookman::ui::calculate_layout;
use termbookman::ui::geometry::Rect;
use termbookman::ui::modals::{centered_rect, centered_rect_fixed};

const SIZE: Rect = Rect { x: 0, y: 0, width: 120, height: 40 };

fn strings(words: &[&str]) -> Vec<String> {
    words.iter().map(|w| w.to_string()).collect()
}

fn button(label: &str, action: ActionType) -> StatusBarItem {
    StatusBarItem {
        type_: ItemType::Button,
        label: Some(label.to_string()),
        action: Some(action),
        command: Some("git status\r".to_string()),
        color: None,
        hover_color: None,
        condition: None,
        width: None,
    }
}

fn new_app() -> App {
    let commands = CommandList {
        items: strings(&["list", "update", "tool"]),
        commands: strings(&["ls -la", "sudo apt", "/gists/tool.sh"]),
        infos: strings(&["all", "", "__SCRIPT__ x"]),
        mtimes: vec![None, None, None],
        paths: vec![Some("/exe/commands.txt".to_string()), None, Some("/gists/tool.sh".to_string())],
    };
    let mut config = Config::default();
    config.external_editor = "nano".to_string();
    config.statusbar.upper = vec![
        button(" MENU ", ActionType::ToggleMenu),
        button(" RUN ", ActionType::SendCommand),
        button(" EXIT ", ActionType::Quit),
    ];
    let mut copy = button(" COPY ", ActionType::CopySelection);
    copy.condition = Some(ConditionType::HasSelection);
    config.statusbar.lower = vec![
        copy,
        button(" SETTINGS ", ActionType::ShowSettingsModal),
        button(" GISTS ", ActionType::FetchGists),
    ];
    App::new(commands, 7, config, 0)
}

fn with_gists() -> App {
    let mut app = new_app();
    let entry = |label: &str, info: &str, path: &str, name: &str| GistEntry {
        label: label.to_string(),
        info: info.to_string(),
        command: path.to_string(),
        mtime: None,
        path: Some(path.to_string()),
        remote_name: name.to_string(),
    };
    app.gists = GistList::from_entries(&vec![
        entry("GIST: all", "", "/gists/all", "all"),
        entry("tool", "__SCRIPT__ x", "/gists/tool.sh", "tool.sh"),
    ]);
    app.sidebar.mode = SidebarMode::Gists;
    app
}

fn calm() -> ScreenState {
    ScreenState {
        mouse_mode: MouseMode::Off,
        mouse_encoding: MouseEncoding::Default,
        alternate_screen: false,
        hide_cursor: false,
        application_cursor: false,
        scrollback: 5,
        scrollback_len: 100,
        rows: 38,
        cols: 80,
        cursor_row: 0,
        cursor_col: 0,
    }
}

fn mouse(kind: MouseKind, column: u16, row: u16) -> MouseEvent {
    MouseEvent { kind, column, row, control: false }
}

const DOWN: MouseKind = MouseKind::Down(MouseButton::Left);
const UP: MouseKind = MouseKind::Up(MouseButton::Left);
const DRAG: MouseKind = MouseKind::Drag(MouseButton::Left);

fn at(app: &mut App, e: MouseEvent, sc: ScreenState, now: u64) -> Option<Vec<Action>> {
    let areas: ClickAreas = click_areas(app, SIZE);
    click(app, e, SIZE, &areas, sc, now, "/bin/tbm")
}

fn written(actions: &Vec<Action>) -> Vec<String> {
    let mut out = Vec::new();
    for a in actions {
        if let Action::Write(t) = a {
            out.push(t.clone());
        }
    }
    out
}

#[test]
fn the_layout_fills_the_screen() {
    let l = calculate_layout(SIZE, 40);
    assert_eq!(l.term_area, Rect { x: 0, y: 0, width: 80, height: 38 });
    assert_eq!(l.scrollbar_area, Rect { x: 80, y: 0, width: 1, height: 38 });
    assert_eq!(l.sidebar_area, Rect { x: 81, y: 0, width: 38, height: 38 });
    assert_eq!(l.sidebar_scrollbar_area, Rect { x: 119, y: 0, width: 1, height: 38 });
    assert_eq!(l.status_chunks[0], Rect { x: 0, y: 38, width: 120, height: 1 });
    assert_eq!(l.status_chunks[1], Rect { x: 0, y: 39, width: 120, height: 1 });
}

#[test]
fn dialogs_lie_in_the_middle() {
    assert_eq!(centered_rect_fixed(50, 10, SIZE), Rect { x: 35, y: 15, width: 50, height: 10 });
    let part = centered_rect(40, 30, SIZE);
    assert_eq!((part.width, part.height), (48, 12));
    let tight = centered_rect_fixed(100, 26, Rect { x: 0, y: 0, width: 40, height: 10 });
    assert!(tight.width <= 40 && tight.height <= 10);
}

#[test]
fn areas_hold_their_cells() {
    let r = Rect { x: 2, y: 3, width: 4, height: 1 };
    assert!(r.contains(2, 3) && r.contains(5, 3));
    assert!(!r.contains(6, 3) && !r.contains(2, 4) && !r.contains(1, 3));
    assert_eq!((r.right(), r.bottom()), (6, 4));
    assert_eq!(r.inner(), Rect { x: 3, y: 4, width: 2, height: 0 });
}

#[test]
fn a_click_on_the_menu_toggles_it() {
    let mut app = new_app();
    assert!(at(&mut app, mouse(DOWN, 1, 38), calm(), 0).unwrap().is_empty());
    assert!(app.show_menu);
    at(&mut app, mouse(DOWN, 1, 38), calm(), 0);
    assert!(!app.show_menu);
}

#[test]
fn a_click_on_a_command_sends_it() {
    let mut app = new_app();
    let actions = at(&mut app, mouse(DOWN, 8, 38), calm(), 0).unwrap();
    assert!(matches!(&actions[0], Action::SendCommand(c) if c == "git status\r"));
    at(&mut app, mouse(DOWN, 12, 38), calm(), 0);
    assert!(app.should_quit);
}

#[test]
fn hidden_items_take_no_room() {
    let mut app = new_app();
    let actions = at(&mut app, mouse(DOWN, 12, 39), calm(), 0).unwrap();
    assert!(matches!(actions[0], Action::Post(Message::FetchGists)));
    app.selection.start = Some((1, 2));
    app.selection.end = Some((3, 4));
    let copied = at(&mut app, mouse(DOWN, 1, 39), calm(), 0).unwrap();
    assert!(matches!(copied[0], Action::CopySelection { start: (1, 2), end: (3, 4) }));
}

#[test]
fn the_settings_open_with_what_is_known() {
    let mut app = new_app();
    at(&mut app, mouse(DOWN, 1, 39), calm(), 0);
    assert!(app.settings.is_shown);
    assert_eq!(app.settings.login_error, Some("No github_client_id found in config.".to_string()));
    let mut with_id = new_app();
    with_id.config.auth.github_client_id = Some("id".to_string());
    with_id.config.auth.scope = "gist".to_string();
    let asked = at(&mut with_id, mouse(DOWN, 1, 39), calm(), 0).unwrap();
    match &asked[0] {
        Action::RequestDeviceCode { client_id, scope } => {
            assert_eq!((client_id.as_str(), scope.as_str()), ("id", "gist"))
        }
        _ => panic!("no request"),
    }
    let mut known = new_app();
    known.auth_token = Some("tok".to_string());
    at(&mut known, mouse(DOWN, 1, 39), calm(), 0);
    assert_eq!(known.settings.pat_input, "tok");
    assert_eq!(known.settings.editor_input, "nano");
    let outside = mouse(DOWN, 0, 0);
    at(&mut known, outside, calm(), 0);
    assert!(!known.settings.is_shown);
}

#[test]
fn a_click_gives_a_field_of_the_settings_the_focus() {
    let mut app = new_app();
    app.settings.is_shown = true;
    let areas = click_areas(&app, SIZE);
    let field = areas.settings.rows[3];
    click(&mut app, mouse(DOWN, field.x, field.y), SIZE, &areas, calm(), 0, "x");
    assert!(app.settings.is_pat_focused);
    let url = areas.settings.rows[7];
    click(&mut app, mouse(DOWN, url.x, url.y), SIZE, &areas, calm(), 0, "x");
    assert!(app.settings.is_update_url_focused && !app.settings.is_pat_focused);
    let editor = areas.settings.rows[12];
    click(&mut app, mouse(DOWN, editor.x, editor.y), SIZE, &areas, calm(), 0, "x");
    assert!(app.settings.is_editor_focused && !app.settings.is_update_url_focused);
    let update = areas.settings.rows[9];
    let asked = click(&mut app, mouse(DOWN, update.x, update.y), SIZE, &areas, calm(), 0, "x").unwrap();
    assert!(matches!(asked[0], Action::Post(Message::UpdateBinary)));
    app.settings.update_disabled_reason = Some("no".to_string());
    let none = click(&mut app, mouse(DOWN, update.x, update.y), SIZE, &areas, calm(), 0, "x").unwrap();
    assert!(none.is_empty());
}

#[test]
fn a_deletion_is_confirmed_by_a_click() {
    let mut app = with_gists();
    app.dialogs.show_delete_confirm = true;
    app.dialogs.gist_index_to_delete = Some(1);
    let areas = click_areas(&app, SIZE);
    let yes = areas.dialog.buttons[0];
    let no = areas.dialog.buttons[1];
    let missed = click(&mut app, mouse(DOWN, 0, 0), SIZE, &areas, calm(), 0, "x").unwrap();
    assert!(missed.is_empty() && app.dialogs.show_delete_confirm);
    let gone = click(&mut app, mouse(DOWN, yes.x, yes.y), SIZE, &areas, calm(), 0, "x").unwrap();
    assert!(matches!(gone[0], Action::Post(Message::DeleteGist(1))));
    assert!(!app.dialogs.show_delete_confirm);
    app.dialogs.show_delete_confirm = true;
    app.dialogs.gist_index_to_delete = Some(0);
    let kept = click(&mut app, mouse(DOWN, no.x, no.y), SIZE, &areas, calm(), 0, "x").unwrap();
    assert!(kept.is_empty() && app.dialogs.gist_index_to_delete.is_none());
}

#[test]
fn an_upload_is_confirmed_by_a_click() {
    let mut app = with_gists();
    app.auth_token = Some("tok".to_string());
    app.dialogs.show_upload_confirm = true;
    app.dialogs.pending_gist_file = Some("/gists/tool.sh".to_string());
    let areas = click_areas(&app, SIZE);
    let yes = areas.dialog.buttons[0];
    let sent = click(&mut app, mouse(DOWN, yes.x, yes.y), SIZE, &areas, calm(), 0, "x").unwrap();
    match &sent[0] {
        Action::Upload { token, path, remote_name, automatic } => {
            assert_eq!((token.as_str(), path.as_str()), ("tok", "/gists/tool.sh"));
            assert_eq!((remote_name.as_str(), *automatic), ("tool.sh", false));
        }
        _ => panic!("no upload"),
    }
    assert!(!app.dialogs.show_upload_confirm && app.dialogs.pending_gist_file.is_none());
}

#[test]
fn a_program_that_asks_gets_reports_of_the_mouse() {
    let mut app = new_app();
    let mut sc = calm();
    sc.mouse_mode = MouseMode::AnyMotion;
    sc.mouse_encoding = MouseEncoding::Sgr;
    let right = MouseEvent { kind: MouseKind::Down(MouseButton::Right), column: 4, row: 9, control: false };
    assert_eq!(written(&at(&mut app, right, sc, 0).unwrap()), strings(&["\x1b[<2;5;10M"]));
    assert_eq!(written(&at(&mut app, mouse(UP, 0, 0), sc, 0).unwrap()), strings(&["\x1b[<0;1;1m"]));
    assert_eq!(
        written(&at(&mut app, mouse(MouseKind::ScrollDown, 0, 0), sc, 0).unwrap()),
        strings(&["\x1b[<65;1;1M"])
    );
    assert_eq!(
        written(&at(&mut app, mouse(MouseKind::Moved, 2, 0), sc, 0).unwrap()),
        strings(&["\x1b[<35;3;1M"])
    );
    sc.mouse_mode = MouseMode::Off;
    assert_eq!(written(&at(&mut app, right, sc, 0).unwrap()), strings(&["\x1b[<1;5;10M"]));
}

#[test]
fn text_is_selected_with_the_mouse() {
    let mut app = new_app();
    at(&mut app, mouse(DOWN, 4, 2), calm(), 0);
    assert!(app.selection.is_selecting);
    at(&mut app, mouse(DRAG, 9, 3), calm(), 0);
    at(&mut app, mouse(UP, 9, 3), calm(), 0);
    assert!(!app.selection.is_selecting);
    assert_eq!((app.selection.start, app.selection.end), (Some((2, 4)), Some((3, 9))));
    at(&mut app, mouse(DOWN, 4, 2), calm(), 0);
    at(&mut app, mouse(UP, 4, 2), calm(), 0);
    assert_eq!((app.selection.start, app.selection.end), (None, None));
}

#[test]
fn the_wheel_moves_the_terminal() {
    let mut app = new_app();
    let up = at(&mut app, mouse(MouseKind::ScrollUp, 4, 2), calm(), 0).unwrap();
    assert!(matches!(up[0], Action::SetScrollback(8)));
    let mut near = calm();
    near.scrollback = 2;
    let down = at(&mut app, mouse(MouseKind::ScrollDown, 4, 2), near, 0).unwrap();
    assert!(matches!(down[0], Action::SetScrollback(0)));
}

#[test]
fn the_scrollbar_is_dragged() {
    let mut app = new_app();
    at(&mut app, mouse(DOWN, 80, 10), calm(), 0);
    assert!(app.drags.term_scrollbar);
    let moved = at(&mut app, mouse(DRAG, 80, 19), calm(), 0).unwrap();
    assert!(matches!(moved[0], Action::ScrollFromTop { part: 19, whole: 38 }));
    at(&mut app, mouse(UP, 80, 19), calm(), 0);
    assert!(!app.drags.term_scrollbar);
}

#[test]
fn the_edge_of_the_sidebar_is_dragged() {
    let mut app = new_app();
    let mut grab = mouse(DOWN, 80, 10);
    grab.control = true;
    at(&mut app, grab, calm(), 0);
    assert!(app.drags.sidebar);
    at(&mut app, mouse(DRAG, 60, 10), calm(), 0);
    assert_eq!(app.sidebar.width, 60);
    at(&mut app, mouse(DRAG, 119, 10), calm(), 0);
    assert_eq!(app.sidebar.width, 10);
    at(&mut app, mouse(DRAG, 0, 10), calm(), 0);
    assert_eq!(app.sidebar.width, 100);
}

#[test]
fn a_narrow_screen_cannot_be_dragged() {
    let mut app = new_app();
    app.drags.sidebar = true;
    let narrow = Rect { x: 0, y: 0, width: 29, height: 40 };
    let areas = click_areas(&app, narrow);
    assert!(click(&mut app, mouse(DRAG, 5, 5), narrow, &areas, calm(), 0, "x").is_none());
}

#[test]
fn the_tabs_change_the_list() {
    let mut app = new_app();
    app.sidebar.state.selected = Some(2);
    let history = at(&mut app, mouse(DOWN, 98, 0), calm(), 0).unwrap();
    assert!(matches!(history[0], Action::RefreshHistory));
    assert_eq!(app.sidebar.mode, SidebarMode::History);
    assert_eq!(app.sidebar.state.selected, Some(0));
    at(&mut app, mouse(DOWN, 116, 0), calm(), 0);
    assert_eq!(app.sidebar.mode, SidebarMode::Gists);
    at(&mut app, mouse(DOWN, 82, 0), calm(), 0);
    assert_eq!(app.sidebar.mode, SidebarMode::Commands);
}

#[test]
fn a_busy_shell_locks_the_sidebar() {
    let mut app = new_app();
    app.shell.is_busy = true;
    at(&mut app, mouse(DOWN, 98, 0), calm(), 0);
    assert_eq!(app.sidebar.mode, SidebarMode::Commands);
    let mut free = new_app();
    let mut active = calm();
    active.alternate_screen = true;
    at(&mut free, mouse(DOWN, 98, 0), active, 0);
    assert_eq!(free.sidebar.mode, SidebarMode::Commands);
}

#[test]
fn a_click_focuses_the_search() {
    let mut app = new_app();
    at(&mut app, mouse(DOWN, 90, 1), calm(), 0);
    assert!(app.sidebar.is_search_focused);
    at(&mut app, mouse(DOWN, 90, 20), calm(), 0);
    assert!(!app.sidebar.is_search_focused);
}

#[test]
fn a_click_on_the_mark_runs_a_row() {
    let mut app = new_app();
    let run = at(&mut app, mouse(DOWN, 82, 2), calm(), 0).unwrap();
    assert_eq!(written(&run), strings(&["/bin/tbm list\r"]));
    let script = at(&mut app, mouse(DOWN, 82, 4), calm(), 1_000_000_000).unwrap();
    assert_eq!(written(&script), strings(&["/bin/tbm script tool\r"]));
    let far = at(&mut app, mouse(DOWN, 95, 3), calm(), 2_000_000_000).unwrap();
    assert!(far.is_empty());
    assert_eq!(app.sidebar.state.selected, Some(1));
    app.sidebar.mode = SidebarMode::History;
    app.history = HistoryList { items: strings(&["make"]), commands: strings(&["make"]) };
    let again = at(&mut app, mouse(DOWN, 81, 2), calm(), 3_000_000_000).unwrap();
    assert_eq!(written(&again), strings(&["make\r"]));
}

#[test]
fn a_double_click_opens_the_file() {
    let mut app = new_app();
    at(&mut app, mouse(DOWN, 95, 2), calm(), 1_000_000_000);
    let opened = at(&mut app, mouse(DOWN, 95, 2), calm(), 1_299_999_999).unwrap();
    assert!(matches!(&opened[0], Action::TrackEdit(p) if p == "/exe/commands.txt"));
    assert_eq!(written(&opened), strings(&["nano '/exe/commands.txt'\r"]));
    assert_eq!(app.sidebar.last_click_time, None);
    at(&mut app, mouse(DOWN, 95, 2), calm(), 2_000_000_000);
    let late = at(&mut app, mouse(DOWN, 95, 2), calm(), 2_300_000_000).unwrap();
    assert!(late.is_empty());
}

#[test]
fn gists_have_their_own_clicks() {
    let mut app = with_gists();
    let fetch = at(&mut app, mouse(DOWN, 82, 2), calm(), 0).unwrap();
    assert!(matches!(fetch[0], Action::Post(Message::FetchGists)));
    let ask = at(&mut app, mouse(DOWN, 116, 3), calm(), 1_000_000_000).unwrap();
    assert!(ask.is_empty());
    assert_eq!(app.dialogs.gist_index_to_delete, Some(1));
    let mut other = with_gists();
    let made = at(&mut other, mouse(DOWN, 90, 37), calm(), 0).unwrap();
    assert!(matches!(made[0], Action::Post(Message::CreateNewGist)));
}

#[test]
fn the_wheel_moves_the_selection() {
    let mut app = new_app();
    at(&mut app, mouse(MouseKind::ScrollDown, 90, 10), calm(), 0);
    assert_eq!(app.sidebar.state.selected, Some(1));
    at(&mut app, mouse(MouseKind::ScrollDown, 90, 10), calm(), 0);
    at(&mut app, mouse(MouseKind::ScrollDown, 90, 10), calm(), 0);
    assert_eq!(app.sidebar.state.selected, Some(2));
    at(&mut app, mouse(MouseKind::ScrollUp, 90, 10), calm(), 0);
    assert_eq!(app.sidebar.state.selected, Some(1));
}

#[test]
fn the_list_is_scrolled_by_its_bar() {
    let mut app = new_app();
    let picked = at(&mut app, mouse(DOWN, 119, 19), calm(), 0).unwrap();
    assert!(matches!(picked[0], Action::PickRow { part: 19, whole: 38, rows: 3 }));
    assert!(app.drags.sidebar_scrollbar);
    let dragged = at(&mut app, mouse(DRAG, 70, 39), calm(), 0).unwrap();
    assert!(matches!(dragged[0], Action::PickRow { part: 37, whole: 38, rows: 3 }));
    app.pick_row(1);
    assert_eq!(app.sidebar.state.selected, Some(1));
    app.pick_row(9);
    assert_eq!(app.sidebar.state.selected, Some(2));
}

#[test]
fn clicks_and_keys_reach_the_state_through_the_terminal() {
    let mut parser = vt100::Parser::new(38, 80, 100);
    parser.process(b"\x1b[?1003h\x1b[?1006h\x1b[?25l");
    let sc = read_state(parser.screen());
    assert_eq!(sc.mouse_mode, MouseMode::AnyMotion);
    assert_eq!(sc.mouse_encoding, MouseEncoding::Sgr);
    assert!(sc.hide_cursor && !sc.alternate_screen);
    assert_eq!((sc.rows, sc.cols), (38, 80));
    let mut app = new_app();
    let sent = handle_click(&mut app, mouse(DOWN, 0, 0), SIZE, parser.screen(), 0, "x").unwrap();
    assert_eq!(written(&sent), strings(&["\x1b[<0;1;1M"]));
    let moved = app.take_event(Event::Mouse(mouse(MouseKind::Moved, 3, 4)), SIZE, parser.screen(), 0, "x");
    assert_eq!(written(&moved.unwrap()), strings(&["\x1b[<35;4;5M"]));
    assert_eq!(app.mouse_pos, Some((3, 4)));
    let key = KeyEvent { code: KeyCode::Enter, shift: false, control: false };
    let typed = app.take_event(Event::Key(key), SIZE, parser.screen(), 9, "x").unwrap();
    assert_eq!(written(&typed), strings(&["\r"]));
    assert_eq!(app.last_activity, 9);
    assert!(app.take_event(Event::Resize(1, 1), SIZE, parser.screen(), 9, "x").unwrap().is_empty());
}

#[test]
fn stretching_items_are_counted() {
    let mut app = new_app();
    assert!(app.can_place_bars());
    let item = |width: Option<u16>| {
        let mut i = button("x", ActionType::Quit);
        i.type_ = ItemType::Spacer;
        i.width = width;
        i
    };
    app.config.statusbar.upper = (0..24).map(|_| item(None)).collect();
    assert!(app.can_place_bars());
    for _ in 0..40 {
        app.config.statusbar.upper.push(item(Some(1)));
    }
    assert!(app.can_place_bars());
    app.config.statusbar.upper.push(item(None));
    assert!(!app.can_place_bars());
}

#[test]
fn a_list_has_no_more_cells_than_an_area_can() {
    let size = Rect { x: 0, y: 0, width: 400, height: 302 };
    let full = ratatui::layout::Rect::new(99, 2, 300, 298);
    assert!(full.height < 298 && full.width < 300);
    let scroll = |column: u16, row: u16| {
        let mut app = new_app();
        app.sidebar.width = 302;
        app.sidebar.state.selected = Some(0);
        let areas = click_areas(&app, size);
        click(&mut app, mouse(MouseKind::ScrollDown, column, row), size, &areas, calm(), 0, "x").unwrap();
        app.sidebar.state.selected
    };
    assert_eq!(scroll(120, full.bottom() - 1), Some(1));
    assert_eq!(scroll(120, full.bottom()), Some(0));
    assert_eq!(scroll(120, 290), Some(0));
    assert_eq!(scroll(full.right() - 1, 100), Some(1));
    assert_eq!(scroll(full.right(), 100), Some(0));
}
