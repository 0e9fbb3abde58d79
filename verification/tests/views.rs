use termbookman::app::{App, CommandList, GistEntry, GistList, HistoryList, SidebarMode};
use termbookman::color::Color;
use termbookman::config::{Config, ItemType, StatusBarItem};
use termbookman::screen::{
    order_ends, read_cell, read_state, selected_line, selected_text, selects, Cell, CellColor,
    CellFlags,
};
use termbookman::ui::geometry::Rect;
use termbookman::ui::modals::{
    draw_field, name_dialog_areas, shown_settings_areas, upload_text, Question,
};
use termbookman::ui::sidebar::{cut_text, hover_row, selected_style, sidebar_areas, ListInput, RowHover, RowInput};
use termbookman::ui::statusbar::ItemLook;
use termbookman::ui::style::{show_field, Span, Style};
use termbookman::ui::terminal::{cursor_place, look_of_cell, needs_resize, terminal_background};

fn strings(words: &[&str]) -> Vec<String> {
    words.iter().map(|w| w.to_string()).collect()
}

fn new_app() -> App {
    let commands = CommandList {
        items: strings(&["list", "__SCRIPT__tool"]),
        commands: strings(&["ls <prompt:x>", "/gists/tool.sh"]),
        infos: strings(&["all files", "__SCRIPT__ it echo"]),
        mtimes: vec![None, None],
        paths: vec![None, None],
    };
    App::new(commands, 7, Config::default(), 0)
}

fn texts(spans: &Vec<Span>) -> Vec<&str> {
    spans.iter().map(|s| s.text.as_str()).collect()
}

fn plain_row(label: &str, info: Option<&str>, command: &str, width: u16) -> RowInput {
    RowInput {
        mode: SidebarMode::Commands,
        label: label.to_string(),
        info: info.map(|i| i.to_string()),
        command: command.to_string(),
        color: Color::White,
        is_selected: false,
        is_locked: false,
        hover: RowHover { row: false, button: false, delete: false },
        is_loading: false,
        now: 0,
        bg: Color::Black,
        width,
    }
}

#[test]
fn selected_text_is_read_from_the_terminal() {
    let mut parser = vt100::Parser::new(4, 10, 0);
    parser.process(b"hello\r\nwide world\r\nend");
    let s = parser.screen();
    assert_eq!(selected_text(s, (0, 1), (0, 3)), "ell");
    assert_eq!(selected_text(s, (0, 3), (2, 1)), "lo\nwide world\nen");
    assert_eq!(selected_text(s, (2, 1), (0, 3)), "lo\nwide world\nen");
    assert_eq!(selected_text(s, (9, 0), (9, 2)), "");
    let mut app = new_app();
    assert_eq!(app.copy_selection(s), None);
    app.selection.start = Some((2, 0));
    app.selection.end = Some((2, 9));
    assert_eq!(app.copy_selection(s), Some("end".to_string()));
}

#[test]
fn a_line_of_cells_loses_its_last_blanks() {
    let cells = vec![Some("a".to_string()), None, Some("b".to_string()), Some("".to_string()), None];
    assert_eq!(selected_line(&cells), "a b");
}

#[test]
fn selections_run_as_one_reads() {
    assert_eq!(order_ends((2, 1), (0, 5)), ((0, 5), (2, 1)));
    assert!(selects((0, 5), (2, 1), 1, 0));
    assert!(selects((2, 1), (0, 5), 0, 5));
    assert!(!selects((0, 5), (2, 1), 0, 4));
    assert!(!selects((0, 5), (2, 1), 2, 2));
    assert!(!selects((3, 2), (3, 4), 3, 5));
}

#[test]
fn the_state_of_the_terminal_is_read() {
    let mut parser = vt100::Parser::new(3, 10, 50);
    parser.process(b"1\r\n2\r\n3\r\n4\r\n5");
    parser.screen_mut().set_scrollback(1);
    let sc = read_state(parser.screen());
    assert_eq!((sc.rows, sc.cols), (3, 10));
    assert_eq!(sc.scrollback, 1);
    assert_eq!((sc.cursor_row, sc.cursor_col), (2, 1));
    assert!(!sc.alternate_screen && !sc.hide_cursor && !sc.application_cursor);
    parser.process(b"\x1b[?1049h\x1b[?1h");
    let taken = read_state(parser.screen());
    assert!(taken.alternate_screen && taken.application_cursor && taken.is_app_active());
}

#[test]
fn cells_are_read_with_their_colours() {
    let mut parser = vt100::Parser::new(2, 10, 0);
    parser.process(b"\x1b[1;3;4;7;31;48;2;1;2;3mx\x1b[0my");
    let c = read_cell(parser.screen(), 0, 0).unwrap();
    assert_eq!(c.contents, "x");
    assert_eq!(c.fg, CellColor::Indexed(1));
    assert_eq!(c.bg, CellColor::Rgb(1, 2, 3));
    assert!(c.flags.bold && c.flags.italic && c.flags.underline && c.flags.inverse);
    let plain = read_cell(parser.screen(), 0, 1).unwrap();
    assert_eq!((plain.fg, plain.bg), (CellColor::Default, CellColor::Default));
    assert!(read_cell(parser.screen(), 5, 0).is_none());
}

#[test]
fn cells_are_drawn_in_their_colours() {
    let flags = CellFlags {
        bold: true,
        italic: false,
        underline: true,
        inverse: false,
        is_wide_continuation: false,
    };
    let c = Cell { contents: String::new(), fg: CellColor::Indexed(4), bg: CellColor::Default, flags };
    let drawn = look_of_cell(&c, Color::Blue, false).unwrap();
    assert_eq!(drawn.text, " ");
    assert_eq!(drawn.style.fg, Some(Color::Indexed(4)));
    assert_eq!(drawn.style.bg, Some(Color::Blue));
    assert!(drawn.style.bold && drawn.style.underlined && !drawn.style.italic);
    let chosen = look_of_cell(&c, Color::Blue, true).unwrap();
    assert_eq!(chosen.style.bg, Some(Color::Rgb(80, 80, 80)));
    assert_eq!(chosen.style.fg, Some(Color::White));
    let half = CellFlags { is_wide_continuation: true, ..flags };
    let second = Cell { contents: String::new(), fg: CellColor::Default, bg: CellColor::Default, flags: half };
    assert!(look_of_cell(&second, Color::Blue, false).is_none());
}

#[test]
fn the_terminal_is_drawn_cell_by_cell() {
    let mut parser = vt100::Parser::new(2, 10, 0);
    parser.process(b"ab");
    let mut app = new_app();
    app.selection.start = Some((0, 1));
    app.selection.end = Some((0, 1));
    let a = app.draw_cell(parser.screen(), Color::Black, 0, 0).unwrap();
    assert_eq!((a.text.as_str(), a.style.bg), ("a", Some(Color::Black)));
    let b = app.draw_cell(parser.screen(), Color::Black, 0, 1).unwrap();
    assert_eq!(b.style.bg, Some(Color::Rgb(80, 80, 80)));
    let none = app.draw_cell(parser.screen(), Color::Black, 7, 0).unwrap();
    assert_eq!((none.text.as_str(), none.style), (" ", Style::of(None, None)));
    assert!(needs_resize(parser.screen(), Rect { x: 0, y: 0, width: 9, height: 2 }));
    assert!(!needs_resize(parser.screen(), Rect { x: 0, y: 0, width: 10, height: 2 }));
}

#[test]
fn the_cursor_stays_in_its_area() {
    let parser = vt100::Parser::new(2, 10, 0);
    let mut sc = read_state(parser.screen());
    sc.cursor_row = 9;
    sc.cursor_col = 3;
    let area = Rect { x: 5, y: 1, width: 10, height: 2 };
    assert_eq!(cursor_place(sc, area), Some((8, 2)));
    sc.cursor_col = 65535;
    assert_eq!(cursor_place(sc, area), None);
    assert_eq!(terminal_background(Color::Red, true), Color::Rgb(30, 30, 30));
    assert_eq!(terminal_background(Color::Red, false), Color::Red);
}

#[test]
fn the_scrollbar_shows_what_is_dragged() {
    let parser = vt100::Parser::new(2, 10, 0);
    let mut sc = read_state(parser.screen());
    sc.scrollback = 3;
    sc.scrollback_len = 10;
    let area = Rect { x: 0, y: 0, width: 1, height: 9 };
    let mut app = new_app();
    let calm = app.draw_scrollbar(sc, area, false);
    assert_eq!((calm.length, calm.position), (10, 7));
    assert_eq!((calm.thumb, calm.behind), (Color::Rgb(60, 60, 60), Color::Black));
    app.mouse_pos = Some((0, 4));
    assert_eq!(app.draw_scrollbar(sc, area, true).thumb, Color::White);
    app.drags.sidebar = true;
    assert_eq!(app.draw_scrollbar(sc, area, true).thumb, Color::Yellow);
    assert_eq!(app.draw_scrollbar(sc, area, true).behind, Color::Red);
}

#[test]
fn texts_are_cut_with_two_dots() {
    assert_eq!(cut_text("abcdef", 6), Some("abcdef".to_string()));
    assert_eq!(cut_text("abcdef", 5), Some("abc..".to_string()));
    assert_eq!(cut_text("abcdef", 1), Some("..".to_string()));
    assert_eq!(cut_text("aéé", 4), None);
}

#[test]
fn a_row_shows_label_info_and_command() {
    let row = plain_row("list", Some("all files"), "ls -la", 40);
    let spans = row.spans().unwrap();
    assert_eq!(texts(&spans), vec![" ", "▸", "list", " all files", " ls -la"]);
    assert_eq!(spans[2].style, Style::on(Color::White, Color::Black, false));
    let narrow = plain_row("list", Some("all files"), "ls -la", 12);
    assert_eq!(texts(&narrow.spans().unwrap()), vec![" ", "▸", "list", " all.."]);
    let short = plain_row("list", Some("x"), "ls -la", 40);
    assert_eq!(texts(&short.spans().unwrap()), vec![" ", "▸", "list", " ls -la"]);
    let long = plain_row("a label of twenty by", None, "ls -la", 40);
    assert_eq!(texts(&long.spans().unwrap()), vec![" ", "▸", "a label of twenty by"]);
}

#[test]
fn a_script_has_a_badge_and_a_mark() {
    let mut row = plain_row("__SCRIPT__tool", Some("__SCRIPT__ it echo"), "/t.sh", 40);
    assert_eq!(
        texts(&row.spans().unwrap()),
        vec![" ", "▸", "tool", " SCRIPT", " it echo", " /t.sh"]
    );
    row.mode = SidebarMode::Gists;
    row.hover = RowHover { row: true, button: false, delete: true };
    let spans = row.spans().unwrap();
    assert_eq!(spans[6].text, " ".repeat(10));
    assert_eq!(spans[7].text, " x ");
    assert_eq!(spans[7].style, Style::on(Color::White, Color::Red, true));
    row.is_locked = true;
    assert_eq!(row.spans().unwrap()[2].style, Style::on(Color::DarkGray, Color::Black, false));
}

#[test]
fn gists_turn_a_bar_while_they_load() {
    let mut row = plain_row("x", Some("some info"), "c", 60);
    row.is_loading = true;
    row.now = 450_000_000;
    assert_eq!(row.spans().unwrap()[2].text, "\\ LOADING ...");
    row.now = 600_000_000;
    assert_eq!(row.spans().unwrap()[2].text, "| LOADING ...");
}

#[test]
fn a_row_that_cannot_be_cut_is_not_drawn() {
    assert!(plain_row("aéééééé", None, "c", 6).spans().is_none());
    assert!(plain_row("aéééééé", None, "c", 7).spans().is_some());
}

#[test]
fn rows_know_the_mouse() {
    let list = Rect { x: 10, y: 2, width: 20, height: 5 };
    let none = RowHover { row: false, button: false, delete: false };
    assert_eq!(hover_row(None, list, 0, 0), Some(none));
    assert_eq!(hover_row(Some((11, 3)), list, 1, 0), Some(RowHover { row: true, button: true, delete: false }));
    assert_eq!(hover_row(Some((27, 3)), list, 4, 3), Some(RowHover { row: true, button: false, delete: true }));
    assert_eq!(hover_row(Some((29, 3)), list, 1, 0), Some(RowHover { row: true, button: false, delete: false }));
    assert_eq!(hover_row(Some((11, 3)), list, 2, 0), Some(none));
}

#[test]
fn the_list_is_drawn_row_by_row() {
    let mut app = new_app();
    let list = Rect { x: 80, y: 2, width: 38, height: 30 };
    let input = ListInput { bg: Color::Black, is_locked: false, list, now: 0 };
    let lines = app.draw_list(input).unwrap();
    assert_eq!(lines.len(), 2);
    assert_eq!(lines[0].bg, Color::Rgb(60, 60, 60));
    assert_eq!(lines[0].spans[2].style, Style::on(Color::Green, Color::Rgb(60, 60, 60), true));
    assert_eq!(lines[1].spans[2].text, "tool");
    app.commands.infos[0] = "needs SUDO".to_string();
    app.commands.commands[0] = "apt".to_string();
    assert_eq!(app.draw_list(input).unwrap()[0].spans[2].style.fg, Some(Color::Red));
    app.sidebar.search_query = "tool".to_string();
    assert_eq!(app.draw_list(input).unwrap().len(), 1);
    let bar = Rect { x: 119, y: 0, width: 1, height: 30 };
    assert_eq!(app.draw_list_scrollbar(bar), (1, 0, Color::Rgb(50, 50, 50)));
    app.history = HistoryList { items: strings(&["make"]), commands: strings(&["make"]) };
    app.sidebar.mode = SidebarMode::History;
    app.sidebar.search_query = String::new();
    assert_eq!(texts(&app.draw_list(input).unwrap()[0].spans), vec![" ", "▸", "make"]);
}

#[test]
fn the_top_of_the_sidebar_is_drawn() {
    let mut app = new_app();
    let area = Rect { x: 81, y: 0, width: 38, height: 38 };
    let gists = sidebar_areas(area, true);
    assert_eq!(gists.len(), 4);
    assert_eq!(gists[3], Rect { x: 81, y: 37, width: 38, height: 1 });
    assert_eq!(sidebar_areas(area, false)[2].height, 36);
    let tab = app.draw_tab(SidebarMode::Commands, gists[0], Color::Black);
    assert_eq!(tab.text, " COMMANDS ");
    assert_eq!(tab.style, Style::on(Color::Black, Color::Green, true));
    app.mouse_pos = Some((82, 0));
    let other = app.draw_tab(SidebarMode::Gists, gists[0], Color::Black);
    assert_eq!(other.style, Style::on(Color::Yellow, Color::Rgb(50, 50, 50), false));
    assert_eq!(app.draw_search(false, Color::Black, 0).text, " Search 2 items .. ");
    app.sidebar.is_search_focused = true;
    app.sidebar.search_query = "g".to_string();
    let search = app.draw_search(false, Color::Black, 0);
    assert_eq!(search.text, " g_ ");
    assert_eq!(search.style, Style::on(Color::Yellow, Color::Rgb(30, 30, 30), false));
    assert_eq!(app.draw_search(false, Color::Black, 500_000_000).text, " g  ");
    assert_eq!(app.draw_new_button(gists[3], Color::Black).text, " [+] NEW SCRIPT ");
    assert_eq!(app.draw_locked().text, "  SIDEBAR DISABLED  ");
    let parser = vt100::Parser::new(2, 10, 0);
    assert!(!app.is_sidebar_locked(read_state(parser.screen())));
    app.shell.is_busy = true;
    assert!(app.is_sidebar_locked(read_state(parser.screen())));
}

fn item(type_: ItemType) -> StatusBarItem {
    StatusBarItem {
        type_,
        label: None,
        action: None,
        command: None,
        color: None,
        hover_color: None,
        condition: None,
        width: None,
    }
}

fn shown(look: Option<ItemLook>) -> (Vec<Span>, bool) {
    match look {
        Some(ItemLook::Texts { spans, to_right }) => (spans, to_right),
        _ => panic!("no text"),
    }
}

const BAR: Rect = Rect { x: 0, y: 38, width: 30, height: 1 };

#[test]
fn buttons_change_colour_under_the_mouse() {
    let parser = vt100::Parser::new(2, 10, 0);
    let sc = read_state(parser.screen());
    let mut app = new_app();
    let mut b = item(ItemType::Button);
    assert!(matches!(app.draw_item_at(&b, BAR, sc, "x"), Some(ItemLook::Nothing)));
    b.label = Some(" RUN ".to_string());
    b.color = Some("Red".to_string());
    b.hover_color = Some("light_red".to_string());
    let (spans, right) = shown(app.draw_item_at(&b, BAR, sc, "x"));
    assert_eq!(spans[0].style, Style::on(Color::White, Color::Red, true));
    assert!(!right);
    app.mouse_pos = Some((3, 38));
    let (hovered, _) = shown(app.draw_item_at(&b, BAR, sc, "x"));
    assert_eq!(hovered[0].style, Style::on(Color::Black, Color::LightRed, true));
    let empty = Rect { x: 0, y: 38, width: 0, height: 1 };
    assert!(matches!(app.draw_item_at(&b, empty, sc, "x"), Some(ItemLook::Nothing)));
}

#[test]
fn status_bars_show_git_time_and_command() {
    let mut parser = vt100::Parser::new(2, 10, 10);
    parser.process(b"1\r\n2\r\n3\r\n4");
    parser.screen_mut().set_scrollback(1);
    let sc = read_state(parser.screen());
    let mut app = new_app();
    let (none, _) = shown(app.draw_item_at(&item(ItemType::GitInfo), BAR, sc, "x"));
    assert_eq!(texts(&none), vec!["  "]);
    app.git_info = Some("GIT: main (clean)".to_string());
    let (git, _) = shown(app.draw_item_at(&item(ItemType::GitInfo), BAR, sc, "x"));
    assert_eq!(texts(&git), vec!["  GIT: main (clean)"]);
    let (time, right) = shown(app.draw_item_at(&item(ItemType::TimeAndScroll), BAR, sc, "12:34:56"));
    assert_eq!(texts(&time), vec![format!("1/{} | 12:34:56", 2 + sc.scrollback_len)]);
    assert!(right);
    let (command, _) = shown(app.draw_item_at(&item(ItemType::SelectedCommandInfo), BAR, sc, "x"));
    assert_eq!(texts(&command), vec![" # ", "list all files ", "ls <prompt:x>"]);
    app.sidebar.state.selected = Some(9);
    assert!(matches!(
        app.draw_item_at(&item(ItemType::SelectedCommandInfo), BAR, sc, "x"),
        Some(ItemLook::Nothing)
    ));
    assert!(matches!(
        app.draw_item_at(&item(ItemType::SystemStats), BAR, sc, "x"),
        Some(ItemLook::SystemStats)
    ));
    let (now, _) = shown(app.draw_item(&item(ItemType::TimeAndScroll), BAR, parser.screen()));
    let clock = now[0].text.split(" | ").nth(1).unwrap();
    assert_eq!(clock.len(), 8);
    assert_eq!(&clock[2..3], ":");
}

#[test]
fn the_selected_row_is_bold_unless_a_program_runs() {
    let mut parser = vt100::Parser::new(4, 10, 0);
    assert!(selected_style(read_state(parser.screen())).bold);
    parser.process(b"\x1b[?1049h");
    let plain = selected_style(read_state(parser.screen()));
    assert_eq!(plain, Style::of(None, None));
}

#[test]
fn the_settings_say_how_the_login_stands() {
    let mut app = new_app();
    assert_eq!(app.draw_login_state().text, "Waiting for input...");
    app.auth_token = Some("t".to_string());
    assert_eq!(app.draw_login_state().text, "✓ Authenticated");
    app.settings.login_error = Some("bad".to_string());
    assert_eq!(app.draw_login_state().style.fg, Some(Color::Red));
    assert_eq!(app.draw_device_flow().text, "Enter the code on GitHub to authenticate...");
    app.settings.github_verification_uri = Some("http://g".to_string());
    app.settings.github_user_code = Some("AB-12".to_string());
    assert_eq!(app.draw_device_flow().text, "1. Open http://g   2. Enter: AB-12");
    let (field, border) = draw_field("tok", true, 0);
    assert_eq!((field.text.as_str(), border), (" tok_ ", Color::Yellow));
    assert_eq!(draw_field("tok", false, 0).1, Color::DarkGray);
    assert_eq!(show_field("", true, 1_000_000_000), " _ ");
}

#[test]
fn dialogs_ask_their_questions() {
    let mut app = new_app();
    assert_eq!(app.draw_deletion(), "'Unknown Script'\nIt will be removed locally and from GitHub.");
    app.gists = GistList::from_entries(&vec![GistEntry {
        label: "tool".to_string(),
        info: String::new(),
        command: String::new(),
        mtime: None,
        path: None,
        remote_name: String::new(),
    }]);
    app.dialogs.gist_index_to_delete = Some(0);
    assert_eq!(app.draw_deletion(), "'tool'\nIt will be removed locally and from GitHub.");
    assert_eq!(upload_text("a.sh"), "File 'a.sh' was modified locally.");
    let area = Rect { x: 0, y: 0, width: 5, height: 1 };
    let yes = app.draw_answer(Question::Delete, true, area);
    assert_eq!((yes.text.as_str(), yes.style), (" [Y] Yes, Delete ", Style::on(Color::Red, Color::Rgb(40, 20, 20), false)));
    app.mouse_pos = Some((1, 0));
    let no = app.draw_answer(Question::Upload, false, area);
    assert_eq!((no.text.as_str(), no.style), (" [N] No, Keep Local ", Style::on(Color::Black, Color::Red, true)));
    let screen = Rect { x: 0, y: 0, width: 120, height: 40 };
    let (dialog, rows) = name_dialog_areas(screen);
    assert_eq!((dialog.width, dialog.height, rows.len()), (50, 10, 4));
    let (settings, lines) = shown_settings_areas(screen);
    assert_eq!((settings.width, settings.height, lines.len()), (50, 20, 7));
    assert_eq!(lines[3].height, 3);
}
