use std::time::{Duration, SystemTime};
use termbookman::color::{lower_color, parse_color, try_parse_color, Color};
use termbookman::history::{read_history, read_listing, HISTORY_LIMIT};
use termbookman::labels::{numbered_label, parse_lines, LabelCounts};
use termbookman::prompt::{answer_labelled, labelled_prompt, prompt_step, question};
use termbookman::script::{parse_script_content, try_parse_script_content};
use termbookman::shell::{echo_line, edit_line};
use termbookman::text;
use termbookman::time::{format_secs, format_time_passed, secs_since};

fn strings(words: &[&str]) -> Vec<String> {
    words.iter().map(|w| w.to_string()).collect()
}

#[test]
fn trimming_takes_all_white_space() {
    assert_eq!(text::trim_text(" \t\u{a0}a b\u{3000}\n"), "a b");
    assert_eq!(text::trim_text("   "), "");
    assert!(text::is_blank("\u{2028} \r"));
    assert!(!text::is_blank(" x "));
}

#[test]
fn replacing_goes_from_left_to_right() {
    assert_eq!(text::replace_all("aaa", "aa", "b"), "ba");
    assert_eq!(text::replace_all("a'b'c", "'", "'\\''"), "a'\\''b'\\''c");
    assert_eq!(text::replace_all("abc", "x", "y"), "abc");
}

#[test]
fn lines_end_at_line_feeds() {
    let v: Vec<char> = "a\r\nb\n\nc".chars().collect();
    let rows: Vec<String> = text::split_lines(&v).iter().map(|r| r.iter().collect()).collect();
    assert_eq!(rows, strings(&["a", "b", "", "c"]));
    let w: Vec<char> = "a\n".chars().collect();
    assert_eq!(text::split_lines(&w).len(), 1);
}

#[test]
fn bytes_are_counted_and_cut_between_characters() {
    assert_eq!(text::text_bytes("aé€😀"), 10);
    assert_eq!(text::byte_prefix("aé€", 3), Some("aé".to_string()));
    assert_eq!(text::byte_prefix("aé€", 2), None);
    assert_eq!(text::byte_prefix("abc", 4), None);
}

#[test]
fn decimal_numbers_have_no_leading_zero() {
    assert_eq!(text::decimal_text(0), "0");
    assert_eq!(text::decimal_text(907), "907");
    assert_eq!(text::decimal_text(u64::MAX), u64::MAX.to_string());
}

#[test]
fn texts_are_found_and_compared() {
    assert!(text::text_contains("sudo ls", "do l"));
    assert!(text::text_contains("abc", ""));
    assert!(!text::text_contains("abc", "abcd"));
    assert!(text::text_starts_with("GIST: x", "GIST: "));
    assert!(text::same_text("ü", "ü"));
    assert!(!text::same_text("ü", "u"));
}

#[test]
fn colours_are_read_in_any_case() {
    assert_eq!(parse_color("GREEN"), Color::Green);
    assert_eq!(parse_color("Light_Orange"), Color::Rgb(255, 200, 150));
    assert_eq!(parse_color("orange"), Color::Rgb(255, 165, 0));
    assert_eq!(parse_color("dark_grey"), Color::DarkGray);
    assert_eq!(parse_color("nothing"), Color::White);
}

#[test]
fn colour_codes_are_hexadecimal() {
    assert_eq!(parse_color("#FF8000"), Color::Rgb(255, 128, 0));
    assert_eq!(lower_color("#0a0b0c"), Some(Color::Rgb(10, 11, 12)));
    assert_eq!(try_parse_color("#00000é"), lower_color("#00000é"));
}

#[test]
fn spans_of_time_are_short() {
    assert_eq!(format_secs(0), "0m");
    assert_eq!(format_secs(59), "0m");
    let noted = SystemTime::UNIX_EPOCH + Duration::from_millis(1_500);
    assert_eq!(secs_since(noted + Duration::from_millis(2_900), noted), 2);
    assert_eq!(secs_since(noted, noted), 0);
    assert_eq!(secs_since(noted, noted + Duration::from_secs(9)), 0);
    for secs in [0u64, 61, 3_599, 3_660, 86_399, 90_061] {
        let minute = secs / 60 * 60;
        assert_eq!(format_secs(secs), format_secs(minute));
        assert_ne!(format_secs(secs), format_secs(minute + 60));
    }
    assert_eq!(format_secs(60), "1m");
    assert_eq!(format_secs(3600), "1h");
    assert_eq!(format_secs(90_061), "1d1h1m");
    assert_eq!(format_secs(86_400 + 120), "1d2m");
}

#[test]
fn time_passed_is_read_from_the_clock() {
    let now = std::time::SystemTime::now();
    let earlier = now - std::time::Duration::from_secs(7_230);
    assert_eq!(format_time_passed(earlier), "2h");
    let ahead = now + std::time::Duration::from_secs(3_600);
    assert_eq!(format_time_passed(ahead), "0m");
}

#[test]
fn shell_words_are_quoted() {
    assert_eq!(edit_line("nano", "/tmp/it's"), "nano '/tmp/it'\\''s'\r");
    assert_eq!(echo_line("it's done"), "echo 'it'\"'\"'s done'\r");
}

#[test]
fn repeated_labels_are_numbered() {
    assert_eq!(numbered_label("git", 1), "git");
    assert_eq!(numbered_label("git", 2), "git2");
    let mut counts = LabelCounts::new();
    assert_eq!(counts.bump("git"), 1);
    assert_eq!(counts.bump("git"), 2);
    assert_eq!(counts.count("git"), 2);
    assert_eq!(counts.count("ls"), 0);
}

#[test]
fn a_command_book_is_read() {
    let mut counts = LabelCounts::new();
    let book = "# termbookman\n\n# list all files\nls -la\n\nls\ngit status\n#\n  git log  \n";
    let (labels, commands, infos) = parse_lines(book, "cmd", &mut counts);
    assert_eq!(labels, strings(&["list", "ls", "git", "git2"]));
    assert_eq!(commands, strings(&["ls -la", "ls", "git status", "git log"]));
    assert_eq!(infos, strings(&["all files", "", "", ""]));
    let (more, _, _) = parse_lines("git diff", "cmd", &mut counts);
    assert_eq!(more, strings(&["git3"]));
}

#[test]
fn a_script_is_read() {
    let script = "\n#!/bin/bash\n# BACKUP copies files\n# every night\n\ncp a b\n# end\nexit 0\n";
    let (name, about, preview) = parse_script_content(script);
    assert_eq!(name, Some("BACKUP".to_string()));
    assert_eq!(about, "copies files every night end");
    assert_eq!(preview, "cp a b exit 0");
}

#[test]
fn a_script_without_interpreter_line_says_nothing() {
    let (name, about, preview) = parse_script_content("# NAME\necho\n");
    assert_eq!(name, None);
    assert_eq!(about, "");
    assert_eq!(preview, "");
}

#[test]
fn a_long_preview_is_cut() {
    let line = "x".repeat(120);
    let script = format!("#!/bin/sh\n{}\n# LATE\n", line);
    let (name, _, preview) = parse_script_content(&script);
    assert_eq!(name, None);
    assert_eq!(preview, format!("{}...", "x".repeat(97)));
    let wide = format!("#!/bin/sh\n{}é{}\n", "x".repeat(96), "x".repeat(20));
    assert!(try_parse_script_content(&wide).is_none());
}

#[test]
fn prompts_of_a_status_bar_are_answered_one_by_one() {
    let mut cmd = "ssh <prompt:name> -p <prompt:port>\r".to_string();
    let first = prompt_step(&mut cmd, None).unwrap();
    assert_eq!(first.name, "name");
    assert_eq!(first.command, "read -p 'name: ' val && echo $val");
    let second = prompt_step(&mut cmd, Some("box")).unwrap();
    assert_eq!(cmd, "ssh box -p <prompt:port>\r");
    assert_eq!(second.name, "");
    assert!(prompt_step(&mut cmd, Some("22")).is_none());
    assert_eq!(cmd, "ssh box -p 22\r");
    let mut other = "<prompt:host>".to_string();
    assert_eq!(prompt_step(&mut other, None).unwrap().name, "hos");
}

#[test]
fn prompts_of_a_bookmark_have_a_default() {
    let cmd = "ping <prompt:Host:localhost:x> -c <prompt:Count>";
    let first = labelled_prompt(cmd).unwrap();
    assert_eq!(first.label, "Host");
    assert_eq!(first.default, "localhost");
    assert_eq!(question(&first), "Host: (Default: localhost) ");
    let next = answer_labelled(cmd, "  \n");
    assert_eq!(next, "ping localhost -c <prompt:Count>");
    assert_eq!(answer_labelled(&next, " 3 \n"), "ping localhost -c 3");
    assert!(labelled_prompt("plain").is_none());
    assert!(labelled_prompt("open <prompt:x").is_none());
}

#[test]
fn history_is_unique_and_newest_first() {
    assert_eq!(
        read_history("ls\n cd /tmp \n\nls\nmake\n"),
        strings(&["make", "ls", "cd /tmp"])
    );
}

#[test]
fn a_history_listing_loses_its_numbers() {
    assert_eq!(
        read_listing("    1  ls -la\n    2  make   all\n    3  ls -la\n"),
        strings(&["ls -la", "make all"])
    );
}

#[test]
fn history_has_a_limit() {
    let mut content = String::new();
    for i in 0..600 {
        content.push_str(&format!("command {}\n", i));
    }
    let items = read_history(&content);
    assert_eq!(items.len(), HISTORY_LIMIT);
    assert_eq!(items[0], "command 599");
    assert_eq!(items[499], "command 100");
}

#[test]
fn books_read_in_turn_give_what_their_joined_text_gives() {
    for first in ["# list all files\nls -a\nls\n", "# list all files\r\nls -a\nls\r", "# list all files\nls -a\nls"] {
        check_joined(first);
    }
}

fn check_joined(first: &str) {
    let second = "git status\n# ls again\nls -l\nls";
    let mut one = LabelCounts::new();
    let (mut labels, mut commands, mut infos) = parse_lines(first, "cmd", &mut one);
    let more = parse_lines(second, "cmd", &mut one);
    labels.extend(more.0);
    commands.extend(more.1);
    infos.extend(more.2);
    let joined = format!("{}\n{}", first, second);
    let mut whole = LabelCounts::new();
    assert_eq!(parse_lines(&joined, "cmd", &mut whole), (labels.clone(), commands, infos));
    assert_eq!(labels, vec!["list", "ls", "git", "ls2", "ls3"]);
    assert_eq!(whole.count("ls"), one.count("ls"));
}
