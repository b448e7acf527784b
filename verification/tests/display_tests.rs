use opencode_selector::app::{App, InputMode, Screen, SortBy};
use opencode_selector::display::{
    PreviewLine, bottom_bar_height, clamp_preview_scroll, clamp_to_viewport, context_label,
    folder_label, item_line_count, item_lines, modal_text, mode_label, mode_width, pad_right,
    preview_lines, scroll_position, scrollbar_thumb, short_ago, shortcut_width, shortcuts,
    should_show_mode_badge, sort_badge, split_lines, suggestion_row, truncate, items_rendered,
    shows_scrollbar, ago_from_date, preview_lines_with,
};
use opencode_selector::model::{Folder, Session};
use opencode_selector::number::{fmt_decimal, parse_usize};
use opencode_selector::strmap::StrMap;

fn session(id: &str, preview: Option<&str>) -> Session {
    Session {
        id: id.to_string(),
        title: format!("Title {id}"),
        slug: format!("{id}-slug"),
        project_id: "p".to_string(),
        project_name: "proj".to_string(),
        project_directory: None,
        agent: Some("build".to_string()),
        model_name: None,
        created_at: 0,
        updated_at: 0,
        summary_files: -3,
        first_message_preview: preview.map(|p| p.to_string()),
        messages: Vec::new(),
    }
}

fn app_with(n: usize, preview: bool) -> App {
    let sessions = (0..n)
        .map(|i| session(&format!("s{i}"), if preview { Some("x") } else { None }))
        .collect();
    App::new(sessions, vec![Folder::new("all", "All")], StrMap::new(), None, false, false)
}

#[test]
fn texts_are_cut_by_characters() {
    assert_eq!(truncate("hello", 10), "hello");
    assert_eq!(truncate("hello", 5), "hello");
    assert_eq!(truncate("hello", 3), "he…");
    assert_eq!(truncate("héllo", 2), "h…");
    assert_eq!(truncate("hello", 0), "…");
}

#[test]
fn sort_badges() {
    assert_eq!(sort_badge(SortBy::Updated), "↻ updated");
    assert_eq!(sort_badge(SortBy::Created), "+ created");
    assert_eq!(sort_badge(SortBy::Title), "≡ title");
}

#[test]
fn relative_times() {
    let min = 60_000;
    let now = 100 * 86_400_000;
    assert_eq!(short_ago(now - 30_000, now), "now");
    assert_eq!(short_ago(now + 5 * min, now), "now");
    assert_eq!(short_ago(now - 5 * min, now), "5m");
    assert_eq!(short_ago(now - 3 * 60 * min, now), "3h");
    assert_eq!(short_ago(now - 2 * 86_400_000, now), "2d");
    assert_eq!(short_ago(0, now), "01/01");
    assert_eq!(short_ago(i64::MAX, now), "now");
}

#[test]
fn list_items_and_viewport() {
    assert_eq!(item_line_count(&session("a", None)), 2);
    assert_eq!(item_line_count(&session("a", Some("p"))), 3);
    let mut app = app_with(10, true);
    assert_eq!(item_lines(&app), 3);
    assert_eq!(item_lines(&app_with(0, true)), 2);
    app.selected_session = 9;
    clamp_to_viewport(&mut app, 12);
    assert_eq!(app.selected_session, 7);
    app.selected_session = 2;
    clamp_to_viewport(&mut app, 12);
    assert_eq!(app.selected_session, 2);
    assert_eq!(scrollbar_thumb(2, 3, 10, 10), (2, 5));
    assert_eq!(scrollbar_thumb(0, 0, 10, 0), (0, 0));
    assert_eq!(scrollbar_thumb(1, 1, 10, 3), (3, 7));
}

#[test]
fn status_bar_labels() {
    let mut app = app_with(1, false);
    assert!(!should_show_mode_badge(&app));
    assert_eq!(mode_label(&app), "NORMAL");
    assert_eq!(context_label(&app), "cwd");
    assert_eq!(shortcut_width(&app), 14);
    assert_eq!(shortcuts(&app), vec![("?", true), (" help ", false), ("q", true), (" quit", false)]);
    app.input_mode = InputMode::Search;
    assert!(should_show_mode_badge(&app));
    assert_eq!(mode_label(&app), "SEARCH");
    assert_eq!(mode_width(&app), 8);
    assert_eq!(shortcut_width(&app), 22);
    app.input_mode = InputMode::Normal;
    app.screen = Screen::NewFolder;
    assert_eq!(mode_label(&app), "NEW FOLDER");
    assert_eq!(mode_width(&app), 12);
    assert_eq!(shortcut_width(&app), 14);
    app.global_mode = true;
    assert_eq!(context_label(&app), "global");
}

#[test]
fn folder_labels_have_icons_and_counts() {
    assert_eq!(folder_label(&Folder::new("inbox", "Inbox"), 2), "📥 Inbox (2)");
    assert_eq!(folder_label(&Folder::new("archive", "Archive"), 0), "🗃  Archive (0)");
    assert_eq!(folder_label(&Folder::new("w", "Work"), 12), "📁 Work (12)");
}

#[test]
fn dialogs_and_bars() {
    let mut app = app_with(1, false);
    assert_eq!(modal_text(&app), None);
    assert_eq!(bottom_bar_height(&app), 3);
    app.screen = Screen::Rename;
    app.confirm_message = "Rename 'x' to:".to_string();
    app.rename_buffer = "y".to_string();
    assert_eq!(modal_text(&app), Some((" Rename Session ", "Rename 'x' to:\n\ny".to_string())));
    app.screen = Screen::NewFolder;
    app.new_folder_buffer = "F".to_string();
    assert_eq!(modal_text(&app), Some((" New Folder ", "Enter folder name:\n\nF".to_string())));
    app.input_mode = InputMode::Command;
    app.compute_suggestions();
    assert_eq!(bottom_bar_height(&app), 11);
}

#[test]
fn suggestion_rows_fit_the_box() {
    assert_eq!(pad_right("ab", 4), "ab  ");
    assert_eq!(pad_right("abcde", 4), "abcde");
    let (label, desc) = suggestion_row("sort", "Change session sort order", 40);
    assert_eq!(label, format!(" {:<16}", "sort"));
    assert_eq!(desc, "Change session sort ");
    let (_, desc) = suggestion_row("sort", "Change session sort order", 22);
    assert_eq!(desc, "");
    let (label, _) = suggestion_row("a-very-long-command-name", "", 80);
    assert_eq!(label, " a-very-long-comm");
}

#[test]
fn preview_shows_details_and_messages() {
    let mut s = session("a", Some("p"));
    let lines = preview_lines(&s);
    assert_eq!(lines.len(), 9);
    assert_eq!(lines[0], PreviewLine::Meta { label: "ID", value: "a".to_string() });
    assert_eq!(lines[3], PreviewLine::Meta { label: "Agent", value: "build".to_string() });
    assert_eq!(lines[4], PreviewLine::Meta { label: "Model", value: "-".to_string() });
    assert_eq!(lines[5], PreviewLine::Meta { label: "Files changed", value: "-3".to_string() });
    assert_eq!(
        lines[6],
        PreviewLine::Meta { label: "Updated", value: "1970-01-01 00:00:00 UTC".to_string() }
    );
    assert_eq!(lines[7], PreviewLine::Blank);
    assert_eq!(lines[8], PreviewLine::Note("(loading messages...)"));
    s.messages = vec![
        ("user".to_string(), "hi\r\nthere".to_string()),
        ("assistant".to_string(), "ok\n".to_string()),
    ];
    let lines = preview_lines(&s);
    assert_eq!(
        lines[8..].to_vec(),
        vec![
            PreviewLine::Header { user: true },
            PreviewLine::Text("hi".to_string()),
            PreviewLine::Text("there".to_string()),
            PreviewLine::Gutter { user: true },
            PreviewLine::Header { user: false },
            PreviewLine::Text("ok".to_string()),
            PreviewLine::Gutter { user: false },
        ]
    );
}

#[test]
fn lines_split_like_str_lines() {
    assert_eq!(split_lines("a\r\nb\n\nc\r"), vec!["a", "b", "", "c\r"]);
    assert!(split_lines("").is_empty());
    assert_eq!(split_lines("\n"), vec![""]);
}

#[test]
fn preview_scroll_is_clamped() {
    let mut app = app_with(1, false);
    app.preview_scroll = 50;
    clamp_preview_scroll(&mut app, 30, 20);
    assert_eq!(app.preview_scroll, 10);
    clamp_preview_scroll(&mut app, 5, 20);
    assert_eq!(app.preview_scroll, 0);
    assert_eq!(scroll_position(4, 30), " 5:30 ");
}

#[test]
fn numbers_parse_and_print() {
    assert_eq!(parse_usize(&['4', '2']), Some(42));
    assert_eq!(parse_usize(&['+', '7']), Some(7));
    assert_eq!(parse_usize(&['+']), None);
    assert_eq!(parse_usize(&[]), None);
    assert_eq!(parse_usize(&['-', '1']), None);
    assert_eq!(parse_usize(&['1', 'x']), None);
    let big: Vec<char> = "18446744073709551616".chars().collect();
    assert_eq!(parse_usize(&big), None);
    let max: Vec<char> = "18446744073709551615".chars().collect();
    assert_eq!(parse_usize(&max), Some(usize::MAX));
    assert_eq!(fmt_decimal(0), "0");
    assert_eq!(fmt_decimal(1234), "1234");
}

#[test]
fn the_list_draws_the_items_that_fit() {
    assert_eq!(items_rendered(10, 3, 0, 5), 3);
    assert_eq!(items_rendered(10, 3, 4, 5), 1);
    assert_eq!(items_rendered(10, 3, 6, 5), 0);
    assert_eq!(items_rendered(2, 3, 0, 5), 0);
    assert!(shows_scrollbar(5, 9, 3));
    assert!(!shows_scrollbar(3, 9, 3));
}

#[test]
fn relative_times_from_a_given_date() {
    let min = 60_000;
    let now = 30 * 86_400_000;
    assert_eq!(ago_from_date(Some("01/01".to_string()), now - 10 * min, now), "10m");
    assert_eq!(ago_from_date(Some("01/01".to_string()), 0, now), "01/01");
    assert_eq!(ago_from_date(None, 0, now), "now");
}

#[test]
fn preview_uses_the_given_update_time() {
    let s = session("a", None);
    let lines = preview_lines_with(&s, Some("2024-05-01 10:00:00 UTC".to_string()));
    assert_eq!(
        lines[6],
        PreviewLine::Meta { label: "Updated", value: "2024-05-01 10:00:00 UTC".to_string() }
    );
    let lines = preview_lines_with(&s, None);
    assert_eq!(lines[6], PreviewLine::Meta { label: "Updated", value: "-".to_string() });
    assert_eq!(lines[8], PreviewLine::Note("(no messages)"));
}
