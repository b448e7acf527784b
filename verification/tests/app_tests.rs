use opencode_selector::app::{App, SortBy, sort_label};
use opencode_selector::model::{Folder, Session};
use opencode_selector::strmap::StrMap;

fn session(id: &str, title: &str, project: &str, created: i64, updated: i64) -> Session {
    Session {
        id: id.to_string(),
        title: title.to_string(),
        slug: format!("{id}-slug"),
        project_id: project.to_string(),
        project_name: format!("{project} name"),
        project_directory: None,
        agent: None,
        model_name: None,
        created_at: created,
        updated_at: updated,
        summary_files: 0,
        first_message_preview: None,
        messages: Vec::new(),
    }
}

fn sample() -> Vec<Session> {
    vec![
        session("s1", "Zeta", "p1", 10, 100),
        session("s2", "", "p2", 30, 300),
        session("s3", "Alpha", "p1", 20, 300),
    ]
}

fn folders() -> Vec<Folder> {
    vec![Folder::new("all", "All"), Folder::new("work", "Work")]
}

#[test]
fn new_lists_newest_first_with_title_ties() {
    let app = App::new(sample(), folders(), StrMap::new(), None, false, false);
    assert_eq!(app.filtered_indices, vec![1, 2, 0]);
    assert_eq!(app.selected_session, 0);
    assert_eq!(app.sort_by, SortBy::Updated);
    assert_eq!(app.current_session().unwrap().id, "s2");
    assert_eq!(app.current_folder().unwrap().id, "all");
}

#[test]
fn sort_orders_cycle() {
    let mut app = App::new(sample(), folders(), StrMap::new(), None, false, false);
    app.cycle_sort();
    assert_eq!(app.sort_by, SortBy::Created);
    assert_eq!(app.filtered_indices, vec![1, 2, 0]);
    app.cycle_sort();
    assert_eq!(app.sort_by, SortBy::Title);
    assert_eq!(app.filtered_indices, vec![1, 2, 0]);
    app.cycle_sort();
    assert_eq!(app.sort_by, SortBy::Updated);
    assert_eq!(sort_label(SortBy::Created), "created");
}

#[test]
fn project_filter_and_toggle() {
    let mut app = App::new(sample(), folders(), StrMap::new(), Some("p1".to_string()), false, false);
    assert_eq!(app.filtered_indices, vec![2, 0]);
    app.toggle_project_filter();
    assert_eq!(app.project_filter, None);
    assert_eq!(app.status_message.as_deref(), Some("Showing all projects"));
    assert_eq!(app.filtered_indices.len(), 3);
    app.toggle_project_filter();
    assert_eq!(app.project_filter.as_deref(), Some("p1"));
    assert_eq!(app.status_message.as_deref(), Some("Filtered to project p1"));
    app.set_project_filter(Some("p2".to_string()));
    assert_eq!(app.filtered_indices, vec![1]);
    app.clear_status();
    assert_eq!(app.status_message, None);
}

#[test]
fn search_matches_title_slug_or_project_ignoring_case() {
    let mut app = App::new(sample(), folders(), StrMap::new(), None, false, false);
    app.set_search_query("ZET".to_string());
    assert_eq!(app.filtered_indices, vec![0]);
    app.set_search_query("s2-SLUG".to_string());
    assert_eq!(app.filtered_indices, vec![1]);
    app.set_search_query("p1 NAME".to_string());
    assert_eq!(app.filtered_indices, vec![2, 0]);
    app.set_search_query("nothing".to_string());
    assert!(app.filtered_indices.is_empty());
    assert!(app.current_session().is_none());
}

#[test]
fn folders_show_their_sessions() {
    let mut map = StrMap::new();
    map.insert("s1".to_string(), "work".to_string());
    let mut app = App::new(sample(), folders(), map, None, true, false);
    assert_eq!(app.filtered_indices.len(), 3);
    app.move_folder_down();
    assert_eq!(app.selected_folder, 1);
    assert_eq!(app.filtered_indices, vec![0]);
    app.move_folder_down();
    assert_eq!(app.selected_folder, 1);
    app.move_folder_up();
    app.move_folder_up();
    assert_eq!(app.selected_folder, 0);
    assert_eq!(app.filtered_indices.len(), 3);
}

#[test]
fn selection_stays_in_range() {
    let mut app = App::new(sample(), folders(), StrMap::new(), None, false, false);
    app.move_selection_up();
    assert_eq!(app.selected_session, 0);
    app.move_selection_down();
    app.move_selection_down();
    app.move_selection_down();
    assert_eq!(app.selected_session, 2);
    app.set_search_query("zeta".to_string());
    assert_eq!(app.selected_session, 0);
    app.selected_session = 7;
    app.apply_filter_and_sort();
    assert_eq!(app.selected_session, 0);
}

#[test]
fn folders_toggle_reports_state() {
    let mut app = App::new(sample(), folders(), StrMap::new(), None, false, false);
    app.toggle_folders();
    assert!(app.folders_enabled);
    assert_eq!(app.status_message.as_deref(), Some("Folders enabled"));
    app.toggle_folders();
    assert_eq!(app.status_message.as_deref(), Some("Folders disabled"));
    app.set_status("hello");
    assert_eq!(app.status_message.as_deref(), Some("hello"));
}

#[test]
fn accepting_a_suggestion_fills_the_line() {
    let mut app = App::new(sample(), folders(), StrMap::new(), None, false, false);
    app.accept_suggestion();
    assert_eq!(app.command_buffer, "");
    app.command_buffer = "so".to_string();
    app.compute_suggestions();
    app.selected_suggestion = 5;
    app.accept_suggestion();
    assert_eq!(app.command_buffer, "sort");
    assert!(app.command_suggestions.is_empty());
    assert_eq!(app.selected_suggestion, 0);
}

#[test]
fn refreshing_twice_changes_nothing() {
    let mut app = App::new(sample(), folders(), StrMap::new(), None, false, false);
    app.selected_session = 1;
    app.apply_filter_and_sort();
    let list = app.filtered_indices.clone();
    let sel = app.selected_session;
    app.apply_filter_and_sort();
    assert_eq!(app.filtered_indices, list);
    assert_eq!(app.selected_session, sel);
}

#[test]
fn three_sort_cycles_bring_back_the_cursor() {
    let mut app = App::new(sample(), folders(), StrMap::new(), None, false, false);
    app.selected_session = 2;
    let before = app.filtered_indices.clone();
    app.cycle_sort();
    app.cycle_sort();
    app.cycle_sort();
    assert_eq!(app.sort_by, SortBy::Updated);
    assert_eq!(app.filtered_indices, before);
    assert_eq!(app.selected_session, 2);
}
