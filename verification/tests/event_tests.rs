use opencode_selector::app::{App, InputMode, Screen, SortBy};
use opencode_selector::events::{
    AppEvent, FolderChange, Key, Step, count_lines, finish_delete, finish_folder_change,
    finish_rename, handle_key, slug_from_lowercase, slugify,
};
use opencode_selector::folders::FolderStore;
use opencode_selector::model::Session;
use opencode_selector::strmap::StrMap;

fn session(id: &str, title: &str, updated: i64) -> Session {
    Session {
        id: id.to_string(),
        title: title.to_string(),
        slug: format!("{id}-slug"),
        project_id: "p".to_string(),
        project_name: "proj".to_string(),
        project_directory: Some(format!("/work/{id}")),
        agent: None,
        model_name: None,
        created_at: updated,
        updated_at: updated,
        summary_files: 0,
        first_message_preview: None,
        messages: Vec::new(),
    }
}

fn setup(folders_enabled: bool) -> (App, FolderStore) {
    let store = FolderStore::in_memory();
    let app = App::new(
        vec![session("a", "Alpha", 3), session("b", "Beta", 2), session("c", "Gamma", 1)],
        store.folders().to_vec(),
        store.session_folder_map(),
        None,
        folders_enabled,
        false,
    );
    (app, store)
}

fn press(app: &mut App, store: &mut FolderStore, keys: &[Key]) -> Step {
    let mut last = Step::Done(AppEvent::Continue);
    for k in keys {
        last = handle_key(app, store, *k);
    }
    last
}

#[test]
fn slugify_produces_simple_ids() {
    assert_eq!(slugify("Work Stuff"), "work-stuff");
    assert_eq!(slugify("Personal!!!"), "personal");
}

#[test]
fn slugify_keeps_letters_digits_and_dashes() {
    assert_eq!(slugify("A-b 9 ünï"), "a-b-9-ünï");
    assert_eq!(slugify("  "), "--");
}

#[test]
fn moving_and_jumping_in_the_list() {
    let (mut app, mut store) = setup(false);
    press(&mut app, &mut store, &[Key::Char('j'), Key::Down]);
    assert_eq!(app.selected_session, 2);
    press(&mut app, &mut store, &[Key::Down]);
    assert_eq!(app.selected_session, 2);
    press(&mut app, &mut store, &[Key::Char('g'), Key::Char('g')]);
    assert_eq!(app.selected_session, 0);
    assert_eq!(app.pending_key, None);
    press(&mut app, &mut store, &[Key::Char('G')]);
    assert_eq!(app.selected_session, 2);
    press(&mut app, &mut store, &[Key::PageUp]);
    assert_eq!(app.selected_session, 0);
    press(&mut app, &mut store, &[Key::PageDown]);
    assert_eq!(app.selected_session, 2);
    press(&mut app, &mut store, &[Key::Home]);
    assert_eq!(app.selected_session, 0);
}

#[test]
fn quitting_and_launching() {
    let (mut app, mut store) = setup(false);
    assert_eq!(handle_key(&mut app, &mut store, Key::Char('q')), Step::Done(AppEvent::Quit));
    assert_eq!(handle_key(&mut app, &mut store, Key::Char('n')), Step::Done(AppEvent::LaunchNew));
    assert_eq!(
        handle_key(&mut app, &mut store, Key::Enter),
        Step::Done(AppEvent::LaunchSession { id: "a".to_string(), cwd: None })
    );
    app.global_mode = true;
    assert_eq!(
        handle_key(&mut app, &mut store, Key::Enter),
        Step::Done(AppEvent::LaunchSession { id: "a".to_string(), cwd: Some("/work/a".to_string()) })
    );
}

#[test]
fn folders_stay_off_in_global_mode() {
    let (mut app, mut store) = setup(false);
    app.global_mode = true;
    press(&mut app, &mut store, &[Key::Char('F')]);
    assert!(!app.folders_enabled);
    assert_eq!(app.status_message.as_deref(), Some("Folders are disabled in global mode"));
    app.global_mode = false;
    press(&mut app, &mut store, &[Key::Char('F')]);
    assert!(app.folders_enabled);
    assert_eq!(app.status_message.as_deref(), Some("Folders enabled"));
}

#[test]
fn folder_keys_need_folders() {
    let (mut app, mut store) = setup(false);
    press(&mut app, &mut store, &[Key::Char('m')]);
    assert_eq!(app.status_message.as_deref(), Some("Enable folders with F to move sessions"));
    press(&mut app, &mut store, &[Key::Char('N')]);
    assert_eq!(app.status_message.as_deref(), Some("Enable folders with F to create folders"));
    press(&mut app, &mut store, &[Key::Char('a')]);
    assert_eq!(
        app.status_message.as_deref(),
        Some("Enable folders with F to use folder shortcuts")
    );
}

#[test]
fn searching_filters_as_you_type() {
    let (mut app, mut store) = setup(false);
    press(&mut app, &mut store, &[Key::Char('/'), Key::Char('g'), Key::Char('a')]);
    assert_eq!(app.input_mode, InputMode::Search);
    assert_eq!(app.search_query, "ga");
    assert_eq!(app.filtered_indices, vec![2]);
    press(&mut app, &mut store, &[Key::Backspace]);
    assert_eq!(app.search_query, "g");
    press(&mut app, &mut store, &[Key::Esc]);
    assert_eq!(app.input_mode, InputMode::Normal);
    assert_eq!(app.search_query, "");
    assert_eq!(app.filtered_indices.len(), 3);
}

#[test]
fn command_line_runs_on_enter() {
    let (mut app, mut store) = setup(false);
    let keys: Vec<Key> = ":sort title".chars().map(Key::Char).collect();
    press(&mut app, &mut store, &keys);
    assert_eq!(app.input_mode, InputMode::Command);
    assert_eq!(app.command_buffer, "sort title");
    let step = press(&mut app, &mut store, &[Key::Enter]);
    assert_eq!(step, Step::Done(AppEvent::Continue));
    assert_eq!(app.input_mode, InputMode::Normal);
    assert_eq!(app.sort_by, SortBy::Title);
    assert_eq!(app.command_history, vec!["sort title".to_string()]);
}

#[test]
fn command_line_takes_the_selected_suggestion() {
    let (mut app, mut store) = setup(false);
    press(&mut app, &mut store, &[Key::Char(':'), Key::Char('q'), ]);
    assert_eq!(app.input_mode, InputMode::Normal);
    let keys: Vec<Key> = ":exi".chars().map(Key::Char).collect();
    press(&mut app, &mut store, &keys);
    assert_eq!(app.command_suggestions[0].text, "exit");
    assert_eq!(press(&mut app, &mut store, &[Key::Enter]), Step::Done(AppEvent::Quit));
}

#[test]
fn command_line_reports_unknown_commands_and_errors() {
    let (mut app, mut store) = setup(false);
    let mut keys: Vec<Key> = ":zzz".chars().map(Key::Char).collect();
    keys.push(Key::Enter);
    press(&mut app, &mut store, &keys);
    assert_eq!(app.status_message.as_deref(), Some("Unknown command: :zzz"));
    let mut keys: Vec<Key> = ":goto x".chars().map(Key::Char).collect();
    keys.push(Key::Enter);
    press(&mut app, &mut store, &keys);
    assert_eq!(app.status_message.as_deref(), Some("Command error: Invalid number: x"));
}

#[test]
fn command_history_is_recalled() {
    let (mut app, mut store) = setup(false);
    let mut keys: Vec<Key> = ":zzz".chars().map(Key::Char).collect();
    keys.push(Key::Enter);
    press(&mut app, &mut store, &keys);
    press(&mut app, &mut store, &[Key::Char(':'), Key::Up]);
    assert_eq!(app.selected_suggestion, 9);
    press(&mut app, &mut store, &[Key::Char('z'), Key::Char('z'), Key::Up]);
    assert_eq!(app.command_buffer, "zzz");
    assert_eq!(app.command_history_pos, Some(0));
    press(&mut app, &mut store, &[Key::Down]);
    assert_eq!(app.command_buffer, "");
    assert_eq!(app.command_history_pos, None);
}

#[test]
fn tab_cycles_suggestions() {
    let (mut app, mut store) = setup(false);
    press(&mut app, &mut store, &[Key::Char(':')]);
    assert_eq!(app.command_suggestions.len(), 10);
    press(&mut app, &mut store, &[Key::BackTab]);
    assert_eq!(app.selected_suggestion, 9);
    press(&mut app, &mut store, &[Key::Tab]);
    assert_eq!(app.selected_suggestion, 0);
}

#[test]
fn a_blank_command_line_offers_nothing() {
    let (mut app, mut store) = setup(false);
    press(&mut app, &mut store, &[Key::Char(':')]);
    let step = handle_key(&mut app, &mut store, Key::Char(' '));
    assert_eq!(step, Step::Done(AppEvent::Continue));
    assert!(app.command_suggestions.is_empty());
    assert_eq!(app.selected_suggestion, 0);
}

#[test]
fn archiving_moves_to_the_archive_folder() {
    let (mut app, mut store) = setup(true);
    let step = handle_key(&mut app, &mut store, Key::Char('d'));
    assert_eq!(step, Step::SaveFolders(FolderChange::Archive { session_id: "a".to_string() }));
    assert_eq!(store.folder_for_session("a"), Some("archive"));
    finish_folder_change(&mut app, FolderChange::Archive { session_id: "a".to_string() }, Ok(()));
    assert_eq!(app.session_folder_map.get("a"), Some("archive"));
    assert_eq!(app.status_message.as_deref(), Some("Session archived"));
    finish_folder_change(
        &mut app,
        FolderChange::Archive { session_id: "b".to_string() },
        Err("disk full".to_string()),
    );
    assert_eq!(app.status_message.as_deref(), Some("Archive failed: disk full"));
}

#[test]
fn folders_filter_the_list_and_sessions_move() {
    let (mut app, mut store) = setup(true);
    store.move_session("b", "inbox").unwrap();
    app.session_folder_map.insert("b".to_string(), "inbox".to_string());
    press(&mut app, &mut store, &[Key::Char('l'), Key::Char('l')]);
    assert_eq!(app.selected_folder, 2);
    assert!(app.filtered_indices.is_empty());
    press(&mut app, &mut store, &[Key::Char('a')]);
    assert_eq!(app.selected_folder, 0);
    assert_eq!(app.filtered_indices.len(), 3);
    press(&mut app, &mut store, &[Key::Char('l')]);
    assert_eq!(app.filtered_indices, vec![1]);
    press(&mut app, &mut store, &[Key::Char('m')]);
    assert_eq!(app.screen, Screen::MoveToFolder);
    assert_eq!(app.confirm_message, "Select folder:");
    let step = press(&mut app, &mut store, &[Key::Enter]);
    let change = FolderChange::Move {
        session_id: "b".to_string(),
        folder_id: "inbox".to_string(),
        folder_name: "Inbox".to_string(),
    };
    assert_eq!(step, Step::SaveFolders(change.clone()));
    assert_eq!(app.screen, Screen::Main);
    finish_folder_change(&mut app, change, Ok(()));
    assert_eq!(app.status_message.as_deref(), Some("Moved to Inbox"));
    assert_eq!(app.filtered_indices, vec![1]);
}

#[test]
fn moving_to_all_is_refused() {
    let (mut app, mut store) = setup(true);
    press(&mut app, &mut store, &[Key::Char('m')]);
    let step = press(&mut app, &mut store, &[Key::Enter]);
    assert_eq!(step, Step::Done(AppEvent::Continue));
    assert_eq!(
        app.status_message.as_deref(),
        Some("Move failed: cannot move sessions to the All folder")
    );
}

#[test]
fn renaming_a_session() {
    let (mut app, mut store) = setup(false);
    press(&mut app, &mut store, &[Key::Char('r')]);
    assert_eq!(app.input_mode, InputMode::Rename);
    assert_eq!(app.rename_buffer, "Alpha");
    assert_eq!(app.confirm_message, "Rename 'Alpha' to:");
    let step = press(&mut app, &mut store, &[Key::Char('!'), Key::Char(' ')]);
    assert_eq!(step, Step::Done(AppEvent::Continue));
    let step = press(&mut app, &mut store, &[Key::Enter]);
    assert_eq!(step, Step::RenameSession { id: "a".to_string(), title: "Alpha!".to_string() });
    assert_eq!(app.screen, Screen::Main);
    finish_rename(&mut app, "a", "Alpha!".to_string(), Ok(()));
    assert_eq!(app.sessions[0].title, "Alpha!");
    assert_eq!(app.status_message.as_deref(), Some("Session renamed"));
    finish_rename(&mut app, "a", "X".to_string(), Err("locked".to_string()));
    assert_eq!(app.sessions[0].title, "Alpha!");
    assert_eq!(app.status_message.as_deref(), Some("Rename failed: locked"));
}

#[test]
fn renaming_to_the_same_title_asks_nothing() {
    let (mut app, mut store) = setup(false);
    press(&mut app, &mut store, &[Key::Char('r')]);
    assert_eq!(press(&mut app, &mut store, &[Key::Enter]), Step::Done(AppEvent::Continue));
    assert_eq!(app.input_mode, InputMode::Normal);
}

#[test]
fn deleting_a_session_needs_confirmation() {
    let (mut app, mut store) = setup(true);
    store.move_session("b", "inbox").unwrap();
    app.session_folder_map.insert("b".to_string(), "inbox".to_string());
    press(&mut app, &mut store, &[Key::Char('j'), Key::Char('D')]);
    assert_eq!(app.screen, Screen::ConfirmDelete);
    assert_eq!(app.confirm_message, "Permanently delete 'Beta' ?");
    assert_eq!(press(&mut app, &mut store, &[Key::Esc]), Step::Done(AppEvent::Continue));
    assert_eq!(app.pending_delete_id, None);
    press(&mut app, &mut store, &[Key::Char('D')]);
    let step = press(&mut app, &mut store, &[Key::Char('y')]);
    assert_eq!(step, Step::DeleteSession { id: "b".to_string() });
    finish_delete(&mut app, &mut store, "b", Ok(()));
    assert_eq!(app.sessions.len(), 2);
    assert_eq!(app.session_folder_map.get("b"), None);
    assert_eq!(store.folder_for_session("b"), None);
    assert_eq!(app.status_message.as_deref(), Some("Session deleted"));
}

#[test]
fn creating_a_folder() {
    let (mut app, mut store) = setup(true);
    let mut keys = vec![Key::Char('N')];
    keys.extend(" My Stuff ".chars().map(Key::Char));
    press(&mut app, &mut store, &keys);
    assert_eq!(app.new_folder_buffer, " My Stuff ");
    let step = press(&mut app, &mut store, &[Key::Enter]);
    let change = FolderChange::Create { id: "my-stuff".to_string(), name: "My Stuff".to_string() };
    assert_eq!(step, Step::SaveFolders(change.clone()));
    assert!(store.folder("my-stuff").is_some());
    finish_folder_change(&mut app, change, Ok(()));
    assert_eq!(app.folders.len(), 4);
    assert_eq!(app.status_message.as_deref(), Some("Created folder My Stuff"));
    let mut keys = vec![Key::Char('N')];
    keys.extend("inbox".chars().map(Key::Char));
    keys.push(Key::Enter);
    press(&mut app, &mut store, &keys);
    assert_eq!(
        app.status_message.as_deref(),
        Some("Create folder failed: folder with id inbox already exists")
    );
}

#[test]
fn preview_scrolls_within_its_text() {
    let (mut app, mut store) = setup(false);
    app.sessions[0].first_message_preview = Some("l\n".repeat(14));
    press(&mut app, &mut store, &[Key::Char('p')]);
    assert_eq!(app.screen, Screen::Preview);
    press(&mut app, &mut store, &[Key::Down, Key::Down, Key::Down, Key::Down]);
    assert_eq!(app.preview_scroll, 3);
    press(&mut app, &mut store, &[Key::Up]);
    assert_eq!(app.preview_scroll, 2);
    press(&mut app, &mut store, &[Key::End]);
    assert_eq!(app.preview_scroll, u16::MAX);
    press(&mut app, &mut store, &[Key::PageDown]);
    assert_eq!(app.preview_scroll, u16::MAX);
    press(&mut app, &mut store, &[Key::Char('q')]);
    assert_eq!(app.screen, Screen::Main);
    assert_eq!(app.preview_scroll, 0);
}

#[test]
fn help_screen_closes_on_escape() {
    let (mut app, mut store) = setup(false);
    press(&mut app, &mut store, &[Key::Char('?')]);
    assert_eq!(app.screen, Screen::Help);
    press(&mut app, &mut store, &[Key::Char('x')]);
    assert_eq!(app.screen, Screen::Help);
    press(&mut app, &mut store, &[Key::Esc]);
    assert_eq!(app.screen, Screen::Main);
}

#[test]
fn lines_are_counted_like_str_lines() {
    assert_eq!(count_lines(""), 0);
    assert_eq!(count_lines("a"), 1);
    assert_eq!(count_lines("a\n"), 1);
    assert_eq!(count_lines("a\nb"), 2);
    assert_eq!(count_lines("\n\n"), 2);
}

#[test]
fn only_confirmed_keys_write_the_database() {
    let (mut app, mut store) = setup(false);
    for k in [Key::Enter, Key::Char('y'), Key::Char('d'), Key::Char('D')] {
        let step = handle_key(&mut app, &mut store, k);
        assert!(!matches!(step, Step::RenameSession { .. } | Step::DeleteSession { .. }));
    }
}

#[test]
fn slugs_of_lowercased_names() {
    assert_eq!(slug_from_lowercase("a b!c-d"), "a-bc-d");
    assert_eq!(slug_from_lowercase("AB"), "AB");
}
