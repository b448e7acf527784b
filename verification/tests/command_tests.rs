use opencode_selector::app::{App, CommandResult, Screen, SortBy};
use opencode_selector::cli::{Cli, Command, Startup, startup};
use opencode_selector::commands::{commands, fuzzy_score, score_lowered};
use opencode_selector::model::{Folder, Session};
use opencode_selector::strmap::StrMap;

fn session(id: &str, title: &str, project: &str, updated: i64) -> Session {
    Session {
        id: id.to_string(),
        title: title.to_string(),
        slug: format!("{id}-slug"),
        project_id: project.to_string(),
        project_name: format!("{project}-name"),
        project_directory: None,
        agent: None,
        model_name: None,
        created_at: updated,
        updated_at: updated,
        summary_files: 0,
        first_message_preview: None,
        messages: Vec::new(),
    }
}

fn three_sessions() -> App {
    App::new(
        vec![session("a", "Alpha", "p1", 1), session("b", "Beta", "p1", 3), session("c", "Gamma", "p2", 2)],
        vec![Folder::new("all", "All")],
        StrMap::new(),
        None,
        false,
        false,
    )
}

fn texts(app: &App) -> Vec<String> {
    app.command_suggestions.iter().map(|s| s.text.clone()).collect()
}

#[test]
fn fuzzy_score_ranks_exact_prefix_substring_subsequence() {
    assert_eq!(fuzzy_score("quit", "quit"), Some(1000));
    assert_eq!(fuzzy_score("QUIT", "quit"), Some(1000));
    assert_eq!(fuzzy_score("qu", "quit"), Some(504));
    assert_eq!(fuzzy_score("it", "quit"), Some(204));
    assert_eq!(fuzzy_score("qt", "quit"), Some(96));
    assert_eq!(fuzzy_score("xyz", "quit"), None);
    assert_eq!(fuzzy_score("", "quit"), Some(0));
    assert_eq!(fuzzy_score("tq", "quit"), None);
}

#[test]
fn fuzzy_score_counts_bytes() {
    assert_eq!(fuzzy_score("é", "éa"), Some(503));
}

#[test]
fn command_table_lists_every_command() {
    let names: Vec<&str> = commands().iter().map(|c| c.name).collect();
    assert_eq!(
        names,
        vec!["quit", "sort", "filter", "help", "search", "folders", "goto", "global", "cwd", "clear"]
    );
    assert_eq!(commands()[0].aliases, vec!["q", "exit"]);
    assert_eq!(commands()[6].args[0].values, vec!["top", "first", "bottom", "last"]);
}

#[test]
fn empty_line_suggests_every_command() {
    let mut app = three_sessions();
    app.selected_suggestion = 4;
    app.compute_suggestions();
    assert_eq!(app.command_suggestions.len(), 10);
    assert_eq!(app.command_suggestions[0].text, "quit");
    assert_eq!(app.command_suggestions[0].description, "Exit the application");
    assert_eq!(app.selected_suggestion, 0);
}

#[test]
fn first_word_completes_names_and_aliases_by_score() {
    let mut app = three_sessions();
    app.command_buffer = "g".to_string();
    app.selected_suggestion = 9;
    app.compute_suggestions();
    assert_eq!(texts(&app), vec!["g", "G", "global", "goto"]);
    assert_eq!(app.command_suggestions[1].description, "Show all projects (global mode)");
    assert_eq!(app.selected_suggestion, 3);
}

#[test]
fn second_word_completes_argument_values() {
    let mut app = three_sessions();
    app.command_buffer = "sort u".to_string();
    app.compute_suggestions();
    assert_eq!(texts(&app), vec!["sort updated"]);
    assert_eq!(app.command_suggestions[0].description, "");
    app.command_buffer = "fs o".to_string();
    app.compute_suggestions();
    assert_eq!(texts(&app), vec!["folders off", "folders on", "folders toggle"]);
    app.command_buffer = "filter x".to_string();
    app.compute_suggestions();
    assert!(app.command_suggestions.is_empty());
}

#[test]
fn blank_line_offers_nothing() {
    let mut app = three_sessions();
    app.command_buffer = "   ".to_string();
    app.selected_suggestion = 4;
    app.compute_suggestions();
    assert!(app.command_suggestions.is_empty());
    assert_eq!(app.selected_suggestion, 0);
    app.command_buffer = "so".to_string();
    app.compute_suggestions();
    assert_eq!(texts(&app), vec!["sort"]);
}

#[test]
fn blank_command_does_nothing() {
    let mut app = three_sessions();
    assert_eq!(app.execute_command("   "), CommandResult::Executed);
    assert!(app.command_history.is_empty());
}

#[test]
fn quit_commands_and_history() {
    let mut app = three_sessions();
    app.command_history_pos = Some(0);
    assert_eq!(app.execute_command("  q  "), CommandResult::Quit);
    assert_eq!(app.command_history, vec!["q".to_string()]);
    assert_eq!(app.command_history_pos, None);
    assert_eq!(app.execute_command("exit"), CommandResult::Quit);
    assert_eq!(app.execute_command("frob it"), CommandResult::Unknown("frob".to_string()));
    assert_eq!(app.command_history.len(), 3);
}

#[test]
fn sort_command_sets_or_cycles_order() {
    let mut app = three_sessions();
    assert_eq!(app.execute_command("sort title"), CommandResult::Executed);
    assert_eq!(app.sort_by, SortBy::Title);
    assert_eq!(app.status_message.as_deref(), Some("Sorted by title"));
    assert_eq!(app.filtered_indices, vec![0, 1, 2]);
    assert_eq!(
        app.execute_command("sort bogus"),
        CommandResult::Error("Unknown sort: bogus".to_string())
    );
    assert_eq!(app.sort_by, SortBy::Title);
    app.execute_command("sort");
    assert_eq!(app.sort_by, SortBy::Updated);
    assert_eq!(app.filtered_indices, vec![1, 2, 0]);
}

#[test]
fn filter_and_search_commands() {
    let mut app = three_sessions();
    app.execute_command("filter p2");
    assert_eq!(app.project_filter.as_deref(), Some("p2"));
    assert_eq!(app.status_message.as_deref(), Some("Filtered to project 'p2'"));
    assert_eq!(app.filtered_indices, vec![2]);
    app.execute_command("f");
    assert_eq!(app.project_filter, None);
    assert_eq!(app.status_message.as_deref(), Some("Showing all projects"));
    app.execute_command("search   ALP");
    assert_eq!(app.search_query, "ALP");
    assert_eq!(app.filtered_indices, vec![0]);
    app.execute_command("clear");
    assert_eq!(app.search_query, "");
    assert_eq!(app.status_message.as_deref(), Some("Search cleared"));
    assert_eq!(app.filtered_indices.len(), 3);
}

#[test]
fn goto_command_moves_the_cursor() {
    let mut app = three_sessions();
    app.execute_command("goto 2");
    assert_eq!(app.selected_session, 1);
    assert_eq!(app.status_message.as_deref(), Some("Session 2 of 3"));
    app.execute_command("g 99");
    assert_eq!(app.selected_session, 2);
    app.execute_command("g top");
    assert_eq!(app.selected_session, 0);
    app.execute_command("goto last");
    assert_eq!(app.selected_session, 2);
    app.execute_command("goto +0");
    assert_eq!(app.selected_session, 0);
    assert_eq!(
        app.execute_command("goto x"),
        CommandResult::Error("Invalid number: x".to_string())
    );
    app.execute_command("goto");
    assert_eq!(app.status_message.as_deref(), Some("Session 1 of 3"));
}

#[test]
fn folders_help_and_mode_commands() {
    let mut app = three_sessions();
    app.execute_command("folders on");
    assert!(app.folders_enabled);
    assert_eq!(app.status_message.as_deref(), Some("Folders enabled"));
    app.execute_command("fs t");
    assert!(!app.folders_enabled);
    assert_eq!(
        app.execute_command("fs maybe"),
        CommandResult::Error("Unknown: maybe".to_string())
    );
    app.execute_command("?");
    assert_eq!(app.screen, Screen::Help);
    app.current_project = Some("p1".to_string());
    app.execute_command("cwd");
    assert!(!app.global_mode);
    assert_eq!(app.project_filter.as_deref(), Some("p1"));
    assert_eq!(app.filtered_indices, vec![1, 0]);
    app.execute_command("global");
    assert!(app.global_mode);
    assert_eq!(app.project_filter, None);
    assert_eq!(app.status_message.as_deref(), Some("Global mode: all projects"));
}

#[test]
fn startup_follows_the_command_line() {
    let plain = Cli { db: None, folders: None, global: false, command: None };
    assert_eq!(
        startup(&plain, Some("p".to_string()), true),
        Startup { project_filter: Some("p".to_string()), folders_enabled: true, global_mode: false }
    );
    let flag = Cli { global: true, ..plain.clone() };
    assert_eq!(
        startup(&flag, Some("p".to_string()), true),
        Startup { project_filter: None, folders_enabled: false, global_mode: true }
    );
    let sub = Cli { command: Some(Command::Global), ..plain };
    assert!(startup(&sub, None, true).global_mode);
}

#[test]
fn scores_of_lowercased_texts() {
    let q: Vec<char> = "go".chars().collect();
    let c: Vec<char> = "goto".chars().collect();
    assert_eq!(score_lowered(&q, &c), Some(504));
    let upper: Vec<char> = "GO".chars().collect();
    assert_eq!(score_lowered(&upper, &c), None);
}

#[test]
fn every_offered_command_line_runs() {
    for c in commands() {
        let mut lines: Vec<String> = vec![c.name.to_string()];
        lines.extend(c.aliases.iter().map(|a| a.to_string()));
        if let Some(arg) = c.args.first() {
            lines.extend(arg.values.iter().map(|v| format!("{} {}", c.name, v)));
        }
        for line in lines {
            let mut app = three_sessions();
            let r = app.execute_command(&line);
            if c.name == "quit" {
                assert_eq!(r, CommandResult::Quit, "{line}");
            } else {
                assert_eq!(r, CommandResult::Executed, "{line}");
            }
        }
    }
}

#[test]
fn an_empty_line_offers_every_command() {
    let mut app = three_sessions();
    app.command_buffer = String::new();
    app.compute_suggestions();
    assert_eq!(app.command_suggestions.len(), commands().len());
    assert_eq!(app.selected_suggestion, 0);
}
