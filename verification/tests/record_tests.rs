use opencode_selector::json::Json;
use opencode_selector::records::{first_text_preview, message_from, text_preview_from};
use opencode_selector::upgrade::{
    arch_suffix, asset_name, download_url, is_dev_build, is_current, latest_release_url, release_tag,
    release_tag_from_text,
};
use opencode_selector::model::Project;
use opencode_selector::records::{
    SessionRow, best_project_match, build_session, byte_prefix,
    extract_text_preview, message_from_part, messages_from_parts, model_name_from,
    parse_model_name, project_directory_for, project_name_for, truncate,
};

#[test]
fn model_name_reads_the_json_id() {
    assert_eq!(parse_model_name(Some(r#"{"id":"m1","providerID":"x"}"#.to_string())), Some("m1".to_string()));
    assert_eq!(parse_model_name(Some("gpt-4".to_string())), Some("gpt-4".to_string()));
    assert_eq!(parse_model_name(Some(r#"{"id":5}"#.to_string())), Some(r#"{"id":5}"#.to_string()));
    assert_eq!(parse_model_name(Some(String::new())), None);
    assert_eq!(parse_model_name(None), None);
    let parsed = Some(Json::Object(vec![("id".to_string(), Json::Str("m2".to_string()))]));
    assert_eq!(model_name_from("raw", &parsed), Some("m2".to_string()));
    assert_eq!(model_name_from("", &parsed), None);
    assert_eq!(model_name_from("raw", &None), Some("raw".to_string()));
}

#[test]
fn previews_are_cut_at_300_bytes() {
    let short = "hello".to_string();
    assert_eq!(truncate(&short), "hello");
    let exact = "a".repeat(300);
    assert_eq!(truncate(&exact), exact);
    let long = "b".repeat(301);
    assert_eq!(truncate(&long), format!("{}...", "b".repeat(300)));
    let wide = "é".repeat(151);
    assert_eq!(truncate(&wide), format!("{}...", "é".repeat(150)));
    assert_eq!(byte_prefix("héllo", 3), "hé");
}

#[test]
fn a_cut_inside_a_character_moves_back_to_its_start() {
    let odd = format!("a{}", "é".repeat(150));
    assert_eq!(truncate(&odd), format!("a{}...", "é".repeat(149)));
    assert_eq!(byte_prefix("héllo", 2), "h");
    assert_eq!(byte_prefix("héllo", 0), "");
    let data = format!(r#"{{"text":"{odd}"}}"#);
    assert_eq!(extract_text_preview(&data), Some(format!("a{}...", "é".repeat(149))));
}

#[test]
fn text_preview_prefers_text_then_content() {
    assert_eq!(extract_text_preview(r#"{"text":"hi","content":"c"}"#), Some("hi".to_string()));
    assert_eq!(extract_text_preview(r#"{"content":"c"}"#), Some("c".to_string()));
    assert_eq!(extract_text_preview(r#"{"text":5,"content":"c"}"#), Some("c".to_string()));
    assert_eq!(extract_text_preview(r#"{"other":1}"#), None);
    assert_eq!(extract_text_preview("not json"), None);
}

#[test]
fn messages_keep_role_and_text() {
    assert_eq!(
        message_from_part(r#"{"role":"user","text":"hello"}"#),
        Some(("user".to_string(), "hello".to_string()))
    );
    assert_eq!(
        message_from_part(r#"{"content":"c"}"#),
        Some(("unknown".to_string(), "c".to_string()))
    );
    assert_eq!(message_from_part(r#"{"text":5,"content":"c"}"#), None);
    assert_eq!(message_from_part(r#"{"role":"assistant","text":""}"#), None);
    let parts = vec![
        r#"{"role":"user","text":"q"}"#.to_string(),
        "garbage".to_string(),
        r#"{"role":"assistant","content":"a"}"#.to_string(),
    ];
    assert_eq!(
        messages_from_parts(&parts),
        vec![("user".to_string(), "q".to_string()), ("assistant".to_string(), "a".to_string())]
    );
}

#[test]
fn project_lookups_take_the_last_row() {
    let projects = vec![
        Project { id: "p1".to_string(), name: Some("one".to_string()) },
        Project { id: "p2".to_string(), name: None },
        Project { id: "p1".to_string(), name: Some("uno".to_string()) },
    ];
    assert_eq!(project_name_for(&projects, "p1"), "uno");
    assert_eq!(project_name_for(&projects, "p2"), "");
    assert_eq!(project_name_for(&projects, "p3"), "");
    let dirs = vec![
        ("p1".to_string(), "/a".to_string()),
        ("p1".to_string(), "/b".to_string()),
    ];
    assert_eq!(project_directory_for(&dirs, "p1"), Some("/b".to_string()));
    assert_eq!(project_directory_for(&dirs, "p2"), None);
}

fn path(parts: &[&str]) -> Vec<String> {
    parts.iter().map(|s| s.to_string()).collect()
}

#[test]
fn the_deepest_containing_project_wins() {
    let target = path(&["/", "w", "app", "src"]);
    let candidates = vec![
        ("root".to_string(), Some(path(&["/", "w"]))),
        ("gone".to_string(), None),
        ("app".to_string(), Some(path(&["/", "w", "app"]))),
        ("twin".to_string(), Some(path(&["/", "w", "app"]))),
        ("other".to_string(), Some(path(&["/", "w", "lib"]))),
        ("deeper".to_string(), Some(path(&["/", "w", "app", "src", "x"]))),
    ];
    assert_eq!(best_project_match(&target, &candidates), Some("app".to_string()));
    assert_eq!(best_project_match(&path(&["/", "elsewhere"]), &candidates), None);
}

#[test]
fn rows_become_sessions() {
    let row = SessionRow {
        id: "s1".to_string(),
        project_id: "p1".to_string(),
        slug: "alpha".to_string(),
        title: "Alpha".to_string(),
        agent: Some("explore".to_string()),
        model: Some(r#"{"id":"m1"}"#.to_string()),
        time_created: 1000,
        time_updated: 3000,
        summary_files: 2,
    };
    let projects = vec![Project { id: "p1".to_string(), name: Some("project-one".to_string()) }];
    let dirs = vec![("p1".to_string(), "/work/one".to_string())];
    let s = build_session(row, &projects, &dirs, Some("hi".to_string()), Vec::new());
    assert_eq!(s.id, "s1");
    assert_eq!(s.project_name, "project-one");
    assert_eq!(s.project_directory, Some("/work/one".to_string()));
    assert_eq!(s.model_name, Some("m1".to_string()));
    assert_eq!(s.created_at, 1000);
    assert_eq!(s.updated_at, 3000);
    assert_eq!(s.summary_files, 2);
    assert_eq!(s.first_message_preview, Some("hi".to_string()));
}

#[test]
fn release_tags_come_from_tag_name() {
    assert_eq!(release_tag_from_text(r#"{"tag_name":"v1.2.3"}"#), Some("v1.2.3".to_string()));
    assert_eq!(release_tag_from_text(r#"{"name":"x"}"#), None);
    assert_eq!(release_tag_from_text("oops"), None);
    assert_eq!(release_tag(&Json::Object(vec![("tag_name".to_string(), Json::Null)])), None);
    assert!(is_current("v0.5.0", "0.5.0"));
    assert!(!is_current("v0.6.0", "0.5.0"));
    assert_eq!(arch_suffix("aarch64"), "aarch64-linux");
    assert_eq!(arch_suffix("x86_64"), "x86_64-linux");
    assert_eq!(arch_suffix("riscv64"), "x86_64-linux");
    assert_eq!(asset_name("x86_64-linux"), "opcs-x86_64-linux");
    assert_eq!(
        download_url("v1", "opcs-a"),
        "https://github.com/fzaca/opencode-selector/releases/download/v1/opcs-a"
    );
    assert_eq!(
        latest_release_url(),
        "https://api.github.com/repos/fzaca/opencode-selector/releases/latest"
    );
}

#[test]
fn message_and_preview_from_parsed_values() {
    let v = Some(Json::Object(vec![
        ("role".to_string(), Json::Str("user".to_string())),
        ("content".to_string(), Json::Str("c".to_string())),
    ]));
    assert_eq!(message_from(&v), Some(("user".to_string(), "c".to_string())));
    assert_eq!(text_preview_from(&v), Some("c".to_string()));
    assert_eq!(message_from(&None), None);
    assert_eq!(text_preview_from(&Some(Json::Array(Vec::new()))), None);
}

#[test]
fn the_first_part_with_text_gives_the_preview() {
    let parts = vec![
        r#"{"type":"step"}"#.to_string(),
        "garbage".to_string(),
        r#"{"content":"first"}"#.to_string(),
        r#"{"text":"second"}"#.to_string(),
    ];
    assert_eq!(first_text_preview(&parts), Some("first".to_string()));
    assert_eq!(first_text_preview(&Vec::new()), None);
    let odd = format!(r#"{{"text":"a{}"}}"#, "é".repeat(150));
    assert_eq!(first_text_preview(&vec![odd]), Some(format!("a{}...", "é".repeat(149))));
}

#[test]
fn development_builds_are_recognised() {
    assert!(is_dev_build("/home/me/proj/target/debug/opcs"));
    assert!(!is_dev_build("/usr/local/bin/opcs"));
    assert!(!is_dev_build("/home/me/proj/target/release/opcs"));
}
