use opencode_selector::color::{Color, parse_hex_color};
use opencode_selector::config::ThemeConfig;
use opencode_selector::json::Json;
use opencode_selector::opencode_theme::{
    OpencodeTheme, active_theme_from_text, active_theme_name, builtin_theme_url, resolve_opencode_theme, resolve_string, resolve_value,
    theme_file_candidates, theme_from_text,
};
use opencode_selector::theme::Theme;

#[test]
fn parse_hex_color_accepts_six_digit() {
    assert_eq!(parse_hex_color("#ff5733"), Some(Color::Rgb(255, 87, 51)));
    assert_eq!(parse_hex_color("#00FF00"), Some(Color::Rgb(0, 255, 0)));
}

#[test]
fn parse_hex_color_accepts_three_digit() {
    assert_eq!(parse_hex_color("#f0f"), Some(Color::Rgb(255, 0, 255)));
    assert_eq!(parse_hex_color("#abc"), Some(Color::Rgb(170, 187, 204)));
}

#[test]
fn parse_hex_color_rejects_invalid() {
    assert_eq!(parse_hex_color("ff5733"), None);
    assert_eq!(parse_hex_color("#gggggg"), None);
    assert_eq!(parse_hex_color("#12345"), None);
}

#[test]
fn parse_hex_color_tolerates_case_and_rejects_signs() {
    assert_eq!(parse_hex_color("#AbCdEf"), Some(Color::Rgb(171, 205, 239)));
    assert_eq!(parse_hex_color("#+f+f+f"), None);
    assert_eq!(parse_hex_color("#+ff"), None);
    assert_eq!(parse_hex_color("#"), None);
    assert_eq!(parse_hex_color(""), None);
}

#[test]
fn theme_from_config_overrides_defaults() {
    let config = ThemeConfig {
        accent: Some("#ff5733".to_string()),
        background: Some("#1e1e1e".to_string()),
        ..ThemeConfig::default()
    };
    let theme = Theme::from_config(Some(&config));
    assert_eq!(theme.accent, Color::Rgb(255, 87, 51));
    assert_eq!(theme.background, Color::Rgb(30, 30, 30));
    assert_eq!(theme.error, Color::Red);
}

#[test]
fn theme_from_config_ignores_invalid_colors() {
    let config = ThemeConfig {
        accent: Some("not-a-color".to_string()),
        ..ThemeConfig::default()
    };
    let theme = Theme::from_config(Some(&config));
    assert_eq!(theme.accent, Color::Cyan);
}

#[test]
fn theme_from_config_defaults_when_missing() {
    let theme = Theme::from_config(None);
    assert_eq!(theme.background, Color::Reset);
    assert_eq!(theme.accent, Color::Cyan);
}

#[test]
fn applying_a_config_twice_changes_nothing_more() {
    let config = ThemeConfig { border: Some("#010203".to_string()), ..ThemeConfig::default() };
    let mut once = Theme::terminal();
    once.apply_config(&config);
    let mut twice = once;
    twice.apply_config(&config);
    assert_eq!(once, twice);
    assert_eq!(once.border, Color::Rgb(1, 2, 3));
}

#[test]
fn opencode_theme_overrides_only_given_colors() {
    let ot = OpencodeTheme { accent: Some(Color::Indexed(3)), ..OpencodeTheme::default() };
    let theme = Theme::from_opencode(&ot);
    assert_eq!(theme.accent, Color::Indexed(3));
    assert_eq!(theme.background, Theme::terminal().background);
}

fn text(v: &str) -> Json {
    Json::Str(v.to_string())
}

fn object(entries: Vec<(&str, Json)>) -> Json {
    Json::Object(entries.into_iter().map(|(k, v)| (k.to_string(), v)).collect())
}

#[test]
fn resolve_opencode_theme_reads_defs_and_dark_variant() {
    let json = object(vec![
        (
            "defs",
            object(vec![
                ("bg", text("#1e1e1e")),
                ("fg", text("#e6edf3")),
                ("blue", object(vec![("dark", text("#2f81f7")), ("light", text("#0969da"))])),
            ]),
        ),
        (
            "theme",
            object(vec![
                ("background", text("bg")),
                ("text", text("fg")),
                ("primary", text("blue")),
                ("textMuted", text("#7d8590")),
            ]),
        ),
    ]);

    let theme = resolve_opencode_theme(&json);
    assert_eq!(theme.background, Some(Color::Rgb(30, 30, 30)));
    assert_eq!(theme.foreground, Some(Color::Rgb(230, 237, 243)));
    assert_eq!(theme.highlight, Some(Color::Rgb(47, 129, 247)));
    assert_eq!(theme.muted, Some(Color::Rgb(125, 133, 144)));
}

#[test]
fn resolve_string_handles_none_and_hex() {
    let defs: Vec<(String, Color)> = Vec::new();
    assert_eq!(resolve_string("none", &defs, "dark"), Some(Color::Reset));
    assert_eq!(resolve_string("#ff5733", &defs, "dark"), Some(Color::Rgb(255, 87, 51)));
    assert_eq!(resolve_string("invalid", &defs, "dark"), None);
}

#[test]
fn resolve_string_uses_defs() {
    let defs = vec![("myblue".to_string(), Color::Rgb(0, 0, 255))];
    assert_eq!(resolve_string("myblue", &defs, "dark"), Some(Color::Rgb(0, 0, 255)));
}

#[test]
fn resolve_string_reads_palette_indices() {
    let defs: Vec<(String, Color)> = Vec::new();
    assert_eq!(resolve_string(" 42 ", &defs, "dark"), Some(Color::Indexed(42)));
    assert_eq!(resolve_string("NONE", &defs, "dark"), Some(Color::Reset));
    assert_eq!(resolve_string("256", &defs, "dark"), None);
}

#[test]
fn defs_may_refer_to_later_defs() {
    let theme = theme_from_text(
        r##"{ "defs": { "a": "b", "b": "#102030" }, "theme": { "border": "a", "error": 9 } }"##,
    )
    .unwrap();
    assert_eq!(theme.border, Some(Color::Rgb(16, 32, 48)));
    assert_eq!(theme.error, Some(Color::Indexed(9)));
    assert!(theme_from_text("not json").is_none());
}

#[test]
fn active_theme_defaults_and_system() {
    assert_eq!(active_theme_from_text(r#"{ "theme": "custom" }"#), Some("custom".to_string()));
    assert_eq!(active_theme_from_text("{}"), Some("opencode".to_string()));
    assert_eq!(active_theme_from_text(r#"{ "theme": "system" }"#), None);
    assert_eq!(active_theme_from_text("not json"), None);
    assert_eq!(active_theme_name(&object(vec![("theme", text("x"))])), Some("x".to_string()));
    assert_eq!(active_theme_name(&object(vec![("theme", Json::Number(Some(3)))])), Some("opencode".to_string()));
}

#[test]
fn theme_files_are_looked_up_in_order() {
    let c = theme_file_candidates("/cfg/opencode", Some("/w/p/src"), Some("/w/p"), "x");
    assert_eq!(
        c,
        vec![
            "/cfg/opencode/themes/x.json".to_string(),
            "/w/p/.opencode/themes/x.json".to_string(),
            "/w/p/src/.opencode/themes/x.json".to_string(),
        ]
    );
    assert_eq!(theme_file_candidates("/cfg", None, None, "y"), vec!["/cfg/themes/y.json".to_string()]);
    assert!(builtin_theme_url("dracula").ends_with("/dracula.json"));
}

#[test]
fn user_colours_go_over_opencode_colours() {
    let ot = OpencodeTheme {
        accent: Some(Color::Indexed(3)),
        border: Some(Color::Indexed(4)),
        ..OpencodeTheme::default()
    };
    let config = ThemeConfig { accent: Some("#000001".to_string()), ..ThemeConfig::default() };
    let theme = Theme::layered(Some(&ot), Some(&config));
    assert_eq!(theme.accent, Color::Rgb(0, 0, 1));
    assert_eq!(theme.border, Color::Indexed(4));
    assert_eq!(Theme::layered(None, None), Theme::terminal());
    let st = theme.highlight();
    assert!(st.bold);
    assert_eq!(st.fg, theme.highlight);
    assert_eq!(theme.selected().fg, Color::White);
}

#[test]
fn variant_objects_follow_the_asked_variant() {
    let value = object(vec![("dark", text("#000000")), ("light", text("#ffffff"))]);
    let defs: Vec<(String, Color)> = Vec::new();
    assert_eq!(resolve_value(&value, &defs, "light"), Some(Color::Rgb(255, 255, 255)));
    assert_eq!(resolve_value(&value, &defs, "dark"), Some(Color::Rgb(0, 0, 0)));
    assert_eq!(resolve_value(&value, &defs, "dim"), None);
}
