use blackbird::tools::apps::{
    default_limit, default_list_limit, extract_snippet, GetAppsListArgs, GetAppsListTool,
    SearchAppsArgs, SearchAppsTool,
};
use blackbird::tools::calculator::CalculatorTool;
use blackbird::tools::docs::{GetDocsListArgs, GetDocsListTool, SearchDocsArgs, SearchDocsTool};
use blackbird::tools::errors::ToolError;
use blackbird::tools::settings::{GetSettingArgs, GetSettingTool, SettingValue};
use blackbird::types::ThemeMode;
use blackbird::views::shared::SavedApp;

fn app(id: &str, title: &str, content: &str, tags: &[&str], created_at: u64) -> SavedApp {
    SavedApp {
        id: id.to_string(),
        title: title.to_string(),
        content: content.to_string(),
        file_path: None,
        created_at,
        tags: tags.iter().map(|t| t.to_string()).collect(),
    }
}

fn library() -> Vec<SavedApp> {
    vec![
        app("1", "Todo List", "<h1>Tasks</h1> keep track of things", &["App", "Productivity"], 10),
        app("2", "Snake", "<canvas></canvas> a GAME of snake", &["Game"], 20),
        app("3", "Notes", "plain notes about the game plan", &["app"], 30),
        app("4", "Game of Life", "cells", &["Game", "Simulation"], 40),
    ]
}

#[test]
fn test_get_theme() {
    let tool = GetSettingTool::new(ThemeMode::Dark, 16);
    let result = tool.get(&GetSettingArgs { setting: "theme".to_string() }).unwrap();
    assert_eq!(result, SettingValue::Theme("Dark".to_string()));
}

#[test]
fn test_get_font_size() {
    let tool = GetSettingTool::new(ThemeMode::Dark, 18);
    let result = tool.get(&GetSettingArgs { setting: "font_size".to_string() }).unwrap();
    assert_eq!(result, SettingValue::FontSize("18px".to_string()));
}

#[test]
fn test_invalid_setting() {
    let tool = GetSettingTool::new(ThemeMode::Dark, 16);
    let result = tool.get(&GetSettingArgs { setting: "invalid".to_string() });
    assert!(result.is_err());
    assert_eq!(
        result.unwrap_err().to_string(),
        "Invalid arguments: Unknown setting: 'invalid'. Valid options: 'theme', 'font_size', 'all'"
    );
}

#[test]
fn settings_all_and_other_values() {
    let tool = GetSettingTool::new(ThemeMode::Octane, -3);
    assert_eq!(
        tool.get(&GetSettingArgs { setting: "all".to_string() }),
        Ok(SettingValue::All { theme: "Octane".to_string(), font_size: "-3px".to_string() })
    );
    let light = GetSettingTool::new(ThemeMode::Light, 0);
    assert_eq!(
        light.get(&GetSettingArgs { setting: "theme".to_string() }),
        Ok(SettingValue::Theme("Light".to_string()))
    );
    assert_eq!(
        light.get(&GetSettingArgs { setting: "font_size".to_string() }),
        Ok(SettingValue::FontSize("0px".to_string()))
    );
    let extreme = GetSettingTool::new(ThemeMode::Dark, i32::MIN);
    assert_eq!(
        extreme.get(&GetSettingArgs { setting: "font_size".to_string() }),
        Ok(SettingValue::FontSize("-2147483648px".to_string()))
    );
    assert!(light.get(&GetSettingArgs { setting: "Theme".to_string() }).is_err());
}

#[test]
fn tool_errors_have_their_texts() {
    assert_eq!(ToolError::InvalidArgs("x".to_string()).to_string(), "Invalid arguments: x");
    assert_eq!(ToolError::ExecutionFailed("y".to_string()).to_string(), "Execution failed: y");
    assert_eq!(ToolError::NotFound("z".to_string()).to_string(), "Not found: z");
    assert_eq!(CalculatorTool.name(), "calculate");
}

#[test]
fn default_limits() {
    assert_eq!(default_limit(), 5);
    assert_eq!(default_list_limit(), 10);
}

#[test]
fn search_matches_title_or_content_without_case() {
    let tool = SearchAppsTool::new(library());
    let hits = tool.search(&SearchAppsArgs { query: "game".to_string(), limit: 5 });
    let ids: Vec<&str> = hits.iter().map(|h| h.id.as_str()).collect();
    assert_eq!(ids, vec!["2", "3", "4"]);
    assert_eq!(hits[0].title, "Snake");
    assert_eq!(hits[0].tags, vec!["Game".to_string()]);
    assert_eq!(hits[0].created_at, 20);
    assert_eq!(hits[0].snippet, "<canvas></canvas> a GAME of snake");
    assert_eq!(hits[2].snippet, "cells");
}

#[test]
fn search_respects_limit_and_cap() {
    let tool = SearchAppsTool::new(library());
    assert_eq!(tool.search(&SearchAppsArgs { query: "game".to_string(), limit: 2 }).len(), 2);
    assert_eq!(tool.search(&SearchAppsArgs { query: "game".to_string(), limit: 1 }).len(), 1);
    assert_eq!(tool.search(&SearchAppsArgs { query: "game".to_string(), limit: 0 }).len(), 1);
    assert!(tool.search(&SearchAppsArgs { query: "zebra".to_string(), limit: 5 }).is_empty());
    let many: Vec<SavedApp> =
        (0..30).map(|i| app(&i.to_string(), "same", "same words", &[], i)).collect();
    let docs = SearchDocsTool::new(many);
    assert_eq!(docs.search(&SearchDocsArgs { query: "same".to_string(), limit: 100 }).len(), 20);
    assert_eq!(
        docs.nothing_found(&SearchDocsArgs { query: "q".to_string(), limit: 1 }),
        "No documents found matching 'q'"
    );
    assert_eq!(
        tool.nothing_found(&SearchAppsArgs { query: "zebra".to_string(), limit: 1 }),
        "No apps found matching 'zebra'"
    );
}

#[test]
fn snippets_show_what_stands_around_the_query() {
    let content = format!("{}needle{}", "a".repeat(80), "b".repeat(80));
    let snippet = extract_snippet(&content, "NEEDLE", 100);
    assert_eq!(snippet, format!("...{}needle{}...", "a".repeat(50), "b".repeat(50)));
    assert_eq!(extract_snippet("short needle here", "needle", 100), "short needle here");
    assert_eq!(extract_snippet("needle at start and then some", "needle", 10), "needle at s...");
    assert_eq!(extract_snippet("nothing to see", "needle", 7), "nothing");
    assert_eq!(extract_snippet("", "needle", 7), "");
}

#[test]
fn list_filters_by_tag_without_case() {
    let tool = GetAppsListTool::new(library());
    let all = tool.list(&GetAppsListArgs { tag_filter: None, limit: 10 });
    assert_eq!(all.len(), 4);
    assert_eq!(all[0].preview, "<h1>Tasks</h1> keep track of things");
    let games = tool.list(&GetAppsListArgs { tag_filter: Some("game".to_string()), limit: 10 });
    let ids: Vec<&str> = games.iter().map(|e| e.id.as_str()).collect();
    assert_eq!(ids, vec!["2", "4"]);
    let apps = tool.list(&GetAppsListArgs { tag_filter: Some("APP".to_string()), limit: 10 });
    let ids: Vec<&str> = apps.iter().map(|e| e.id.as_str()).collect();
    assert_eq!(ids, vec!["1", "3"]);
    assert!(tool.list(&GetAppsListArgs { tag_filter: None, limit: 0 }).is_empty());
    assert_eq!(tool.list(&GetAppsListArgs { tag_filter: None, limit: 3 }).len(), 3);
    assert_eq!(
        tool.nothing_listed(&GetAppsListArgs { tag_filter: Some("x".to_string()), limit: 1 }),
        "No apps found with tag 'x'"
    );
    assert_eq!(
        tool.nothing_listed(&GetAppsListArgs { tag_filter: None, limit: 1 }),
        "No apps found"
    );
}

#[test]
fn list_is_capped_at_fifty_with_previews_of_a_hundred_characters() {
    let many: Vec<SavedApp> =
        (0..60).map(|i| app(&i.to_string(), "t", &"x".repeat(150), &["Doc"], i)).collect();
    let tool = GetDocsListTool::new(many);
    let listed = tool.list(&GetDocsListArgs { tag_filter: None, limit: 1000 });
    assert_eq!(listed.len(), 50);
    assert_eq!(listed[0].preview, "x".repeat(100));
    assert_eq!(listed[49].id, "49");
    assert_eq!(
        tool.nothing_listed(&GetDocsListArgs { tag_filter: None, limit: 1 }),
        "No documents found"
    );
    assert_eq!(
        tool.nothing_listed(&GetDocsListArgs { tag_filter: Some("a".to_string()), limit: 1 }),
        "No documents found with tag 'a'"
    );
}
