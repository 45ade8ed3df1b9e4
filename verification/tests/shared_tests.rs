use blackbird::text::{chars_of, text_of, to_ascii_lower};
use blackbird::theme::theme_definition;
use blackbird::types::ThemeMode;
use blackbird::views::shared::{
    display_file_name, extract_title, initial_saved_apps, initial_saved_docs, persist_app,
    persist_markdown_doc, truncate_title,
};

#[test]
fn chars_round_trip() {
    let chars = chars_of("héllo");
    assert_eq!(chars.len(), 5);
    assert_eq!(text_of(&chars, 1, 4), "éll");
    assert_eq!(to_ascii_lower("MiXeD É"), "mixed É");
}

#[test]
fn display_file_name_takes_last_component() {
    assert_eq!(display_file_name("/home/user/notes.md"), "notes.md");
    assert_eq!(display_file_name("plain.html"), "plain.html");
    assert_eq!(display_file_name("dir/sub/"), "sub");
    assert_eq!(display_file_name("dir/.."), "dir/..");
    assert_eq!(display_file_name(""), "");
}

#[test]
fn nothing_is_saved_at_start() {
    assert!(initial_saved_apps().is_empty());
    assert!(initial_saved_docs().is_empty());
}

#[test]
fn persist_app_refuses_blank_content() {
    assert_eq!(persist_app("", "t", None, 5), None);
    assert_eq!(persist_app(" \n\t ", "t", None, 5), None);
}

#[test]
fn persist_app_keeps_what_it_is_given() {
    let app = persist_app("<p>hi</p>", "Greeting", None, 1700000000).unwrap();
    assert_eq!(app.id, "mem-1700000000");
    assert_eq!(app.title, "Greeting");
    assert_eq!(app.content, "<p>hi</p>");
    assert_eq!(app.file_path, None);
    assert_eq!(app.created_at, 1700000000);
    assert_eq!(app.tags, vec!["App".to_string()]);

    let tags = vec!["Game".to_string(), "Toy".to_string()];
    let tagged = persist_app("x", "T", Some(&tags), 0).unwrap();
    assert_eq!(tagged.id, "mem-0");
    assert_eq!(tagged.tags, tags);
    let empty: Vec<String> = Vec::new();
    assert_eq!(persist_app("x", "T", Some(&empty), 7).unwrap().tags, vec!["App".to_string()]);
    assert_eq!(persist_app("x", "T", None, u64::MAX).unwrap().id, "mem-18446744073709551615");
}

#[test]
fn titles_come_from_the_first_text_line() {
    assert_eq!(extract_title("# Heading\nbody", "Untitled"), "Heading");
    assert_eq!(extract_title("\n\n   ## Spaced title  \r\nmore", "Untitled"), "Spaced title");
    assert_eq!(extract_title("plain first line", "Untitled"), "plain first line");
    assert_eq!(extract_title("", "Untitled"), "Untitled");
    assert_eq!(extract_title("  \n \n", "Untitled"), "Untitled");
    assert_eq!(extract_title("###\nreal title", "Untitled"), "Untitled");
    assert_eq!(extract_title("#a#b", "Untitled"), "a#b");
    let doc = persist_markdown_doc("# My doc\ntext", None, 3).unwrap();
    assert_eq!(doc.title, "My doc");
    assert_eq!(doc.id, "mem-3");
    assert_eq!(persist_markdown_doc("  ", None, 3), None);
}

#[test]
fn titles_are_cut_to_eighty_bytes() {
    let long = "a".repeat(100);
    assert_eq!(truncate_title(long.clone()), "a".repeat(80));
    assert_eq!(truncate_title("short".to_string()), "short");
    assert_eq!(truncate_title("b".repeat(80)), "b".repeat(80));
    assert_eq!(truncate_title("é".repeat(41)), "é".repeat(40));
    assert_eq!(extract_title(&format!("# {long}"), "x"), "a".repeat(80));
}

#[test]
fn themes_have_their_style_sheets() {
    let dark = theme_definition(ThemeMode::Dark);
    assert!(dark.css.contains("--color-bg-primary: #000000;"));
    assert_eq!(dark.wordmark_class, "header-wordmark");
    let light = theme_definition(ThemeMode::Light);
    assert!(light.css.contains("--color-bg-primary: #ffffff;"));
    assert_eq!(light.wordmark_class, "header-wordmark");
    let octane = theme_definition(ThemeMode::Octane);
    assert!(octane.css.contains("--color-bg-primary: #ff3509;"));
    assert_eq!(octane.wordmark_class, "header-wordmark header-wordmark-octane");
}
