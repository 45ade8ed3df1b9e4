use blackbird::config::parse_config_line;
use blackbird::views::shared::{
    extract_html_title, file_name_for, loaded_app, saved_app, slugify_for_filename,
    sort_newest_first, SavedApp,
};
use blackbird::views::tags::{capitalize_tag, generate_tags};

#[test]
fn config_lines() {
    assert_eq!(
        parse_config_line("LLM_ENDPOINT=http://localhost:1234"),
        Some(("LLM_ENDPOINT".to_string(), "http://localhost:1234".to_string()))
    );
    assert_eq!(
        parse_config_line("  KEY  =  spaced value  "),
        Some(("KEY".to_string(), "spaced value".to_string()))
    );
    assert_eq!(parse_config_line("A=b=c"), Some(("A".to_string(), "b=c".to_string())));
    assert_eq!(parse_config_line("EMPTY="), Some(("EMPTY".to_string(), String::new())));
    assert_eq!(parse_config_line("=value"), Some((String::new(), "value".to_string())));
    assert_eq!(parse_config_line("# comment=1"), None);
    assert_eq!(parse_config_line("   #indented"), None);
    assert_eq!(parse_config_line(""), None);
    assert_eq!(parse_config_line("   "), None);
    assert_eq!(parse_config_line("no assignment here"), None);
}

#[test]
fn html_titles() {
    assert_eq!(
        extract_html_title("<html><head><title> My App </title></head></html>"),
        Some("My App".to_string())
    );
    assert_eq!(
        extract_html_title("<HTML><TITLE>Shout</TITLE>"),
        Some("Shout".to_string())
    );
    assert_eq!(extract_html_title("<title>  </title>"), None);
    assert_eq!(extract_html_title("<title>never closed"), None);
    assert_eq!(extract_html_title("</title><p>no opening</p>"), None);
    assert_eq!(extract_html_title(""), None);
    assert_eq!(
        extract_html_title("<title>a</title><title>b</title>"),
        Some("a".to_string())
    );
}

#[test]
fn slugs() {
    assert_eq!(slugify_for_filename("Hello World"), "hello-world");
    assert_eq!(slugify_for_filename("  My -- App!  v2 "), "my-app-v2");
    assert_eq!(slugify_for_filename("---"), "");
    assert_eq!(slugify_for_filename(""), "");
    assert_eq!(slugify_for_filename("Ünïcode Näme"), "ncode-nme");
    assert_eq!(slugify_for_filename(&"a".repeat(60)), "a".repeat(40));
    assert_eq!(
        slugify_for_filename(&format!("{} b", "a".repeat(39))),
        "a".repeat(39)
    );
    assert_eq!(file_name_for("Hello World", 17), "hello-world-17.html");
    assert_eq!(file_name_for("!!!", 17), "app-17.html");
}

#[test]
fn tags_are_the_most_frequent_words() {
    assert_eq!(
        generate_tags("Rust rust RUST verification verification proofs solver"),
        vec!["Rust", "Verification", "Proofs", "Solver"]
    );
    assert_eq!(
        generate_tags("zebra apple mango banana cherry"),
        vec!["Apple", "Banana", "Cherry", "Mango"]
    );
    assert_eq!(generate_tags("the and that with a an of to"), Vec::<String>::new());
    assert_eq!(generate_tags(""), Vec::<String>::new());
    assert_eq!(generate_tags("(hello), \"hello\" world!"), vec!["Hello", "World"]);
    assert_eq!(generate_tags("cat dogs dogs"), vec!["Dogs"]);
    assert_eq!(generate_tags("été été naïve"), vec!["Été", "Naïve"]);
}

#[test]
fn capitalized_tags() {
    assert_eq!(capitalize_tag("word"), "Word");
    assert_eq!(capitalize_tag(""), "");
    assert_eq!(capitalize_tag("ßeta"), "SSeta");
    assert_eq!(capitalize_tag("1st"), "1st");
}

fn at(id: &str, created_at: u64) -> SavedApp {
    SavedApp {
        id: id.to_string(),
        title: String::new(),
        content: String::new(),
        file_path: None,
        created_at,
        tags: Vec::new(),
    }
}

#[test]
fn newest_apps_come_first() {
    let sorted = sort_newest_first(vec![at("a", 5), at("b", 9), at("c", 1), at("d", 9), at("e", 7)]);
    let ids: Vec<&str> = sorted.iter().map(|a| a.id.as_str()).collect();
    assert_eq!(ids, vec!["b", "d", "e", "a", "c"]);
    assert!(sort_newest_first(Vec::new()).is_empty());
}

#[test]
fn apps_read_from_files() {
    let page = loaded_app(
        "/data/apps/clock-1.html",
        true,
        "<title>Clock</title><body></body>".to_string(),
        Some("clock-1"),
        99,
    );
    assert_eq!(page.id, "/data/apps/clock-1.html");
    assert_eq!(page.file_path, Some("/data/apps/clock-1.html".to_string()));
    assert_eq!(page.title, "Clock");
    assert_eq!(page.tags, vec!["App".to_string()]);
    assert_eq!(page.created_at, 99);
    let untitled = loaded_app("x.html", true, "<body></body>".to_string(), Some("x"), 1);
    assert_eq!(untitled.title, "x");
    let nameless = loaded_app("x.html", true, "<body></body>".to_string(), None, 1);
    assert_eq!(nameless.title, "Untitled");
    let doc = loaded_app(
        "notes.md",
        false,
        "# Release plan\nrelease release checklist".to_string(),
        Some("notes"),
        3,
    );
    assert_eq!(doc.title, "Release plan");
    assert_eq!(doc.tags, vec!["Release", "Checklist", "Plan"]);
    let saved = saved_app("<p>x</p>", "T", None, 4, Some("/tmp/t-4.html")).unwrap();
    assert_eq!(saved.id, "/tmp/t-4.html");
    assert_eq!(saved.file_path, Some("/tmp/t-4.html".to_string()));
    assert_eq!(saved_app("  ", "T", None, 4, Some("/tmp/t-4.html")), None);
}
