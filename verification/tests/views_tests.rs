use blackbird::bridge::get_sdk_script;
use blackbird::types::{Role, ThemeMode};
use blackbird::views::content::{
    app_builder_message, app_theme_css, enrich_response, estimate_token_count, extract_app_tags,
    extract_doc_tags, extract_html_content, fallback_doc_tags, inject_before_end,
    inject_theme_and_sdk, inject_theme_css, normalize_tag, system_prompt_message, truncate,
};

#[test]
fn token_estimates() {
    assert_eq!(estimate_token_count("one two  three\nfour"), 4);
    assert_eq!(estimate_token_count("  padded  "), 1);
    assert_eq!(estimate_token_count(""), 0);
    assert_eq!(estimate_token_count("   "), 1);
    assert_eq!(estimate_token_count("\n\n\n\n\n"), 2);
    assert_eq!(estimate_token_count("    "), 1);
}

#[test]
fn document_tags_are_taken_out() {
    let (clean, tags) = extract_doc_tags("Body text.\n\n[[doc_tags: meeting notes, PROPOSAL , ,x]]");
    assert_eq!(clean, "Body text.");
    assert_eq!(tags, vec!["Meeting notes", "Proposal", "X"]);
    let (clean, tags) = extract_doc_tags("no block here");
    assert_eq!(clean, "no block here");
    assert!(tags.is_empty());
    let (clean, tags) = extract_doc_tags("a [[doc_tags: one]] b [[doc_tags: two]] c");
    assert_eq!(clean, "a [[doc_tags: one]] b");
    assert_eq!(tags, vec!["Two"]);
    let (clean, tags) = extract_doc_tags("open [[doc_tags: never closed");
    assert_eq!(clean, "open [[doc_tags: never closed");
    assert!(tags.is_empty());
    let (clean, tags) = extract_doc_tags("x [[doc_tags:]]");
    assert_eq!(clean, "x");
    assert!(tags.is_empty());
}

#[test]
fn app_tags_are_taken_out() {
    let (clean, tags) = extract_app_tags("<html></html>\n[[app_tags: game, miniTool]]");
    assert_eq!(clean, "<html></html>");
    assert_eq!(tags, vec!["Game", "MiniTool"]);
    let (clean, tags) = extract_app_tags("<html></html>");
    assert_eq!(clean, "<html></html>");
    assert_eq!(tags, vec!["App"]);
    let (_, tags) = extract_app_tags("x [[app_tags: ]]");
    assert!(tags.is_empty());
}

#[test]
fn tags_are_normalized() {
    assert_eq!(normalize_tag("  hELLO wORLD "), Some("Hello world".to_string()));
    assert_eq!(normalize_tag(""), None);
    assert_eq!(normalize_tag("   "), None);
    assert_eq!(normalize_tag("a"), Some("A".to_string()));
}

#[test]
fn fallback_tags_follow_the_words() {
    assert_eq!(fallback_doc_tags("Meeting about the ROADMAP"), vec!["Meeting Notes", "Project Plan"]);
    assert_eq!(fallback_doc_tags("nothing relevant"), vec!["Notes"]);
    assert_eq!(fallback_doc_tags(""), vec!["Notes"]);
    assert_eq!(
        fallback_doc_tags("proposal requirements summary launch faq checklist brief"),
        vec![
            "Proposal",
            "Technical Spec",
            "Summary",
            "Launch Plan",
            "FAQ",
            "Checklist",
            "Product Brief"
        ]
    );
    assert_eq!(fallback_doc_tags("my notes"), vec!["Meeting Notes"]);
}

#[test]
fn answers_are_enriched() {
    assert_eq!(enrich_response(None, "text"), None);
    let known = enrich_response(Some(1500), "The plan is set.\n[[doc_tags: project plan]]").unwrap();
    assert_eq!(known.content, "The plan is set.");
    assert_eq!(known.tags, vec!["Project plan"]);
    assert_eq!(known.duration_ms, 1500);
    assert_eq!(known.token_count, 7);
    let guessed = enrich_response(Some(0), "release steps").unwrap();
    assert_eq!(guessed.content, "release steps");
    assert_eq!(guessed.tags, vec!["Launch Plan", "Checklist"]);
    assert_eq!(guessed.token_count, 2);
    let empty_block = enrich_response(Some(1), "summary [[doc_tags: , ]]").unwrap();
    assert_eq!(empty_block.content, "summary");
    assert_eq!(empty_block.tags, vec!["Summary"]);
}

#[test]
fn texts_are_cut_with_dots() {
    assert_eq!(truncate("short", 10), "short");
    assert_eq!(truncate("exactly ten", 11), "exactly ten");
    assert_eq!(truncate("a longer text", 8), "a longer...");
    assert_eq!(truncate("abc", 0), "...");
    assert_eq!(truncate("", 0), "");
}

#[test]
fn html_is_found_in_answers() {
    assert_eq!(
        extract_html_content("Here you go:\n```html\n<p>hi</p>\n```\nEnjoy"),
        "<p>hi</p>"
    );
    assert_eq!(
        extract_html_content("  <!DOCTYPE html><html></html>\n[[app_tags: Tool]]  "),
        "<!DOCTYPE html><html></html>"
    );
    assert_eq!(extract_html_content("<div>plain</div>"), "<div>plain</div>");
    assert_eq!(extract_html_content("just words"), "");
    assert_eq!(extract_html_content(""), "");
    assert_eq!(extract_html_content("```html\n<p>never closed"), "");
    assert_eq!(extract_html_content("<p>```html unclosed</p>"), "<p>```html unclosed</p>");
}

#[test]
fn style_sheets_are_put_into_pages() {
    assert_eq!(
        inject_theme_css("<html><HEAD><title>t</title></head></html>", "b{}"),
        "<html><HEAD><style>b{}</style><title>t</title></head></html>"
    );
    assert_eq!(
        inject_theme_css("<html lang=\"en\"><body></body></html>", "b{}"),
        "<html lang=\"en\"><head><style>b{}</style></head><body></body></html>"
    );
    assert_eq!(inject_theme_css("<p>bare</p>", "b{}"), "<style>b{}</style><p>bare</p>");
    assert_eq!(inject_theme_css("<html", "b{}"), "<style>b{}</style><html");
    assert_eq!(inject_theme_css("", ""), "<style></style>");
}

#[test]
fn scripts_are_put_at_the_end_of_pages() {
    assert_eq!(inject_before_end("<body>x</body></html>", "S"), "<body>xS</body></html>");
    assert_eq!(inject_before_end("<html>x</HTML>", "S"), "<html>xS</HTML>");
    assert_eq!(inject_before_end("<p>x</p>", "S"), "<p>x</p>S");
    assert_eq!(
        inject_before_end("<body>a</body><body>b</body>", "S"),
        "<body>a</body><body>bS</body>"
    );
    let page = inject_theme_and_sdk("<html><head></head><body>x</body></html>", "b{}", "my-app");
    assert_eq!(
        page,
        format!(
            "<html><head><style>b{{}}</style></head><body>x{}</body></html>",
            get_sdk_script("my-app")
        )
    );
}

#[test]
fn prompts_and_app_themes() {
    let system = system_prompt_message();
    assert_eq!(system.role, Role::User);
    assert!(system.content.contains("[[doc_tags: tag1, tag2, ...]]"));
    assert_eq!(system.created_at, None);
    assert!(system.tags.is_empty());
    let builder = app_builder_message();
    assert_eq!(builder.role, Role::User);
    assert!(builder.content.contains("[[app_tags: Tag1, Tag2]]"));
    assert!(app_theme_css(ThemeMode::Dark).contains("--bg: #000000;"));
    assert!(app_theme_css(ThemeMode::Light).contains("--bg: #ffffff;"));
    assert!(app_theme_css(ThemeMode::Octane).contains("--bg: #ff3509;"));
}
