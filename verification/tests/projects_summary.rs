//! Project CRUD and the summarization flow's pure parts.

use aihub::projects::create_project_entry;
use aihub::projects::delete_project;
use aihub::projects::ensure_active_project_id;
use aihub::projects::get_project;
use aihub::projects::list_projects;
use aihub::projects::save_summary_to_project;
use aihub::projects::update_project;
use aihub::projects::ProjectContext;
use aihub::sites::AppConfig;
use aihub::summary::accept_extracted_text;
use aihub::summary::accept_summary_content;
use aihub::summary::build_summary_prompt;
use aihub::summary::language_label;
use aihub::summary::prepare_summarize;
use aihub::strutil::replace_all;
use aihub::strutil::str_contains;
use aihub::strutil::trim_str;
use aihub::HubError;

fn sample_projects() -> Vec<ProjectContext> {
    let mut ps = Vec::new();
    create_project_entry(&mut ps, "Alpha", "proj_a", 100);
    create_project_entry(&mut ps, "Beta", "proj_b", 300);
    create_project_entry(&mut ps, "Gamma", "proj_c", 200);
    ps
}

#[test]
fn list_projects_sorts_newest_first() {
    let ps = sample_projects();
    let rows = list_projects(&ps);
    let ids: Vec<&str> = rows.iter().map(|r| r.id.as_str()).collect();
    assert_eq!(ids, vec!["proj_b", "proj_c", "proj_a"]);
    assert_eq!(rows[0].title, "Beta");
    assert_eq!(rows[0].updated_at, 300);
}

#[test]
fn get_project_finds_by_id() {
    let ps = sample_projects();
    let p = get_project(&ps, "proj_c").unwrap();
    assert_eq!(p.title, "Gamma");
    assert_eq!(get_project(&ps, "nope"), Err(HubError::NotFound));
}

#[test]
fn create_project_entry_defaults_blank_title() {
    let mut ps = Vec::new();
    create_project_entry(&mut ps, "   ", "proj_x", 42);
    assert_eq!(ps[0].title, "默认项目");
    assert_eq!(ps[0].created_at, 42);
    assert_eq!(ps[0].updated_at, 42);
    assert_eq!(ps[0].notes, "");
    assert_eq!(ps[0].summary, "");
}

#[test]
fn update_project_replaces_fields() {
    let mut ps = sample_projects();
    update_project(
        &mut ps,
        "proj_a",
        "  New Title ",
        "notes".to_string(),
        "sum".to_string(),
        999,
    )
    .unwrap();
    let p = get_project(&ps, "proj_a").unwrap();
    assert_eq!(p.title, "New Title");
    assert_eq!(p.notes, "notes");
    assert_eq!(p.summary, "sum");
    assert_eq!(p.created_at, 100);
    assert_eq!(p.updated_at, 999);
    // A blank title keeps the previous one.
    update_project(&mut ps, "proj_a", " ", String::new(), String::new(), 1000).unwrap();
    assert_eq!(get_project(&ps, "proj_a").unwrap().title, "New Title");
    assert_eq!(
        update_project(&mut ps, "nope", "t", String::new(), String::new(), 1),
        Err(HubError::NotFound)
    );
}

#[test]
fn delete_project_removes_and_reports_missing() {
    let mut ps = sample_projects();
    delete_project(&mut ps, "proj_b").unwrap();
    assert_eq!(ps.len(), 2);
    assert_eq!(delete_project(&mut ps, "proj_b"), Err(HubError::NotFound));
}

#[test]
fn ensure_active_project_prefers_configured_then_first() {
    let mut cfg = AppConfig::default();
    let mut ps = sample_projects();
    cfg.set_active_project("proj_c".to_string());
    assert_eq!(ensure_active_project_id(&mut cfg, &mut ps), "proj_c");
    cfg.set_active_project("  ".to_string());
    assert_eq!(ensure_active_project_id(&mut cfg, &mut ps), "proj_a");
    assert_eq!(cfg.active_project_id, "proj_a");
}

#[test]
fn ensure_active_project_creates_default_when_empty() {
    let mut cfg = AppConfig::default();
    let mut ps: Vec<ProjectContext> = Vec::new();
    let id = ensure_active_project_id(&mut cfg, &mut ps);
    assert!(id.starts_with("proj_"));
    assert_eq!(ps.len(), 1);
    assert_eq!(ps[0].id, id);
    assert_eq!(ps[0].title, "默认项目");
    assert_eq!(cfg.active_project_id, id);
}

#[test]
fn save_summary_updates_or_creates() {
    let mut ps = sample_projects();
    save_summary_to_project(&mut ps, "proj_a", "page text", "the summary", 777);
    let p = get_project(&ps, "proj_a").unwrap();
    assert_eq!(p.notes, "page text");
    assert_eq!(p.summary, "the summary");
    assert_eq!(p.updated_at, 777);
    // A vanished project is recreated with empty notes.
    save_summary_to_project(&mut ps, "proj_new", "ignored", "s2", 778);
    let q = get_project(&ps, "proj_new").unwrap();
    assert_eq!(q.title, "默认项目");
    assert_eq!(q.notes, "");
    assert_eq!(q.summary, "s2");
}

#[test]
fn language_labels() {
    assert_eq!(language_label("zh-CN"), "中文");
    assert_eq!(language_label("zh"), "中文");
    assert_eq!(language_label("en-GB"), "English");
    assert_eq!(language_label("ja-JP"), "日本語");
    assert_eq!(language_label("ko"), "한국어");
    assert_eq!(language_label("es-AR"), "Español");
    assert_eq!(language_label("fr-FR"), "Français");
    assert_eq!(language_label("tlh"), "English");
}

#[test]
fn build_summary_prompt_replaces_placeholders() {
    let p = build_summary_prompt("Say it in {language}: {text}", "English", "hello");
    assert_eq!(p, "Say it in English: hello");
}

#[test]
fn build_summary_prompt_appends_missing_placeholders() {
    let p = build_summary_prompt("Fixed template.", "English", "body");
    assert_eq!(p, "Fixed template.\n\nLanguage: English\n\nbody");
    let q = build_summary_prompt("Only {text} here.", "English", "body");
    assert_eq!(q, "Only body here.\n\nLanguage: English");
}

#[test]
fn build_summary_prompt_replaces_every_occurrence() {
    let p = build_summary_prompt("{text}+{text}", "x", "ab");
    assert_eq!(p, "ab+ab\n\nLanguage: x");
}

#[test]
fn prepare_summarize_requires_credentials() {
    let mut cfg = AppConfig::default();
    assert!(matches!(
        prepare_summarize(&cfg, "text", None),
        Err(HubError::InvalidArgument)
    ));
    cfg.set_ai_api_settings("", "", "key", None);
    assert!(matches!(
        prepare_summarize(&cfg, "text", None),
        Err(HubError::InvalidArgument)
    ));
}

#[test]
fn prepare_summarize_builds_endpoint_and_prompt() {
    let mut cfg = AppConfig::default();
    cfg.set_ai_api_settings("https://api.example.com/v1/", "gpt-x", "key", None);
    cfg.set_summary_prompt_template("T {language} {text}");
    cfg.set_language("en").unwrap();
    let req = prepare_summarize(&cfg, "body", None).unwrap();
    assert_eq!(req.url, "https://api.example.com/v1/chat/completions");
    assert_eq!(req.model, "gpt-x");
    assert_eq!(req.api_key, "key");
    assert_eq!(req.prompt, "T English body");
}

#[test]
fn prepare_summarize_prefers_site_override() {
    let mut cfg = AppConfig::default();
    cfg.set_ai_api_settings("", "m", "k", None);
    cfg.set_language("en").unwrap();
    let mut hub_cfg = cfg;
    // Give one site an override template.
    let mut hub = aihub::hub::HubState::new(hub_cfg);
    hub.update_site(
        "openai",
        "ChatGPT".to_string(),
        "https://chatgpt.com".to_string(),
        "openai".to_string(),
        Some("OV {text}".to_string()),
    )
    .unwrap();
    hub_cfg = hub.config;
    let req = prepare_summarize(&hub_cfg, "body", Some("openai")).unwrap();
    assert_eq!(req.prompt, "OV body\n\nLanguage: English");
    // Other sites still use the configured template.
    let other = prepare_summarize(&hub_cfg, "body", Some("doubao")).unwrap();
    assert!(other.prompt.contains("body"));
    assert!(!other.prompt.starts_with("OV"));
}

#[test]
fn accept_extracted_text_rejects_blank() {
    assert_eq!(
        accept_extracted_text("  \n ".to_string()),
        Err(HubError::ExtractionEmpty)
    );
    assert_eq!(accept_extracted_text("body".to_string()), Ok("body".to_string()));
}

#[test]
fn accept_summary_content_rejects_missing_or_blank() {
    assert_eq!(accept_summary_content(None), Err(HubError::UpstreamError));
    assert_eq!(
        accept_summary_content(Some("  ".to_string())),
        Err(HubError::UpstreamError)
    );
    assert_eq!(
        accept_summary_content(Some("ok".to_string())),
        Ok("ok".to_string())
    );
}

#[test]
fn extraction_script_embeds_ids_twice() {
    let s = aihub::extract::extraction_script("rid-1", "tok-2");
    assert_eq!(s.matches("rid-1").count(), 2);
    assert_eq!(s.matches("tok-2").count(), 2);
    assert!(s.contains("aihub_submit_page_text"));
    assert!(s.contains("document?.body?.innerText"));
}

#[test]
fn trim_handles_unicode_whitespace() {
    assert_eq!(trim_str("\u{3000} hi \u{00A0}"), "hi");
    assert_eq!(trim_str("   "), "");
    assert_eq!(trim_str("x"), "x");
}

#[test]
fn replace_all_is_left_to_right_non_overlapping() {
    assert_eq!(replace_all("aaa", "aa", "b"), "ba");
    assert_eq!(replace_all("abc", "z", "y"), "abc");
}

#[test]
fn str_contains_matches_substrings() {
    assert!(str_contains("hello world", "lo w"));
    assert!(!str_contains("hello", "world"));
    assert!(str_contains("hello", ""));
}
