//! Site registry and configuration commands.

use aihub::hub::HubState;
use aihub::sites::get_builtin_sites;
use aihub::sites::AppConfig;
use aihub::HubError;

#[test]
fn default_config_matches_builtins() {
    let cfg = AppConfig::default();
    assert_eq!(cfg.sites.len(), 4);
    assert_eq!(cfg.sites[0].id, "deepseek");
    assert_eq!(cfg.sites[1].id, "doubao");
    assert_eq!(cfg.sites[2].id, "openai");
    assert_eq!(cfg.sites[3].id, "qianwen");
    assert_eq!(
        cfg.site_order,
        vec!["deepseek", "doubao", "openai", "qianwen"]
    );
    assert_eq!(cfg.theme, "dark");
    assert_eq!(cfg.sidebar_width, 64);
    assert_eq!(cfg.sidebar_expanded_width, 180);
    assert_eq!(cfg.language, "zh-CN");
    assert_eq!(cfg.ai_api_base_url, "https://api.openai.com/v1");
}

#[test]
fn get_site_by_id_finds_first_match() {
    let cfg = AppConfig::default();
    let site = cfg.get_site_by_id("doubao").unwrap();
    assert_eq!(site.url, "https://www.doubao.com/chat/");
    assert!(site.builtin);
    assert_eq!(cfg.get_site_by_id("nope"), Err(HubError::NotFound));
}

#[test]
fn upsert_recent_dedupes_and_caps_at_ten() {
    let mut cfg = AppConfig::default();
    for i in 0..12 {
        cfg.upsert_recent_site(&format!("s{}", i));
    }
    assert_eq!(cfg.recent_site_ids.len(), 10);
    assert_eq!(cfg.recent_site_ids[0], "s11");
    cfg.upsert_recent_site("s5");
    assert_eq!(cfg.recent_site_ids[0], "s5");
    assert_eq!(cfg.recent_site_ids.len(), 10);
    assert_eq!(
        cfg.recent_site_ids.iter().filter(|s| s.as_str() == "s5").count(),
        1
    );
}

#[test]
fn first_site_id_excluding_priority() {
    let mut cfg = AppConfig::default();
    // Nothing pinned: display order decides, skipping the excluded site.
    assert_eq!(cfg.first_site_id_excluding("deepseek"), Some("doubao".to_string()));
    // A pinned site wins over display order.
    cfg.toggle_pin_site("qianwen", true).unwrap();
    assert_eq!(cfg.first_site_id_excluding("deepseek"), Some("qianwen".to_string()));
    // Excluding the pinned one falls back to display order again.
    assert_eq!(cfg.first_site_id_excluding("qianwen"), Some("deepseek".to_string()));
}

#[test]
fn first_site_id_excluding_none_when_nothing_remains() {
    let mut cfg = AppConfig::default();
    cfg.sites.truncate(1);
    cfg.site_order.truncate(1);
    assert_eq!(cfg.first_site_id_excluding("deepseek"), None);
}

#[test]
fn update_sites_order_sanitizes() {
    let mut cfg = AppConfig::default();
    cfg.update_sites_order(vec![
        "openai".to_string(),
        "ghost".to_string(),
        "openai".to_string(),
        "deepseek".to_string(),
    ]);
    assert_eq!(
        cfg.site_order,
        vec!["openai", "deepseek", "doubao", "qianwen"]
    );
}

#[test]
fn pinned_order_keeps_only_existing() {
    let mut cfg = AppConfig::default();
    cfg.update_pinned_sites_order(vec![
        "qianwen".to_string(),
        "ghost".to_string(),
        "qianwen".to_string(),
        "doubao".to_string(),
    ]);
    assert_eq!(cfg.pinned_site_ids, vec!["qianwen", "doubao"]);
}

#[test]
fn toggle_pin_site_front_and_unpin() {
    let mut cfg = AppConfig::default();
    cfg.toggle_pin_site("openai", true).unwrap();
    cfg.toggle_pin_site("doubao", true).unwrap();
    assert_eq!(cfg.pinned_site_ids, vec!["doubao", "openai"]);
    cfg.toggle_pin_site("openai", false).unwrap();
    assert_eq!(cfg.pinned_site_ids, vec!["doubao"]);
    assert_eq!(cfg.toggle_pin_site("ghost", true), Err(HubError::NotFound));
}

#[test]
fn clear_recent_sites_empties_list() {
    let mut cfg = AppConfig::default();
    cfg.upsert_recent_site("openai");
    cfg.clear_recent_sites();
    assert!(cfg.recent_site_ids.is_empty());
}

#[test]
fn get_ai_sites_orders_by_display_order() {
    let mut cfg = AppConfig::default();
    cfg.update_sites_order(vec!["qianwen".to_string(), "openai".to_string()]);
    let sites = cfg.get_ai_sites();
    let ids: Vec<&str> = sites.iter().map(|s| s.id.as_str()).collect();
    assert_eq!(ids, vec!["qianwen", "openai", "deepseek", "doubao"]);
}

#[test]
fn set_language_rejects_blank() {
    let mut cfg = AppConfig::default();
    assert_eq!(cfg.set_language("  \t"), Err(HubError::InvalidArgument));
    cfg.set_language("  en ").unwrap();
    assert_eq!(cfg.language, "en");
}

#[test]
fn set_summary_prompt_template_blank_restores_default() {
    let mut cfg = AppConfig::default();
    cfg.set_summary_prompt_template("  custom {text} ");
    assert_eq!(cfg.summary_prompt_template, "custom {text}");
    cfg.set_summary_prompt_template("   ");
    assert!(cfg.summary_prompt_template.contains("{language}"));
    assert!(cfg.summary_prompt_template.contains("{text}"));
}

#[test]
fn set_ai_api_settings_normalizes() {
    let mut cfg = AppConfig::default();
    cfg.set_ai_api_settings(" https://api.example.com/v1// ", " gpt ", "  ", None);
    assert_eq!(cfg.ai_api_base_url, "https://api.example.com/v1");
    assert_eq!(cfg.ai_api_model, "gpt");
    // A blank key without a clear request keeps the old key.
    assert_eq!(cfg.ai_api_key, "");
    cfg.set_ai_api_settings("", "m", " secret ", None);
    assert_eq!(cfg.ai_api_base_url, "https://api.openai.com/v1");
    assert_eq!(cfg.ai_api_key, "secret");
    cfg.set_ai_api_settings("", "m", "", Some(true));
    assert_eq!(cfg.ai_api_key, "");
}

#[test]
fn config_without_key_blanks_the_key() {
    let mut cfg = AppConfig::default();
    cfg.set_ai_api_settings("", "m", "secret", None);
    let public = cfg.config_without_key();
    assert_eq!(public.ai_api_key, "");
    assert_eq!(public.ai_api_model, "m");
    assert_eq!(public.sites.len(), 4);
}

#[test]
fn set_sidebar_width_migrates_expanded() {
    let mut hub = HubState::new(AppConfig::default());
    hub.set_sidebar_width(60);
    assert_eq!(hub.config.sidebar_width, 60);
    assert_eq!(hub.config.sidebar_expanded_width, 180);
    hub.set_sidebar_width(220);
    assert_eq!(hub.config.sidebar_expanded_width, 220);
}

#[test]
fn normalize_config_repairs_a_dirty_load() {
    let mut cfg = AppConfig::default();
    // Simulate a dirty persisted state.
    let dup = cfg.sites[0].clone();
    cfg.sites.push(dup);
    cfg.sites.remove(2); // drop openai from the registry
    cfg.site_order = vec![
        "ghost".to_string(),
        "doubao".to_string(),
        "doubao".to_string(),
    ];
    cfg.pinned_site_ids = vec!["ghost".to_string(), "doubao".to_string(), "doubao".to_string()];
    cfg.recent_site_ids = vec!["openai".to_string(), "ghost".to_string()];
    cfg.sidebar_width = 200;
    cfg.sidebar_expanded_width = 64;
    cfg.ai_api_base_url = "   ".to_string();
    cfg.normalize_config(&get_builtin_sites());
    // Duplicates dropped, the missing built-in restored.
    let ids: Vec<&str> = cfg.sites.iter().map(|s| s.id.as_str()).collect();
    assert_eq!(ids, vec!["deepseek", "doubao", "qianwen", "openai"]);
    // Order keeps the valid submissions and appends the rest.
    assert_eq!(
        cfg.site_order,
        vec!["doubao", "openai", "deepseek", "qianwen"]
    );
    assert_eq!(cfg.pinned_site_ids, vec!["doubao"]);
    assert_eq!(cfg.recent_site_ids, vec!["openai"]);
    assert_eq!(cfg.sidebar_expanded_width, 200);
    assert_eq!(cfg.ai_api_base_url, "https://api.openai.com/v1");
}

#[test]
fn reset_navigation_restores_builtin_order() {
    let mut cfg = AppConfig::default();
    let custom = cfg.add_site(
        "Custom".to_string(),
        "https://example.com".to_string(),
        "custom".to_string(),
    );
    cfg.update_sites_order(vec![custom.id.clone(), "qianwen".to_string()]);
    cfg.toggle_pin_site("qianwen", true).unwrap();
    cfg.upsert_recent_site("doubao");
    cfg.reset_navigation(&get_builtin_sites());
    assert!(cfg.pinned_site_ids.is_empty());
    assert!(cfg.recent_site_ids.is_empty());
    assert_eq!(
        cfg.site_order,
        vec![
            "deepseek".to_string(),
            "doubao".to_string(),
            "openai".to_string(),
            "qianwen".to_string(),
            custom.id.clone()
        ]
    );
}

#[test]
fn add_site_appends_custom_entry() {
    let mut cfg = AppConfig::default();
    let site = cfg.add_site(
        "My Site".to_string(),
        "https://example.com".to_string(),
        "icon".to_string(),
    );
    assert!(site.id.starts_with("custom_"));
    assert!(!site.builtin);
    assert_eq!(cfg.sites.len(), 5);
    assert_eq!(cfg.site_order.last().unwrap(), &site.id);
}

#[test]
fn update_site_url_change_tears_down_instances() {
    let mut hub = HubState::new(AppConfig::default());
    let aux = hub.create_tab("openai").unwrap();
    hub.commit_created("openai");
    hub.commit_created(&aux);
    hub.switch_view_commit("openai").unwrap();
    hub.switch_finish("openai");
    let closed = hub
        .update_site(
            "openai",
            "ChatGPT".to_string(),
            "https://chat.openai.com".to_string(),
            "openai".to_string(),
            None,
        )
        .unwrap();
    assert_eq!(closed, vec!["openai".to_string(), aux.clone()]);
    assert!(!hub.has_webview_record("openai"));
    assert_eq!(hub.current_view, "");
    assert_eq!(hub.active_tab_id, "");
    assert_eq!(
        hub.config.get_site_by_id("openai").unwrap().url,
        "https://chat.openai.com"
    );
}

#[test]
fn update_site_same_url_keeps_instances() {
    let mut hub = HubState::new(AppConfig::default());
    hub.commit_created("openai");
    let closed = hub
        .update_site(
            "openai",
            "Renamed".to_string(),
            "https://chatgpt.com".to_string(),
            "openai".to_string(),
            Some("override {text}".to_string()),
        )
        .unwrap();
    assert!(closed.is_empty());
    assert!(hub.has_webview_record("openai"));
    let site = hub.config.get_site_by_id("openai").unwrap();
    assert_eq!(site.name, "Renamed");
    assert_eq!(site.summary_prompt_override, "override {text}");
}

#[test]
fn remove_site_rejects_builtin_and_removes_custom() {
    let mut hub = HubState::new(AppConfig::default());
    assert_eq!(hub.remove_site("openai"), Err(HubError::InvalidArgument));
    let custom = hub.config.add_site(
        "X".to_string(),
        "https://x.example".to_string(),
        "x".to_string(),
    );
    let aux = hub.create_tab(&custom.id).unwrap();
    hub.commit_created(&aux);
    let closed = hub.remove_site(&custom.id).unwrap();
    assert_eq!(closed, vec![custom.id.clone(), aux.clone()]);
    assert_eq!(hub.config.get_site_by_id(&custom.id), Err(HubError::NotFound));
    assert_eq!(hub.get_tab_site_id(&aux), Err(HubError::NotFound));
    assert!(!hub.config.site_order.contains(&custom.id));
}
