//! Tab/site identity: resolution, auxiliary tab registration, labels and
//! storage directories.

use aihub::hub::HubState;
use aihub::ids::make_tab_id;
use aihub::ids::prefix_before_dash;
use aihub::ids::webview_label;
use aihub::sites::AppConfig;
use aihub::HubError;

fn fresh_hub() -> HubState {
    HubState::new(AppConfig::default())
}

#[test]
fn resolve_main_tab_identity() {
    let hub = fresh_hub();
    // A site id is its own main tab, with no auxiliary entry involved.
    assert_eq!(hub.get_tab_site_id("deepseek"), Ok("deepseek".to_string()));
    assert_eq!(hub.tab_site_map.entry_count(), 0);
}

#[test]
fn resolve_unknown_tab_fails() {
    let hub = fresh_hub();
    assert_eq!(hub.get_tab_site_id("nope"), Err(HubError::NotFound));
}

#[test]
fn create_tab_registers_auxiliary_mapping() {
    let mut hub = fresh_hub();
    let tab = hub.create_tab("openai").expect("site exists");
    assert!(tab.starts_with("openai_"));
    assert_eq!(hub.get_tab_site_id(&tab), Ok("openai".to_string()));
}

#[test]
fn create_tab_twice_distinct_ids() {
    let mut hub = fresh_hub();
    let t1 = hub.create_tab("openai").unwrap();
    let t2 = hub.create_tab("openai").unwrap();
    assert_ne!(t1, t2);
    assert_eq!(hub.get_tab_site_id(&t1), Ok("openai".to_string()));
    assert_eq!(hub.get_tab_site_id(&t2), Ok("openai".to_string()));
}

#[test]
fn create_tab_unknown_site_fails() {
    let mut hub = fresh_hub();
    assert_eq!(hub.create_tab("missing"), Err(HubError::NotFound));
}

#[test]
fn webview_label_shape() {
    assert_eq!(webview_label("deepseek"), "ai_deepseek");
    assert_eq!(make_tab_id("openai", "abc123"), "openai_abc123");
}

#[test]
fn prefix_before_dash_cuts_at_first_dash() {
    assert_eq!(prefix_before_dash("1234-56-78"), "1234");
    assert_eq!(prefix_before_dash("nodash"), "nodash");
    assert_eq!(prefix_before_dash("-lead"), "");
}

#[test]
fn uuid_wrapper_yields_hyphenated_form() {
    let u = aihub::ids::new_uuid_string();
    assert_eq!(u.chars().count(), 36);
    let short = prefix_before_dash(&u);
    assert!(!short.contains('-'));
}

#[test]
fn tab_data_dir_main_reuses_site_directory() {
    let segs = aihub::hub::get_tab_data_dir("openai", "openai");
    assert_eq!(segs, vec!["webviews".to_string(), "openai".to_string()]);
}

#[test]
fn tab_data_dir_auxiliary_is_isolated() {
    let segs = aihub::hub::get_tab_data_dir("openai", "openai_abc");
    assert_eq!(
        segs,
        vec![
            "webviews_tabs".to_string(),
            "openai".to_string(),
            "openai_abc".to_string()
        ]
    );
}

#[test]
fn tab_ids_for_site_lists_main_and_auxiliary() {
    let mut hub = fresh_hub();
    let t1 = hub.create_tab("openai").unwrap();
    let _other = hub.create_tab("doubao").unwrap();
    let ids = hub.tab_ids_for_site("openai");
    assert_eq!(ids, vec!["openai".to_string(), t1]);
}

#[test]
fn close_tab_webview_is_idempotent() {
    let mut hub = fresh_hub();
    let t1 = hub.create_tab("openai").unwrap();
    hub.close_tab_webview(&t1);
    assert_eq!(hub.get_tab_site_id(&t1), Err(HubError::NotFound));
    // Closing again changes nothing and does not fail.
    hub.close_tab_webview(&t1);
    assert_eq!(hub.tab_site_map.entry_count(), 0);
}

#[test]
fn error_messages_are_stable() {
    assert_eq!(HubError::NotAllowed.message(), "not allowed");
    assert_eq!(HubError::NotFound.message(), "not found");
    assert_eq!(HubError::InvalidArgument.message(), "invalid argument");
    assert_eq!(HubError::Busy.message(), "operation already in progress");
    assert_eq!(HubError::Timeout.message(), "timed out");
    assert_eq!(HubError::CreationFailed.message(), "webview creation failed");
    assert_eq!(HubError::IOError.message(), "persistence failed");
    assert_eq!(HubError::UpstreamError.message(), "summarization failed");
    assert_eq!(HubError::ExtractionEmpty.message(), "no page text extracted");
}
