//! Layout engine and broadcaster geometry.

use aihub::broadcast::visible_panes;
use aihub::broadcast::DirectiveAction;
use aihub::layout::calculate_webview_bounds;
use aihub::layout::clamp_ratio;
use aihub::layout::split_widths;
use aihub::layout::LayoutMode;
use aihub::layout::LayoutState;
use aihub::layout::Rect;
use aihub::sites::AppConfig;
use aihub::hub::HubState;
use aihub::HubError;

#[test]
fn clamp_ratio_stays_in_range() {
    assert_eq!(clamp_ratio(0), 200);
    assert_eq!(clamp_ratio(199), 200);
    assert_eq!(clamp_ratio(200), 200);
    assert_eq!(clamp_ratio(500), 500);
    assert_eq!(clamp_ratio(800), 800);
    assert_eq!(clamp_ratio(801), 800);
    assert_eq!(clamp_ratio(u32::MAX), 800);
}

#[test]
fn split_with_equal_tabs_is_rejected_and_state_kept() {
    let mut layout = LayoutState::default();
    let r = layout.to_split("a".to_string(), "a".to_string(), Some(300));
    assert_eq!(r, Err(HubError::InvalidArgument));
    assert_eq!(layout.mode, LayoutMode::Single);
    assert_eq!(layout.ratio, 500);
    assert!(layout.left_tab_id.is_none());
    assert!(layout.right_tab_id.is_none());
}

#[test]
fn content_rect_example() {
    // Window 1000x800 logical, sidebar 64, top bar 48.
    let r = calculate_webview_bounds(1000, 800, 64);
    assert_eq!(r, Rect { x: 64, y: 48, width: 936, height: 752 });
}

#[test]
fn content_rect_floors_at_minimum() {
    let r = calculate_webview_bounds(100, 100, 64);
    assert_eq!(r.width, 100);
    assert_eq!(r.height, 100);
    // Sidebar wider than the window still yields the floor.
    let r = calculate_webview_bounds(50, 500, 64);
    assert_eq!(r.width, 100);
}

#[test]
fn split_widths_even_example() {
    let (lw, rw) = split_widths(936, 500);
    assert_eq!(lw, 468);
    assert_eq!(rw, 468);
}

#[test]
fn split_widths_respect_floor() {
    // 30% of 120 is 36, floored to 100; the rest is 20, floored to 100.
    let (lw, rw) = split_widths(120, 300);
    assert_eq!(lw, 100);
    assert_eq!(rw, 100);
}

#[test]
fn split_panes_origins_example() {
    let mut layout = LayoutState::default();
    layout
        .to_split("a".to_string(), "b".to_string(), Some(500))
        .unwrap();
    let content = calculate_webview_bounds(1000, 800, 64);
    let panes = visible_panes(&layout, "", "", content);
    assert_eq!(panes.len(), 2);
    assert_eq!(panes[0].tab_id, "a");
    assert_eq!(panes[0].rect, Rect { x: 64, y: 48, width: 468, height: 752 });
    assert_eq!(panes[1].tab_id, "b");
    assert_eq!(panes[1].rect, Rect { x: 532, y: 48, width: 468, height: 752 });
}

#[test]
fn single_mode_shows_active_tab_full_content() {
    let layout = LayoutState::default();
    let content = calculate_webview_bounds(1000, 800, 64);
    let panes = visible_panes(&layout, "openai", "deepseek", content);
    assert_eq!(panes.len(), 1);
    assert_eq!(panes[0].tab_id, "openai");
    assert_eq!(panes[0].rect, content);
}

#[test]
fn single_mode_falls_back_to_current_view() {
    let layout = LayoutState::default();
    let content = calculate_webview_bounds(1000, 800, 64);
    let panes = visible_panes(&layout, "", "deepseek", content);
    assert_eq!(panes.len(), 1);
    assert_eq!(panes[0].tab_id, "deepseek");
}

#[test]
fn split_missing_slot_falls_back_to_current_view() {
    let layout = LayoutState {
        mode: LayoutMode::Split,
        ratio: 500,
        left_tab_id: Some("a".to_string()),
        right_tab_id: None,
    };
    let content = calculate_webview_bounds(1000, 800, 64);
    let panes = visible_panes(&layout, "active", "cur", content);
    assert_eq!(panes.len(), 1);
    assert_eq!(panes[0].tab_id, "cur");
    assert_eq!(panes[0].rect, content);
}

#[test]
fn split_without_ratio_keeps_previous() {
    let mut layout = LayoutState::default();
    layout
        .to_split("a".to_string(), "b".to_string(), Some(300))
        .unwrap();
    layout.to_single();
    assert_eq!(layout.ratio, 300);
    layout
        .to_split("a".to_string(), "b".to_string(), None)
        .unwrap();
    assert_eq!(layout.ratio, 300);
}

#[test]
fn directives_place_visible_and_hide_the_rest() {
    let mut hub = HubState::new(AppConfig::default());
    hub.switch_view_commit("openai").unwrap();
    hub.commit_created("openai");
    hub.commit_created("deepseek");
    let dirs = hub.compute_directives(1000, 800, true);
    assert_eq!(dirs.len(), 2);
    assert_eq!(dirs[0].tab_id, "openai");
    assert_eq!(dirs[0].label, "ai_openai");
    assert_eq!(
        dirs[0].action,
        DirectiveAction::Place { rect: Rect { x: 64, y: 48, width: 936, height: 752 }, show: true }
    );
    assert_eq!(dirs[1].tab_id, "deepseek");
    assert_eq!(dirs[1].action, DirectiveAction::Hide);
}

#[test]
fn geometry_only_pass_leaves_invisible_instances_alone() {
    let mut hub = HubState::new(AppConfig::default());
    hub.switch_view_commit("openai").unwrap();
    hub.commit_created("openai");
    hub.commit_created("deepseek");
    let dirs = hub.compute_directives(1000, 800, false);
    assert!(matches!(dirs[0].action, DirectiveAction::Place { show: false, .. }));
    assert_eq!(dirs[1].action, DirectiveAction::Leave);
}
