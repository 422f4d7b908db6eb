use cosmic_widgets::shell::{document_action, gpu_action, DocumentAction, GpuAction};
use cosmic_widgets::{default_visible, DesktopWidgetConfig, LayerPolicy, SurfaceGroup, APP_ID};

#[test]
fn desktop_group_should_be_an_unanchored_overlay() {
    let group = SurfaceGroup::desktop();
    assert_eq!(group.edge, None);
    assert_eq!(group.policy, LayerPolicy::Overlay);
}

#[test]
fn desktop_widget_config_should_default_to_top_right_clock() {
    let config = DesktopWidgetConfig::default();
    assert_eq!((config.width, config.height, config.top, config.right), (320, 184, 72, 32));
    assert!(config.dark);
    assert!(default_visible());
    assert_eq!(APP_ID, "io.github.vynxc.CosmicWidgets");
}

#[test]
fn document_action_should_rebuild_only_when_needed() {
    let html = "<p>10:00</p>".to_string();
    let later = "<p>10:01</p>".to_string();
    assert_eq!(document_action(false, &html, &String::new()), DocumentAction::Create);
    assert_eq!(document_action(false, &html, &html), DocumentAction::Create);
    assert_eq!(document_action(true, &later, &html), DocumentAction::Replace);
    assert_eq!(document_action(true, &html, &html), DocumentAction::Keep);
}

#[test]
fn gpu_action_should_create_reconfigure_or_present() {
    assert_eq!(gpu_action(false, None, (640, 368)), GpuAction::Create);
    assert_eq!(gpu_action(false, Some((640, 368)), (640, 368)), GpuAction::Create);
    assert_eq!(gpu_action(true, None, (640, 368)), GpuAction::Reconfigure);
    assert_eq!(gpu_action(true, Some((320, 184)), (640, 368)), GpuAction::Reconfigure);
    assert_eq!(gpu_action(true, Some((640, 184)), (640, 368)), GpuAction::Reconfigure);
    assert_eq!(gpu_action(true, Some((640, 368)), (640, 368)), GpuAction::Present);
}
