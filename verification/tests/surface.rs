use cosmic_widgets::surface::{
    configured_size, select_alpha_mode, select_present_mode, select_surface_format,
    surface_extent, AlphaMode, FormatClass, PresentMode,
};
use cosmic_widgets::DesktopWidgetConfig;

#[test]
fn select_surface_format_should_prefer_linear_then_srgb_then_first() {
    assert_eq!(select_surface_format(&vec![FormatClass::Other, FormatClass::Srgb, FormatClass::LinearRgba8, FormatClass::LinearRgba8]), Some(2));
    assert_eq!(select_surface_format(&vec![FormatClass::Other, FormatClass::Srgb, FormatClass::Srgb]), Some(1));
    assert_eq!(select_surface_format(&vec![FormatClass::Other, FormatClass::Other]), Some(0));
    assert_eq!(select_surface_format(&vec![]), None);
}

#[test]
fn select_modes_should_prefer_premultiplied_and_mailbox() {
    assert_eq!(select_alpha_mode(&vec![AlphaMode::Opaque, AlphaMode::PreMultiplied]), AlphaMode::PreMultiplied);
    assert_eq!(select_alpha_mode(&vec![AlphaMode::Opaque, AlphaMode::Inherit]), AlphaMode::Auto);
    assert_eq!(select_present_mode(&vec![PresentMode::Fifo, PresentMode::Mailbox]), PresentMode::Mailbox);
    assert_eq!(select_present_mode(&vec![PresentMode::Immediate]), PresentMode::Fifo);
}

#[test]
fn sizes_should_never_collapse_to_zero() {
    assert_eq!(surface_extent(0, 7), (1, 7));
    assert_eq!(surface_extent(640, 0), (640, 1));
    let config = DesktopWidgetConfig::default();
    assert_eq!(configured_size(0, 0, config), (320, 184));
    assert_eq!(configured_size(400, 0, config), (400, 184));
    assert_eq!(configured_size(400, 300, config), (400, 300));
}
