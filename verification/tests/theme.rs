use cosmic_widgets::{CosmicTheme, ThemeMode};

#[test]
fn to_css_should_include_accent_token() {
    let css = CosmicTheme::default().to_css();
    assert!(css.contains("--cw-accent:#74b9ff"));
}

#[test]
fn to_css_should_render_every_token_in_order() {
    let mut theme = CosmicTheme::default();
    theme.mode = ThemeMode::Light;
    theme.radius_small = 0;
    theme.radius_medium = 7;
    theme.radius_large = 65535;
    assert_eq!(
        theme.to_css(),
        ":root{--cw-mode:light;--cw-bg:#18181b;--cw-surface:rgba(43, 43, 49, 0.92);--cw-surface-alt:rgba(58, 58, 66, 0.9);--cw-on-bg:#f3f3f5;--cw-on-surface:#f3f3f5;--cw-accent:#74b9ff;--cw-success:#57d39b;--cw-warning:#f6c177;--cw-destructive:#ff7b86;--cw-divider:rgba(255, 255, 255, 0.12);--cw-radius-sm:0px;--cw-radius-md:7px;--cw-radius-lg:65535px;--cw-space-1:4px;--cw-space-2:8px;--cw-space-3:12px;--cw-space-4:16px;--cw-space-6:24px;color-scheme:light;}"
    );
}

#[test]
fn default_theme_should_be_dark_and_frosted() {
    let theme = CosmicTheme::default();
    assert_eq!(theme.mode, ThemeMode::Dark);
    assert!(theme.frosted);
    assert!(!theme.high_contrast);
    assert_eq!((theme.radius_small, theme.radius_medium, theme.radius_large), (8, 12, 18));
    assert!(theme.to_css().ends_with("color-scheme:dark;}"));
}
