use cosmic_widgets::{CosmicTheme, RecordingRenderer, RendererError, SurfaceId};

type Recorder = RecordingRenderer<String, u64>;

#[test]
fn recording_renderer_should_reject_unknown_surface() {
    let mut renderer = Recorder::default();
    let result = renderer.render(SurfaceId(0));
    assert!(matches!(result, Err(RendererError::UnknownSurface(_))));
}

#[test]
fn recording_renderer_should_record_documents_and_patches_of_live_surfaces() {
    let mut renderer = Recorder::new();
    let surface = renderer.create_surface((320, 180));
    assert!(renderer.render(surface).is_ok());
    assert!(renderer.mount(surface, "<p>one</p>".to_string()).is_ok());
    assert!(renderer.patch(surface, vec![1, 2]).is_ok());
    assert!(renderer.patch(surface, vec![3]).is_ok());
    assert_eq!(renderer.patches, vec![1, 2, 3]);
    let stale = SurfaceId(surface.0.wrapping_add(1));
    assert!(matches!(renderer.patch(stale, vec![9]), Err(RendererError::UnknownSurface(s)) if s == stale));
    assert!(matches!(renderer.mount(stale, "x".to_string()), Err(RendererError::UnknownSurface(_))));
    assert_eq!(renderer.patches, vec![1, 2, 3]);
}

#[test]
fn destroyed_surfaces_should_become_unknown() {
    let mut renderer = Recorder::new();
    let first = renderer.create_surface((10, 10));
    let second = renderer.create_surface((10, 10));
    assert_ne!(first, second);
    assert!(renderer.destroy_surface(first).is_ok());
    assert!(matches!(renderer.destroy_surface(first), Err(RendererError::UnknownSurface(s)) if s == first));
    assert!(matches!(renderer.render(first), Err(RendererError::UnknownSurface(_))));
    assert!(renderer.render(second).is_ok());
}

#[test]
fn set_theme_should_store_the_theme_stylesheet() {
    let mut renderer = Recorder::new();
    let theme = CosmicTheme::default();
    assert!(renderer.set_theme(&theme).is_ok());
    assert_eq!(renderer.theme_css, theme.to_css());
    assert!(renderer.theme_css.contains("--cw-accent"));
}
