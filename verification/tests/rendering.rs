use pengui::draw::{text_index_buffer, DrawMode, TextureId};
use pengui::render::{DebugRendering, PolygonMode, TextureSource};

#[test]
fn index_buffer_of_text() {
    assert_eq!(text_index_buffer(0), Vec::<u32>::new());
    assert_eq!(text_index_buffer(1), vec![0, 1, 2, 1, 2, 3]);
    assert_eq!(
        text_index_buffer(3),
        vec![0, 1, 2, 1, 2, 3, 4, 5, 6, 5, 6, 7, 8, 9, 10, 9, 10, 11]
    );
    let big = text_index_buffer(1000);
    assert_eq!(big.len(), 6000);
    assert_eq!(&big[5994..], &[3996, 3997, 3998, 3997, 3998, 3999]);
}

#[test]
fn debug_rendering_cycles() {
    let mut d = DebugRendering::new();
    assert!(!d.is_enabled());
    assert_eq!(d.poly_mode(), PolygonMode::Fill);
    d.switch_debug_rendering();
    assert_eq!(d.poly_mode(), PolygonMode::Line);
    assert!(d.is_enabled());
    d.switch_debug_rendering();
    assert_eq!(d.poly_mode(), PolygonMode::Point);
    assert!(d.is_enabled());
    d.switch_debug_rendering();
    assert_eq!(d.poly_mode(), PolygonMode::Fill);
    assert!(!d.is_enabled());
}

#[test]
fn polygon_mode_follows_draw_mode_unless_debugging() {
    let mut d = DebugRendering::new();
    assert_eq!(d.polygon_mode(DrawMode::Triangles), PolygonMode::Fill);
    assert_eq!(d.polygon_mode(DrawMode::Lines), PolygonMode::Line);
    assert_eq!(d.polygon_mode(DrawMode::Points), PolygonMode::Point);
    d.switch_debug_rendering();
    assert_eq!(d.polygon_mode(DrawMode::Triangles), PolygonMode::Line);
    assert_eq!(d.polygon_mode(DrawMode::Points), PolygonMode::Line);
}

#[test]
fn texture_source_selection() {
    let mut d = DebugRendering::new();
    assert_eq!(d.texture_source(None), TextureSource::Blank);
    assert_eq!(d.texture_source(Some(TextureId::Texture(2))), TextureSource::Texture(2));
    assert_eq!(d.texture_source(Some(TextureId::Font(0))), TextureSource::Font(0));
    d.switch_debug_rendering();
    assert_eq!(d.texture_source(Some(TextureId::Texture(2))), TextureSource::Blank);
    assert_eq!(d.texture_source(Some(TextureId::Font(0))), TextureSource::Blank);
}
