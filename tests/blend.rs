use video_compositor::BlendMode;

#[test]
fn test_normal_blend() {
    let bottom = [255, 0, 0, 255]; // Red
    let top = [0, 255, 0, 128]; // Semi-transparent green

    let result = BlendMode::Normal.blend(bottom, top);

    assert!(result[0] > 0);
    assert!(result[1] > 0);
}

#[test]
fn test_multiply_blend() {
    let bottom = [255, 255, 255, 255]; // White
    let top = [128, 128, 128, 255]; // Gray

    let result = BlendMode::Multiply.blend(bottom, top);

    assert!(result[0] < 255);
    assert!(result[1] < 255);
    assert!(result[2] < 255);
}

#[test]
fn normal_blend_exact_values() {
    // coverage = 255*128 + 255*127 = 65025 -> alpha 255
    // red: (0 + 255*255*127) / 65025 = 127; green: 255*128*255 / 65025 = 128
    assert_eq!(BlendMode::Normal.blend([255, 0, 0, 255], [0, 255, 0, 128]), [127, 128, 0, 255]);
}

#[test]
fn normal_transparent_top_over_transparent_bottom_is_clear() {
    assert_eq!(BlendMode::Normal.blend([10, 20, 30, 0], [200, 100, 50, 0]), [0, 0, 0, 0]);
}

#[test]
fn normal_transparent_top_keeps_visible_bottom() {
    assert_eq!(BlendMode::Normal.blend([10, 20, 30, 40], [200, 100, 50, 0]), [10, 20, 30, 40]);
}

#[test]
fn normal_opaque_top_replaces_bottom() {
    assert_eq!(BlendMode::Normal.blend([10, 20, 30, 40], [200, 100, 50, 255]), [200, 100, 50, 255]);
}

#[test]
fn multiply_exact_values() {
    // 255*128*255 / 65025 = 128
    assert_eq!(BlendMode::Multiply.blend([255, 255, 255, 255], [128, 128, 128, 255]), [128, 128, 128, 255]);
}

#[test]
fn screen_exact_values() {
    // blended = 65025 - 127*127 = 48896 -> 48896*255/65025 = 191
    assert_eq!(BlendMode::Screen.blend([128, 0, 255, 255], [128, 128, 128, 255]), [191, 128, 255, 255]);
}

#[test]
fn overlay_switches_at_mid_grey() {
    // below: 2*100*200 = 40000 -> 156; at/above: 65025 - 2*127*55 = 51055 -> 200
    assert_eq!(BlendMode::Overlay.blend([100, 128, 0, 255], [200, 200, 0, 255]), [156, 200, 0, 255]);
}

#[test]
fn multiply_with_half_top_alpha_mixes_with_bottom() {
    // blended = 0; mix = (0*128 + 255*255*127) / 65025 = 127
    let r = BlendMode::Multiply.blend([255, 255, 255, 255], [0, 0, 0, 128]);
    assert_eq!(r, [127, 127, 127, 255]);
}

#[test]
fn add_subtract_lighten_darken_ignore_top_alpha_for_colour() {
    let bottom = [200, 100, 50, 255];
    let top = [100, 200, 50, 0];
    assert_eq!(BlendMode::Add.blend(bottom, top), [255, 255, 100, 255]);
    assert_eq!(BlendMode::Subtract.blend(bottom, top), [100, 0, 0, 255]);
    assert_eq!(BlendMode::Lighten.blend(bottom, top), [200, 200, 50, 255]);
    assert_eq!(BlendMode::Darken.blend(bottom, top), [100, 100, 50, 255]);
}

#[test]
fn default_mode_is_normal() {
    assert_eq!(BlendMode::default(), BlendMode::Normal);
}
