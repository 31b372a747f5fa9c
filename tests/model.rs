use video_compositor::{
    BlendMode, Color, ColorAdjustment, Frame, Layer, LayerContent, Point, Raster, Rect, Size, Transform,
};

#[test]
fn test_color_creation() {
    let color = Color::new(255, 128, 64, 200);
    assert_eq!(color.r, 255);
    assert_eq!(color.a, 200);
}

#[test]
fn named_colors() {
    assert_eq!(Color::transparent(), Color::new(0, 0, 0, 0));
    assert_eq!(Color::black(), Color::new(0, 0, 0, 255));
    assert_eq!(Color::white(), Color::new(255, 255, 255, 255));
    assert_eq!(Color::red(), Color::rgb(255, 0, 0));
    assert_eq!(Color::green(), Color::rgb(0, 255, 0));
    assert_eq!(Color::blue(), Color::rgb(0, 0, 255));
    assert_eq!(Color::new(1, 2, 3, 4).to_pixel(), [1, 2, 3, 4]);
}

#[test]
fn test_rect_contains() {
    let rect = Rect::new(10_000, 10_000, 100_000, 100_000);
    assert!(rect.contains(Point::new(50_000, 50_000)));
    assert!(!rect.contains(Point::new(5_000, 5_000)));
}

#[test]
fn rect_edges_and_intersection() {
    let rect = Rect::new(0, 0, 10, 10);
    assert!(rect.contains(Point::new(10, 10)));
    assert!(rect.intersects(&Rect::new(5, 5, 10, 10)));
    assert!(!rect.intersects(&Rect::new(10, 0, 5, 5)));
    let far = Rect::new(i32::MAX, i32::MAX, i32::MAX, i32::MAX);
    assert!(far.contains(Point::new(i32::MAX, i32::MAX)));
}

#[test]
fn size_and_point() {
    let s = Size::new(3, 4);
    assert_eq!((s.width, s.height), (3, 4));
    assert_eq!(Point::zero(), Point::new(0, 0));
}

#[test]
fn test_frame_creation() {
    let frame = Frame::new(1920, 1080);
    assert_eq!(frame.size().width, 1920);
    assert_eq!(frame.size().height, 1080);
}

#[test]
fn test_pixel_operations() {
    let mut frame = Frame::new(100, 100);
    frame.set_pixel(50, 50, [255, 0, 0, 255]);

    let pixel = frame.get_pixel(50, 50);
    assert_eq!(pixel, [255, 0, 0, 255]);
}

#[test]
fn set_pixel_touches_one_pixel() {
    let mut frame = Frame::new(3, 2);
    frame.set_pixel(2, 1, [1, 2, 3, 4]);
    let bytes = frame.to_bytes();
    assert_eq!(bytes.len(), 24);
    assert_eq!(&bytes[20..24], &[1, 2, 3, 4]);
    assert!(bytes[..20].iter().all(|b| *b == 0));
    assert_eq!(frame.image().width, 3);
    assert_eq!(frame.image().height, 2);
}

#[test]
fn test_layer_creation() {
    let layer = Layer::image("test.png", Transform::default());
    assert!(layer.visible);
    assert_eq!(layer.z_index, 0);
    assert_eq!(layer.blend_mode, BlendMode::Normal);
}

#[test]
fn test_layer_builder() {
    let layer = Layer::solid_color(Color::red(), Transform::default())
        .with_blend_mode(BlendMode::Multiply)
        .with_z_index(10)
        .with_visible(false);

    assert_eq!(layer.blend_mode, BlendMode::Multiply);
    assert_eq!(layer.z_index, 10);
    assert!(!layer.visible);
}

#[test]
fn layer_ids_are_fresh_uuids() {
    let a = Layer::solid_color(Color::red(), Transform::new());
    let b = Layer::solid_color(Color::red(), Transform::new());
    assert_eq!(a.id.len(), 36);
    assert_eq!(a.id.matches('-').count(), 4);
    assert_ne!(a.id, b.id);
}

#[test]
fn text_layer_defaults_to_arial() {
    let layer = Layer::text("hi".to_string(), 24_000, Color::white(), Transform::new());
    match layer.content {
        LayerContent::Text { text, font_size, font_family, .. } => {
            assert_eq!(text, "hi");
            assert_eq!(font_size, 24_000);
            assert_eq!(font_family, "Arial");
        }
        _ => panic!("expected text"),
    }
}

#[test]
fn load_image_checks_pixel_data() {
    let good = Layer::image_data(vec![7; 8], 2, 1, Transform::new());
    let img = good.load_image().unwrap().unwrap();
    assert_eq!((img.width, img.height, img.data.len()), (2, 1, 8));
    let bad = Layer::image_data(vec![7; 9], 2, 1, Transform::new());
    assert!(matches!(bad.load_image(), Err(video_compositor::Error::InvalidLayer(_))));
    assert!(bad.with_visible(false).load_image().unwrap().is_none());
    let solid = Layer::solid_color(Color::red(), Transform::new());
    assert!(solid.load_image().unwrap().is_none());
}

#[test]
fn test_default_transform() {
    let t = Transform::default();
    assert!(t.is_identity());
}

#[test]
fn test_builder_pattern() {
    let t = Transform::new()
        .with_position(100_000, 200_000)
        .with_scale(2_000)
        .with_rotation(45_000)
        .with_opacity(500);

    assert_eq!(t.position, Point::new(100_000, 200_000));
    assert_eq!(t.scale, Point::new(2_000, 2_000));
    assert_eq!(t.rotation, 45_000);
    assert_eq!(t.opacity, 500);
}

#[test]
fn test_opacity_clamping() {
    let t = Transform::new().with_opacity(1_500);
    assert_eq!(t.opacity, 1_000);

    let t = Transform::new().with_opacity(-500);
    assert_eq!(t.opacity, 0);
}

#[test]
fn transform_setters() {
    let t = Transform::at(5, 6);
    assert_eq!(t.position, Point::new(5, 6));
    assert!(!t.is_identity());
    let t = Transform::at_with_opacity(1, 2, 2_000);
    assert_eq!(t.opacity, 1_000);
    let t = Transform::new().with_scale_xy(500, 1_500).with_anchor(-3, 4_000);
    assert_eq!(t.scale, Point::new(500, 1_500));
    assert_eq!(t.anchor, Point::new(0, 1_000));
    assert_eq!(Transform::new().anchor, Point::new(500, 500));
    assert!(Transform::new().with_anchor(0, 0).is_identity());
}

fn grey_image(v: u8) -> Raster {
    Raster { width: 10, height: 10, data: [v, v, v, 255].repeat(100) }
}

#[test]
fn test_brightness() {
    let image = grey_image(100);
    let result = ColorAdjustment::Brightness { amount: 500 }.apply(&image);
    assert!(result.data[0] > 100);
}

#[test]
fn brightness_exact_and_clamped() {
    // +0.5 -> +127, -2.0 clamps to -1.0 -> -255
    assert_eq!(ColorAdjustment::Brightness { amount: 500 }.adjust_pixel([100, 200, 0, 9]), [227, 255, 127, 9]);
    assert_eq!(ColorAdjustment::Brightness { amount: -2000 }.adjust_pixel([100, 200, 255, 9]), [0, 0, 0, 9]);
    assert_eq!(ColorAdjustment::Brightness { amount: -1 }.adjust_pixel([100, 0, 255, 9]), [100, 0, 255, 9]);
}

#[test]
fn contrast_exact_values() {
    // factor 1.5: (200-128)*1.5+128 = 236; (50-128)*1.5+128 = 11
    assert_eq!(ColorAdjustment::Contrast { amount: 500 }.adjust_pixel([200, 50, 128, 1]), [236, 11, 128, 1]);
    // factor 0: everything to 128
    assert_eq!(ColorAdjustment::Contrast { amount: -1000 }.adjust_pixel([0, 255, 7, 1]), [128, 128, 128, 1]);
    // factor 6: results beyond the channel range clamp
    assert_eq!(ColorAdjustment::Contrast { amount: 5000 }.adjust_pixel([255, 0, 100, 1]), [255, 0, 0, 1]);
    // factor 3: (140 - 128) * 3 + 128 = 164
    assert_eq!(ColorAdjustment::Contrast { amount: 2000 }.adjust_pixel([140, 128, 129, 1]), [164, 128, 131, 1]);
    // factor max(0, 1 - 3) = 0
    assert_eq!(ColorAdjustment::Contrast { amount: -3000 }.adjust_pixel([0, 255, 7, 1]), [128, 128, 128, 1]);
}

#[test]
fn saturation_exact_values() {
    // full desaturation: luma of (255, 0, 0) is 76.245 -> 76
    assert_eq!(ColorAdjustment::Saturation { amount: -1000 }.adjust_pixel([255, 0, 0, 3]), [76, 76, 76, 3]);
    // unchanged at factor 1
    assert_eq!(ColorAdjustment::Saturation { amount: 0 }.adjust_pixel([10, 20, 30, 3]), [10, 20, 30, 3]);
    // factor 2: 76.245 + (255 - 76.245) * 2 = 433.755 -> 255; 76.245 - 76.245 * 2 < 0 -> 0
    assert_eq!(ColorAdjustment::Saturation { amount: 1000 }.adjust_pixel([255, 0, 0, 3]), [255, 0, 0, 3]);
    // factor -1 (no clamp on the amount): 76.245 - 178.755 < 0 -> 0; 76.245 + 76.245 = 152.49 -> 152
    assert_eq!(ColorAdjustment::Saturation { amount: -2000 }.adjust_pixel([255, 0, 0, 3]), [0, 152, 152, 3]);
}

#[test]
fn adjustment_keeps_size_and_alpha() {
    let image = Raster { width: 2, height: 1, data: vec![10, 20, 30, 40, 50, 60, 70, 80] };
    let out = ColorAdjustment::Brightness { amount: 100 }.apply(&image);
    // +0.1 -> +25
    assert_eq!(out.data, vec![35, 45, 55, 40, 75, 85, 95, 80]);
    assert_eq!((out.width, out.height), (2, 1));
}

#[test]
fn hue_rotation_exact_values() {
    let red = [255, 0, 0, 200];
    assert_eq!(ColorAdjustment::HueRotate { degrees: 120_000 }.adjust_pixel(red), [0, 255, 0, 200]);
    assert_eq!(ColorAdjustment::HueRotate { degrees: -120_000 }.adjust_pixel(red), [0, 0, 255, 200]);
    assert_eq!(ColorAdjustment::HueRotate { degrees: 0 }.adjust_pixel([200, 100, 50, 1]), [200, 100, 50, 1]);
    assert_eq!(ColorAdjustment::HueRotate { degrees: 360_000 }.adjust_pixel([200, 100, 50, 1]), [200, 100, 50, 1]);
    assert_eq!(ColorAdjustment::HueRotate { degrees: 90_000 }.adjust_pixel([77, 77, 77, 5]), [77, 77, 77, 5]);
    // the angle is taken modulo a full turn: -300 degrees is +60 degrees
    let px = [255, 100, 100, 1];
    assert_eq!(
        ColorAdjustment::HueRotate { degrees: -300_000 }.adjust_pixel(px),
        ColorAdjustment::HueRotate { degrees: 60_000 }.adjust_pixel(px)
    );
    assert_eq!(ColorAdjustment::HueRotate { degrees: -300_000 }.adjust_pixel(px)[2], 100);
}

#[test]
fn image_mut_edits_the_frame() {
    let mut frame = Frame::new(2, 1);
    frame.image_mut().data[4] = 9;
    assert_eq!(frame.get_pixel(1, 0), [9, 0, 0, 0]);
}
