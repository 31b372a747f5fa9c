use video_compositor::{BlendMode, Color, Compositor, Error, Layer, Transform};

fn opaque_fill(frame: &video_compositor::Frame, px: [u8; 4]) -> bool {
    frame.to_bytes().chunks(4).all(|c| c == px)
}

#[test]
fn test_compositor_creation() {
    let compositor = Compositor::new(1920, 1080).unwrap();
    assert_eq!(compositor.width(), 1920);
    assert_eq!(compositor.height(), 1080);
}

#[test]
fn test_invalid_dimensions() {
    assert!(Compositor::new(0, 1080).is_err());
    assert!(Compositor::new(1920, 0).is_err());
}

#[test]
fn invalid_dimensions_error_names_the_sizes() {
    match Compositor::new(0, 7) {
        Err(Error::InvalidDimensions(w, h)) => assert_eq!((w, h), (0, 7)),
        _ => panic!("expected InvalidDimensions"),
    }
    assert!(matches!(Compositor::new(0, 0), Err(Error::InvalidDimensions(0, 0))));
    assert!(Compositor::new(1, 1).is_ok());
    assert!(Compositor::new(u32::MAX, u32::MAX).is_ok());
}

#[test]
fn test_background_color() {
    let compositor = Compositor::new(100, 100).unwrap().with_background(Color::red());

    let frame = compositor.compose(&[]).unwrap();

    let pixel = frame.get_pixel(50, 50);
    assert_eq!(pixel[0], 255);
    assert_eq!(pixel[1], 0);
    assert_eq!(pixel[2], 0);
}

#[test]
fn empty_composition_is_background_everywhere() {
    let compositor = Compositor::new(100, 100).unwrap().with_background(Color::new(255, 0, 0, 255));
    let frame = compositor.compose(&[]).unwrap();
    assert_eq!(frame.size().width, 100);
    assert_eq!(frame.size().height, 100);
    assert_eq!(frame.to_bytes().len(), 100 * 100 * 4);
    assert!(opaque_fill(&frame, [255, 0, 0, 255]));
}

#[test]
fn background_without_alpha_is_transparent_black() {
    let compositor = Compositor::new(3, 2).unwrap().with_background(Color::new(9, 9, 9, 0));
    let frame = compositor.compose(&[]).unwrap();
    assert!(opaque_fill(&frame, [0, 0, 0, 0]));
}

#[test]
fn test_solid_color_layer() {
    let compositor = Compositor::new(100, 100).unwrap();

    let layers = vec![Layer::solid_color(Color::blue(), Transform::new().with_scale(1000))];

    let frame = compositor.compose(&layers).unwrap();

    let pixel = frame.get_pixel(50, 50);
    assert_eq!(pixel[2], 255);
}

#[test]
fn opaque_solid_layer_fills_every_pixel() {
    let compositor = Compositor::new(100, 100).unwrap();
    let layers = vec![Layer::solid_color(Color::blue(), Transform::new())];
    let frame = compositor.compose(&layers).unwrap();
    assert!(opaque_fill(&frame, [0, 0, 255, 255]));
}

#[test]
fn higher_z_index_paints_on_top_in_either_order() {
    let compositor = Compositor::new(20, 10).unwrap();
    let a = Layer::solid_color(Color::red(), Transform::new()).with_z_index(0);
    let b = Layer::solid_color(Color::green(), Transform::new()).with_z_index(1);
    let f1 = compositor.compose(&[a.clone(), b.clone()]).unwrap();
    let f2 = compositor.compose(&[b, a]).unwrap();
    assert!(opaque_fill(&f1, [0, 255, 0, 255]));
    assert!(opaque_fill(&f2, [0, 255, 0, 255]));
}

#[test]
fn equal_z_index_keeps_list_order() {
    let compositor = Compositor::new(4, 4).unwrap();
    let a = Layer::solid_color(Color::red(), Transform::new()).with_z_index(3);
    let b = Layer::solid_color(Color::green(), Transform::new()).with_z_index(3);
    let f = compositor.compose(&[a.clone(), b.clone()]).unwrap();
    assert!(opaque_fill(&f, [0, 255, 0, 255]));
    let list = [b.clone(), a.clone()];
    let order = compositor.paint_order(&list);
    assert_eq!(order.len(), 2);
    assert_eq!(order[0].id, b.id);
    assert_eq!(order[1].id, a.id);
}

#[test]
fn hidden_layer_contributes_nothing() {
    let compositor = Compositor::new(8, 8).unwrap().with_background(Color::white());
    let hidden = Layer::solid_color(Color::black(), Transform::new())
        .with_z_index(5)
        .with_blend_mode(BlendMode::Darken)
        .with_visible(false);
    let frame = compositor.compose(&[hidden.clone()]).unwrap();
    assert!(opaque_fill(&frame, [255, 255, 255, 255]));
    let list = [hidden];
    let order = compositor.paint_order(&list);
    assert!(order.is_empty());
}

#[test]
fn hidden_malformed_layer_does_not_fail() {
    let compositor = Compositor::new(2, 2).unwrap();
    let bad = Layer::image_data(vec![1, 2, 3], 2, 2, Transform::new()).with_visible(false);
    assert!(compositor.compose(&[bad]).is_ok());
}

#[test]
fn compose_batch_keeps_order_and_matches_compose() {
    let compositor = Compositor::new(5, 5).unwrap();
    let lists = vec![
        vec![Layer::solid_color(Color::red(), Transform::new())],
        vec![],
        vec![Layer::solid_color(Color::blue(), Transform::at(2000, 2000))],
    ];
    let frames = compositor.compose_batch(lists.clone()).unwrap();
    assert_eq!(frames.len(), 3);
    for (frame, layers) in frames.iter().zip(lists.iter()) {
        let single = compositor.compose(layers).unwrap();
        assert_eq!(frame.to_bytes(), single.to_bytes());
    }
    assert!(opaque_fill(&frames[0], [255, 0, 0, 255]));
    assert!(opaque_fill(&frames[1], [0, 0, 0, 0]));
}

#[test]
fn compose_batch_fails_on_first_error() {
    let compositor = Compositor::new(5, 5).unwrap();
    let lists = vec![
        vec![Layer::solid_color(Color::red(), Transform::new())],
        vec![Layer::image_data(vec![0; 7], 1, 1, Transform::new())],
    ];
    assert!(matches!(compositor.compose_batch(lists), Err(Error::InvalidLayer(_))));
    assert_eq!(compositor.compose_batch(vec![]).unwrap().len(), 0);
}

#[test]
fn malformed_pixel_data_is_invalid_layer() {
    let compositor = Compositor::new(4, 4).unwrap();
    let short = Layer::image_data(vec![255; 15], 2, 2, Transform::new());
    let long = Layer::image_data(vec![255; 17], 2, 2, Transform::new());
    assert!(matches!(compositor.compose(&[short]), Err(Error::InvalidLayer(_))));
    assert!(matches!(compositor.compose(&[long]), Err(Error::InvalidLayer(_))));
}

#[test]
fn unloaded_image_file_fails_with_io() {
    let compositor = Compositor::new(4, 4).unwrap();
    let layer = Layer::image("missing.png", Transform::new());
    match compositor.compose(&[layer]) {
        Err(Error::Io(path)) => assert_eq!(path, "missing.png"),
        _ => panic!("expected Io"),
    }
}

#[test]
fn oversized_resample_fails_with_render() {
    let compositor = Compositor::new(1, 1).unwrap();
    let layer = Layer::image_data(vec![255; 1000 * 1000 * 4], 1000, 1000, Transform::new().with_scale(i32::MAX));
    assert!(matches!(compositor.compose(&[layer]), Err(Error::Render(_))));
}

#[test]
fn pixels_outside_the_frame_are_dropped() {
    let compositor = Compositor::new(4, 4).unwrap();
    // A 3x3 opaque image placed at (2, -1): only its pixels landing in columns
    // 2..4 and rows 0..2 appear.
    let data: Vec<u8> = (0..9u8).flat_map(|i| [i * 10, 0, 0, 255]).collect();
    let layer = Layer::image_data(data, 3, 3, Transform::at(2000, -1000));
    let frame = compositor.compose(&[layer]).unwrap();
    for y in 0..4u32 {
        for x in 0..4u32 {
            let px = frame.get_pixel(x, y);
            let sx = x as i64 - 2;
            let sy = y as i64 + 1;
            if (0..3).contains(&sx) && (0..3).contains(&sy) {
                assert_eq!(px, [((sy * 3 + sx) * 10) as u8, 0, 0, 255]);
            } else {
                assert_eq!(px, [0, 0, 0, 0]);
            }
        }
    }
}

#[test]
fn solid_layer_scaled_and_placed() {
    let compositor = Compositor::new(10, 10).unwrap();
    // half size (5x5) at (2.9, 3.5) -> offset (2, 3)
    let layer = Layer::solid_color(Color::red(), Transform::at(2900, 3500).with_scale(500));
    let frame = compositor.compose(&[layer]).unwrap();
    for y in 0..10u32 {
        for x in 0..10u32 {
            let inside = (2..7).contains(&x) && (3..8).contains(&y);
            assert_eq!(frame.get_pixel(x, y), if inside { [255, 0, 0, 255] } else { [0, 0, 0, 0] });
        }
    }
}

#[test]
fn negative_position_truncates_toward_zero() {
    let compositor = Compositor::new(4, 1).unwrap();
    // -1.5 px truncates to -1: the 4-wide layer covers columns 0..3
    let layer = Layer::solid_color(Color::red(), Transform::at(-1500, 0));
    let frame = compositor.compose(&[layer]).unwrap();
    assert_eq!(frame.get_pixel(2, 0), [255, 0, 0, 255]);
    assert_eq!(frame.get_pixel(3, 0), [0, 0, 0, 0]);
}

#[test]
fn opacity_scales_layer_alpha() {
    let compositor = Compositor::new(2, 2).unwrap();
    // opacity 0.5 -> level 127; alpha 255 * 127 / 255 = 127
    let solid = Layer::solid_color(Color::blue(), Transform::new().with_opacity(500));
    let frame = compositor.compose(&[solid]).unwrap();
    assert_eq!(frame.get_pixel(0, 0), [0, 0, 255, 127]);

    let img = Layer::image_data(vec![0, 255, 0, 200], 1, 1, Transform::new().with_opacity(500));
    let frame = compositor.compose(&[img]).unwrap();
    // 200 * 127 / 255 = 99
    assert_eq!(frame.get_pixel(0, 0), [0, 255, 0, 99]);
    assert_eq!(frame.get_pixel(1, 1), [0, 0, 0, 0]);
}

#[test]
fn text_layer_draws_nothing() {
    let compositor = Compositor::new(3, 3).unwrap().with_background(Color::white());
    let text = Layer::text("hello".to_string(), 12000, Color::black(), Transform::new());
    let frame = compositor.compose(&[text]).unwrap();
    assert!(opaque_fill(&frame, [255, 255, 255, 255]));
}

#[test]
fn scaled_image_is_resampled_to_new_size() {
    let compositor = Compositor::new(10, 10).unwrap();
    let data: Vec<u8> = [255u8, 0, 0, 255].repeat(4);
    let layer = Layer::image_data(data, 2, 2, Transform::new().with_scale(2000));
    let frame = compositor.compose(&[layer]).unwrap();
    // The resampled image is 4x4: pixel (3, 3) is painted, (4, 4) is not.
    assert!(frame.get_pixel(3, 3)[3] > 0);
    assert!(frame.get_pixel(3, 3)[0] > 0);
    assert_eq!(frame.get_pixel(4, 4), [0, 0, 0, 0]);
    assert_eq!(frame.get_pixel(0, 4), [0, 0, 0, 0]);
}

#[test]
fn blend_image_at_clips_and_blends() {
    let compositor = Compositor::new(3, 3).unwrap();
    let mut dest = video_compositor::Raster { width: 3, height: 1, data: vec![100; 12] };
    let src = video_compositor::Raster { width: 2, height: 1, data: vec![0, 0, 0, 255, 50, 50, 50, 255] };
    compositor.blend_image_at(&mut dest, &src, 2, 0, BlendMode::Normal);
    assert_eq!(dest.data, vec![100, 100, 100, 100, 100, 100, 100, 100, 0, 0, 0, 255]);
    compositor.blend_image_at(&mut dest, &src, -1, 0, BlendMode::Lighten);
    assert_eq!(dest.data, vec![100, 100, 100, 255, 100, 100, 100, 100, 0, 0, 0, 255]);
}

#[test]
fn hidden_text_and_image_layers_draw_nothing() {
    let compositor = Compositor::new(2, 2).unwrap().with_background(Color::white());
    let text = Layer::text("x".to_string(), 1000, Color::black(), Transform::new()).with_visible(false);
    let file = Layer::image("absent.png", Transform::new()).with_visible(false);
    let frame = compositor.compose(&[text, file]).unwrap();
    assert!(opaque_fill(&frame, [255, 255, 255, 255]));
}
