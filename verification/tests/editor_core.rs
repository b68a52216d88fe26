use image::GenericImage;
use image::GenericImageView;

use videoeditor::editor::{Editor, EditorMeta, Effect, Transform};
use videoeditor::fixed::lerp_milli;
use videoeditor::imgops::Frame;
use videoeditor::renderer::Renderer;

fn meta_640x360() -> EditorMeta {
    EditorMeta { width: 640, height: 360, fps_milli: 25000, duration_ms: 2000 }
}

fn solid_frame(width: u32, height: u32, rgb: [u8; 3]) -> Frame {
    let mut img = image::DynamicImage::new_rgb8(width, height);
    for x in 0..width {
        for y in 0..height {
            img.put_pixel(x, y, image::Rgba([rgb[0], rgb[1], rgb[2], 255]));
        }
    }
    Frame::from_image(img)
}

#[test]
fn frame_count_matches_formula() {
    let editor = Editor::new(640, 360, 2000, 25000);
    let renderer = Renderer::new(editor);
    assert_eq!(renderer.frame_count(), 50);
    let past_end = renderer.render_frame(50);
    assert!(matches!(past_end, Ok(None)));
    let last = renderer.render_frame(49);
    assert!(matches!(last, Ok(Some(_))));
}

#[test]
fn frame_count_truncates() {
    // 29.97 frames per second for 1.001 seconds is exactly 29.99997 frames
    let editor = Editor::new(640, 360, 1001, 29970);
    let renderer = Renderer::new(editor);
    assert_eq!(renderer.frame_count(), 29);
}

#[test]
fn transform_percent_resolution() {
    assert_eq!(Transform::percent(500, 500).calculate(640, 360), (320, 180));
    assert_eq!(Transform::percent(-500, 500).calculate(640, 360), (-320, 180));
    assert_eq!(Transform::percent(333, 333).calculate(10, 10), (3, 3));
}

#[test]
fn transform_px_resolution() {
    assert_eq!(Transform::px(10, -5).calculate(640, 360), (10, -5));
    assert_eq!(Transform::px(10, -5).calculate(1, 1), (10, -5));
}

#[test]
fn scale_to_base_forced_matches_canvas() {
    let meta = meta_640x360();
    let frame = solid_frame(100, 50, [10, 20, 30]);
    let mut t = Transform::px(0, 0);
    let out = Effect::ScaleToBase { force: true }.apply_video_effect(frame, 0, 1000, &mut t, &meta);
    assert_eq!((out.width(), out.height()), (640, 360));
    assert_eq!((out.buffer().width(), out.buffer().height()), (640, 360));
}

#[test]
fn scale_to_base_downsizes_keeping_aspect() {
    let meta = meta_640x360();
    let frame = solid_frame(1280, 720, [1, 2, 3]);
    let mut t = Transform::px(0, 0);
    let out = Effect::ScaleToBase { force: false }.apply_video_effect(
        frame,
        0,
        1000,
        &mut t,
        &meta,
    );
    assert_eq!((out.width(), out.height()), (640, 360));
}

#[test]
fn scale_to_base_leaves_small_frames() {
    let meta = meta_640x360();
    let frame = solid_frame(100, 50, [9, 9, 9]);
    let original = frame.duplicate();
    let mut t = Transform::px(0, 0);
    let out = Effect::ScaleToBase { force: false }.apply_video_effect(
        frame,
        0,
        1000,
        &mut t,
        &meta,
    );
    assert_eq!((out.width(), out.height()), (100, 50));
    assert!(out.buffer() == original.buffer());
}

#[test]
fn scale_effect_multiplies_dimensions() {
    let meta = meta_640x360();
    let frame = solid_frame(100, 50, [0, 0, 0]);
    let mut t = Transform::px(0, 0);
    let out = Effect::Scale { x: 1500, y: 500 }.apply_video_effect(frame, 0, 1000, &mut t, &meta);
    assert_eq!((out.width(), out.height()), (150, 25));
}

#[test]
fn scale_over_time_interpolates_and_extrapolates() {
    let meta = meta_640x360();
    let mut t = Transform::px(0, 0);
    let e = Effect::ScaleOverTime { x0: 1000, y0: 1000, x1: 2000, y1: 2000 };
    let at_end = e.apply_video_effect(solid_frame(100, 50, [0, 0, 0]), 1000, 1000, &mut t, &meta);
    assert_eq!((at_end.width(), at_end.height()), (200, 100));
    let beyond = e.apply_video_effect(solid_frame(100, 50, [0, 0, 0]), 2000, 1000, &mut t, &meta);
    assert_eq!((beyond.width(), beyond.height()), (300, 150));
}

#[test]
fn rotate_over_time_angle_endpoints_and_midpoint() {
    // interpolated rotation from 0 to pi: 0 at the start, pi/2 halfway,
    // pi at the end, in thousandths of a radian
    assert_eq!(lerp_milli(0, 3142, 0, 1000), 0);
    assert_eq!(lerp_milli(0, 3142, 500, 1000), 1571);
    assert_eq!(lerp_milli(0, 3142, 1000, 1000), 3142);
}

#[test]
fn rotate_keeps_dimensions_and_moves_pixels() {
    let meta = meta_640x360();
    let mut img = image::DynamicImage::new_rgb8(20, 10);
    img.put_pixel(0, 0, image::Rgba([255, 0, 0, 255]));
    let frame = Frame::from_image(img);
    let original = frame.duplicate();
    let mut t = Transform::px(0, 0);
    let out = Effect::Rotate { angle: 3142, uncropped: false }.apply_video_effect(
        frame,
        0,
        1000,
        &mut t,
        &meta,
    );
    assert_eq!((out.width(), out.height()), (20, 10));
    assert!(out.buffer() != original.buffer());
}

#[test]
fn rotate_uncropped_pads_canvas() {
    let meta = meta_640x360();
    let frame = solid_frame(100, 50, [0, 0, 0]);
    let mut t = Transform::px(0, 0);
    let out = Effect::Rotate { angle: 785, uncropped: true }.apply_video_effect(
        frame,
        0,
        1000,
        &mut t,
        &meta,
    );
    // both padded sides bound the content turned by the reference angle:
    // (100 + 50) * 7072 / 10000
    assert_eq!((out.width(), out.height()), (106, 106));
}

#[test]
fn move_px_rewrites_transform_only() {
    let meta = meta_640x360();
    let frame = solid_frame(10, 10, [5, 5, 5]);
    let original = frame.duplicate();
    let mut t = Transform::px(10, 20);
    let out = Effect::MovePx { x: 100, y: -40 }.apply_video_effect(frame, 500, 1000, &mut t, &meta);
    assert_eq!(t.calculate(640, 360), (60, 0));
    assert!(out.buffer() == original.buffer());
}

#[test]
fn audio_gain_is_video_noop() {
    let meta = meta_640x360();
    let frame = solid_frame(10, 10, [5, 5, 5]);
    let original = frame.duplicate();
    let mut t = Transform::px(1, 2);
    let out = Effect::AudioGain { gain: 500 }.apply_video_effect(frame, 0, 1000, &mut t, &meta);
    assert!(out.buffer() == original.buffer());
    assert_eq!(t.calculate(640, 360), (1, 2));
}
