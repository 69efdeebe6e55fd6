//! Compositor CPU logic: padded-row geometry, frame padding and
//! unpadding, uniform construction, rotation, and the resource policy.

use drift::FX_ONE;
use drift::compose::BackgroundConfig;
use drift::compose::CompositeConfig;
use drift::compose::CursorState;
use drift::compose::ZoomState;
use drift::compose::advance_readback_index;
use drift::compose::build_composite_uniforms;
use drift::compose::build_cursor_uniforms;
use drift::compose::needs_output_resize;
use drift::compose::pad_frame_to_size;
use drift::compose::padded_buffer_size;
use drift::compose::padded_bytes_per_row;
use drift::compose::rotation_from_velocity;
use drift::compose::source_texture_needs_recreate;
use drift::compose::strip_row_padding;

fn fx(v: f64) -> i64 {
    (v * 1_000_000.0).round() as i64
}

#[test]
fn padded_rows_round_up_to_the_alignment() {
    assert_eq!(padded_bytes_per_row(1920), 7680); // already aligned
    assert_eq!(padded_bytes_per_row(100), 512); // 400 -> 512
    assert_eq!(padded_bytes_per_row(1), 256);
    assert_eq!(padded_buffer_size(100, 10), 5120);
}

#[test]
fn strip_row_padding_returns_exactly_the_packed_size() {
    // 3x2 image: 12 unpadded bytes per row, 256 padded.
    let width = 3u32;
    let height = 2u32;
    let padded = padded_bytes_per_row(width) as usize;
    let mut data = vec![0u8; padded * height as usize];
    for row in 0..height as usize {
        for col in 0..(width as usize) * 4 {
            data[row * padded + col] = (row * 100 + col) as u8;
        }
        // Poison the padding: it must not appear in the output.
        data[row * padded + (width as usize) * 4] = 0xEE;
    }

    let packed = strip_row_padding(&data, width, height);
    assert_eq!(packed.len(), (width * height * 4) as usize);
    for row in 0..height as usize {
        for col in 0..(width as usize) * 4 {
            assert_eq!(packed[row * (width as usize) * 4 + col], (row * 100 + col) as u8);
        }
    }
    assert!(!packed.contains(&0xEE));
}

#[test]
fn output_length_is_independent_of_the_source_dimensions() {
    // However large the padded source buffer is, the packed output is
    // width * height * 4.
    let width = 5u32;
    let height = 3u32;
    let padded = padded_bytes_per_row(width) as usize;
    let data = vec![7u8; padded * height as usize + 1000];
    let packed = strip_row_padding(&data, width, height);
    assert_eq!(packed.len(), (width * height * 4) as usize);
}

#[test]
fn short_frames_are_zero_padded() {
    let data = vec![9u8, 8, 7];
    let padded = pad_frame_to_size(&data, 8);
    assert_eq!(padded, vec![9, 8, 7, 0, 0, 0, 0, 0]);
    let truncated = pad_frame_to_size(&data, 2);
    assert_eq!(truncated, vec![9, 8]);
}

#[test]
fn readback_buffers_alternate() {
    assert_eq!(advance_readback_index(0), 1);
    assert_eq!(advance_readback_index(1), 0);
}

#[test]
fn source_cache_is_recreated_only_on_change() {
    assert!(!source_texture_needs_recreate(1920, 1080, true, 1920, 1080));
    assert!(source_texture_needs_recreate(1920, 1080, true, 1280, 720));
    assert!(source_texture_needs_recreate(1920, 1080, false, 1920, 1080));
    assert!(!needs_output_resize(800, 600, 800, 600));
    assert!(needs_output_resize(800, 600, 800, 601));
}

#[test]
fn composite_uniforms_carry_the_camera_and_motion() {
    let config = CompositeConfig::default();
    let background = BackgroundConfig::default();
    let zoom = ZoomState { x: fx(0.4), y: fx(0.6), scale: fx(1.5) };
    let cursor = CursorState {
        velocity_x: fx(2.0),
        velocity_y: fx(-1.0),
        motion_blur: fx(0.5),
        ..CursorState::default()
    };

    let u = build_composite_uniforms(&config, &background, &zoom, Some(&cursor), 1920, 1080, 1280, 720);
    assert_eq!(u.camera_x, fx(0.4));
    assert_eq!(u.camera_scale, fx(1.5));
    assert_eq!(u.output_width, 1920 * FX_ONE);
    assert_eq!(u.source_height, 720 * FX_ONE);
    assert_eq!(u.motion_vector_x, fx(1.0)); // 2.0 * 0.5
    assert_eq!(u.motion_vector_y, fx(-0.5));
    assert_eq!(u.motion_blur_samples, 24 * FX_ONE);

    let without = build_composite_uniforms(&config, &background, &zoom, None, 1920, 1080, 1280, 720);
    assert_eq!(without.motion_vector_x, 0);
    assert_eq!(without.motion_blur_intensity, 0);
}

#[test]
fn cursor_rotation_follows_the_velocity_direction() {
    // Still cursor: no tilt.
    assert_eq!(rotation_from_velocity(0, 0), 0);
    assert_eq!(rotation_from_velocity(fx(0.005), 0), 0);
    // Straight right: no tilt.
    assert_eq!(rotation_from_velocity(fx(1.0), 0), 0);
    // Steep directions clamp at a quarter radian.
    assert_eq!(rotation_from_velocity(0, fx(1.0)), fx(0.25));
    assert_eq!(rotation_from_velocity(0, -fx(1.0)), -fx(0.25));
    assert_eq!(rotation_from_velocity(-fx(1.0), 0), fx(0.25));
    // A shallow diagonal lands between: atan(0.1) is about 0.0997 rad.
    let r = rotation_from_velocity(fx(1.0), fx(0.1));
    assert!((r - 99_669).abs() < 200);
    // Symmetric downward.
    let r2 = rotation_from_velocity(fx(1.0), -fx(0.1));
    assert!((r + r2).abs() < 5);
}

#[test]
fn cursor_uniforms_carry_blur_and_click() {
    let cursor = CursorState {
        x: fx(0.3),
        y: fx(0.7),
        velocity_x: fx(1.0),
        velocity_y: fx(0.5),
        motion_blur: fx(0.2),
        click_progress: fx(0.9),
        ..CursorState::default()
    };
    let u = build_cursor_uniforms(&cursor, 1920, 1080, 1280, 720);
    assert_eq!(u.cursor_x, fx(0.3));
    assert_eq!(u.motion_blur_x, fx(0.2));
    assert_eq!(u.motion_blur_y, fx(0.1));
    assert_eq!(u.click_progress, fx(0.9));
    assert!(u.rotation.abs() <= fx(0.25));
}
