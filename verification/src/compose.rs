//! CPU half of the multi-layer frame compositor.
//!
//! The GPU renders two passes (background plus captured display, then the
//! cursor overlay) from uniform blocks and returns a row-padded image.
//! Everything the driver decides on the CPU lives here: the uniform
//! values for both passes, the cursor rotation, the padded-row geometry
//! that the graphics API's copy alignment forces, the cache policy for
//! the source texture, the double-buffered readback index, and the
//! conversions between padded and tightly packed pixel buffers.

use vstd::prelude::*;
use crate::fixed::FX_ONE;
use crate::fixed::fx_add;
use crate::fixed::fx_add_s;
use crate::fixed::clamp_s;
use crate::fixed::fx_clamp;
use crate::fixed::fx_div;
use crate::fixed::fx_divi;
use crate::fixed::fx_mul;
use crate::fixed::fx_mul_s;
use crate::fixed::fx_div_s;
use crate::fixed::fx_sqrt;
use crate::fixed::fx_sqrt_s;
use crate::fixed::fx_sub;
use crate::fixed::fx_sub_s;
use crate::fixed::sat64;
use crate::fixed::tdiv;
use crate::fixed::lemma_fx_div_zero;
use crate::fixed::lemma_mag_test;
use crate::spring::Vec2;

verus! {

/// Row alignment the graphics API demands of texture-to-buffer copies.
pub const COPY_BYTES_PER_ROW_ALIGNMENT: u32 = 256;

/// An RGBA color in fixed point.
#[derive(Clone, Copy, Debug, PartialEq, Eq, Structural)]
pub struct ColorFx {
    pub r: i64,
    pub g: i64,
    pub b: i64,
    pub a: i64,
}

/// Render parameters of the composite pass.
#[derive(Clone, Copy, Debug, PartialEq, Eq, Structural)]
pub struct CompositeConfig {
    pub output_width: u32,
    pub output_height: u32,
    pub corner_radius: i64,
    pub padding: i64,
    pub shadow_blur: i64,
    pub shadow_offset_y: i64,
    pub shadow_color: ColorFx,
    pub shadow_spread: i64,
}

impl Default for CompositeConfig {
    /// Full-HD output with soft corners and a mild drop shadow.
    fn default() -> (r: CompositeConfig)
        ensures
            r == (CompositeConfig {
                output_width: 1920u32,
                output_height: 1080u32,
                corner_radius: 12_000_000i64,
                padding: 80_000i64,
                shadow_blur: 40_000_000i64,
                shadow_offset_y: 20_000_000i64,
                shadow_color: ColorFx { r: 0i64, g: 0i64, b: 0i64, a: 500_000i64 },
                shadow_spread: 0i64,
            }),
    {
        CompositeConfig {
            output_width: 1920,
            output_height: 1080,
            corner_radius: 12_000_000,
            padding: 80_000,
            shadow_blur: 40_000_000,
            shadow_offset_y: 20_000_000,
            shadow_color: ColorFx { r: 0, g: 0, b: 0, a: 500_000 },
            shadow_spread: 0,
        }
    }
}

/// Background of the output frame: solid, linear gradient, radial
/// gradient, or image (0 to 3).
#[derive(Clone, Copy, Debug, PartialEq, Eq, Structural)]
pub struct BackgroundConfig {
    pub mode: u32,
    pub color_a: ColorFx,
    pub color_b: ColorFx,
    pub gradient_angle: i64,
    pub gradient_center: Vec2,
    pub gradient_radius: i64,
    pub image_blur: i64,
}

impl Default for BackgroundConfig {
    /// A dark solid background.
    fn default() -> (r: BackgroundConfig)
        ensures
            r == (BackgroundConfig {
                mode: 0u32,
                color_a: ColorFx { r: 100_000i64, g: 100_000i64, b: 150_000i64, a: FX_ONE },
                color_b: ColorFx { r: 200_000i64, g: 200_000i64, b: 300_000i64, a: FX_ONE },
                gradient_angle: 0i64,
                gradient_center: Vec2 { x: 500_000i64, y: 500_000i64 },
                gradient_radius: 700_000i64,
                image_blur: 0i64,
            }),
    {
        BackgroundConfig {
            mode: 0,
            color_a: ColorFx { r: 100_000, g: 100_000, b: 150_000, a: FX_ONE },
            color_b: ColorFx { r: 200_000, g: 200_000, b: 300_000, a: FX_ONE },
            gradient_angle: 0,
            gradient_center: Vec2 { x: 500_000, y: 500_000 },
            gradient_radius: 700_000,
            image_blur: 0,
        }
    }
}

/// Camera handed to the composite pass.
#[derive(Clone, Copy, Debug, PartialEq, Eq, Structural)]
pub struct ZoomState {
    pub x: i64,
    pub y: i64,
    pub scale: i64,
}

impl Default for ZoomState {
    /// Centered, unscaled.
    fn default() -> (r: ZoomState)
        ensures
            r == (ZoomState { x: 500_000i64, y: 500_000i64, scale: FX_ONE }),
    {
        ZoomState { x: 500_000, y: 500_000, scale: FX_ONE }
    }
}

/// Cursor handed to the overlay pass.
#[derive(Clone, Copy, Debug, PartialEq, Eq, Structural)]
pub struct CursorState {
    pub x: i64,
    pub y: i64,
    pub opacity: i64,
    /// Sprite size in pixels.
    pub size: i64,
    pub motion_blur: i64,
    pub velocity_x: i64,
    pub velocity_y: i64,
    /// 0 = no click, 1 = full click animation.
    pub click_progress: i64,
}

impl Default for CursorState {
    /// Centered, opaque, still.
    fn default() -> (r: CursorState)
        ensures
            r == (CursorState {
                x: 500_000i64,
                y: 500_000i64,
                opacity: FX_ONE,
                size: 24_000_000i64,
                motion_blur: 0i64,
                velocity_x: 0i64,
                velocity_y: 0i64,
                click_progress: 0i64,
            }),
    {
        CursorState {
            x: 500_000,
            y: 500_000,
            opacity: FX_ONE,
            size: 24_000_000,
            motion_blur: 0,
            velocity_x: 0,
            velocity_y: 0,
            click_progress: 0,
        }
    }
}

/// One captured frame: a raw RGBA8 buffer (row-major, `width * height *
/// 4` bytes when complete) with its capture timestamp. Produced by the
/// external capturer; the compositor only reads it.
#[derive(Clone, Debug)]
pub struct EncodedFrame {
    pub rgba_data: Vec<u8>,
    pub width: u32,
    pub height: u32,
    pub timestamp_ms: i64,
}

// ───────────────────────────────────────────────────────────────
// Uniform blocks
// ───────────────────────────────────────────────────────────────

/// Uniform block of the composite pass, field for field as the shader
/// reads it (the driver turns each scalar into a 32-bit float; the
/// `_pad0`, `_res0`, `_res1` slots only keep the 16-byte alignment).
#[derive(Clone, Copy, Debug, PartialEq, Eq, Structural)]
pub struct CompositeUniforms {
    pub camera_x: i64,
    pub camera_y: i64,
    pub camera_scale: i64,
    pub _pad0: i64,
    pub output_width: i64,
    pub output_height: i64,
    pub source_width: i64,
    pub source_height: i64,
    pub corner_radius: i64,
    pub padding: i64,
    pub shadow_blur: i64,
    pub shadow_offset_y: i64,
    pub shadow_color_r: i64,
    pub shadow_color_g: i64,
    pub shadow_color_b: i64,
    pub shadow_color_a: i64,
    pub shadow_spread: i64,
    pub bg_mode: i64,
    pub _res0: i64,
    pub _res1: i64,
    pub bg_color_a: ColorFx,
    pub bg_color_b: ColorFx,
    pub bg_gradient_angle: i64,
    pub bg_gradient_center_x: i64,
    pub bg_gradient_center_y: i64,
    pub bg_gradient_radius: i64,
    pub bg_image_blur: i64,
    pub bg_image_scale: i64,
    pub bg_image_offset_x: i64,
    pub bg_image_offset_y: i64,
    pub motion_vector_x: i64,
    pub motion_vector_y: i64,
    pub motion_blur_samples: i64,
    pub motion_blur_intensity: i64,
}

/// Fill the composite uniforms from the frame's inputs. The motion
/// vector is the cursor velocity scaled by its blur strength; without a
/// cursor the default (still) cursor is used.
pub fn build_composite_uniforms(
    config: &CompositeConfig,
    background: &BackgroundConfig,
    zoom: &ZoomState,
    cursor: Option<&CursorState>,
    out_w: u32,
    out_h: u32,
    source_width: u32,
    source_height: u32,
) -> (r: CompositeUniforms)
    ensures
        r.camera_x == zoom.x && r.camera_y == zoom.y && r.camera_scale == zoom.scale,
        r.output_width == (out_w as int) * (FX_ONE as int),
        r.output_height == (out_h as int) * (FX_ONE as int),
        r.source_width == (source_width as int) * (FX_ONE as int),
        r.source_height == (source_height as int) * (FX_ONE as int),
        r.corner_radius == config.corner_radius && r.padding == config.padding,
        r.shadow_blur == config.shadow_blur && r.shadow_offset_y == config.shadow_offset_y,
        r.shadow_color_r == config.shadow_color.r && r.shadow_color_g == config.shadow_color.g
            && r.shadow_color_b == config.shadow_color.b && r.shadow_color_a
            == config.shadow_color.a,
        r.shadow_spread == config.shadow_spread,
        r.bg_mode == (background.mode as int) * (FX_ONE as int),
        r.bg_color_a == background.color_a && r.bg_color_b == background.color_b,
        r.bg_gradient_angle == background.gradient_angle,
        r.bg_gradient_center_x == background.gradient_center.x,
        r.bg_gradient_center_y == background.gradient_center.y,
        r.bg_gradient_radius == background.gradient_radius,
        r.bg_image_blur == background.image_blur,
        r.bg_image_scale == FX_ONE && r.bg_image_offset_x == 0 && r.bg_image_offset_y == 0,
        r.motion_vector_x == (match cursor {
            Some(c) => fx_mul_s(c.velocity_x as int, c.motion_blur as int),
            None => 0int,
        }),
        r.motion_vector_y == (match cursor {
            Some(c) => fx_mul_s(c.velocity_y as int, c.motion_blur as int),
            None => 0int,
        }),
        r.motion_blur_samples == 24 * (FX_ONE as int),
        r.motion_blur_intensity == (match cursor {
            Some(c) => c.motion_blur as int,
            None => 0int,
        }),
        r._pad0 == 0 && r._res0 == 0 && r._res1 == 0,
{
    let cursor_state: CursorState = match cursor {
        Some(c) => *c,
        None => CursorState::default(),
    };
    proof {
        crate::fixed::lemma_fx_mul_zero(0);
    }
    CompositeUniforms {
        camera_x: zoom.x,
        camera_y: zoom.y,
        camera_scale: zoom.scale,
        _pad0: 0,
        output_width: (out_w as i64) * FX_ONE,
        output_height: (out_h as i64) * FX_ONE,
        source_width: (source_width as i64) * FX_ONE,
        source_height: (source_height as i64) * FX_ONE,
        corner_radius: config.corner_radius,
        padding: config.padding,
        shadow_blur: config.shadow_blur,
        shadow_offset_y: config.shadow_offset_y,
        shadow_color_r: config.shadow_color.r,
        shadow_color_g: config.shadow_color.g,
        shadow_color_b: config.shadow_color.b,
        shadow_color_a: config.shadow_color.a,
        shadow_spread: config.shadow_spread,
        bg_mode: (background.mode as i64) * FX_ONE,
        _res0: 0,
        _res1: 0,
        bg_color_a: background.color_a,
        bg_color_b: background.color_b,
        bg_gradient_angle: background.gradient_angle,
        bg_gradient_center_x: background.gradient_center.x,
        bg_gradient_center_y: background.gradient_center.y,
        bg_gradient_radius: background.gradient_radius,
        bg_image_blur: background.image_blur,
        bg_image_scale: FX_ONE,
        bg_image_offset_x: 0,
        bg_image_offset_y: 0,
        motion_vector_x: fx_mul(cursor_state.velocity_x, cursor_state.motion_blur),
        motion_vector_y: fx_mul(cursor_state.velocity_y, cursor_state.motion_blur),
        motion_blur_samples: 24 * FX_ONE,
        motion_blur_intensity: cursor_state.motion_blur,
    }
}

/// Uniform block of the cursor overlay pass.
#[derive(Clone, Copy, Debug, PartialEq, Eq, Structural)]
pub struct CursorUniforms {
    pub cursor_x: i64,
    pub cursor_y: i64,
    pub cursor_size: i64,
    pub cursor_opacity: i64,
    pub output_width: i64,
    pub output_height: i64,
    pub screen_width: i64,
    pub screen_height: i64,
    pub motion_blur_x: i64,
    pub motion_blur_y: i64,
    pub rotation: i64,
    pub click_progress: i64,
}

/// The cursor tilt as a value: zero below the speed floor, the clamp for
/// steep or leftward motion, and the four-term arctangent series of the
/// slope inside the clamp range.
pub open spec fn rotation_s(velocity_x: int, velocity_y: int) -> int {
    let speed2 = fx_add_s(
        fx_mul_s(velocity_x, velocity_x),
        fx_mul_s(velocity_y, velocity_y),
    );
    if fx_sqrt_s(speed2) <= 10_000 {
        0
    } else if velocity_x <= 0 {
        if velocity_y < 0 {
            -250_000
        } else {
            250_000
        }
    } else {
        let z = fx_div_s(velocity_y, velocity_x);
        if z > 255_342 {
            250_000
        } else if z < -255_342 {
            -250_000
        } else {
            let z2 = fx_mul_s(z, z);
            let z3 = fx_mul_s(z2, z);
            let z5 = fx_mul_s(z3, z2);
            let z7 = fx_mul_s(z5, z2);
            let angle = fx_add_s(
                fx_sub_s(z, sat64(tdiv(z3, 3))),
                fx_sub_s(sat64(tdiv(z5, 5)), sat64(tdiv(z7, 7))),
            );
            clamp_s(angle, -250_000, 250_000)
        }
    }
}

/// Tilt of the cursor sprite, derived from the velocity direction and
/// clamped to a quarter radian each way. Still cursors (speed at most
/// 0.01) do not tilt, and neither does one moving exactly rightward.
pub fn rotation_from_velocity(velocity_x: i64, velocity_y: i64) -> (r: i64)
    ensures
        r == rotation_s(velocity_x as int, velocity_y as int),
        -250_000 <= r <= 250_000,
        fx_add_s(
            fx_mul_s(velocity_x as int, velocity_x as int),
            fx_mul_s(velocity_y as int, velocity_y as int),
        ) * (FX_ONE as int) < 10_001 * 10_001 ==> r == 0,
        velocity_x > 0 && velocity_y == 0 ==> r == 0,
{
    let speed2: i64 = fx_add(
        fx_mul(velocity_x, velocity_x),
        fx_mul(velocity_y, velocity_y),
    );
    let speed: i64 = fx_sqrt(speed2);
    proof {
        lemma_mag_test(speed2 as int, speed as int, 10_001);
    }
    if speed <= 10_000 {
        return 0;
    }

    if velocity_x <= 0 {
        // The direction is at least a quarter turn off: fully clamped.
        if velocity_y < 0 {
            return -250_000;
        }
        return 250_000;
    }

    // tan(0.25) in fixed point: beyond it the clamp decides.
    let z: i64 = fx_div(velocity_y, velocity_x);
    if z > 255_342 {
        return 250_000;
    }
    if z < -255_342 {
        return -250_000;
    }

    proof {
        lemma_fx_div_zero(velocity_x as int);
    }

    // Arctangent series, accurate far inside this small range.
    let z2: i64 = fx_mul(z, z);
    let z3: i64 = fx_mul(z2, z);
    let z5: i64 = fx_mul(z3, z2);
    let z7: i64 = fx_mul(z5, z2);
    let angle: i64 = fx_add(
        fx_sub(z, fx_divi(z3, 3)),
        fx_sub(fx_divi(z5, 5), fx_divi(z7, 7)),
    );
    proof {
        if velocity_y == 0 {
            crate::fixed::lemma_fx_mul_zero(z as int);
            crate::fixed::lemma_fx_mul_zero(z2 as int);
        }
    }
    fx_clamp(angle, -250_000, 250_000)
}

/// Fill the cursor-pass uniforms: position, size, opacity, the motion
/// blur vector, the velocity-derived rotation, and the click progress.
pub fn build_cursor_uniforms(
    cursor: &CursorState,
    out_w: u32,
    out_h: u32,
    source_width: u32,
    source_height: u32,
) -> (r: CursorUniforms)
    ensures
        r.cursor_x == cursor.x && r.cursor_y == cursor.y,
        r.cursor_size == cursor.size && r.cursor_opacity == cursor.opacity,
        r.output_width == (out_w as int) * (FX_ONE as int),
        r.output_height == (out_h as int) * (FX_ONE as int),
        r.screen_width == (source_width as int) * (FX_ONE as int),
        r.screen_height == (source_height as int) * (FX_ONE as int),
        r.motion_blur_x == fx_mul_s(cursor.velocity_x as int, cursor.motion_blur as int),
        r.motion_blur_y == fx_mul_s(cursor.velocity_y as int, cursor.motion_blur as int),
        r.rotation == rotation_s(cursor.velocity_x as int, cursor.velocity_y as int),
        -250_000 <= r.rotation <= 250_000,
        r.click_progress == cursor.click_progress,
{
    CursorUniforms {
        cursor_x: cursor.x,
        cursor_y: cursor.y,
        cursor_size: cursor.size,
        cursor_opacity: cursor.opacity,
        output_width: (out_w as i64) * FX_ONE,
        output_height: (out_h as i64) * FX_ONE,
        screen_width: (source_width as i64) * FX_ONE,
        screen_height: (source_height as i64) * FX_ONE,
        motion_blur_x: fx_mul(cursor.velocity_x, cursor.motion_blur),
        motion_blur_y: fx_mul(cursor.velocity_y, cursor.motion_blur),
        rotation: rotation_from_velocity(cursor.velocity_x, cursor.velocity_y),
        click_progress: cursor.click_progress,
    }
}

// ───────────────────────────────────────────────────────────────
// Resource policy
// ───────────────────────────────────────────────────────────────

/// Whether the cached source texture must be recreated for an incoming
/// frame: the cached dimensions differ, or no texture exists yet.
pub fn source_texture_needs_recreate(
    cached_width: u32,
    cached_height: u32,
    has_texture: bool,
    width: u32,
    height: u32,
) -> (r: bool)
    ensures
        r == (cached_width != width || cached_height != height || !has_texture),
{
    cached_width != width || cached_height != height || !has_texture
}

/// Whether the output target must be rebuilt for a requested size.
pub fn needs_output_resize(current_width: u32, current_height: u32, width: u32, height: u32) -> (r:
    bool)
    ensures
        r == (current_width != width || current_height != height),
{
    current_width != width || current_height != height
}

/// The next slot of the double-buffered readback: the two buffers
/// alternate so a future frame can be submitted before the previous
/// readback resolves without reusing a buffer still being read.
pub fn advance_readback_index(index: usize) -> (r: usize)
    requires
        index < 2,
    ensures
        r < 2,
        r == (index + 1) % 2,
        r != index,
{
    if index == 0 {
        1
    } else {
        0
    }
}

// ───────────────────────────────────────────────────────────────
// Pixel buffer geometry
// ───────────────────────────────────────────────────────────────

/// Bytes per padded row: `width * 4` rounded up to the copy alignment.
pub open spec fn padded_bytes_per_row_s(width: int) -> int {
    ((width * 4 + 255) / 256) * 256
}

/// Bytes per padded output row, as the copy alignment demands.
pub fn padded_bytes_per_row(width: u32) -> (r: u32)
    requires
        width <= 1_073_741_760,
    ensures
        r == padded_bytes_per_row_s(width as int),
        r >= width * 4,
        r < width * 4 + 256,
{
    let unpadded: u32 = width * 4;
    let align: u32 = COPY_BYTES_PER_ROW_ALIGNMENT;
    (unpadded + (align - 1)) / align * align
}

/// Size of one padded readback buffer.
pub fn padded_buffer_size(width: u32, height: u32) -> (r: u64)
    requires
        width <= 1_073_741_760,
    ensures
        r == padded_bytes_per_row_s(width as int) * (height as int),
{
    let bpr: u32 = padded_bytes_per_row(width);
    proof {
        assert((bpr as int) * (height as int) <= 0xFFFF_FFFF * 0xFFFF_FFFF) by (nonlinear_arith)
            requires
                0 <= (bpr as int) <= 0xFFFF_FFFF,
                0 <= (height as int) <= 0xFFFF_FFFF;
    }
    (bpr as u64) * (height as u64)
}

/// Zero-pad (or truncate) a frame's bytes to the expected size. Shorter
/// frames are a defensive case, not an error: the tail is filled with
/// zeros.
pub fn pad_frame_to_size(data: &Vec<u8>, expected: usize) -> (r: Vec<u8>)
    ensures
        r@.len() == expected,
        forall|i: int|
            0 <= i < expected && i < data@.len() ==> #[trigger] r@[i] == data@[i],
        forall|i: int| data@.len() <= i < expected ==> #[trigger] r@[i] == 0,
{
    let mut out: Vec<u8> = Vec::new();
    let mut i: usize = 0;
    while i < expected
        invariant
            i <= expected,
            out@.len() == i,
            forall|k: int| 0 <= k < i && k < data@.len() ==> #[trigger] out@[k] == data@[k],
            forall|k: int| data@.len() <= k < i ==> #[trigger] out@[k] == 0,
        decreases expected - i,
    {
        if i < data.len() {
            out.push(data[i]);
        } else {
            out.push(0);
        }
        i = i + 1;
    }
    out
}

/// Strip the alignment padding from a readback buffer: copy each row's
/// first `width * 4` bytes into a tightly packed image. The result always
/// holds exactly `width * height * 4` bytes, whatever padded shape the
/// source buffer had.
pub fn strip_row_padding(data: &Vec<u8>, width: u32, height: u32) -> (r: Vec<u8>)
    requires
        width <= 1_073_741_760,
        padded_bytes_per_row_s(width as int) * (height as int) <= data@.len(),
        (width as int) * 4 * (height as int) <= usize::MAX,
    ensures
        r@.len() == (width as int) * 4 * (height as int),
        forall|i: int|
            0 <= i < r@.len() ==> #[trigger] r@[i] == data@[(i / ((width as int) * 4))
                * padded_bytes_per_row_s(width as int) + (i % ((width as int) * 4))],
{
    let unpadded_bpr: usize = (width as usize) * 4;
    let padded_bpr: usize = padded_bytes_per_row(width) as usize;
    let data_len: usize = data.len();

    let mut out: Vec<u8> = Vec::new();
    if unpadded_bpr == 0 {
        proof {
            assert((width as int) * 4 * (height as int) == 0) by (nonlinear_arith)
                requires
                    (width as int) == 0;
        }
        return out;
    }

    let mut row: usize = 0;
    while row < height as usize
        invariant
            row <= height as usize,
            0 < unpadded_bpr,
            unpadded_bpr == (width as int) * 4,
            padded_bpr == padded_bytes_per_row_s(width as int),
            unpadded_bpr <= padded_bpr,
            (padded_bpr as int) * (height as int) <= data@.len(),
            data@.len() == data_len as int,
            (unpadded_bpr as int) * (height as int) <= usize::MAX,
            out@.len() == (row as int) * (unpadded_bpr as int),
            forall|i: int|
                0 <= i < out@.len() ==> #[trigger] out@[i] == data@[(i / (unpadded_bpr as int))
                    * (padded_bpr as int) + (i % (unpadded_bpr as int))],
        decreases height as usize - row,
    {
        proof {
            assert((row as int) * (padded_bpr as int) + (padded_bpr as int) <= (height as int)
                * (padded_bpr as int)) by (nonlinear_arith)
                requires
                    0 <= (row as int) < (height as int),
                    0 <= (padded_bpr as int);
            assert((row as int) * (unpadded_bpr as int) + (unpadded_bpr as int) <= (height as int)
                * (unpadded_bpr as int)) by (nonlinear_arith)
                requires
                    0 <= (row as int) < (height as int),
                    0 <= (unpadded_bpr as int);
            assert((row as int) * (padded_bpr as int) >= 0) by (nonlinear_arith)
                requires
                    0 <= (row as int),
                    0 <= (padded_bpr as int);
        }
        let base: usize = row * padded_bpr;
        let mut col: usize = 0;
        while col < unpadded_bpr
            invariant
                col <= unpadded_bpr,
                0 < unpadded_bpr,
                unpadded_bpr <= padded_bpr,
                base == (row as int) * (padded_bpr as int),
                (base as int) + (unpadded_bpr as int) <= data@.len(),
                data@.len() == data_len as int,
                out@.len() == (row as int) * (unpadded_bpr as int) + col,
                (row as int) * (unpadded_bpr as int) + (unpadded_bpr as int) <= usize::MAX,
                0 <= (row as int),
                forall|i: int|
                    0 <= i < out@.len() ==> #[trigger] out@[i] == data@[(i / (unpadded_bpr
                        as int)) * (padded_bpr as int) + (i % (unpadded_bpr as int))],
            decreases unpadded_bpr - col,
        {
            out.push(data[base + col]);
            proof {
                let i: int = out@.len() - 1;
                vstd::arithmetic::div_mod::lemma_fundamental_div_mod_converse(
                    i,
                    unpadded_bpr as int,
                    row as int,
                    col as int,
                );
            }
            col = col + 1;
        }
        row = row + 1;
        proof {
            assert((((row as int) - 1) * (unpadded_bpr as int)) + (unpadded_bpr as int) == (row
                as int) * (unpadded_bpr as int)) by (nonlinear_arith);
        }
    }
    proof {
        assert((height as int) * ((width as int) * 4) == (width as int) * 4 * (height as int))
            by (nonlinear_arith);
    }
    out
}

} // verus!
