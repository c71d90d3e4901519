use lightmap2d::compositor::{get_lightmap, plan_frame, Lightmap};
use lightmap2d::point::Point;
use lightmap2d::shadow::build_shadow_geometry;
use lightmap2d::transform::Transform2;
use lightmap2d::types::{LightData, OcclusionData, RenderError, Rgb};
use lightmap2d::viewport::{compute_viewport, WindowInfo};

fn window_100() -> WindowInfo {
    WindowInfo { width_px: 100, height_px: 100, world_extents: Point::new(100, 100) }
}

fn red_light(x: i64, y: i64, intensity: i64) -> LightData {
    LightData { pos: Point::new(x, y), intensity, color: Rgb { r: 1000, g: 0, b: 0 } }
}

fn blue_light(x: i64, y: i64, intensity: i64) -> LightData {
    LightData { pos: Point::new(x, y), intensity, color: Rgb { r: 0, g: 0, b: 1000 } }
}

fn wall(visibility: i64) -> OcclusionData {
    OcclusionData { start: Point::new(10, -10), end: Point::new(10, 10), visibility }
}

fn pixel(lm: &Lightmap, x: u32, y: u32) -> (u8, u8, u8, u8) {
    let i = (4 * (y * lm.width_px + x)) as usize;
    (lm.pixels[i], lm.pixels[i + 1], lm.pixels[i + 2], lm.pixels[i + 3])
}

#[test]
fn zero_lights_give_the_documented_baseline() {
    let lm = get_lightmap(Some(&window_100()), &vec![], &vec![], &Transform2::identity())
        .unwrap();
    assert_eq!(lm.pixels.len(), 4 * 100 * 100);
    for p in 0..(100 * 100) {
        let i = 4 * p;
        assert_eq!(lm.pixels[i..i + 4], [0, 0, 0, 255]);
    }
}

#[test]
fn one_light_no_occluders_fills_uniformly_with_the_additive_formula() {
    // colour 1000 (full red) at intensity 300 (0.3 of a whole unit), no
    // shadow: every channel byte is 1000 * 300 * 1000 * 255 / 1000^3 = 76
    let lights = vec![red_light(0, 0, 300)];
    let lm = get_lightmap(Some(&window_100()), &lights, &vec![], &Transform2::identity())
        .unwrap();
    assert_eq!(pixel(&lm, 50, 50), (76, 0, 0, 255));
    for p in 0..(100 * 100) {
        let i = 4 * p;
        assert_eq!(lm.pixels[i..i + 4], [76, 0, 0, 255]);
    }
}

#[test]
fn brightness_scales_monotonically_with_intensity() {
    let dim = get_lightmap(
        Some(&window_100()),
        &vec![red_light(0, 0, 300)],
        &vec![],
        &Transform2::identity(),
    )
    .unwrap();
    let bright = get_lightmap(
        Some(&window_100()),
        &vec![red_light(0, 0, 600)],
        &vec![],
        &Transform2::identity(),
    )
    .unwrap();
    assert_eq!(pixel(&dim, 50, 50).0, 76);
    assert_eq!(pixel(&bright, 50, 50).0, 153);
    assert!(pixel(&bright, 50, 50).0 > pixel(&dim, 50, 50).0);
}

#[test]
fn rendering_twice_is_byte_identical() {
    let lights = vec![red_light(-40, 0, 300), blue_light(40, 0, 500)];
    let occs = vec![wall(800)];
    let first = get_lightmap(Some(&window_100()), &lights, &occs, &Transform2::identity())
        .unwrap();
    let second = get_lightmap(Some(&window_100()), &lights, &occs, &Transform2::identity())
        .unwrap();
    assert_eq!(first.pixels, second.pixels);
}

#[test]
fn zero_visibility_occluders_never_darken() {
    let lights = vec![red_light(-40, 0, 300)];
    let with_clear_wall = get_lightmap(
        Some(&window_100()),
        &lights,
        &vec![wall(0)],
        &Transform2::identity(),
    )
    .unwrap();
    let without = get_lightmap(Some(&window_100()), &lights, &vec![], &Transform2::identity())
        .unwrap();
    assert_eq!(with_clear_wall.pixels, without.pixels);
}

#[test]
fn opaque_occluder_fully_attenuates_shadowed_pixels() {
    let lights = vec![red_light(-40, 0, 300)];
    let shadowed = get_lightmap(
        Some(&window_100()),
        &lights,
        &vec![wall(1000)],
        &Transform2::identity(),
    )
    .unwrap();
    // a pixel behind the wall as seen from the light is fully dark
    assert_eq!(pixel(&shadowed, 74, 49), (0, 0, 0, 255));
    // a pixel on the lit side keeps the full contribution
    assert_eq!(pixel(&shadowed, 10, 49), (76, 0, 0, 255));
}

#[test]
fn half_opaque_occluder_attenuates_proportionally() {
    let lights = vec![red_light(-40, 0, 300)];
    let lm = get_lightmap(
        Some(&window_100()),
        &lights,
        &vec![wall(500)],
        &Transform2::identity(),
    )
    .unwrap();
    // the wall transmits half: 1000 * 300 * 500 * 255 / 1000^3 = 38
    assert_eq!(pixel(&lm, 74, 49), (38, 0, 0, 255));
    assert_eq!(pixel(&lm, 10, 49), (76, 0, 0, 255));
}

#[test]
fn fully_offscreen_occluder_casts_no_geometry() {
    let vp = compute_viewport(&window_100(), &Transform2::identity()).unwrap();
    let light = red_light(300, 0, 300);
    // both endpoint rays from the light run past the box
    let far_wall = OcclusionData {
        start: Point::new(301, 100),
        end: Point::new(301, -100),
        visibility: 1000,
    };
    assert_eq!(build_shadow_geometry(&light, &vec![far_wall], &vp).len(), 0);
    // one endpoint ray crossing the box keeps the occluder
    let near_wall = OcclusionData {
        start: Point::new(200, 10),
        end: Point::new(200, -10),
        visibility: 1000,
    };
    assert_eq!(build_shadow_geometry(&light, &vec![near_wall], &vp).len(), 6);
}

#[test]
fn occluder_collinear_with_light_is_harmless() {
    // a zero-length occluder sitting exactly on the light: degenerate rays
    // and a degenerate skirt, still a well-formed frame
    let lights = vec![red_light(-40, 0, 300)];
    let degenerate = OcclusionData {
        start: Point::new(-40, 0),
        end: Point::new(-40, 0),
        visibility: 1000,
    };
    let lm = get_lightmap(
        Some(&window_100()),
        &lights,
        &vec![degenerate],
        &Transform2::identity(),
    )
    .unwrap();
    assert_eq!(lm.pixels.len(), 4 * 100 * 100);
    assert_eq!(pixel(&lm, 10, 49), (76, 0, 0, 255));
}

#[test]
fn permuting_lights_leaves_the_lightmap_unchanged() {
    let a = red_light(-40, 0, 300);
    let b = blue_light(40, 0, 500);
    let occs = vec![wall(700)];
    let first = get_lightmap(Some(&window_100()), &vec![a, b], &occs, &Transform2::identity())
        .unwrap();
    let second = get_lightmap(Some(&window_100()), &vec![b, a], &occs, &Transform2::identity())
        .unwrap();
    assert_eq!(first.pixels, second.pixels);
}

#[test]
fn frame_plan_sets_clear_and_last_flags_positionally() {
    let vp = compute_viewport(&window_100(), &Transform2::identity()).unwrap();
    let lights = vec![red_light(-40, 0, 300), blue_light(40, 0, 500)];
    let plan = plan_frame(&lights, &vec![wall(1000)], &vp);
    assert_eq!(plan.passes.len(), 2);
    assert!(plan.passes[0].clear_base);
    assert!(!plan.passes[1].clear_base);
    assert!(!plan.passes[0].uniform.is_last);
    assert!(plan.passes[1].uniform.is_last);
    assert_eq!(plan.passes[1].uniform.intensity, 500);
    assert_eq!(plan.bytes_per_row, 400);
    assert_eq!(plan.buffer_size, 4 * 100 * 100);
}

#[test]
fn missing_window_is_a_configuration_error() {
    let r = get_lightmap(None, &vec![], &vec![], &Transform2::identity());
    assert_eq!(r.unwrap_err(), RenderError::Configuration);
}

#[test]
fn out_of_range_inputs_are_configuration_errors() {
    let bad_light = LightData {
        pos: Point::new(0, 0),
        intensity: -1,
        color: Rgb { r: 1000, g: 0, b: 0 },
    };
    let r = get_lightmap(
        Some(&window_100()),
        &vec![bad_light],
        &vec![],
        &Transform2::identity(),
    );
    assert_eq!(r.unwrap_err(), RenderError::Configuration);
}
