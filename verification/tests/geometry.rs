use lightmap2d::ext::{div_ext, intersect_aabb, max, min, Ext};
use lightmap2d::point::Point;
use lightmap2d::transform::{Transform2, TF_ONE};
use lightmap2d::types::{
    light_source_to_light_data, shadow_caster_to_occlusion_data, LightSource, Rgb, ShadowCaster,
};
use lightmap2d::viewport::{compute_viewport, WindowInfo};
use lightmap2d::types::RenderError;

fn window_100() -> WindowInfo {
    WindowInfo { width_px: 100, height_px: 100, world_extents: Point::new(100, 100) }
}

#[test]
fn point_componentwise_arithmetic() {
    let a = Point::new(6i64, -8i64);
    let b = Point::new(2i64, 4i64);
    assert_eq!(a.add(b), Point::new(8, -4));
    assert_eq!(a.sub(b), Point::new(4, -12));
    assert_eq!(a.mul(b), Point::new(12, -32));
    assert_eq!(a.div(b), Point::new(3, -2));
    assert_eq!(a.scale(3), Point::new(18, -24));
}

#[test]
fn point_division_truncates_toward_zero() {
    let a = Point::new(-7i64, 7i64);
    let b = Point::new(2i64, -2i64);
    assert_eq!(a.div(b), Point::new(-3, -3));
    assert_eq!(Point::new(-9i64, 9i64).div(Point::new(-2, -3)), Point::new(4, -3));
}

#[test]
fn lerp_interpolates_in_fixed_point() {
    let a = Point::new(0i64, 100i64);
    let b = Point::new(100i64, 0i64);
    // full weight keeps the first point, zero weight gives the second
    assert_eq!(a.lerp(b, 1000), a);
    assert_eq!(a.lerp(b, 0), b);
    // a quarter of the way from b to a
    assert_eq!(a.lerp(b, 250), Point::new(75, 25));
}

#[test]
fn extended_division_matches_ieee_conventions() {
    assert!(matches!(div_ext(10, 4), Ext::Finite { num: 10, den: 4 }));
    assert!(matches!(div_ext(10, -4), Ext::Finite { num: -10, den: 4 }));
    assert!(matches!(div_ext(3, 0), Ext::PosInf));
    assert!(matches!(div_ext(-3, 0), Ext::NegInf));
    assert!(matches!(div_ext(0, 0), Ext::Nan));
}

#[test]
fn nan_tolerant_min_max_prefer_the_other_operand() {
    let fin = Ext::Finite { num: 5, den: 2 };
    assert!(matches!(min(Ext::Nan, fin), Ext::Finite { num: 5, den: 2 }));
    assert!(matches!(min(fin, Ext::Nan), Ext::Finite { num: 5, den: 2 }));
    assert!(matches!(max(Ext::Nan, fin), Ext::Finite { num: 5, den: 2 }));
    assert!(matches!(max(fin, Ext::Nan), Ext::Finite { num: 5, den: 2 }));
    assert!(matches!(max(Ext::Nan, Ext::Nan), Ext::Nan));
    assert!(matches!(max(Ext::NegInf, Ext::PosInf), Ext::PosInf));
    assert!(matches!(min(Ext::NegInf, Ext::PosInf), Ext::NegInf));
}

#[test]
fn axis_aligned_ray_hits_box_despite_zero_component() {
    let box_min = Point::new(-50i64, -50i64);
    let box_max = Point::new(50i64, 50i64);
    // straight up, origin below the box: the x slab divides by zero
    assert!(intersect_aabb(Point::new(0, -100), Point::new(0, 1), box_min, box_max));
    // straight up but offset beyond the box in x: must miss
    assert!(!intersect_aabb(Point::new(100, -100), Point::new(0, 1), box_min, box_max));
}

#[test]
fn zero_direction_ray_is_handled_not_crashed() {
    let box_min = Point::new(-50i64, -50i64);
    let box_max = Point::new(50i64, 50i64);
    // a zero direction from inside the box still reports an intersection
    assert!(intersect_aabb(Point::new(0, 0), Point::new(0, 0), box_min, box_max));
    // a zero direction from far outside reports none
    assert!(!intersect_aabb(Point::new(200, 0), Point::new(0, 0), box_min, box_max));
}

#[test]
fn identity_and_translation_transforms() {
    let id = Transform2::identity();
    assert_eq!(id.apply(Point::new(12, -7)), Point::new(12, -7));
    let t = Transform2::from_translation(5, -3);
    assert_eq!(t.apply(Point::new(12, -7)), Point::new(17, -10));
}

#[test]
fn quarter_turn_transform_rotates_points() {
    // rotation by a quarter turn: x -> -y, y -> x
    let r = Transform2 { m00: 0, m01: -TF_ONE, m10: TF_ONE, m11: 0, tx: 0, ty: 0 };
    assert_eq!(r.apply(Point::new(10, 0)), Point::new(0, 10));
    assert_eq!(r.apply(Point::new(0, 10)), Point::new(-10, 0));
}

#[test]
fn triangles_become_three_edges_each() {
    let caster = ShadowCaster {
        verts: vec![
            Point::new(0i64, 0i64),
            Point::new(10, 0),
            Point::new(0, 10),
        ],
        visibility: 700,
    };
    let t = Transform2::from_translation(5, 5);
    let occs = shadow_caster_to_occlusion_data((&t, &caster));
    assert_eq!(occs.len(), 3);
    assert_eq!(occs[0].start, Point::new(5, 5));
    assert_eq!(occs[0].end, Point::new(15, 5));
    assert_eq!(occs[1].start, Point::new(15, 5));
    assert_eq!(occs[1].end, Point::new(5, 15));
    assert_eq!(occs[2].start, Point::new(5, 15));
    assert_eq!(occs[2].end, Point::new(5, 5));
    assert!(occs.iter().all(|o| o.visibility == 700));
}

#[test]
fn trailing_vertices_short_of_a_triangle_are_ignored() {
    let caster = ShadowCaster {
        verts: vec![
            Point::new(0i64, 0i64),
            Point::new(10, 0),
            Point::new(0, 10),
            Point::new(20, 20),
        ],
        visibility: 1000,
    };
    let t = Transform2::identity();
    let occs = shadow_caster_to_occlusion_data((&t, &caster));
    assert_eq!(occs.len(), 3);
}

#[test]
fn light_sample_takes_position_from_transform() {
    let t = Transform2::from_translation(40, -300);
    let source = LightSource { intensity: 300, color: Rgb { r: 1000, g: 0, b: 0 } };
    let light = light_source_to_light_data((&t, &source));
    assert_eq!(light.pos, Point::new(40, -300));
    assert_eq!(light.intensity, 300);
    assert_eq!(light.color, Rgb { r: 1000, g: 0, b: 0 });
}

#[test]
fn viewport_centers_on_camera() {
    let vp = compute_viewport(&window_100(), &Transform2::identity()).unwrap();
    assert_eq!(vp.bottom_left, Point::new(-50, -50));
    assert_eq!(vp.top_right, Point::new(50, 50));
    assert_eq!(vp.camera_pos, Point::new(0, 0));
    assert_eq!(vp.half_win, Point::new(50, 50));
    assert_eq!(vp.width_px, 100);
    assert_eq!(vp.height_px, 100);
}

#[test]
fn viewport_follows_camera_translation() {
    let cam = Transform2::from_translation(30, -20);
    let vp = compute_viewport(&window_100(), &cam).unwrap();
    assert_eq!(vp.bottom_left, Point::new(-20, -70));
    assert_eq!(vp.top_right, Point::new(80, 30));
    assert_eq!(vp.camera_pos, Point::new(30, -20));
}

#[test]
fn empty_world_window_is_a_configuration_error() {
    let window = WindowInfo { width_px: 100, height_px: 100, world_extents: Point::new(0, 0) };
    let r = compute_viewport(&window, &Transform2::identity());
    assert_eq!(r.unwrap_err(), RenderError::Configuration);
}
