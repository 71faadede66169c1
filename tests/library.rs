use raytracer::color::to_byte;
use raytracer::frame::{check_config, image_height, ConfigError, PixelGrid};
use raytracer::interval::{Interval, BRIGHTEST_BITS, HIT_EPSILON_BITS, INFINITY_BITS, ZERO_BITS};
use raytracer::material::{is_front_face, leaves_surface, reflects, ONE_BITS};
use raytracer::order::{less_than, near_zero, order_key, NEAR_ZERO_BITS};
use raytracer::scene::{nearest_hit, select_root, Roots};
use raytracer::trace::{Bounce, Path, Step};

fn b(x: f64) -> u64 {
    x.to_bits()
}

#[test]
fn constants_match_their_values() {
    assert_eq!(HIT_EPSILON_BITS, b(0.001));
    assert_eq!(INFINITY_BITS, b(f64::INFINITY));
    assert_eq!(ZERO_BITS, b(0.0));
    assert_eq!(BRIGHTEST_BITS, b(0.999));
}

#[test]
fn order_key_follows_float_order() {
    let values = [
        f64::NEG_INFINITY,
        -1.0e300,
        -2.5,
        -1.0e-310,
        -0.0,
        0.0,
        1.0e-310,
        0.001,
        0.5,
        1.0,
        3.0e10,
        f64::INFINITY,
    ];
    for w in values.windows(2) {
        assert!(order_key(b(w[0])) < order_key(b(w[1])), "{} {}", w[0], w[1]);
    }
    assert_eq!(order_key(b(-0.0)) + 1, order_key(b(0.0)));
}

#[test]
fn interval_queries() {
    let iv = Interval::from(b(-1.0), b(2.0));
    assert_eq!(iv.min(), b(-1.0));
    assert_eq!(iv.max(), b(2.0));
    assert!(iv.contains(b(-1.0)));
    assert!(iv.contains(b(2.0)));
    assert!(!iv.surrounds(b(-1.0)));
    assert!(!iv.surrounds(b(2.0)));
    assert!(iv.surrounds(b(0.25)));
    assert!(!iv.contains(b(2.5)));
    assert_eq!(iv.clamp(b(-7.0)), b(-1.0));
    assert_eq!(iv.clamp(b(9.0)), b(2.0));
    assert_eq!(iv.clamp(b(1.5)), b(1.5));
    let empty = Interval::from(b(f64::INFINITY), b(f64::NEG_INFINITY));
    assert!(!empty.contains(b(0.0)));
    assert!(!empty.surrounds(b(0.0)));
    assert!(!Interval::hit_range().surrounds(b(f64::NAN)));
}

#[test]
fn hit_range_rejects_the_surface_just_left() {
    // A unit sphere at the origin, a ray from (1, 0, 0) along +x: the roots of
    // |o + t d|^2 = 1 are t = -2 and t = 0 (up to rounding).
    let range = Interval::hit_range();
    assert_eq!(select_root(&range, b(-2.0), b(0.0)), None);
    assert_eq!(select_root(&range, b(-2.0), b(1.0e-12)), None);
    assert_eq!(select_root(&range, b(-2.0), b(0.001)), None);
    // From outside the sphere both roots lie ahead: the nearer one is taken.
    assert_eq!(select_root(&range, b(1.0), b(3.0)), Some(b(1.0)));
    // From inside, the farther one.
    assert_eq!(select_root(&range, b(-1.0), b(1.0)), Some(b(1.0)));
}

#[test]
fn nearest_hit_ignores_member_order() {
    let range = Interval::hit_range();
    let near: Roots = Some((b(0.5), b(1.5)));
    let far: Roots = Some((b(2.0), b(4.0)));
    assert_eq!(nearest_hit(&range, &vec![near, far]), Some((0, b(0.5))));
    assert_eq!(nearest_hit(&range, &vec![far, near]), Some((1, b(0.5))));
    assert_eq!(nearest_hit(&range, &vec![None, far, None, near]), Some((3, b(0.5))));
    assert_eq!(nearest_hit(&range, &vec![]), None);
    assert_eq!(nearest_hit(&range, &vec![None, Some((b(-3.0), b(-1.0)))]), None);
}

#[test]
fn nearest_hit_keeps_first_of_equal_distances() {
    let range = Interval::hit_range();
    let a: Roots = Some((b(1.0), b(2.0)));
    let c: Roots = Some((b(1.0), b(5.0)));
    assert_eq!(nearest_hit(&range, &vec![a, c]), Some((0, b(1.0))));
}

#[test]
fn byte_of_channel_bounds() {
    assert_eq!(to_byte(b(0.0)), 0);
    assert_eq!(to_byte(b(-0.0)), 0);
    assert_eq!(to_byte(b(-3.0)), 0);
    assert_eq!(to_byte(b(0.999)), 255);
    assert_eq!(to_byte(b((0.999f64 * 0.999).sqrt())), 255);
    assert_eq!(to_byte(b(1.0)), 255);
    assert_eq!(to_byte(b(f64::INFINITY)), 255);
    assert_eq!(to_byte(b(f64::NAN)), 0);
    assert_eq!(to_byte(b(0.5)), 128);
    assert_eq!(to_byte(b(0.25)), 64);
    assert_eq!(to_byte(b(1.0e-300)), 0);
}

#[test]
fn byte_of_channel_matches_scaling() {
    let mut x = 0.0f64;
    while x < 1.2 {
        let expected = (256.0 * x.clamp(0.0, 0.999)) as u8;
        assert_eq!(to_byte(b(x)), expected, "{}", x);
        x += 0.00137;
    }
}

#[test]
fn zero_depth_path_is_black() {
    let path = Path::new(0);
    assert!(!path.can_continue());
    assert_eq!(path.remaining(), 0);
}

#[test]
fn path_steps() {
    let mut path = Path::new(2);
    assert!(path.can_continue());
    assert_eq!(path.advance(Bounce::Scattered), Step::Continue);
    assert_eq!(path.remaining(), 1);
    assert_eq!(path.advance(Bounce::Scattered), Step::Continue);
    assert!(!path.can_continue());
    let mut sky = Path::new(5);
    assert_eq!(sky.advance(Bounce::Miss), Step::Sky);
    let mut absorbed = Path::new(5);
    assert_eq!(absorbed.advance(Bounce::Absorbed), Step::Black);
    assert_eq!(absorbed.remaining(), 4);
}

#[test]
fn config_errors() {
    assert_eq!(check_config(0, 10), Err(ConfigError::ZeroWidth));
    assert_eq!(check_config(0, 0), Err(ConfigError::ZeroWidth));
    assert_eq!(check_config(400, 0), Err(ConfigError::ZeroSamples));
    assert_eq!(check_config(400, 1), Ok(()));
}

#[test]
fn height_is_at_least_one() {
    assert_eq!(image_height(0), 1);
    assert_eq!(image_height(1), 1);
    assert_eq!(image_height(225), 225);
}

#[test]
fn grid_is_row_major() {
    let mut g = PixelGrid::new(3, 2);
    assert_eq!(g.width(), 3);
    assert_eq!(g.height(), 2);
    g.put_pixel(1, 1, (7, 8, 9));
    g.put_row(0, &vec![(1, 2, 3), (4, 5, 6), (10, 11, 12)]);
    let raw = g.into_raw();
    assert_eq!(
        raw,
        vec![1, 2, 3, 4, 5, 6, 10, 11, 12, 0, 0, 0, 7, 8, 9, 0, 0, 0]
    );
}

#[test]
fn near_zero_components() {
    assert_eq!(NEAR_ZERO_BITS, b(1.0e-8));
    assert!(near_zero(b(0.0), b(-0.0), b(5.0e-9)));
    assert!(near_zero(b(-9.9e-9), b(1.0e-300), b(0.0)));
    assert!(!near_zero(b(1.0e-8), b(0.0), b(0.0)));
    assert!(!near_zero(b(0.0), b(-2.0e-8), b(0.0)));
    assert!(!near_zero(b(0.0), b(0.0), b(f64::NAN)));
    assert!(!near_zero(b(f64::INFINITY), b(0.0), b(0.0)));
}

#[test]
fn float_less_than() {
    assert!(less_than(b(-1.0), b(2.0)));
    assert!(!less_than(b(2.0), b(-1.0)));
    assert!(!less_than(b(-0.0), b(0.0)));
    assert!(!less_than(b(0.0), b(-0.0)));
    assert!(!less_than(b(1.0), b(1.0)));
    assert!(!less_than(b(f64::NAN), b(1.0)));
    assert!(!less_than(b(1.0), b(f64::NAN)));
    assert!(less_than(b(f64::NEG_INFINITY), b(-1.0e308)));
}

#[test]
fn material_choices() {
    assert_eq!(ONE_BITS, b(1.0));
    assert!(is_front_face(b(-0.3)));
    assert!(!is_front_face(b(0.3)));
    assert!(!is_front_face(b(-0.0)));
    assert!(leaves_surface(b(0.2)));
    assert!(!leaves_surface(b(0.0)));
    assert!(!leaves_surface(b(-0.2)));
    // Total internal reflection.
    assert!(reflects(b(1.2), b(0.9), b(0.1)));
    // The draw falls below the reflectance.
    assert!(reflects(b(0.5), b(0.05), b(0.1)));
    // Neither: the ray refracts.
    assert!(!reflects(b(0.5), b(0.9), b(0.1)));
    assert!(!reflects(b(1.0), b(0.9), b(0.1)));
}
