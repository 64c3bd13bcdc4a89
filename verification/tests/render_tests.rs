use raytrace::env::{Camera, Scene};
use raytrace::geo::{New, Scalar, Vec3};
use raytrace::render::{
    exhausted, fresnel_bounce, orient, pixel, run, tonemap, trace, Bounce, Path, RenderMode,
    RenderSetting,
};

fn s(x: f64) -> Scalar {
    Scalar::from_bits(x.to_bits())
}

fn f(x: Scalar) -> f64 {
    f64::from_bits(x.to_bits())
}

fn v(x: f64, y: f64, z: f64) -> Vec3 {
    Vec3::new((s(x), s(y), s(z)))
}

fn fv(a: Vec3) -> (f64, f64, f64) {
    (f(a.x), f(a.y), f(a.z))
}

fn camera() -> Camera {
    Camera {
        position: v(0.0, 0.0, 5.0),
        focus: v(0.0, 0.0, 0.0),
        upside: v(0.0, 1.0, 0.0),
        fov: s(30.0f64.to_radians()),
        we: v(0.0, 0.0, 1.0),
        ue: v(1.0, 0.0, 0.0),
        ve: v(0.0, 1.0, 0.0),
        tm: (s(1e-4), s(1e10)),
    }
}

fn setting(w: usize, h: usize) -> RenderSetting {
    RenderSetting {
        window_size: (w, h),
        spp: 4,
        reflect_n: 10,
        camera: camera(),
        scene: Scene::new(Vec::new(), Vec::new()),
        mode: RenderMode::Normal,
    }
}

/// the level of a channel as a caller computes it from a radiance
fn level(radiance: f64) -> i32 {
    (radiance.abs().powf(1.0 / 2.2) * 255.0).round() as i32
}

#[test]
fn tonemap_cuts_levels_to_bytes() {
    assert_eq!(tonemap((0, 0, 0)), (0, 0, 0));
    assert_eq!(tonemap((-3, 128, 900)), (0, 128, 255));
    assert_eq!(tonemap((255, 256, 254)), (255, 255, 254));
    assert_eq!(tonemap((i32::MIN, i32::MAX, 1)), (0, 255, 1));
}

#[test]
fn tonemap_of_black_is_black_and_of_full_light_is_full() {
    assert_eq!(tonemap((level(0.0), level(0.0), level(0.0))), (0, 0, 0));
    assert_eq!(tonemap((level(1.0), level(12.0), level(1e300))), (255, 255, 255));
    assert_eq!(tonemap((level(f64::INFINITY), level(-1.0), level(-0.0))), (255, 255, 0));
    assert_eq!(tonemap((level(0.5), level(0.0), level(2.0))), (186, 0, 255));
}

#[test]
fn run_lays_pixels_out_row_by_row() {
    let img = run(&setting(3, 2), |x, y| (x as i32, y as i32, 300)).ok().unwrap();
    assert_eq!(
        img,
        vec![(0, 2, 255), (1, 2, 255), (2, 2, 255), (0, 1, 255), (1, 1, 255), (2, 1, 255)]
    );
}

#[test]
fn run_gives_one_pixel_for_each_place() {
    let img = run(&setting(120, 80), |x, y| ((x % 256) as i32, (y % 256) as i32, -1)).ok().unwrap();
    assert_eq!(img.len(), 120 * 80);
    for (i, p) in img.iter().enumerate() {
        assert_eq!(*p, ((i % 120) as u8, (80 - i / 120) as u8, 0));
    }
}

#[test]
fn run_of_an_empty_window_is_empty() {
    assert!(run(&setting(0, 5), |_, _| (1, 1, 1)).ok().unwrap().is_empty());
    assert!(run(&setting(5, 0), |_, _| (1, 1, 1)).ok().unwrap().is_empty());
}

#[test]
fn run_twice_gives_the_same_image() {
    let shade = |x: usize, y: usize| ((x * 31 + y) as i32 % 400 - 50, (x ^ y) as i32, (x * y) as i32);
    let a = run(&setting(64, 48), shade).ok().unwrap();
    let b = run(&setting(64, 48), shade).ok().unwrap();
    assert_eq!(a, b);
}

#[test]
fn pixel_calls_shade_with_column_and_height() {
    let shade = |x: usize, y: usize| (x as i32, y as i32, 1000);
    assert_eq!(pixel(&shade, 4, 3, 0), (0, 3, 255));
    assert_eq!(pixel(&shade, 4, 3, 3), (3, 3, 255));
    assert_eq!(pixel(&shade, 4, 3, 4), (0, 2, 255));
    assert_eq!(pixel(&shade, 4, 3, 11), (3, 1, 255));
}

#[test]
fn mode_names() {
    assert_eq!(RenderMode::Shade.name(), "Shade");
    assert_eq!(RenderMode::Normal.name(), "Normal");
    assert_eq!(RenderMode::NormalColor.name(), "NormalColor");
    assert_eq!(RenderMode::Depth(s(300.0)).name(), "Depth");
    assert_eq!(RenderMode::DepthNormalColor(s(300.0)).name(), "DepthNormalColor");
}

#[test]
fn normal_is_turned_against_the_ray() {
    let n = v(0.0, 1.0, -0.5);
    assert_eq!(fv(orient(n, s(0.3))), (0.0, 1.0, -0.5));
    assert_eq!(fv(orient(n, s(-0.3))), (-0.0, -1.0, 0.5));
    assert_eq!(orient(n, s(-0.3)).x.bits, s(-0.0).bits);
    // a ray that grazes the surface, or no number, turns the normal
    assert_eq!(fv(orient(n, s(0.0))), (-0.0, -1.0, 0.5));
    assert_eq!(fv(orient(n, s(f64::NAN))), (-0.0, -1.0, 0.5));
}

#[test]
fn negative_discriminant_reflects() {
    assert_eq!(fresnel_bounce(s(-0.2), s(0.0), s(0.9)), Bounce::Reflect);
    assert_eq!(fresnel_bounce(s(-1e-300), s(f64::NAN), s(0.9)), Bounce::Reflect);
}

#[test]
fn draw_below_the_share_reflects() {
    assert_eq!(fresnel_bounce(s(0.4), s(0.04), s(0.01)), Bounce::Reflect);
    assert_eq!(fresnel_bounce(s(0.0), s(1.0), s(0.999)), Bounce::Reflect);
}

#[test]
fn draw_at_or_above_the_share_refracts() {
    assert_eq!(fresnel_bounce(s(0.4), s(0.04), s(0.04)), Bounce::Refract);
    assert_eq!(fresnel_bounce(s(0.4), s(0.04), s(0.5)), Bounce::Refract);
    assert_eq!(fresnel_bounce(s(-0.0), s(0.0), s(0.0)), Bounce::Refract);
    assert_eq!(fresnel_bounce(s(f64::NAN), s(f64::NAN), s(0.5)), Bounce::Refract);
}

#[test]
fn throughput_is_exhausted_where_its_largest_channel_is_zero() {
    assert!(exhausted(v(0.0, 0.0, 0.0)));
    assert!(exhausted(v(-0.0, 0.0, -0.0)));
    assert!(exhausted(v(-1.0, 0.0, -2.0)));
    assert!(exhausted(v(f64::NAN, 0.0, -2.0)));
    assert!(!exhausted(v(0.0, 1e-300, 0.0)));
    assert!(!exhausted(v(0.75, 0.25, 0.25)));
    assert!(!exhausted(v(-1.0, -1.0, -1.0)));
    assert!(!exhausted(v(f64::NAN, f64::NAN, f64::NAN)));
}

#[test]
fn path_ends_at_its_limit() {
    let mut p = Path::new(3);
    assert_eq!(p, Path { depth: 0, limit: 3, live: true });
    p = p.step(true, v(0.5, 0.5, 0.5));
    assert_eq!(p, Path { depth: 1, limit: 3, live: true });
    p = p.step(true, v(0.5, 0.5, 0.5));
    assert_eq!(p, Path { depth: 2, limit: 3, live: true });
    p = p.step(true, v(0.5, 0.5, 0.5));
    assert_eq!(p, Path { depth: 3, limit: 3, live: false });
    p = p.step(true, v(0.5, 0.5, 0.5));
    assert_eq!(p, Path { depth: 3, limit: 3, live: false });
}

#[test]
fn path_without_bounces_never_starts() {
    let p = Path::new(0);
    assert_eq!(p, Path { depth: 0, limit: 0, live: false });
    assert_eq!(p.step(true, v(1.0, 1.0, 1.0)), p);
}

#[test]
fn path_ends_on_a_miss() {
    let p = Path::new(10).step(true, v(1.0, 1.0, 1.0)).step(false, v(1.0, 1.0, 1.0));
    assert_eq!(p, Path { depth: 2, limit: 10, live: false });
}

#[test]
fn path_ends_where_no_light_can_pass() {
    let p = Path::new(10).step(true, v(0.0, 0.0, 0.0));
    assert_eq!(p, Path { depth: 1, limit: 10, live: false });
    let q = Path::new(10).step(true, v(0.0, 0.0, 1e-9));
    assert_eq!(q, Path { depth: 1, limit: 10, live: true });
}

#[test]
fn path_with_broken_fields_ends() {
    let p = Path { depth: usize::MAX, limit: 3, live: true }.step(true, v(1.0, 1.0, 1.0));
    assert_eq!(p, Path { depth: usize::MAX, limit: 3, live: false });
}

#[test]
fn trace_bounces_up_to_the_limit() {
    let r = trace(5, 0u32, |n| (n + 1, true, v(0.9, 0.9, 0.9)));
    assert_eq!(r, 5);
    let r = trace(1, 0u32, |n| (n + 1, true, v(0.9, 0.9, 0.9)));
    assert_eq!(r, 1);
}

#[test]
fn trace_without_bounces_returns_the_start() {
    let r = trace(0, 17u32, |n| (n + 1, true, v(0.9, 0.9, 0.9)));
    assert_eq!(r, 17);
}

#[test]
fn trace_stops_at_a_miss() {
    let r = trace(10, 0u32, |n| (n + 1, n < 2, v(0.9, 0.9, 0.9)));
    assert_eq!(r, 3);
}

#[test]
fn trace_stops_where_no_light_can_pass() {
    let r = trace(10, 1.0f64, |t| (t * 0.0, true, v(t * 0.0, 0.0, 0.0)));
    assert_eq!(r, 0.0);
    let calls = std::sync::atomic::AtomicUsize::new(0);
    let r = trace(10, 8u32, |n| {
        calls.fetch_add(1, std::sync::atomic::Ordering::SeqCst);
        (n / 2, true, v((n / 2) as f64, 0.0, 0.0))
    });
    assert_eq!(r, 0);
    assert_eq!(calls.load(std::sync::atomic::Ordering::SeqCst), 4);
}

#[test]
fn trace_hands_each_state_to_the_next_bounce() {
    let r = trace(4, Vec::new(), |mut seen: Vec<usize>| {
        seen.push(seen.len() * 10);
        (seen, true, v(1.0, 1.0, 1.0))
    });
    assert_eq!(r, vec![0, 10, 20, 30]);
}

type V = (f64, f64, f64);

fn sub(a: V, b: V) -> V {
    (a.0 - b.0, a.1 - b.1, a.2 - b.2)
}

fn add(a: V, b: V) -> V {
    (a.0 + b.0, a.1 + b.1, a.2 + b.2)
}

fn mul(a: V, b: V) -> V {
    (a.0 * b.0, a.1 * b.1, a.2 * b.2)
}

fn scale(a: V, k: f64) -> V {
    (a.0 * k, a.1 * k, a.2 * k)
}

fn dot(a: V, b: V) -> f64 {
    a.0 * b.0 + a.1 * b.1 + a.2 * b.2
}

fn cut(sphere: &raytrace::obj::Sphere, origin: V, direction: V) -> raytrace::obj::SphereCut {
    let center = fv(sphere.point);
    let radius = f(sphere.radius);
    let op = sub(center, origin);
    let b = dot(op, direction);
    let det = b * b - dot(op, op) + radius * radius;
    let root = det.sqrt();
    let at = |t: f64| {
        let p = add(scale(direction, t), origin);
        let n = scale(sub(p, center), 1.0 / radius);
        raytrace::obj::Crossing { t: s(t), point: v(p.0, p.1, p.2), normal: v(n.0, n.1, n.2) }
    };
    raytrace::obj::SphereCut { det: s(det), near: at(b - root), far: at(b + root) }
}

/// a room of two large matte spheres; `le` is what the second one emits
fn room(le: f64) -> Scene {
    let matte = |z: f64, le: f64| raytrace::obj::Sphere {
        point: v(0.0, 0.0, z),
        radius: s(100.0),
        material: raytrace::obj::Material::Diffuse,
        reflectance: v(0.75, 0.5, 0.25),
        le: v(le, le, le),
    };
    Scene::new(vec![matte(-110.0, 0.0), matte(110.0, le)], Vec::new())
}

/// the light that a path from the origin along +z gathers in `scene`,
/// bouncing straight back at each surface
fn gather(scene: &Scene, bounces: usize) -> (V, u32) {
    let start = ((0.0, 0.0, 0.0), (0.0, 0.0, 1.0), (0.0, 0.0, 0.0), (1.0, 1.0, 1.0), 0u32);
    let (_, _, sum, _, looks) = trace(bounces, start, |(origin, direction, sum, thp, looks): (V, V, V, V, u32)| {
        let plane = |_: &raytrace::obj::Plane| -> raytrace::obj::PlaneCut { unreachable!() };
        match scene.hit(|b| cut(b, origin, direction), plane, (s(1e-4), s(1e10))) {
            Some(hr) => {
                let sum = add(sum, mul(thp, fv(hr.le)));
                let wi = scale(direction, -1.0);
                let n = fv(orient(hr.normal, s(dot(fv(hr.normal), wi))));
                let thp = mul(thp, fv(hr.reflectance));
                ((fv(hr.point), n, sum, thp, looks + 1), true, v(thp.0, thp.1, thp.2))
            }
            None => ((origin, direction, sum, thp, looks + 1), false, v(thp.0, thp.1, thp.2)),
        }
    });
    (sum, looks)
}

#[test]
fn a_scene_without_emitters_gives_no_light() {
    for bounces in [0, 1, 2, 7, 50] {
        let (sum, looks) = gather(&room(0.0), bounces);
        assert_eq!(sum, (0.0, 0.0, 0.0));
        assert_eq!(looks as usize, bounces);
    }
    let none = Scene::new(Vec::new(), Vec::new());
    assert_eq!(gather(&none, 10), ((0.0, 0.0, 0.0), 1));
}

#[test]
fn light_is_weighed_by_the_throughput_before_the_surface() {
    // the lamp is met first, at full throughput, and after two more bounces
    let (sum, looks) = gather(&room(2.0), 3);
    assert_eq!(looks, 3);
    assert_eq!(sum, (2.0 + 2.0 * 0.75 * 0.75, 2.0 + 2.0 * 0.5 * 0.5, 2.0 + 2.0 * 0.25 * 0.25));
}
