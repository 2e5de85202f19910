use ray_tracing::{
    pixel_samples, ray_colour, rebound, scattered_from, Bounce, Interval, IntervalBounds, Material, Point, Ray,
    Reflection, Scalar, ScatteredRay, Shape, Sphere, Surface, SurfaceSet, Trace, UniformSurface, Vector,
};

fn scalar(value: f64) -> Scalar {
    Scalar::from_bits(value.to_bits())
}

fn number(s: Scalar) -> f64 {
    f64::from_bits(s.to_bits())
}

fn vector(x: f64, y: f64, z: f64) -> Vector {
    Vector::new(scalar(x), scalar(y), scalar(z))
}

fn dot(a: Vector, b: Vector) -> f64 {
    number(a.x) * number(b.x) + number(a.y) * number(b.y) + number(a.z) * number(b.z)
}

fn plus(a: Vector, b: Vector) -> Vector {
    vector(number(a.x) + number(b.x), number(a.y) + number(b.y), number(a.z) + number(b.z))
}

fn minus(a: Vector, b: Vector) -> Vector {
    vector(number(a.x) - number(b.x), number(a.y) - number(b.y), number(a.z) - number(b.z))
}

fn times(a: Vector, b: Vector) -> Vector {
    vector(number(a.x) * number(b.x), number(a.y) * number(b.y), number(a.z) * number(b.z))
}

fn scaled(a: Vector, by: f64) -> Vector {
    vector(number(a.x) * by, number(a.y) * by, number(a.z) * by)
}

fn unit(a: Vector) -> Vector {
    scaled(a, 1.0 / dot(a, a).sqrt())
}

fn at(ray: Ray, t: f64) -> Point {
    plus(ray.origin, scaled(ray.direction, t))
}

/// A surface that every ray crosses at one fixed parameter, and that is
/// known by a number.
struct Wall {
    border: f64,
    name: u8,
}

impl Surface for Wall {
    fn scatter(&self, _point: Point, _ray: Ray) -> Option<ScatteredRay> {
        None
    }

    fn intersection(&self, _ray: Ray, time_interval: Interval) -> Option<Scalar> {
        time_interval.contains(scalar(self.border)).then_some(scalar(self.border))
    }
}

fn walls(borders: &[f64]) -> SurfaceSet<Wall> {
    let mut set = SurfaceSet::new();
    for (k, border) in borders.iter().enumerate() {
        set.add(Wall { border: *border, name: k as u8 });
    }
    set
}

fn names(surfaces: &[&Wall]) -> Vec<u8> {
    surfaces.iter().map(|w| w.name).collect()
}

fn any_ray() -> Ray {
    Ray::new(vector(0.0, 0.0, 0.0), vector(1.0, 0.0, 0.0))
}

#[test]
fn an_empty_scene_is_never_met() {
    let set: SurfaceSet<Wall> = SurfaceSet::new();
    assert!(set.intersection(any_ray(), Interval::all_reals(IntervalBounds::Closed)).is_none());
}

#[test]
fn a_ray_that_crosses_nothing_in_the_interval_meets_nothing() {
    let set = walls(&[-1.0, -2.0, 0.0]);
    assert!(set.intersection(any_ray(), Interval::positive_reals(IntervalBounds::Open)).is_none());
    let set = walls(&[5.0, 7.0]);
    let window = Interval::new(scalar(1.0), scalar(5.0), IntervalBounds::Open);
    assert!(set.intersection(any_ray(), window).is_none());
}

#[test]
fn the_nearest_surface_is_met_wherever_it_stands() {
    for borders in [[2.0, 3.0, 4.0], [4.0, 3.0, 2.0], [3.0, 2.0, 4.0], [4.0, 2.0, 3.0]] {
        let set = walls(&borders);
        let hit = set.intersection(any_ray(), Interval::positive_reals(IntervalBounds::Open)).unwrap();
        assert_eq!(hit.t, scalar(2.0));
        assert_eq!(hit.surfaces.len(), 1);
        assert_eq!(hit.surfaces[0].border, 2.0);
    }
}

#[test]
fn surfaces_met_at_the_same_parameter_are_all_reported() {
    let set = walls(&[2.0, 2.0]);
    let hit = set.intersection(any_ray(), Interval::positive_reals(IntervalBounds::Open)).unwrap();
    assert_eq!(hit.t, scalar(2.0));
    assert_eq!(names(&hit.surfaces), vec![0, 1]);
}

#[test]
fn ties_come_in_the_order_of_adding() {
    let set = walls(&[3.0, 2.0, 5.0, 2.0, 1.0, 2.0, 1.0, 4.0, 1.0]);
    let hit = set.intersection(any_ray(), Interval::positive_reals(IntervalBounds::Open)).unwrap();
    assert_eq!(hit.t, scalar(1.0));
    assert_eq!(names(&hit.surfaces), vec![4, 6, 8]);
}

#[test]
fn ties_are_found_under_every_convention() {
    for bounds in [
        IntervalBounds::Open,
        IntervalBounds::Closed,
        IntervalBounds::LeftOpenRightClosed,
        IntervalBounds::LeftClosedRightOpen,
    ] {
        let set = walls(&[2.0, 3.0, 2.0]);
        let window = Interval::new(scalar(1.0), scalar(4.0), bounds);
        let hit = set.intersection(any_ray(), window).unwrap();
        assert_eq!(hit.t, scalar(2.0));
        assert_eq!(names(&hit.surfaces), vec![0, 2]);
    }
}

#[test]
fn the_ends_of_the_interval_count_as_the_convention_says() {
    let set = walls(&[1.0, 4.0]);
    let open = Interval::new(scalar(1.0), scalar(4.0), IntervalBounds::Open);
    assert!(set.intersection(any_ray(), open).is_none());
    let closed = Interval::new(scalar(1.0), scalar(4.0), IntervalBounds::Closed);
    assert_eq!(names(&set.intersection(any_ray(), closed).unwrap().surfaces), vec![0]);
    let right = Interval::new(scalar(1.0), scalar(4.0), IntervalBounds::LeftOpenRightClosed);
    let hit = set.intersection(any_ray(), right).unwrap();
    assert_eq!(hit.t, scalar(4.0));
    assert_eq!(names(&hit.surfaces), vec![1]);
    let left = Interval::new(scalar(1.0), scalar(4.0), IntervalBounds::LeftClosedRightOpen);
    let hit = set.intersection(any_ray(), left).unwrap();
    assert_eq!(hit.t, scalar(1.0));
    assert_eq!(names(&hit.surfaces), vec![0]);
}

#[test]
fn two_at_the_closed_upper_end_tie() {
    let set = walls(&[4.0, 4.0]);
    let closed = Interval::new(scalar(1.0), scalar(4.0), IntervalBounds::Closed);
    let hit = set.intersection(any_ray(), closed).unwrap();
    assert_eq!(hit.t, scalar(4.0));
    assert_eq!(names(&hit.surfaces), vec![0, 1]);
}

#[test]
fn the_two_zeros_tie() {
    let set = walls(&[0.0, -0.0]);
    let closed = Interval::new(scalar(-1.0), scalar(1.0), IntervalBounds::Closed);
    let hit = set.intersection(any_ray(), closed).unwrap();
    assert_eq!(hit.t, scalar(0.0));
    assert_eq!(names(&hit.surfaces), vec![0, 1]);
}

#[test]
fn clear_empties_the_scene() {
    let mut set = walls(&[2.0, 3.0]);
    assert_eq!(set.surfaces.len(), 2);
    set.clear();
    assert_eq!(set.surfaces.len(), 0);
    assert!(set.intersection(any_ray(), Interval::all_reals(IntervalBounds::Closed)).is_none());
}

#[test]
fn add_appends() {
    let mut set = walls(&[2.0]);
    set.add(Wall { border: 1.0, name: 9 });
    assert_eq!(set.surfaces.len(), 2);
    assert_eq!(set.surfaces[1].name, 9);
}

#[test]
fn no_bounces_left_settles_on_zero() {
    let set = walls(&[2.0, 3.0]);
    match ray_colour(&set, any_ray(), 0) {
        Trace::Settled(colour) => {
            assert_eq!(colour.x.to_bits(), 0);
            assert_eq!(colour.y.to_bits(), 0);
            assert_eq!(colour.z.to_bits(), 0);
        }
        _ => panic!("a ray without bounces was traced"),
    }
    let empty: SurfaceSet<Wall> = SurfaceSet::new();
    assert!(matches!(ray_colour(&empty, any_ray(), 0), Trace::Settled(_)));
}

#[test]
fn a_ray_that_meets_nothing_escapes() {
    let empty: SurfaceSet<Wall> = SurfaceSet::new();
    assert!(matches!(ray_colour(&empty, any_ray(), 1), Trace::Escaped));
    let behind = walls(&[-1.0, 0.0, 0.001, 0.0005]);
    assert!(matches!(ray_colour(&behind, any_ray(), 50), Trace::Escaped));
}

#[test]
fn a_ray_meets_the_first_added_of_the_nearest() {
    let set = walls(&[3.0, 0.001, 2.0, 0.5, 2.0, 0.5]);
    match ray_colour(&set, any_ray(), 255) {
        Trace::Hit { t, surface } => {
            assert_eq!(t, scalar(0.5));
            assert_eq!(surface.name, 3);
        }
        _ => panic!("the ray met nothing"),
    }
    let just_above = walls(&[0.0010000000000000002]);
    assert!(matches!(ray_colour(&just_above, any_ray(), 1), Trace::Hit { .. }));
}

#[test]
fn an_absorbed_ray_settles_on_zero() {
    match rebound(None, 7) {
        Bounce::Settled(colour) => assert_eq!(
            (colour.x.to_bits(), colour.y.to_bits(), colour.z.to_bits()),
            (0, 0, 0)
        ),
        _ => panic!("an absorbed ray went on"),
    }
}

#[test]
fn a_scattered_ray_goes_on_with_one_bounce_fewer() {
    let scattered = ScatteredRay {
        attenuation: vector(0.5, 0.25, 0.125),
        ray: Ray::new(vector(1.0, 2.0, 3.0), vector(0.0, 1.0, 0.0)),
    };
    match rebound(Some(scattered), 7) {
        Bounce::Onward { attenuation, ray, max_ray_bounces } => {
            assert_eq!(attenuation, vector(0.5, 0.25, 0.125));
            assert!(ray == Ray::new(vector(1.0, 2.0, 3.0), vector(0.0, 1.0, 0.0)));
            assert_eq!(max_ray_bounces, 6);
        }
        _ => panic!("a scattered ray was dropped"),
    }
    assert!(matches!(rebound(Some(scattered), 1), Bounce::Onward { max_ray_bounces: 0, .. }));
}

#[test]
fn a_pixel_has_its_jittered_samples_and_then_the_centred_one() {
    let samples = pixel_samples(3);
    assert_eq!(samples.len(), 4);
    for sample in &samples[..3] {
        assert_eq!(sample.min(), scalar(-0.5));
        assert_eq!(sample.max(), scalar(0.5));
        assert_eq!(sample.bounds(), IntervalBounds::Closed);
    }
    assert_eq!(samples[3].min().to_bits(), 0);
    assert_eq!(samples[3].max().to_bits(), 0);
    assert_eq!(samples[3].bounds(), IntervalBounds::Open);
    assert_eq!(pixel_samples(0).len(), 1);
    assert_eq!(pixel_samples(255).len(), 256);
}

#[test]
fn scattered_from_starts_at_the_point() {
    assert!(scattered_from(vector(1.0, 2.0, 3.0), None).is_none());
    let reflection = Reflection { attenuation: vector(0.5, 0.5, 0.5), direction: vector(0.0, 0.0, 1.0) };
    let scattered = scattered_from(vector(1.0, 2.0, 3.0), Some(reflection)).unwrap();
    assert_eq!(scattered.attenuation, vector(0.5, 0.5, 0.5));
    assert_eq!(scattered.ray.origin, vector(1.0, 2.0, 3.0));
    assert_eq!(scattered.ray.direction, vector(0.0, 0.0, 1.0));
}

/// A sphere with the arithmetic that finds where a ray crosses it.
struct Ball {
    sphere: Sphere,
}

impl Shape for Ball {
    fn intersection(&self, ray: Ray, time_interval: Interval) -> Option<Scalar> {
        let oc = minus(self.sphere.center, ray.origin);
        let a = dot(ray.direction, ray.direction);
        let h = dot(ray.direction, oc);
        let c = dot(oc, oc) - number(self.sphere.radius).powi(2);
        let discriminant = h.powi(2) - a * c;
        let root = discriminant.sqrt();
        Sphere::first_root(
            scalar(discriminant),
            scalar((h - root) / a),
            scalar((h + root) / a),
            time_interval,
        )
    }

    fn outwards_normal(&self, point: Point) -> Vector {
        scaled(minus(point, self.sphere.center), 1.0 / number(self.sphere.radius))
    }

    fn incidence(&self, point: Point, ray: Ray) -> Scalar {
        scalar(dot(self.outwards_normal(point), ray.direction))
    }
}

/// A matt material. A ray leaves along the normal pushed aside a little, and
/// further where the material asks which way the ray goes and it goes in.
struct Matt {
    albedo: Vector,
    asks: bool,
}

impl Material for Matt {
    fn random_reflection(
        &self,
        _ray_direction: Vector,
        rebound_normal: Vector,
        entering_surface: impl Fn() -> bool,
    ) -> Option<Reflection> {
        let lean = if self.asks && entering_surface() { 0.5 } else { 0.25 };
        Some(Reflection {
            attenuation: self.albedo,
            direction: unit(plus(rebound_normal, vector(lean, 0.0, 0.0))),
        })
    }
}

/// A material that takes every ray.
struct Soot {}

impl Material for Soot {
    fn random_reflection(
        &self,
        _ray_direction: Vector,
        _rebound_normal: Vector,
        _entering_surface: impl Fn() -> bool,
    ) -> Option<Reflection> {
        None
    }
}

fn ball(center: Vector, radius: f64) -> Ball {
    Ball { sphere: Sphere::new(center, scalar(radius)) }
}

fn grey() -> Matt {
    Matt { albedo: vector(0.5, 0.5, 0.5), asks: false }
}

#[test]
fn a_uniform_surface_is_met_where_its_shape_is() {
    let surface = UniformSurface::new(ball(vector(2.0, 0.0, 0.0), 1.0), grey());
    let window = Interval::positive_reals(IntervalBounds::Open);
    assert_eq!(surface.intersection(any_ray(), window), Some(scalar(1.0)));
    let boxed: Box<dyn Surface> = Box::new(surface);
    assert_eq!(boxed.intersection(any_ray(), window), Some(scalar(1.0)));
}

#[test]
fn a_uniform_surface_scatters_from_the_point_along_the_material() {
    let surface = UniformSurface::new(ball(vector(2.0, 0.0, 0.0), 1.0), grey());
    let point = vector(1.0, 0.0, 0.0);
    let scattered = surface.scatter(point, any_ray()).unwrap();
    assert_eq!(scattered.attenuation, vector(0.5, 0.5, 0.5));
    assert_eq!(scattered.ray.origin, point);
    assert_eq!(scattered.ray.direction, unit(vector(-0.75, 0.0, 0.0)));
    let soot = UniformSurface::new(ball(vector(2.0, 0.0, 0.0), 1.0), Soot {});
    assert!(soot.scatter(point, any_ray()).is_none());
}

#[test]
fn the_probe_tells_a_ray_that_goes_in_from_one_that_goes_out() {
    let asking = Matt { albedo: vector(1.0, 1.0, 1.0), asks: true };
    let surface = UniformSurface::new(ball(vector(2.0, 0.0, 0.0), 1.0), asking);
    let going_in = surface.scatter(vector(1.0, 0.0, 0.0), any_ray()).unwrap();
    assert_eq!(going_in.ray.direction, unit(vector(-0.5, 0.0, 0.0)));
    let going_out = surface.scatter(vector(3.0, 0.0, 0.0), any_ray()).unwrap();
    assert_eq!(going_out.ray.direction, unit(vector(-0.75, 0.0, 0.0)));
}

fn background(ray: Ray) -> Vector {
    let a = (number(unit(ray.direction).y) + 1.0) / 2.0;
    plus(scaled(vector(1.0, 1.0, 1.0), 1.0 - a), scaled(vector(0.5, 0.7, 1.0), a))
}

fn colour_of(world: &SurfaceSet<Box<dyn Surface>>, ray: Ray, max_ray_bounces: u8) -> Vector {
    match ray_colour(world, ray, max_ray_bounces) {
        Trace::Settled(colour) => colour,
        Trace::Escaped => background(ray),
        Trace::Hit { t, surface } => {
            let point = at(ray, number(t));
            match rebound(surface.scatter(point, ray), max_ray_bounces) {
                Bounce::Settled(colour) => colour,
                Bounce::Onward { attenuation, ray, max_ray_bounces } => {
                    times(attenuation, colour_of(world, ray, max_ray_bounces))
                }
            }
        }
    }
}

fn primary_ray(column: u16, row: u16) -> Ray {
    let (image_width, image_height) = (400.0, 225.0);
    let (viewport_width, viewport_height, focal_length) = (2.0 * 16.0 / 9.0, 2.0, 1.0);
    let eye = vector(0.0, 0.0, 0.0);
    let delta_u = vector(viewport_width / image_width, 0.0, 0.0);
    let delta_v = vector(0.0, -viewport_height / image_height, 0.0);
    let upper_left = vector(-viewport_width / 2.0, viewport_height / 2.0, -focal_length);
    let pixel00 = plus(upper_left, scaled(plus(delta_u, delta_v), 0.5));
    let target = plus(pixel00, plus(scaled(delta_u, column as f64), scaled(delta_v, row as f64)));
    Ray::new(eye, minus(target, eye))
}

fn two_spheres() -> SurfaceSet<Box<dyn Surface>> {
    let mut world: SurfaceSet<Box<dyn Surface>> = SurfaceSet::new();
    world.add(Box::new(UniformSurface::new(ball(vector(0.0, 0.0, -1.0), 0.5), grey())));
    world.add(Box::new(UniformSurface::new(ball(vector(0.0, -100.5, -1.0), 100.0), grey())));
    world
}

#[test]
fn the_centre_pixel_meets_the_sphere_and_is_darker_than_the_sky() {
    let world = two_spheres();
    let centre = primary_ray(200, 112);
    match ray_colour(&world, centre, 1) {
        Trace::Hit { t, surface } => {
            assert!((number(t) * dot(centre.direction, centre.direction).sqrt() - 0.5).abs() < 1e-3);
            assert!(std::ptr::eq(surface, &world.surfaces[0]));
        }
        _ => panic!("the centre pixel met nothing"),
    }
    let top = primary_ray(200, 0);
    assert!(matches!(ray_colour(&world, top, 1), Trace::Escaped));
    let sky = colour_of(&world, top, 1);
    let sphere = colour_of(&world, centre, 1);
    assert!(sphere.lt(&sky));
    assert!(number(sky.x) > 0.5 && number(sky.x) < 1.0);
    assert!(number(sky.y) > 0.7 && number(sky.y) < 1.0);
    assert_eq!(number(sky.z), 1.0);
    assert!(number(sky.x) < number(sky.y) && number(sky.y) < number(sky.z));
}

#[test]
fn light_is_dimmed_at_every_bounce() {
    let world = two_spheres();
    let centre = primary_ray(200, 112);
    let one = colour_of(&world, centre, 1);
    assert_eq!(one, Vector::zero());
    let two = colour_of(&world, centre, 2);
    assert!(two.gt_scalar(scalar(0.0)));
    assert!(two.lt(&background(Ray::new(vector(0.0, 0.0, 0.0), vector(0.0, 1.0, 0.0)))));
}

#[test]
fn a_ray_aimed_away_from_every_sphere_meets_none() {
    let world = two_spheres();
    let up = Ray::new(vector(0.0, 0.0, 0.0), vector(0.0, 1.0, 0.0));
    assert!(world.intersection(up, Interval::positive_reals(IntervalBounds::Open)).is_none());
    let back = Ray::new(vector(0.0, 0.0, 0.0), vector(0.0, 0.3, 1.0));
    assert!(world.intersection(back, Interval::positive_reals(IntervalBounds::Open)).is_none());
}

#[test]
fn two_spheres_that_touch_on_the_ray_are_both_reported() {
    let mut world: SurfaceSet<Box<dyn Surface>> = SurfaceSet::new();
    world.add(Box::new(UniformSurface::new(ball(vector(0.0, 0.0, -3.0), 1.0), grey())));
    world.add(Box::new(UniformSurface::new(ball(vector(0.0, 0.0, -5.0), 1.0), grey())));
    world.add(Box::new(UniformSurface::new(ball(vector(0.0, 0.0, -4.0), 2.0), Soot {})));
    let ray = Ray::new(vector(0.0, 0.0, 0.0), vector(0.0, 0.0, -1.0));
    let hit = world.intersection(ray, Interval::positive_reals(IntervalBounds::Open)).unwrap();
    assert_eq!(hit.t, scalar(2.0));
    assert_eq!(hit.surfaces.len(), 2);
    assert!(std::ptr::eq(hit.surfaces[0], &world.surfaces[0]));
    assert!(std::ptr::eq(hit.surfaces[1], &world.surfaces[2]));
    let beyond = Interval::new(scalar(2.0), scalar(f64::MAX), IntervalBounds::Open);
    let hit = world.intersection(ray, beyond).unwrap();
    assert_eq!(hit.t, scalar(4.0));
    assert_eq!(hit.surfaces.len(), 2);
    assert!(std::ptr::eq(hit.surfaces[0], &world.surfaces[0]));
    assert!(std::ptr::eq(hit.surfaces[1], &world.surfaces[1]));
}
