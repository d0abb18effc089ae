use particles::drawable::{Color, Drawable, Shape};
use particles::particle::{Particle, ParticleBuilder};
use particles::physic_property::{
    AirResistance, BigGravityWell, ForceField, Gravity, GravityWell, Overlay, PhysicProperty, Wind,
    DRAG_COEFFICIENT, GRAVITY, PI_FINE, PI_FINE_SCALE, WIND,
};
use particles::point3::Point3;
use particles::scalar::SCALE;
use particles::vec3::Vec3;

fn particle_at(x: i64, y: i64, velocity: Vec3) -> Particle {
    Particle::new(Point3::new(x, y, 0), velocity)
}

fn only_velocity_changed(before: &Particle, after: &Particle) -> bool {
    let mut expected = before.copy();
    let d = after.get_direction();
    let b = before.get_direction();
    expected.apply_force(Vec3::new(d.x - b.x, d.y - b.y, d.z - b.z));
    expected == *after
}

#[test]
fn the_constants_stand_for_their_values() {
    assert_eq!(GRAVITY, SCALE);
    assert_eq!(WIND * 4, SCALE);
    assert_eq!(DRAG_COEFFICIENT * 50, SCALE);
    assert_eq!(PI_FINE, 3_141_592_653_589);
    assert_eq!(PI_FINE_SCALE, SCALE * SCALE);
    let pi = PI_FINE as f64 / PI_FINE_SCALE as f64;
    assert!((pi - std::f64::consts::PI).abs() < 1e-12);
}

#[test]
fn gravity_adds_the_mass_to_the_downward_velocity() {
    let p = particle_at(0, 0, Vec3::new(1, 2, 3));
    let q = Gravity {}.update_particle(&p);
    assert_eq!(q.get_direction(), Vec3::new(1, 2 + 5 * SCALE, 3));
    assert!(only_velocity_changed(&p, &q));
    let heavy = ParticleBuilder::new(Point3::default(), Vec3::default()).with_radius(9).create();
    assert_eq!(Gravity {}.update_particle(&heavy).get_direction(), Vec3::new(0, 9 * SCALE, 0));
}

#[test]
fn wind_pushes_every_mass_alike() {
    let light = ParticleBuilder::new(Point3::default(), Vec3::default()).with_radius(1).create();
    let heavy = ParticleBuilder::new(Point3::default(), Vec3::default()).with_radius(9).create();
    assert_eq!(Wind {}.update_particle(&light).get_direction(), Vec3::new(-250_000, 0, 0));
    assert_eq!(Wind {}.update_particle(&heavy).get_direction(), Vec3::new(-250_000, 0, 0));
    assert!(only_velocity_changed(&heavy, &Wind {}.update_particle(&heavy)));
}

#[test]
fn drag_opposes_the_velocity() {
    // Half of 1 * 0.02 * pi * 5 * 0.5 is 0.0785398..., along (-0.6, -0.8).
    let p = particle_at(0, 0, Vec3::new(3 * SCALE, 4 * SCALE, 0));
    let q = AirResistance {}.update_particle(&p);
    assert_eq!(q.get_direction(), Vec3::new(2_952_877, 3_937_169, 0));
    assert!(only_velocity_changed(&p, &q));
}

#[test]
fn drag_is_rounded_once() {
    // Radius 9 at 20 per tick: half of 0.02 * pi * 9 * 20 is 5.6548667...
    let p = ParticleBuilder::new(Point3::default(), Vec3::new(200 * SCALE, 0, 0))
        .with_radius(9)
        .create();
    let q = AirResistance {}.update_particle(&p);
    assert_eq!(q.get_direction(), Vec3::new(200 * SCALE - 5_654_866, 0, 0));
    let exact = 0.5 * 0.02 * std::f64::consts::PI * 9.0 * 20.0;
    let drag = (200 * SCALE - q.get_direction().x) as f64 / SCALE as f64;
    assert!((drag - exact).abs() < 1e-6);
    // Radius 5 at 1 per tick: 0.1570796...
    let slow = particle_at(0, 0, Vec3::new(10 * SCALE, 0, 0));
    assert_eq!(
        AirResistance {}.update_particle(&slow).get_direction(),
        Vec3::new(9_842_921, 0, 0)
    );
}

#[test]
fn a_strong_drag_keeps_the_direction_of_the_velocity() {
    // 223.6 per tick at radius 9: a drag of 63.22, along (-0.894427, -0.447214).
    let p = ParticleBuilder::new(Point3::default(), Vec3::new(2000 * SCALE, 1000 * SCALE, 0))
        .with_radius(9)
        .create();
    let q = AirResistance {}.update_particle(&p).get_direction();
    assert_eq!(q, Vec3::new(1_943_451_333, 971_725_667, 0));
    let speed = (200.0f64 * 200.0 + 100.0 * 100.0).sqrt();
    let drag = 0.5 * 0.02 * std::f64::consts::PI * 9.0 * speed;
    let x = 2000.0 - drag * 2000.0 / (2000.0f64 * 2000.0 + 1000.0 * 1000.0).sqrt();
    let y = 1000.0 - drag * 1000.0 / (2000.0f64 * 2000.0 + 1000.0 * 1000.0).sqrt();
    assert!((q.x as f64 / SCALE as f64 - x).abs() < 3e-6);
    assert!((q.y as f64 / SCALE as f64 - y).abs() < 3e-6);
}

#[test]
fn drag_on_a_slow_particle_keeps_its_direction() {
    // Too slow to move in a tick: no drag, and nothing changes.
    let p = particle_at(0, 0, Vec3::new(30, 40, 0));
    assert_eq!(AirResistance {}.update_particle(&p), p);
    // 0.00005 per tick: a drag of seven raw steps, along (-0.6, 0.8).
    let q = particle_at(0, 0, Vec3::new(300, -400, 0));
    assert_eq!(AirResistance {}.update_particle(&q).get_direction(), Vec3::new(296, -395, 0));
    // 5 per tick at radius 5: drag 0.785398..., along (-0.6, 0.8).
    let r = particle_at(0, 0, Vec3::new(30 * SCALE, -40 * SCALE, 0));
    assert_eq!(
        AirResistance {}.update_particle(&r).get_direction(),
        Vec3::new(30 * SCALE - 471_238, -40 * SCALE + 628_318, 0)
    );
}

#[test]
fn a_particle_at_rest_feels_no_drag() {
    let p = particle_at(5 * SCALE, 5 * SCALE, Vec3::new(0, 0, 0));
    assert_eq!(AirResistance {}.update_particle(&p), p);
}

#[test]
fn a_dead_particle_feels_no_drag() {
    let mut p = particle_at(0, 0, Vec3::new(3 * SCALE, 4 * SCALE, 0));
    p.kill();
    assert_eq!(AirResistance {}.update_particle(&p), p);
}

#[test]
fn a_gravity_well_has_three_shells_with_open_outer_edges() {
    let well = GravityWell::new(Point3::new(100 * SCALE, 100 * SCALE, 0), 7 * SCALE, 10 * SCALE);
    let pull_at = |x: i64| {
        let p = particle_at(x, 100 * SCALE, Vec3::default());
        let q = well.update_particle(&p);
        assert!(only_velocity_changed(&p, &q));
        q.get_direction()
    };
    // Just inside the first shell: the full strength, times the mass 5.
    assert_eq!(pull_at(110 * SCALE - 1), Vec3::new(-349_999_965, 0, 0));
    // On its edge and just beyond: half the strength.
    assert_eq!(pull_at(110 * SCALE), Vec3::new(-175_000_000, 0, 0));
    assert_eq!(pull_at(110 * SCALE + 1), Vec3::new(-175_000_017, 0, 0));
    assert_eq!(pull_at(120 * SCALE - 1), Vec3::new(-349_999_982, 0, 0));
    // Third shell: a third of the strength.
    assert_eq!(pull_at(120 * SCALE), Vec3::new(-233_333_333, 0, 0));
    assert_eq!(pull_at(130 * SCALE - 1), Vec3::new(-349_999_988, 0, 0));
    // Outside.
    assert_eq!(pull_at(130 * SCALE), Vec3::new(0, 0, 0));
    assert_eq!(pull_at(-500 * SCALE), Vec3::new(0, 0, 0));
}

#[test]
fn the_pull_of_a_shell_is_rounded_once() {
    // 20 * 2 / 3 * 1 = 13.333333...
    let well = GravityWell::new(Point3::new(0, 0, 0), 2 * SCALE, 10 * SCALE);
    let p = ParticleBuilder::new(Point3::new(20 * SCALE, 0, 0), Vec3::default())
        .with_radius(1)
        .create();
    assert_eq!(well.update_particle(&p).get_direction(), Vec3::new(-13_333_333, 0, 0));
    // 30 * 4 / 3 * 5 = 200, which a scalar holds exactly.
    let big = BigGravityWell::new(Point3::new(0, 0, 0), 4 * SCALE, 10 * SCALE, 3);
    let q = particle_at(30 * SCALE, 0, Vec3::default());
    assert_eq!(big.update_particle(&q).get_direction(), Vec3::new(-200 * SCALE, 0, 0));
    // Outside the third shell, which ends at 47.5, and beyond the second of
    // two shells.
    let far = particle_at(50 * SCALE, 0, Vec3::default());
    assert_eq!(big.update_particle(&far), far);
    let two = BigGravityWell::new(Point3::new(0, 0, 0), 4 * SCALE, 10 * SCALE, 2);
    assert_eq!(two.update_particle(&q), q);
}

#[test]
fn a_gravity_well_pulls_toward_its_centre_from_every_side() {
    let well = GravityWell::new(Point3::new(0, 0, 0), SCALE, 10 * SCALE);
    let p = ParticleBuilder::new(Point3::new(-3 * SCALE, 4 * SCALE, 0), Vec3::default())
        .with_radius(1)
        .create();
    assert_eq!(well.update_particle(&p).get_direction(), Vec3::new(3 * SCALE, -4 * SCALE, 0));
    // The centre itself is inside but has no direction to be pulled in.
    let c = particle_at(0, 0, Vec3::new(1, 1, 1));
    assert_eq!(well.update_particle(&c), c);
}

#[test]
fn the_distance_to_a_well_is_taken_in_the_plane() {
    let well = GravityWell::new(Point3::new(0, 0, 0), SCALE, 10 * SCALE);
    let p = ParticleBuilder::new(Point3::new(SCALE, 0, 500 * SCALE), Vec3::default())
        .with_radius(1)
        .create();
    assert_eq!(well.update_particle(&p).get_direction(), Vec3::new(-SCALE, 0, -500 * SCALE));
}

#[test]
fn a_big_well_applies_only_the_first_shell_that_holds_the_particle() {
    // Shell radii 1, 2.5, 4.75, 8.125, ...
    let well = BigGravityWell::new(Point3::new(0, 0, 0), SCALE, SCALE, 13);
    let pull_at = |x: i64| {
        let p = particle_at(x, 0, Vec3::default());
        let q = well.update_particle(&p);
        assert!(only_velocity_changed(&p, &q));
        q.get_direction()
    };
    assert_eq!(pull_at(500_000), Vec3::new(-2_500_000, 0, 0));
    // Inside shell 2 only: exactly half the strength times the mass, and
    // not the sum of what shells 2 to 13 would each add.
    assert_eq!(pull_at(2_000_000), Vec3::new(-5_000_000, 0, 0));
    assert_eq!(pull_at(1_000_000), Vec3::new(-2_500_000, 0, 0));
    assert_eq!(pull_at(2_499_999), Vec3::new(-6_249_997, 0, 0));
    assert_eq!(pull_at(2_500_000), Vec3::new(-4_166_666, 0, 0));
    assert_eq!(pull_at(4_000_000), Vec3::new(-6_666_666, 0, 0));
    assert_eq!(pull_at(100 * SCALE), Vec3::new(-50_000_000, 0, 0));
}

#[test]
fn a_big_well_leaves_alone_what_no_shell_holds() {
    let two = BigGravityWell::new(Point3::new(0, 0, 0), SCALE, SCALE, 2);
    let p = particle_at(2_500_000, 0, Vec3::new(1, 2, 3));
    assert_eq!(two.update_particle(&p), p);
    let none = BigGravityWell::new(Point3::new(0, 0, 0), SCALE, SCALE, 0);
    let q = particle_at(0, 0, Vec3::new(1, 2, 3));
    assert_eq!(none.update_particle(&q), q);
}

#[test]
fn a_big_well_with_a_great_many_shells_stops_at_the_first_hit() {
    let well = BigGravityWell::new(Point3::new(0, 0, 0), SCALE, SCALE, u64::MAX);
    let p = particle_at(2_000_000, 0, Vec3::default());
    assert_eq!(well.update_particle(&p).get_direction(), Vec3::new(-5_000_000, 0, 0));
}

#[test]
fn fields_do_not_commute() {
    // Drag reads the velocity that gravity has already changed.
    let p = particle_at(0, 0, Vec3::new(3 * SCALE, 0, 0));
    let g = ForceField::Gravity(Gravity {});
    let a = ForceField::AirResistance(AirResistance {});
    let ga = a.update_particle(&g.update_particle(&p));
    let ag = g.update_particle(&a.update_particle(&p));
    assert_ne!(ga, ag);
}

#[test]
fn a_force_field_acts_as_the_field_it_holds() {
    let p = particle_at(105 * SCALE, 100 * SCALE, Vec3::new(3 * SCALE, 4 * SCALE, 0));
    let well = GravityWell::new(Point3::new(100 * SCALE, 100 * SCALE, 0), 7 * SCALE, 10 * SCALE);
    let big = BigGravityWell::new(Point3::new(100 * SCALE, 100 * SCALE, 0), SCALE, SCALE, 13);
    assert_eq!(ForceField::Gravity(Gravity {}).update_particle(&p), Gravity {}.update_particle(&p));
    assert_eq!(ForceField::Wind(Wind {}).update_particle(&p), Wind {}.update_particle(&p));
    assert_eq!(
        ForceField::AirResistance(AirResistance {}).update_particle(&p),
        AirResistance {}.update_particle(&p)
    );
    assert_eq!(ForceField::GravityWell(well).update_particle(&p), well.update_particle(&p));
    assert_eq!(ForceField::BigGravityWell(big).update_particle(&p), big.update_particle(&p));
    assert_ne!(well.update_particle(&p), p);
    assert_ne!(big.update_particle(&p), p);
}

#[test]
fn only_wells_can_be_drawn() {
    let well = GravityWell::new(Point3::new(1, 2, 3), 4, 5);
    let big = BigGravityWell::new(Point3::new(1, 2, 3), 4, 5, 6);
    assert_eq!(Gravity {}.as_drawable(), None);
    assert_eq!(Wind {}.as_drawable(), None);
    assert_eq!(AirResistance {}.as_drawable(), None);
    assert_eq!(well.as_drawable(), Some(Overlay::Well(well)));
    assert_eq!(big.as_drawable(), Some(Overlay::BigWell(big)));
    assert_eq!(ForceField::Wind(Wind {}).as_drawable(), None);
    assert_eq!(ForceField::GravityWell(well).as_drawable(), Some(Overlay::Well(well)));
    assert_eq!(ForceField::BigGravityWell(big).as_drawable(), Some(Overlay::BigWell(big)));
    assert_eq!(GravityWell::default(), GravityWell::new(Point3::new(0, 0, 0), 0, 0));
    assert_eq!(BigGravityWell::default(), BigGravityWell::new(Point3::new(0, 0, 0), 0, 0, 0));
}

fn blue(green: u8, alpha: u8) -> Color {
    Color { red: 0, green, blue: 255, alpha }
}

#[test]
fn a_gravity_well_is_drawn_as_its_shells_and_centre() {
    let well = GravityWell::new(Point3::new(300 * SCALE, 200 * SCALE, 0), 7 * SCALE, 10 * SCALE);
    let discs = vec![
        Shape::Disc { x: 300, y: 200, radius: 30, color: blue(0, 100) },
        Shape::Disc { x: 300, y: 200, radius: 20, color: blue(0, 150) },
        Shape::Disc { x: 300, y: 200, radius: 10, color: blue(0, 200) },
        Shape::Disc { x: 300, y: 200, radius: 5, color: blue(0, 255) },
    ];
    assert_eq!(well.draw_window(), discs);
    assert_eq!(well.draw_surface(), discs);
    assert_eq!(Overlay::Well(well).draw_surface(), discs);
}

#[test]
fn a_big_well_is_drawn_shell_by_shell() {
    let well = BigGravityWell::new(Point3::new(10 * SCALE, 20 * SCALE, 0), SCALE, SCALE, 3);
    assert_eq!(
        well.draw_window(),
        vec![
            Shape::Disc { x: 10, y: 20, radius: 1, color: blue(0, 55) },
            Shape::Disc { x: 10, y: 20, radius: 2, color: blue(12, 75) },
            Shape::Disc { x: 10, y: 20, radius: 4, color: blue(24, 95) },
        ]
    );
    // 255 / 4 = 63 less opaque per shell.
    assert_eq!(
        well.draw_surface(),
        vec![
            Shape::Disc { x: 10, y: 20, radius: 1, color: blue(0, 255) },
            Shape::Disc { x: 10, y: 20, radius: 2, color: blue(0, 192) },
            Shape::Disc { x: 10, y: 20, radius: 4, color: blue(0, 129) },
        ]
    );
    assert_eq!(Overlay::BigWell(well).draw_window(), well.draw_window());
    assert_eq!(Overlay::BigWell(well).draw_surface(), well.draw_surface());
}

#[test]
fn the_colours_of_a_big_well_stop_at_the_full_value() {
    let well = BigGravityWell::new(Point3::new(0, 0, 0), SCALE, SCALE, 30);
    let shapes = well.draw_window();
    assert_eq!(shapes.len(), 30);
    let colour_of = |i: usize| match shapes[i] {
        Shape::Disc { color, .. } => color,
        Shape::Frame { .. } => unreachable!(),
    };
    assert_eq!(colour_of(9), blue(108, 235));
    assert_eq!(colour_of(10), blue(120, 255));
    assert_eq!(colour_of(11), blue(132, 255));
    assert_eq!(colour_of(21), blue(252, 255));
    assert_eq!(colour_of(22), blue(255, 255));
    assert_eq!(colour_of(29), blue(255, 255));
    assert!(BigGravityWell::new(Point3::new(0, 0, 0), 1, 1, 0).draw_window().is_empty());
    assert!(BigGravityWell::new(Point3::new(0, 0, 0), 1, 1, 0).draw_surface().is_empty());
}
