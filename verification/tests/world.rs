use particles::particle::{Particle, ParticleBuilder};
use particles::physic_property::{
    AirResistance, BigGravityWell, ForceField, Gravity, GravityWell, PhysicProperty, Wind,
};
use particles::point3::Point3;
use particles::rectangle::Rectangle;
use particles::scalar::SCALE;
use particles::vec3::Vec3;
use particles::world::{
    advance, BoundaryPolicy, Schedule, World, WorldConfig, WorldError, COMPACTION_THRESHOLD,
};

fn room(width: i64, height: i64, depth: i64) -> Rectangle {
    Rectangle {
        up_left_corner: Point3::new(0, 0, 0),
        height: height * SCALE,
        width: width * SCALE,
        depth: depth * SCALE,
    }
}

fn bouncing() -> WorldConfig {
    WorldConfig { schedule: Schedule::AllFields, policy: BoundaryPolicy::ElasticBounce }
}

fn taking_turns() -> WorldConfig {
    WorldConfig { schedule: Schedule::RoundRobin, policy: BoundaryPolicy::KillOnExit }
}

#[test]
fn a_new_world_is_empty_and_runs_all_fields_and_kills_on_exit() {
    let b = room(100, 100, 0);
    let w = World::new(vec![ForceField::Wind(Wind {})], b, b.center(), |p| {
        Particle::new(p, Vec3::default())
    });
    assert_eq!(w.total_count(), 0);
    assert_eq!(w.alive_count(), 0);
    assert!(w.particles().is_empty());
    assert_eq!(w.properties(), &vec![ForceField::Wind(Wind {})]);
    assert_eq!(*w.boundaries(), b);
    assert_eq!(
        w.config(),
        WorldConfig { schedule: Schedule::AllFields, policy: BoundaryPolicy::KillOnExit }
    );
}

#[test]
fn taking_turns_among_no_fields_is_refused() {
    let b = room(100, 100, 0);
    let made = World::with_config(vec![], b, b.center(), |p| Particle::new(p, Vec3::default()),
        taking_turns());
    assert!(matches!(made, Err(WorldError::NoForceFields)));
    let all = World::with_config(vec![], b, b.center(), |p| Particle::new(p, Vec3::default()),
        bouncing());
    assert!(all.is_ok());
    let one = World::with_config(
        vec![ForceField::Gravity(Gravity {})],
        b,
        b.center(),
        |p| Particle::new(p, Vec3::default()),
        taking_turns(),
    );
    assert!(matches!(one, Ok(ref w) if w.config() == taking_turns()));
}

#[test]
fn particles_are_created_by_the_factory_at_the_spawn_point() {
    let b = room(100, 100, 0);
    let spawn = Point3::new(7 * SCALE, 9 * SCALE, 0);
    let mut w = World::new(vec![], b, spawn, |p| {
        ParticleBuilder::new(p, Vec3::new(1, 2, 3)).with_radius(2).with_lifetime(40).create()
    });
    w.create_particle();
    w.create_particle();
    assert_eq!(w.total_count(), 2);
    assert_eq!(w.alive_count(), 2);
    for p in w.particles() {
        assert_eq!(p.get_position(), spawn);
        assert_eq!(p.get_direction(), Vec3::new(1, 2, 3));
        assert_eq!(p.get_radius(), 2);
        assert_eq!(p.get_lifetime(), 40);
    }
    let extra = Particle::new(Point3::new(1, 1, 0), Vec3::default());
    w.add_particle(extra);
    assert_eq!(w.total_count(), 3);
    assert_eq!(w.particles()[2], extra);
}

#[test]
fn without_fields_a_particle_keeps_its_velocity_and_moves_by_a_tenth_of_it() {
    let b = room(100, 100, 100);
    let velocity = Vec3::new(12 * SCALE, -7 * SCALE, 3 * SCALE + 5);
    for config in [
        WorldConfig { schedule: Schedule::AllFields, policy: BoundaryPolicy::KillOnExit },
        bouncing(),
    ] {
        let mut w = World::with_config(vec![], b, b.center(), |p| Particle::new(p, velocity),
            config).unwrap();
        w.create_particle();
        w.update();
        let p = w.particles()[0];
        assert_eq!(p.get_direction(), velocity);
        assert_eq!(p.get_position(), Point3::new(51_200_000, 49_300_000, 50_300_000));
        assert_eq!(p.get_lifetime(), 249);
        assert!(p.is_alive());
    }
}

#[test]
fn ten_ticks_of_gravity_alone() {
    let b = room(100, 1000, 0);
    let start = b.center();
    let mut w = World::new(vec![ForceField::Gravity(Gravity {})], b, start, |p| {
        ParticleBuilder::new(p, Vec3::default()).with_radius(1).create()
    });
    w.create_particle();
    for _ in 0..10 {
        w.update();
    }
    let p = w.particles()[0];
    assert_eq!(p.get_direction(), Vec3::new(0, 10 * SCALE, 0));
    // 1/10 + 2/10 + ... + 10/10 = 5.5
    assert_eq!(p.get_position().y - start.y, 5_500_000);
    assert_eq!(p.get_position().x, start.x);
    assert_eq!(p.get_lifetime(), 240);
    assert!(p.is_alive());
    let y = p.get_position().y as f64 / SCALE as f64;
    let sum: f64 = (1..=10).map(|i| i as f64 / 10.0).sum();
    assert!((y - (start.y as f64 / SCALE as f64) - sum).abs() < 1e-9);
}

#[test]
fn dead_particles_stay_in_the_store_until_the_sweep() {
    let b = room(100, 100, 0);
    let mut w = World::new(vec![], b, b.center(), |p| {
        ParticleBuilder::new(p, Vec3::default()).with_lifetime(1).create()
    });
    for _ in 0..150 {
        w.create_particle();
    }
    assert_eq!((w.total_count(), w.alive_count()), (150, 150));
    w.update();
    assert_eq!((w.total_count(), w.alive_count()), (150, 0));
    // Three that outlive the sweep, and two that do not.
    let lasting = ParticleBuilder::new(b.center(), Vec3::default()).with_lifetime(500).create();
    let brief = ParticleBuilder::new(b.center(), Vec3::default()).with_lifetime(10).create();
    for p in [lasting, brief, lasting, brief, lasting] {
        w.add_particle(p);
    }
    for _ in 0..99 {
        w.update();
        assert_eq!(w.total_count(), 155);
    }
    assert_eq!(w.alive_count(), 3);
    // The hundredth tick after the first one sweeps.
    w.update();
    assert_eq!((w.total_count(), w.alive_count()), (3, 3));
    for p in w.particles() {
        assert_eq!(p.get_lifetime(), 400);
    }
    // And the count starts again.
    w.add_particle(brief);
    for _ in 0..100 {
        w.update();
        assert_eq!(w.total_count(), 4);
    }
    w.update();
    assert_eq!(w.total_count(), 3);
    assert_eq!(COMPACTION_THRESHOLD, 100);
}

#[test]
fn the_sweep_keeps_the_order_of_the_living() {
    let b = room(100, 100, 0);
    let mut w = World::new(vec![], b, b.center(), |p| Particle::new(p, Vec3::default()));
    for i in 0..10u64 {
        let lifetime = if i % 2 == 0 { 1000 + i } else { 5 };
        w.add_particle(
            ParticleBuilder::new(b.center(), Vec3::default()).with_lifetime(lifetime).create(),
        );
    }
    for _ in 0..101 {
        w.update();
    }
    let left: Vec<u64> = w.particles().iter().map(|p| p.get_max_lifetime()).collect();
    assert_eq!(left, vec![1000, 1002, 1004, 1006, 1008]);
    assert_eq!(w.live_particles(), *w.particles());
}

#[test]
fn the_living_are_listed_without_the_dead() {
    let b = room(100, 100, 0);
    let mut w = World::new(vec![], b, b.center(), |p| Particle::new(p, Vec3::default()));
    let lasting = ParticleBuilder::new(b.center(), Vec3::default()).with_lifetime(50).create();
    let brief = ParticleBuilder::new(b.center(), Vec3::default()).with_lifetime(1).create();
    for p in [brief, lasting, brief, brief, lasting] {
        w.add_particle(p);
    }
    w.update();
    assert_eq!((w.total_count(), w.alive_count()), (5, 2));
    let live = w.live_particles();
    assert_eq!(live.len(), 2);
    assert!(live.iter().all(|p| p.is_alive() && p.get_lifetime() == 49));
}

#[test]
fn a_particle_that_leaves_a_killing_boundary_dies_where_it_is() {
    let b = room(100, 100, 0);
    let mut w = World::new(vec![], b, Point3::new(99 * SCALE, 50 * SCALE, 0), |p| {
        Particle::new(p, Vec3::new(20 * SCALE, 0, 0))
    });
    w.create_particle();
    w.update();
    let p = w.particles()[0];
    assert!(!p.is_alive());
    assert_eq!(p.get_position(), Point3::new(101 * SCALE, 50 * SCALE, 0));
    assert_eq!(p.get_lifetime(), 249);
    // It never comes back, though the next step would not move it anyway.
    w.update();
    assert_eq!(w.particles()[0], p);
}

#[test]
fn a_particle_on_the_face_of_a_killing_boundary_lives() {
    let b = room(100, 100, 0);
    let mut w = World::new(vec![], b, Point3::new(99 * SCALE, 50 * SCALE, 0), |p| {
        Particle::new(p, Vec3::new(10 * SCALE, 0, 0))
    });
    w.create_particle();
    w.update();
    assert_eq!(w.particles()[0].get_position().x, 100 * SCALE);
    assert!(w.particles()[0].is_alive());
    w.update();
    assert!(!w.particles()[0].is_alive());
}

#[test]
fn a_reflecting_wall_puts_the_particle_back_and_reverses_it() {
    let b = room(100, 100, 100);
    let step = |at: Point3, velocity: Vec3| {
        let p = Particle::new(at, velocity);
        advance(&vec![], &b, &bouncing(), 0, &p)
    };
    let mid = 50 * SCALE;
    // Low wall of x: the edge at 1 - 5 is beyond it.
    let q = step(Point3::new(3 * SCALE, mid, mid), Vec3::new(-20 * SCALE, SCALE, 0));
    assert_eq!(q.get_position(), Point3::new(5 * SCALE, mid + 100_000, mid));
    assert_eq!(q.get_direction(), Vec3::new(20 * SCALE, SCALE, 0));
    // High wall of x.
    let q = step(Point3::new(97 * SCALE, mid, mid), Vec3::new(20 * SCALE, 0, 0));
    assert_eq!(q.get_position(), Point3::new(95 * SCALE, mid, mid));
    assert_eq!(q.get_direction(), Vec3::new(-20 * SCALE, 0, 0));
    // Both walls of y and of z.
    let q = step(Point3::new(mid, 3 * SCALE, 97 * SCALE), Vec3::new(0, -20 * SCALE, 20 * SCALE));
    assert_eq!(q.get_position(), Point3::new(mid, 5 * SCALE, 95 * SCALE));
    assert_eq!(q.get_direction(), Vec3::new(0, 20 * SCALE, -20 * SCALE));
    // A particle that is already on its way back is left alone.
    let q = step(Point3::new(3 * SCALE, mid, mid), Vec3::new(10 * SCALE, 0, 0));
    assert_eq!(q.get_position(), Point3::new(4 * SCALE, mid, mid));
    assert_eq!(q.get_direction(), Vec3::new(10 * SCALE, 0, 0));
    assert!(q.is_alive());
}

#[test]
fn a_flat_reflecting_boundary_leaves_the_depth_alone() {
    let b = room(100, 100, 0);
    let p = Particle::new(Point3::new(50 * SCALE, 50 * SCALE, 0), Vec3::new(SCALE, SCALE, 0));
    let q = advance(&vec![], &b, &bouncing(), 0, &p);
    assert_eq!(q.get_position(), Point3::new(50_100_000, 50_100_000, 0));
    assert_eq!(q.get_direction(), Vec3::new(SCALE, SCALE, 0));
}

#[test]
fn fields_act_in_the_order_of_the_list() {
    let b = room(1000, 1000, 0);
    let p = Particle::new(b.center(), Vec3::new(3 * SCALE, 0, 0));
    let fields = vec![
        ForceField::Gravity(Gravity {}),
        ForceField::Wind(Wind {}),
        ForceField::AirResistance(AirResistance {}),
    ];
    let mut by_hand = p;
    for f in &fields {
        by_hand = f.update_particle(&by_hand);
    }
    by_hand.update();
    let config = WorldConfig { schedule: Schedule::AllFields, policy: BoundaryPolicy::KillOnExit };
    assert_eq!(advance(&fields, &b, &config, 0, &p), by_hand);
    let mut w =
        World::new(fields, b, b.center(), |at| Particle::new(at, Vec3::new(3 * SCALE, 0, 0)));
    w.create_particle();
    w.update();
    assert_eq!(w.particles()[0], by_hand);
}

#[test]
fn taking_turns_applies_one_field_per_tick() {
    let b = room(1000, 1000, 0);
    let fields = vec![ForceField::Gravity(Gravity {}), ForceField::Wind(Wind {})];
    let mut w = World::with_config(
        fields,
        b,
        b.center(),
        |at| ParticleBuilder::new(at, Vec3::default()).with_radius(1).create(),
        taking_turns(),
    )
    .unwrap_or_else(|_| unreachable!());
    w.create_particle();
    w.update();
    assert_eq!(w.particles()[0].get_direction(), Vec3::new(0, SCALE, 0));
    w.update();
    assert_eq!(w.particles()[0].get_direction(), Vec3::new(-250_000, SCALE, 0));
    w.update();
    assert_eq!(w.particles()[0].get_direction(), Vec3::new(-250_000, 2 * SCALE, 0));
    w.update();
    assert_eq!(w.particles()[0].get_direction(), Vec3::new(-500_000, 2 * SCALE, 0));
}

#[test]
fn every_particle_of_a_large_store_is_stepped_once() {
    let b = room(2000, 2000, 0);
    let fields = vec![
        ForceField::Gravity(Gravity {}),
        ForceField::Wind(Wind {}),
        ForceField::AirResistance(AirResistance {}),
        ForceField::GravityWell(GravityWell::new(
            Point3::new(800 * SCALE, 700 * SCALE, 0),
            7 * SCALE,
            10 * SCALE,
        )),
        ForceField::BigGravityWell(BigGravityWell::new(
            Point3::new(500 * SCALE, 1000 * SCALE, 0),
            SCALE,
            SCALE,
            13,
        )),
    ];
    let mut w = World::with_config(fields.clone(), b, b.center(), |at| {
        Particle::new(at, Vec3::default())
    }, bouncing()).unwrap_or_else(|_| unreachable!());
    let mut before = Vec::new();
    for i in 0..5000i64 {
        let p = ParticleBuilder::new(
            Point3::new((i % 2000) * SCALE, ((i * 7) % 2000) * SCALE, 0),
            Vec3::new((i % 13 - 6) * SCALE, (i % 17 - 8) * SCALE, 0),
        )
        .with_radius((i % 9 + 1) as i16)
        .with_lifetime((i % 5 + 1) as u64)
        .create();
        before.push(p);
        w.add_particle(p);
    }
    w.update();
    assert_eq!(w.total_count(), 5000);
    let mut changed = 0;
    for (old, new) in before.iter().zip(w.particles()) {
        assert_eq!(*new, advance(&fields, &b, &bouncing(), 0, old));
        if new != old {
            changed += 1;
        }
    }
    assert_eq!(changed, 5000);
}
