//! Particles: kinematic state, lifecycle and builder.

use vstd::prelude::*;
use crate::drawable::{pixel, pixel_of, Color, Drawable, Shape};
use crate::point3::Point3;
use crate::scalar::{wide_ratio, SCALE};
use crate::vec3::Vec3;

verus! {

/// Mass of a particle per unit of radius (`1.0`).
pub const PARTICLE_DENSITY: i64 = 1_000_000;

/// A tick moves a particle by its velocity divided by this scalar (`10.0`).
pub const SUBSTEP_DIVISOR: i64 = 10_000_000;

/// Radius of a particle unless the builder is told otherwise.
pub const DEFAULT_RADIUS: i16 = 5;

/// Lifetime of a particle, in ticks, unless the builder is told otherwise.
pub const DEFAULT_LIFETIME: u64 = 250;

/// A point mass with a limited lifetime.
#[derive(Debug, Clone, Copy, PartialEq, Eq, Structural)]
pub struct Particle {
    position: Point3,
    direction: Vec3,
    alive: bool,
    lifetime: u64,
    max_lifetime: u64,
    radius: i16,
    mass: i64,
}

/// The state of a particle, as contracts see it.
pub struct ParticleState {
    pub position: Point3,
    pub velocity: Vec3,
    pub alive: bool,
    pub lifetime: u64,
    pub max_lifetime: u64,
    pub radius: i16,
    pub mass: i64,
}

/// The part of its lifetime that a particle has left: `lifetime /
/// max_lifetime` as a scalar between `0.0` and `1.0`, rounded down; `0.0`
/// for a particle that never had a lifetime.
pub open spec fn remaining(lifetime: u64, max_lifetime: u64) -> int {
    if max_lifetime == 0 {
        0
    } else {
        (lifetime * SCALE) / (max_lifetime as int)
    }
}

/// The level, from 0 to 255, that stands for the part `part` of `whole`
/// squared: 255 times the exact quotient, rounded down once. A particle that
/// never had a lifetime has no colour.
pub open spec fn level(part: int, whole: int) -> int {
    if whole == 0 {
        0
    } else {
        (255 * part) / (whole * whole)
    }
}

impl ParticleState {
    /// What holds of every particle: the mass follows the radius, the
    /// lifetime never exceeds its start value, and a particle with no
    /// lifetime left is dead.
    pub open spec fn wf(self) -> bool {
        &&& self.mass == self.radius * PARTICLE_DENSITY
        &&& self.lifetime <= self.max_lifetime
        &&& self.alive ==> self.lifetime >= 1
    }

    /// The state of a fresh particle at `position` with velocity `velocity`.
    pub open spec fn fresh(position: Point3, velocity: Vec3) -> ParticleState {
        ParticleState {
            position,
            velocity,
            alive: true,
            lifetime: DEFAULT_LIFETIME,
            max_lifetime: DEFAULT_LIFETIME,
            radius: DEFAULT_RADIUS,
            mass: (DEFAULT_RADIUS * PARTICLE_DENSITY) as i64,
        }
    }

    /// The state one tick later: a living particle moves by a tenth of its
    /// velocity and loses one tick of lifetime, dying when none is left; a
    /// dead particle stays as it is.
    pub open spec fn integrated(self) -> ParticleState {
        if self.alive {
            ParticleState {
                position: self.position.moved(self.velocity.shrunk(SUBSTEP_DIVISOR)),
                lifetime: (self.lifetime - 1) as u64,
                alive: self.lifetime != 1,
                ..self
            }
        } else {
            self
        }
    }

    /// The state after the force `f` was added to the velocity.
    pub open spec fn pushed(self, f: Vec3) -> ParticleState {
        ParticleState { velocity: self.velocity.sum(f), ..self }
    }

    /// The state of the particle once dead.
    pub open spec fn killed(self) -> ParticleState {
        ParticleState { alive: false, ..self }
    }

    /// The state at another position.
    pub open spec fn placed(self, position: Point3) -> ParticleState {
        ParticleState { position, ..self }
    }

    /// The state with another radius, and the mass that goes with it.
    pub open spec fn resized(self, radius: i16) -> ParticleState {
        ParticleState { radius, mass: (radius * PARTICLE_DENSITY) as i64, ..self }
    }

    /// The state with `lifetime` ticks to live, out of as many. A particle
    /// given no lifetime is dead.
    pub open spec fn timed(self, lifetime: u64) -> ParticleState {
        ParticleState {
            lifetime,
            max_lifetime: lifetime,
            alive: self.alive && lifetime >= 1,
            ..self
        }
    }

    /// Opacity of the particle, full at birth and none at the end: 255
    /// times the square of the part of its lifetime that is left.
    pub open spec fn alpha(self) -> int {
        level(self.lifetime * self.lifetime, self.max_lifetime as int)
    }

    /// Green part of the colour, none at birth and full at the end: 255
    /// times one minus the square of the part of the lifetime that is left.
    pub open spec fn green(self) -> int {
        level(
            self.max_lifetime * self.max_lifetime - self.lifetime * self.lifetime,
            self.max_lifetime as int,
        )
    }

    /// The disc that shows the particle.
    pub open spec fn disc(self) -> Shape {
        Shape::Disc {
            x: pixel_of(self.position.x),
            y: pixel_of(self.position.y),
            radius: self.radius,
            color: Color {
                red: 255,
                green: self.green() as u8,
                blue: 0,
                alpha: self.alpha() as u8,
            },
        }
    }
}

/// After any change of radius the mass is the radius times the density, and
/// the particle is as well-formed as it was.
pub proof fn lemma_mass_follows_radius(p: ParticleState, radius: i16)
    ensures
        p.resized(radius).mass == radius * PARTICLE_DENSITY,
        p.resized(radius).radius == radius,
        p.wf() ==> p.resized(radius).wf(),
{
}

/// One tick of a particle on its own: while it lives, its lifetime falls by
/// exactly one, and it dies exactly when none is left; once dead it never
/// changes again. Mass and radius are never touched.
pub proof fn lemma_integration(p: ParticleState)
    requires
        p.wf(),
    ensures
        p.integrated().wf(),
        p.alive ==> p.integrated().lifetime == p.lifetime - 1,
        p.alive ==> (p.integrated().alive <==> p.integrated().lifetime != 0),
        !p.alive ==> p.integrated() == p,
        p.integrated().velocity == p.velocity,
        p.integrated().radius == p.radius,
        p.integrated().mass == p.mass,
        p.integrated().max_lifetime == p.max_lifetime,
{
}

impl View for Particle {
    type V = ParticleState;

    closed spec fn view(&self) -> ParticleState {
        ParticleState {
            position: self.position,
            velocity: self.direction,
            alive: self.alive,
            lifetime: self.lifetime,
            max_lifetime: self.max_lifetime,
            radius: self.radius,
            mass: self.mass,
        }
    }
}

impl Particle {
    #[verifier::type_invariant]
    pub open spec fn inv(self) -> bool {
        self@.wf()
    }

    /// A living particle at `p` with velocity `d`, of the default radius and
    /// lifetime.
    pub fn new(p: Point3, d: Vec3) -> (r: Particle)
        ensures
            r@ == ParticleState::fresh(p, d),
            r@.wf(),
    {
        Particle {
            position: p,
            direction: d,
            alive: true,
            lifetime: DEFAULT_LIFETIME,
            max_lifetime: DEFAULT_LIFETIME,
            radius: DEFAULT_RADIUS,
            mass: 5 * PARTICLE_DENSITY,
        }
    }

    pub fn is_alive(&self) -> (r: bool)
        ensures
            r == self@.alive,
    {
        self.alive
    }

    pub fn get_position(&self) -> (r: Point3)
        ensures
            r == self@.position,
    {
        self.position
    }

    pub fn get_direction(&self) -> (r: Vec3)
        ensures
            r == self@.velocity,
    {
        self.direction
    }

    pub fn get_lifetime(&self) -> (r: u64)
        ensures
            r == self@.lifetime,
            r <= self@.max_lifetime,
    {
        proof {
            use_type_invariant(self);
        }
        self.lifetime
    }

    pub fn get_max_lifetime(&self) -> (r: u64)
        ensures
            r == self@.max_lifetime,
    {
        self.max_lifetime
    }

    pub fn get_radius(&self) -> (r: i16)
        ensures
            r == self@.radius,
    {
        self.radius
    }

    /// The mass, which is always the radius times the density.
    pub fn get_mass(&self) -> (r: i64)
        ensures
            r == self@.mass,
            r == self@.radius * PARTICLE_DENSITY,
    {
        proof {
            use_type_invariant(self);
        }
        self.mass
    }

    /// A particle in the same state.
    pub fn copy(&self) -> (r: Particle)
        ensures
            r@ == self@,
    {
        proof {
            use_type_invariant(self);
        }
        Particle {
            position: self.position,
            direction: self.direction,
            alive: self.alive,
            lifetime: self.lifetime,
            max_lifetime: self.max_lifetime,
            radius: self.radius,
            mass: self.mass,
        }
    }

    /// Advances the particle by one tick.
    pub fn update(&mut self)
        ensures
            final(self)@ == old(self)@.integrated(),
            old(self)@.wf(),
            final(self)@.wf(),
    {
        proof {
            use_type_invariant(&*self);
        }
        if self.alive {
            let mut position: Point3 = self.position;
            position.apply_vec(self.direction.div_scalar(SUBSTEP_DIVISOR));
            let lifetime: u64 = self.lifetime - 1;
            *self = Particle { position, lifetime, alive: lifetime != 0, ..*self };
        }
    }

    /// Adds the force `f` to the velocity.
    pub fn apply_force(&mut self, f: Vec3)
        ensures
            final(self)@ == old(self)@.pushed(f),
    {
        proof {
            use_type_invariant(&*self);
        }
        let direction: Vec3 = self.direction.add(f);
        *self = Particle { direction, ..*self };
    }

    /// Marks the particle dead.
    pub fn kill(&mut self)
        ensures
            final(self)@ == old(self)@.killed(),
    {
        proof {
            use_type_invariant(&*self);
        }
        *self = Particle { alive: false, ..*self };
    }

    /// Puts the particle at `p`.
    pub fn set_position(&mut self, p: Point3)
        ensures
            final(self)@ == old(self)@.placed(p),
    {
        proof {
            use_type_invariant(&*self);
        }
        *self = Particle { position: p, ..*self };
    }

    /// The part of its lifetime that the particle has left, as a scalar
    /// between `0.0` and `1.0`.
    pub fn lifetime_ratio(&self) -> (r: i64)
        ensures
            r == remaining(self@.lifetime, self@.max_lifetime),
            0 <= r <= SCALE,
    {
        proof {
            use_type_invariant(self);
        }
        ratio(self.lifetime, self.max_lifetime) as i64
    }

    /// Opacity of the particle, from its remaining lifetime.
    pub fn compute_alpha(&self) -> (r: u8)
        ensures
            r == self@.alpha(),
    {
        proof {
            use_type_invariant(self);
        }
        if self.max_lifetime == 0 {
            0
        } else {
            let left: u128 = self.lifetime as u128;
            let whole: u128 = self.max_lifetime as u128;
            assert((255 * left) * left == 255 * (left * left) && (255 * left) * left <= 255 * (
            whole * whole)) by (nonlinear_arith)
                requires
                    0 <= left <= whole,
            ;
            shade(255 * left, left, whole)
        }
    }

    /// Green part of the particle's colour, from its remaining lifetime.
    pub fn compute_green(&self) -> (r: u8)
        ensures
            r == self@.green(),
    {
        proof {
            use_type_invariant(self);
        }
        if self.max_lifetime == 0 {
            0
        } else {
            let gone: u64 = self.max_lifetime - self.lifetime;
            let both: u128 = self.max_lifetime as u128 + self.lifetime as u128;
            assert((255 * both) * gone == 255 * (self.max_lifetime * self.max_lifetime
                - self.lifetime * self.lifetime) && (255 * both) * gone <= 255 * (
            self.max_lifetime * self.max_lifetime)) by (nonlinear_arith)
                requires
                    both == self.max_lifetime + self.lifetime,
                    gone == self.max_lifetime - self.lifetime,
                    0 <= self.lifetime <= self.max_lifetime,
            ;
            shade(255 * both, gone as u128, self.max_lifetime as u128)
        }
    }

    /// Sets the radius, and with it the mass.
    pub fn change_radius(&mut self, rad: i16)
        ensures
            final(self)@ == old(self)@.resized(rad),
            final(self)@.mass == rad * PARTICLE_DENSITY,
    {
        proof {
            use_type_invariant(&*self);
        }
        *self = Particle { radius: rad, mass: rad as i64 * PARTICLE_DENSITY, ..*self };
    }

    /// Sets the lifetime and the start value it is measured against.
    fn change_lifetime(&mut self, lifetime: u64)
        ensures
            final(self)@ == old(self)@.timed(lifetime),
    {
        proof {
            use_type_invariant(&*self);
        }
        *self = Particle {
            lifetime,
            max_lifetime: lifetime,
            alive: self.alive && lifetime >= 1,
            ..*self
        };
    }
}

/// `lifetime / max_lifetime`, as a scalar.
fn ratio(lifetime: u64, max_lifetime: u64) -> (r: u64)
    requires
        lifetime <= max_lifetime,
    ensures
        r == remaining(lifetime, max_lifetime),
        r <= SCALE,
{
    if max_lifetime == 0 {
        0
    } else {
        let r: u128 = (lifetime as u128 * 1_000_000) / (max_lifetime as u128);
        assert(r <= 1_000_000) by (nonlinear_arith)
            requires
                r == (lifetime * 1_000_000) / (max_lifetime as int),
                lifetime <= max_lifetime,
                max_lifetime > 0,
        ;
        r as u64
    }
}

/// The product `p * m` over the square of `whole`, as a level: both
/// factors are small enough against `whole` for the level to be at most 255.
fn shade(p: u128, m: u128, whole: u128) -> (r: u8)
    requires
        1 <= whole <= u64::MAX,
        m <= whole,
        p <= 510 * whole,
        p * m <= 255 * (whole * whole),
    ensures
        r == (p * m) / (whole * whole),
{
    proof {
        assert(p / whole <= 510) by (nonlinear_arith)
            requires
                p <= 510 * whole,
                whole >= 1,
        ;
        assert((p / whole + 1) * m <= 511 * 0xffff_ffff_ffff_ffff && (whole - 1) * m
            <= 0xffff_ffff_ffff_ffff * 0xffff_ffff_ffff_ffff) by (nonlinear_arith)
            requires
                p / whole <= 510,
                m <= whole,
                1 <= whole <= 0xffff_ffff_ffff_ffff,
        ;
        assert((p * m) / (whole * whole) <= 255) by (nonlinear_arith)
            requires
                p * m <= 255 * (whole * whole),
                whole >= 1,
        ;
    }
    let q: u128 = wide_ratio(p, m, whole, whole);
    q as u8
}

impl Default for Particle {
    /// A dead particle at the origin, without size or lifetime.
    fn default() -> (r: Particle)
        ensures
            r@ == (ParticleState {
                position: Point3::origin(),
                velocity: Vec3::zero(),
                alive: false,
                lifetime: 0,
                max_lifetime: 0,
                radius: 0,
                mass: 0,
            }),
    {
        Particle {
            position: Point3 { x: 0, y: 0, z: 0 },
            direction: Vec3 { x: 0, y: 0, z: 0 },
            alive: false,
            lifetime: 0,
            max_lifetime: 0,
            radius: 0,
            mass: 0,
        }
    }
}

impl Drawable for Particle {
    open spec fn window_shapes(&self) -> Seq<Shape> {
        seq![self@.disc()]
    }

    open spec fn surface_shapes(&self) -> Seq<Shape> {
        seq![self@.disc()]
    }

    fn draw_window(&self) -> (shapes: Vec<Shape>) {
        self.own_disc()
    }

    fn draw_surface(&self) -> (shapes: Vec<Shape>) {
        self.own_disc()
    }
}

impl Particle {
    /// The one disc that shows the particle.
    fn own_disc(&self) -> (shapes: Vec<Shape>)
        ensures
            shapes@ == seq![self@.disc()],
    {
        let mut shapes: Vec<Shape> = Vec::new();
        shapes.push(
            Shape::Disc {
                x: pixel(self.position.x),
                y: pixel(self.position.y),
                radius: self.radius,
                color: Color {
                    red: 255,
                    green: self.compute_green(),
                    blue: 0,
                    alpha: self.compute_alpha(),
                },
            },
        );
        shapes
    }
}

/// Builds particles from a template.
pub struct ParticleBuilder {
    template: Particle,
}

impl View for ParticleBuilder {
    type V = ParticleState;

    /// The state of the particles that the builder creates.
    closed spec fn view(&self) -> ParticleState {
        self.template@
    }
}

impl ParticleBuilder {
    /// A builder of particles at `start_pos` with velocity `start_dir`.
    pub fn new(start_pos: Point3, start_dir: Vec3) -> (b: ParticleBuilder)
        ensures
            b@ == ParticleState::fresh(start_pos, start_dir),
    {
        ParticleBuilder { template: Particle::new(start_pos, start_dir) }
    }

    /// Sets the radius of the particles, and with it their mass.
    pub fn with_radius(&mut self, radius: i16) -> (b: &mut ParticleBuilder)
        ensures
            b@ == old(self)@.resized(radius),
            *final(self) == *final(b),
    {
        self.template.change_radius(radius);
        self
    }

    /// Sets the lifetime of the particles.
    pub fn with_lifetime(&mut self, lifetime: u64) -> (b: &mut ParticleBuilder)
        ensures
            b@ == old(self)@.timed(lifetime),
            *final(self) == *final(b),
    {
        self.template.change_lifetime(lifetime);
        self
    }

    /// A particle in the state of the template.
    pub fn create(&self) -> (p: Particle)
        ensures
            p@ == self@,
    {
        self.template
    }
}

} // verus!
