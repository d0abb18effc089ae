//! The world: particles, the force fields that act on them, the boundary
//! that holds them, and the tick that advances them.

use vstd::prelude::*;
use rayon::iter::{IntoParallelRefMutIterator, ParallelIterator};
use crate::particle::{Particle, ParticleState, SUBSTEP_DIVISOR};
use crate::physic_property::{lemma_field_changes_velocity_only, ForceField, PhysicProperty};
use crate::point3::Point3;
use crate::rectangle::Rectangle;
use crate::scalar::{
    difference, from_int, minus, negate, negation, plus, product, sat, sum, times, trunc_div, whole,
};
use crate::vec3::Vec3;

verus! {

/// Dead particles are removed on the tick after this many ticks without a
/// removal.
pub const COMPACTION_THRESHOLD: i16 = 100;

/// Which force fields act in one tick.
#[derive(Debug, Clone, Copy, PartialEq, Eq, Structural)]
pub enum Schedule {
    /// All of them, in the order of the list.
    AllFields,
    /// One of them, the next of the list at each tick. An approximation
    /// that has to be asked for.
    RoundRobin,
}

/// What happens to a particle at the boundary.
#[derive(Debug, Clone, Copy, PartialEq, Eq, Structural)]
pub enum BoundaryPolicy {
    /// A particle that has left the boundary dies.
    KillOnExit,
    /// A particle that runs into a wall is put back and reflected.
    ElasticBounce,
}

/// How a world runs its ticks.
#[derive(Debug, Clone, Copy, PartialEq, Eq, Structural)]
pub struct WorldConfig {
    pub schedule: Schedule,
    pub policy: BoundaryPolicy,
}

/// Why a world cannot be made.
#[derive(Debug, Clone, Copy, PartialEq, Eq, Structural)]
pub enum WorldError {
    /// Taking turns needs at least one force field.
    NoForceFields,
}

/// A population of particles under force fields, within a boundary.
pub struct World<F: Fn(Point3) -> Particle> {
    particles: Vec<Particle>,
    properties: Vec<ForceField>,
    boundaries: Rectangle,
    particle_creation_point: Point3,
    create_particle_fun: F,
    config: WorldConfig,
    cpt: i16,
    iter: usize,
}

/// The state of a world, as contracts see it.
pub struct WorldState {
    /// The particles in the store, dead ones included, in store order.
    pub particles: Seq<ParticleState>,
    /// The force fields, in the order in which they act.
    pub fields: Seq<ForceField>,
    pub boundary: Rectangle,
    /// Where new particles appear.
    pub spawn_point: Point3,
    pub config: WorldConfig,
    /// Ticks since dead particles were last removed.
    pub ticks: int,
    /// Index of the force field whose turn it is.
    pub turn: int,
}

/// The states of the particles of `s`.
pub open spec fn states(s: Seq<Particle>) -> Seq<ParticleState> {
    Seq::new(s.len(), |i: int| s[i]@)
}

/// The living particles of `s`, in their order.
pub open spec fn living(s: Seq<ParticleState>) -> Seq<ParticleState> {
    s.filter(|p: ParticleState| p.alive)
}

/// The state of `p` after each field of `fields` has acted on it in turn,
/// every field on what the one before it made of the particle.
pub open spec fn apply_all(fields: Seq<ForceField>, p: ParticleState) -> ParticleState
    decreases fields.len(),
{
    if fields.len() == 0 {
        p
    } else {
        fields.last().updated(apply_all(fields.drop_last(), p))
    }
}

/// The velocity component `v` after the impulse of a wall: minus twice `v`
/// is added to it, which reverses it.
pub open spec fn rebound(v: i64) -> i64 {
    sum(v, product(negation(v), whole(2)))
}

/// Position and velocity along one axis after the walls at `lo` and at
/// `lo + extent` have acted on a particle of radius `rad`. A particle whose
/// edge is beyond a wall while it moves further into it is put back to
/// touch the wall and rebounds; otherwise nothing changes.
pub open spec fn bounce_axis(pos: i64, vel: i64, rad: i64, lo: i64, extent: i64) -> (i64, i64) {
    let hi = sum(lo, extent);
    if difference(pos, rad) < lo && vel < 0 {
        (sum(lo, rad), rebound(vel))
    } else if hi < sum(pos, rad) && vel > 0 {
        (difference(hi, rad), rebound(vel))
    } else {
        (pos, vel)
    }
}

/// The state of `p` after the walls of `b` have acted on it, each axis on
/// its own.
pub open spec fn bounced(b: Rectangle, p: ParticleState) -> ParticleState {
    let rad = whole(p.radius as int);
    let x = bounce_axis(p.position.x, p.velocity.x, rad, b.up_left_corner.x, b.width);
    let y = bounce_axis(p.position.y, p.velocity.y, rad, b.up_left_corner.y, b.height);
    let z = bounce_axis(p.position.z, p.velocity.z, rad, b.up_left_corner.z, b.depth);
    ParticleState {
        position: Point3 { x: x.0, y: y.0, z: z.0 },
        velocity: Vec3 { x: x.1, y: y.1, z: z.1 },
        ..p
    }
}

/// The state of `p` after the boundary `b` has acted on it.
pub open spec fn contained(
    b: Rectangle,
    policy: BoundaryPolicy,
    p: ParticleState,
) -> ParticleState {
    match policy {
        BoundaryPolicy::KillOnExit => if b.contains(p.position) {
            p
        } else {
            p.killed()
        },
        BoundaryPolicy::ElasticBounce => bounced(b, p),
    }
}

/// The state of `p` after the force fields of this tick have acted on it.
pub open spec fn forced(
    fields: Seq<ForceField>,
    schedule: Schedule,
    turn: int,
    p: ParticleState,
) -> ParticleState {
    match schedule {
        Schedule::AllFields => apply_all(fields, p),
        Schedule::RoundRobin => fields[turn].updated(p),
    }
}

/// The state of `p` one tick later: the force fields act, the particle
/// moves and ages, and the boundary acts.
pub open spec fn step(
    fields: Seq<ForceField>,
    boundary: Rectangle,
    config: WorldConfig,
    turn: int,
    p: ParticleState,
) -> ParticleState {
    contained(boundary, config.policy, forced(fields, config.schedule, turn, p).integrated())
}

impl WorldState {
    /// The particles one tick later, none removed.
    pub open spec fn stepped(self) -> Seq<ParticleState> {
        Seq::new(
            self.particles.len(),
            |i: int| step(self.fields, self.boundary, self.config, self.turn, self.particles[i]),
        )
    }

    /// Whether the next tick removes the dead particles.
    pub open spec fn compacts(self) -> bool {
        self.ticks + 1 > COMPACTION_THRESHOLD
    }

    /// The index of the force field whose turn it is after the next tick.
    pub open spec fn next_turn(self) -> int {
        match self.config.schedule {
            Schedule::AllFields => self.turn,
            Schedule::RoundRobin => (self.turn + 1) % (self.fields.len() as int),
        }
    }

    /// The state one tick later. Every particle is stepped on its own; then
    /// the tick is counted and, if the count passes the threshold, the dead
    /// particles are removed and the count starts again.
    pub open spec fn ticked(self) -> WorldState {
        WorldState {
            particles: if self.compacts() {
                living(self.stepped())
            } else {
                self.stepped()
            },
            ticks: if self.compacts() {
                0
            } else {
                self.ticks + 1
            },
            turn: self.next_turn(),
            ..self
        }
    }

    /// The state with the particle `p` added at the end of the store.
    pub open spec fn joined(self, p: ParticleState) -> WorldState {
        WorldState { particles: self.particles.push(p), ..self }
    }

    /// What holds of every world: the count of ticks stays within the
    /// threshold, and a world that takes turns has a field whose turn it is.
    pub open spec fn wf(self) -> bool {
        &&& 0 <= self.ticks <= COMPACTION_THRESHOLD
        &&& self.config.schedule == Schedule::RoundRobin ==> 0 <= self.turn < self.fields.len()
    }
}

impl<F: Fn(Point3) -> Particle> View for World<F> {
    type V = WorldState;

    closed spec fn view(&self) -> WorldState {
        WorldState {
            particles: states(self.particles@),
            fields: self.properties@,
            boundary: self.boundaries,
            spawn_point: self.particle_creation_point,
            config: self.config,
            ticks: self.cpt as int,
            turn: self.iter as int,
        }
    }
}

impl<F: Fn(Point3) -> Particle> World<F> {
    /// The capability that makes the world's new particles.
    pub closed spec fn factory(&self) -> F {
        self.create_particle_fun
    }

    #[verifier::type_invariant]
    pub open spec fn inv(&self) -> bool {
        &&& self@.wf()
        &&& call_requires(self.factory(), (self@.spawn_point,))
    }

    /// Whether the factory may hand out a particle in the state `s` when
    /// asked for one at the spawn point.
    pub open spec fn may_create(&self, s: ParticleState) -> bool {
        exists|p: Particle| call_ensures(self.factory(), (self@.spawn_point,), p) && p@ == s
    }

    /// An empty world in which all fields of `pr` act at every tick and
    /// particles die when they leave `b`. New particles are made by `f` at
    /// `c`.
    pub fn new(pr: Vec<ForceField>, b: Rectangle, c: Point3, f: F) -> (w: World<F>)
        requires
            call_requires(f, (c,)),
        ensures
            w@ == (WorldState {
                particles: Seq::empty(),
                fields: pr@,
                boundary: b,
                spawn_point: c,
                config: WorldConfig {
                    schedule: Schedule::AllFields,
                    policy: BoundaryPolicy::KillOnExit,
                },
                ticks: 0,
                turn: 0,
            }),
            w.factory() == f,
    {
        let w = World {
            particles: Vec::new(),
            properties: pr,
            boundaries: b,
            particle_creation_point: c,
            create_particle_fun: f,
            config: WorldConfig {
                schedule: Schedule::AllFields,
                policy: BoundaryPolicy::KillOnExit,
            },
            cpt: 0,
            iter: 0,
        };
        assert(w@.particles =~= Seq::empty());
        w
    }

    /// An empty world that runs as `config` says. Taking turns among no
    /// fields is refused.
    pub fn with_config(
        pr: Vec<ForceField>,
        b: Rectangle,
        c: Point3,
        f: F,
        config: WorldConfig,
    ) -> (r: Result<World<F>, WorldError>)
        requires
            call_requires(f, (c,)),
        ensures
            config.schedule == Schedule::RoundRobin && pr@.len() == 0 ==> r is Err && r->Err_0
                == WorldError::NoForceFields,
            !(config.schedule == Schedule::RoundRobin && pr@.len() == 0) ==> r is Ok && r->Ok_0@
                == (WorldState {
                particles: Seq::empty(),
                fields: pr@,
                boundary: b,
                spawn_point: c,
                config,
                ticks: 0,
                turn: 0,
            }) && r->Ok_0.factory() == f,
    {
        let taking_turns: bool = match config.schedule {
            Schedule::RoundRobin => true,
            Schedule::AllFields => false,
        };
        if taking_turns && pr.len() == 0 {
            Err(WorldError::NoForceFields)
        } else {
            let w = World {
                particles: Vec::new(),
                properties: pr,
                boundaries: b,
                particle_creation_point: c,
                create_particle_fun: f,
                config,
                cpt: 0,
                iter: 0,
            };
            assert(w@.particles =~= Seq::empty());
            Ok(w)
        }
    }

    /// Advances the world by one tick.
    pub fn update(&mut self)
        ensures
            final(self)@ == old(self)@.ticked(),
            final(self).factory() == old(self).factory(),
    {
        proof {
            use_type_invariant(&*self);
        }
        let mut particles: Vec<Particle> = self.take_particles();
        advance_all(&mut particles, &self.properties, &self.boundaries, &self.config, self.iter);
        assert(states(particles@) =~= old(self)@.stepped());
        let ticks: i16 = self.cpt + 1;
        if ticks > COMPACTION_THRESHOLD {
            self.particles = retain_alive(&particles);
            self.cpt = 0;
        } else {
            self.particles = particles;
            self.cpt = ticks;
        }
        let taking_turns: bool = match self.config.schedule {
            Schedule::RoundRobin => true,
            Schedule::AllFields => false,
        };
        if taking_turns {
            let fields: usize = self.properties.len();
            self.iter = (self.iter + 1) % fields;
        }
    }

    /// Asks the factory for a particle at the spawn point and adds it to the
    /// store.
    pub fn create_particle(&mut self)
        ensures
            final(self)@ == old(self)@.joined(final(self)@.particles.last()),
            old(self).may_create(final(self)@.particles.last()),
            final(self).factory() == old(self).factory(),
    {
        proof {
            use_type_invariant(&*self);
        }
        let p: Particle = (self.create_particle_fun)(self.particle_creation_point);
        self.add_particle(p);
    }

    /// Adds the particle `p` to the store.
    pub fn add_particle(&mut self, p: Particle)
        ensures
            final(self)@ == old(self)@.joined(p@),
            final(self).factory() == old(self).factory(),
    {
        proof {
            use_type_invariant(&*self);
        }
        let mut particles: Vec<Particle> = self.take_particles();
        particles.push(p);
        assert(states(particles@) =~= states(old(self).particles@).push(p@));
        self.particles = particles;
    }

    /// Takes the store out of the world, which is left without particles
    /// until the store is put back.
    fn take_particles(&mut self) -> (particles: Vec<Particle>)
        ensures
            particles@ == old(self).particles@,
            final(self)@ == (WorldState { particles: Seq::empty(), ..old(self)@ }),
            final(self).factory() == old(self).factory(),
            final(self).inv(),
    {
        proof {
            use_type_invariant(&*self);
        }
        let mut particles: Vec<Particle> = Vec::new();
        core::mem::swap(&mut self.particles, &mut particles);
        assert(states(self.particles@) =~= Seq::empty());
        particles
    }

    /// The particles in the store, dead ones included.
    pub fn particles(&self) -> (r: &Vec<Particle>)
        ensures
            states(r@) == self@.particles,
    {
        &self.particles
    }

    /// The living particles, in store order.
    pub fn live_particles(&self) -> (r: Vec<Particle>)
        ensures
            states(r@) == living(self@.particles),
    {
        retain_alive(&self.particles)
    }

    /// The force fields, in the order in which they act.
    pub fn properties(&self) -> (r: &Vec<ForceField>)
        ensures
            r@ == self@.fields,
    {
        &self.properties
    }

    /// The boundary.
    pub fn boundaries(&self) -> (r: &Rectangle)
        ensures
            *r == self@.boundary,
    {
        &self.boundaries
    }

    /// How the world runs its ticks.
    pub fn config(&self) -> (r: WorldConfig)
        ensures
            r == self@.config,
    {
        self.config
    }

    /// The number of particles in the store, dead ones included.
    pub fn total_count(&self) -> (r: usize)
        ensures
            r == self@.particles.len(),
    {
        self.particles.len()
    }

    /// The number of living particles.
    pub fn alive_count(&self) -> (r: usize)
        ensures
            r == living(self@.particles).len(),
    {
        let mut count: usize = 0;
        let mut i: usize = 0;
        while i < self.particles.len()
            invariant
                i <= self.particles.len(),
                count <= i,
                count == living(states(self.particles@).take(i as int)).len(),
            decreases self.particles.len() - i,
        {
            proof {
                lemma_living_step(states(self.particles@), i as int);
            }
            if self.particles[i].is_alive() {
                count = count + 1;
            }
            i = i + 1;
        }
        assert(states(self.particles@).take(i as int) =~= states(self.particles@));
        count
    }
}

/// Taking one more particle into account adds it to the living ones if it
/// is alive, and changes nothing if it is dead.
pub proof fn lemma_living_step(s: Seq<ParticleState>, i: int)
    requires
        0 <= i < s.len(),
    ensures
        living(s.take(i + 1)) == if s[i].alive {
            living(s.take(i)).push(s[i])
        } else {
            living(s.take(i))
        },
{
    reveal(Seq::filter);
    assert(s.take(i + 1).drop_last() =~= s.take(i));
}

/// The particle that `p` is one tick later.
pub fn advance(
    fields: &Vec<ForceField>,
    boundary: &Rectangle,
    config: &WorldConfig,
    turn: usize,
    p: &Particle,
) -> (r: Particle)
    requires
        config.schedule == Schedule::RoundRobin ==> turn < fields@.len(),
    ensures
        r@ == step(fields@, *boundary, *config, turn as int, p@),
{
    let mut q: Particle = p.copy();
    match config.schedule {
        Schedule::AllFields => {
            let mut i: usize = 0;
            while i < fields.len()
                invariant
                    i <= fields@.len(),
                    q@ == apply_all(fields@.take(i as int), p@),
                decreases fields@.len() - i,
            {
                assert(fields@.take(i + 1).drop_last() =~= fields@.take(i as int));
                q = fields[i].update_particle(&q);
                i = i + 1;
            }
            assert(fields@.take(i as int) =~= fields@);
        },
        Schedule::RoundRobin => {
            q = fields[turn].update_particle(&q);
        },
    }
    q.update();
    match config.policy {
        BoundaryPolicy::KillOnExit => {
            let pos: Point3 = q.get_position();
            if !boundary.is_in_bound(&pos) {
                q.kill();
            }
        },
        BoundaryPolicy::ElasticBounce => {
            bounce(boundary, &mut q);
        },
    }
    q
}

/// Lets the walls at `lo` and at `lo + extent` act on one axis of a
/// particle of radius `rad`: returns the new position and the impulse.
fn bounce_along(pos: i64, vel: i64, rad: i64, lo: i64, extent: i64) -> (r: (i64, i64))
    ensures
        (r.0, sum(vel, r.1)) == bounce_axis(pos, vel, rad, lo, extent),
{
    let hi: i64 = plus(lo, extent);
    if minus(pos, rad) < lo && vel < 0 {
        (plus(lo, rad), times(negate(vel), from_int(2)))
    } else if hi < plus(pos, rad) && vel > 0 {
        (minus(hi, rad), times(negate(vel), from_int(2)))
    } else {
        (pos, 0)
    }
}

/// Lets the walls of `b` act on `p`.
fn bounce(b: &Rectangle, p: &mut Particle)
    ensures
        final(p)@ == bounced(*b, old(p)@),
{
    let pos: Point3 = p.get_position();
    let dir: Vec3 = p.get_direction();
    let rad: i64 = from_int(p.get_radius() as i64);
    let x: (i64, i64) = bounce_along(pos.x, dir.x, rad, b.up_left_corner.x, b.width);
    let y: (i64, i64) = bounce_along(pos.y, dir.y, rad, b.up_left_corner.y, b.height);
    let z: (i64, i64) = bounce_along(pos.z, dir.z, rad, b.up_left_corner.z, b.depth);
    p.apply_force(Vec3::new(x.1, y.1, z.1));
    p.set_position(Point3::new(x.0, y.0, z.0));
}

/// Steps every particle of the store on rayon's worker pool: the body calls
/// `par_iter_mut` of `rayon::iter::IntoParallelRefMutIterator` on the vector
/// and `for_each` of `rayon::iter::ParallelIterator` on what it returns.
/// Rayon documents that `for_each` executes the closure on each item that
/// the iterator produces, and the iterator of a vector produces a mutable
/// reference to each element; the closure replaces the element by `advance`
/// of it. So the contract claims that the length stays and that each
/// element becomes the step of what it was. In which order the elements are
/// stepped cannot matter, since a step reads one particle only.
#[verifier::external_body]
fn advance_all(
    particles: &mut Vec<Particle>,
    fields: &Vec<ForceField>,
    boundary: &Rectangle,
    config: &WorldConfig,
    turn: usize,
)
    requires
        config.schedule == Schedule::RoundRobin ==> turn < fields@.len(),
    ensures
        final(particles)@.len() == old(particles)@.len(),
        forall|i: int|
            0 <= i < old(particles)@.len() ==> (#[trigger] final(particles)@[i])@ == step(
                fields@,
                *boundary,
                *config,
                turn as int,
                old(particles)@[i]@,
            ),
{
    particles.par_iter_mut().for_each(
        |p: &mut Particle| { *p = advance(fields, boundary, config, turn, p); },
    );
}

/// The living particles of `particles`, in their order.
fn retain_alive(particles: &Vec<Particle>) -> (kept: Vec<Particle>)
    ensures
        states(kept@) == living(states(particles@)),
{
    let mut kept: Vec<Particle> = Vec::new();
    let mut i: usize = 0;
    assert(states(kept@) =~= living(states(particles@).take(0))) by {
        reveal(Seq::filter);
    }
    while i < particles.len()
        invariant
            i <= particles@.len(),
            states(kept@) == living(states(particles@).take(i as int)),
        decreases particles@.len() - i,
    {
        proof {
            lemma_living_step(states(particles@), i as int);
        }
        let p: Particle = particles[i];
        if p.is_alive() {
            kept.push(p);
            assert(states(kept@) =~= living(states(particles@).take(i as int)).push(p@));
        }
        i = i + 1;
    }
    assert(states(particles@).take(i as int) =~= states(particles@));
    kept
}

/// However many force fields act on a particle, they change its velocity
/// and nothing else.
pub proof fn lemma_fields_change_velocity_only(fields: Seq<ForceField>, p: ParticleState)
    ensures
        apply_all(fields, p) == (ParticleState { velocity: apply_all(fields, p).velocity, ..p }),
    decreases fields.len(),
{
    if fields.len() > 0 {
        lemma_fields_change_velocity_only(fields.drop_last(), p);
        lemma_field_changes_velocity_only(fields.last(), apply_all(fields.drop_last(), p));
    }
}

/// The life of a particle over one tick of a world. While the particle
/// lives, its lifetime falls by exactly one. It dies in this tick exactly if
/// no lifetime is left or if it has left a boundary that kills. A dead
/// particle stays dead and keeps its lifetime. Radius, mass and the start
/// value of the lifetime never change.
pub proof fn lemma_lifecycle(
    fields: Seq<ForceField>,
    boundary: Rectangle,
    config: WorldConfig,
    turn: int,
    p: ParticleState,
)
    requires
        p.wf(),
    ensures
        ({
            let q = step(fields, boundary, config, turn, p);
            &&& q.wf()
            &&& p.alive ==> q.lifetime == p.lifetime - 1
            &&& !p.alive ==> !q.alive && q.lifetime == p.lifetime
            &&& p.alive ==> (!q.alive <==> q.lifetime == 0 || (config.policy
                == BoundaryPolicy::KillOnExit && !boundary.contains(q.position)))
            &&& q.radius == p.radius
            &&& q.mass == p.mass
            &&& q.max_lifetime == p.max_lifetime
        }),
{
    lemma_fields_change_velocity_only(fields, p);
    lemma_field_changes_velocity_only(fields[turn], p);
}

/// Whether the particle `p` touches no wall of `b`: along each axis its
/// edges lie between the walls.
pub open spec fn clear_of_walls(b: Rectangle, p: ParticleState) -> bool {
    let rad = whole(p.radius as int);
    &&& b.up_left_corner.x <= difference(p.position.x, rad)
    &&& sum(p.position.x, rad) <= sum(b.up_left_corner.x, b.width)
    &&& b.up_left_corner.y <= difference(p.position.y, rad)
    &&& sum(p.position.y, rad) <= sum(b.up_left_corner.y, b.height)
    &&& b.up_left_corner.z <= difference(p.position.z, rad)
    &&& sum(p.position.z, rad) <= sum(b.up_left_corner.z, b.depth)
}

/// Walls leave a particle alone that does not touch them.
pub proof fn lemma_clear_of_walls(b: Rectangle, p: ParticleState)
    requires
        clear_of_walls(b, p),
    ensures
        bounced(b, p) == p,
{
}

/// With no force fields, a tick leaves the velocity of a living particle as
/// it is and moves the particle by a tenth of its velocity, whether the
/// boundary kills or reflects, as long as the particle does not run into a
/// reflecting wall.
pub proof fn lemma_free_motion(
    boundary: Rectangle,
    policy: BoundaryPolicy,
    turn: int,
    p: ParticleState,
)
    requires
        p.alive,
        policy == BoundaryPolicy::ElasticBounce ==> clear_of_walls(boundary, p.integrated()),
    ensures
        ({
            let config = WorldConfig { schedule: Schedule::AllFields, policy };
            let q = step(Seq::empty(), boundary, config, turn, p);
            &&& q.velocity == p.velocity
            &&& q.position == p.position.moved(p.velocity.shrunk(SUBSTEP_DIVISOR))
            &&& q.position.x == sat(p.position.x + trunc_div(p.velocity.x as int, 10))
            &&& q.position.y == sat(p.position.y + trunc_div(p.velocity.y as int, 10))
            &&& q.position.z == sat(p.position.z + trunc_div(p.velocity.z as int, 10))
        }),
{
    crate::scalar::lemma_whole_part_of(p.velocity.x, 10);
    crate::scalar::lemma_whole_part_of(p.velocity.y, 10);
    crate::scalar::lemma_whole_part_of(p.velocity.z, 10);
    assert(whole(10) == SUBSTEP_DIVISOR);
}

/// The impulse of a wall reverses a velocity component, unless the
/// component is so large that its double cannot be told.
pub proof fn lemma_rebound_reverses(v: i64)
    requires
        -4_000_000_000_000_000_000 <= v <= 4_000_000_000_000_000_000,
    ensures
        rebound(v) == -v,
{
    crate::scalar::lemma_whole_multiple(negation(v), 2);
}

/// The living particles of a store are alive, and there are no more of
/// them than particles in the store.
pub proof fn lemma_living(s: Seq<ParticleState>)
    ensures
        living(s).len() <= s.len(),
        forall|i: int| 0 <= i < living(s).len() ==> (#[trigger] living(s)[i]).alive,
        (forall|i: int| 0 <= i < s.len() ==> (#[trigger] s[i]).alive) ==> living(s) == s,
    decreases s.len(),
{
    reveal(Seq::filter);
    if s.len() > 0 {
        lemma_living(s.drop_last());
        if forall|i: int| 0 <= i < s.len() ==> (#[trigger] s[i]).alive {
            assert forall|i: int| 0 <= i < s.drop_last().len() implies (#[trigger] s.drop_last()[
                i
            ]).alive by {
                assert(s[i].alive);
            }
            assert(s.last().alive);
            assert(s.drop_last().push(s.last()) =~= s);
        }
    }
}

/// What a tick does to the store. Dead particles are removed on the tick
/// that follows a hundred ticks without removal, and on no other. A tick
/// that removes none keeps every particle in its place; one that removes
/// leaves only living particles, in the order they had.
pub proof fn lemma_compaction(s: WorldState)
    requires
        s.wf(),
    ensures
        s.ticked().wf(),
        s.compacts() <==> s.ticks == COMPACTION_THRESHOLD,
        !s.compacts() ==> s.ticked().particles.len() == s.particles.len() && s.ticked().ticks
            == s.ticks + 1,
        s.compacts() ==> s.ticked().particles == living(s.stepped()) && s.ticked().ticks == 0,
        s.compacts() ==> forall|i: int|
            0 <= i < s.ticked().particles.len() ==> (#[trigger] s.ticked().particles[i]).alive,
        s.ticked().particles.len() <= s.particles.len(),
{
    lemma_living(s.stepped());
    if s.config.schedule == Schedule::RoundRobin {
        assert(0 <= (s.turn + 1) % (s.fields.len() as int) < s.fields.len());
    }
}

} // verus!
