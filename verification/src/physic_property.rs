//! Force fields: pure transforms of one particle's state.
//!
//! A field reads one particle and returns the particle it becomes; it keeps
//! no state of its own and never sees another particle. Fields applied one
//! after another each read what the one before returned, so their order
//! matters.

use vstd::prelude::*;
use crate::drawable::{pixel, pixel_of, Color, Drawable, Shape};
use crate::particle::{Particle, ParticleState};
use crate::point3::Point3;
use crate::scalar::{
    difference, from_int, lemma_product_sign, lemma_rounded_once, magnitude, minus, negate,
    negation, plus, product, sat, sum, times, trunc_div, whole, wide_magnitude, wide_ratio,
    wide_square, with_sign, SCALE,
};
use crate::vec3::Vec3;

verus! {

/// Downward acceleration of gravity (`1.0`).
pub const GRAVITY: i64 = 1_000_000;

/// Strength of the wind (`0.25`).
pub const WIND: i64 = 250_000;

/// Density of the air (`1.0`).
pub const AIR_DENSITY: i64 = 1_000_000;

/// Drag coefficient of a particle (`0.02`).
pub const DRAG_COEFFICIENT: i64 = 20_000;

/// The circle constant in steps of a millionth of a raw step, rounded down.
pub const PI_FINE: i64 = 3_141_592_653_589;

/// Number of steps of `PI_FINE` in one.
pub const PI_FINE_SCALE: i64 = 1_000_000_000_000;

/// Each shell of a big gravity well is this much wider than the one inside
/// it (`1.5`), plus the innermost radius.
pub const SHELL_GROWTH: i64 = 1_500_000;

/// Colour of a gravity well, at the given opacity.
pub open spec fn well_color(green: u8, alpha: u8) -> Color {
    Color { red: 0, green, blue: 255, alpha }
}

/// The squared distance between `a` and `b` in the plane of x and y, in raw
/// steps squared and exact.
pub open spec fn planar_distance_squared(a: Point3, b: Point3) -> int {
    let dx = difference(a.x, b.x);
    let dy = difference(a.y, b.y);
    dx * dx + dy * dy
}

/// Whether a point at squared distance `dist` from a centre lies nearer to
/// it than `radius`. The squares are compared exactly, and a point at the
/// distance `radius` itself is not nearer.
pub open spec fn nearer_than(dist: int, radius: i64) -> bool {
    dist < radius * radius
}

/// The displacement that leads from `from` to `to`.
pub open spec fn offset(from: Point3, to: Point3) -> Vec3 {
    Vec3 {
        x: difference(to.x, from.x),
        y: difference(to.y, from.y),
        z: difference(to.z, from.z),
    }
}

/// One component of the pull of shell number `shell` on a particle `away`
/// from the centre along that axis: minus the exact product of distance,
/// strength and mass, divided by the shell's number and rounded toward zero
/// once.
pub open spec fn pull_part(away: i64, strength: i64, mass: i64, shell: int) -> i64 {
    sat(trunc_div(-(away * strength * mass), shell * SCALE * SCALE))
}

/// The pull of shell number `shell` of a well at `center` on the particle
/// `p`: it points from the particle to the centre, and grows with the
/// distance, with the shell's part of the strength and with the mass.
pub open spec fn attraction(center: Point3, strength: i64, shell: int, p: ParticleState) -> Vec3 {
    let away = offset(center, p.position);
    Vec3 {
        x: pull_part(away.x, strength, p.mass, shell),
        y: pull_part(away.y, strength, p.mass, shell),
        z: pull_part(away.z, strength, p.mass, shell),
    }
}

/// A drawable view of a force field that has one.
#[derive(Debug, Clone, Copy, PartialEq, Eq, Structural)]
pub enum Overlay {
    Well(GravityWell),
    BigWell(BigGravityWell),
}

/// A physical influence on particles: a function from the state of one
/// particle to its next state, which neither keeps state of its own nor
/// looks at other particles. That is what allows a world to step its
/// particles in any order, or at the same time.
pub trait PhysicProperty {
    /// The state that the field turns `p` into.
    spec fn updated(&self, p: ParticleState) -> ParticleState;

    /// What shows the field, if anything does.
    spec fn overlay(&self) -> Option<Overlay>;

    /// The particle that `p` becomes under the field.
    fn update_particle(&self, p: &Particle) -> (r: Particle)
        ensures
            r@ == self.updated(p@),
    ;

    /// The drawable view of the field; only wells have one.
    fn as_drawable(&self) -> (r: Option<Overlay>)
        ensures
            r == self.overlay(),
    ;
}

/// Constant downward acceleration, scaled by the particle's mass.
#[derive(Debug, Clone, Copy, PartialEq, Eq, Structural)]
pub struct Gravity {}

impl PhysicProperty for Gravity {
    open spec fn updated(&self, p: ParticleState) -> ParticleState {
        p.pushed(Vec3 { x: 0, y: product(GRAVITY, p.mass), z: 0 })
    }

    open spec fn overlay(&self) -> Option<Overlay> {
        None
    }

    fn update_particle(&self, p: &Particle) -> (r: Particle) {
        let mut tmp: Particle = p.copy();
        tmp.apply_force(Vec3::new(0, times(GRAVITY, p.get_mass()), 0));
        tmp
    }

    fn as_drawable(&self) -> (r: Option<Overlay>) {
        None
    }
}

/// Constant sideways force. Unlike gravity it is not scaled by the mass:
/// the wind changes the velocity of every particle alike, by choice of the
/// model.
#[derive(Debug, Clone, Copy, PartialEq, Eq, Structural)]
pub struct Wind {}

impl PhysicProperty for Wind {
    open spec fn updated(&self, p: ParticleState) -> ParticleState {
        p.pushed(Vec3 { x: negation(WIND), y: 0, z: 0 })
    }

    open spec fn overlay(&self) -> Option<Overlay> {
        None
    }

    fn update_particle(&self, p: &Particle) -> (r: Particle) {
        let mut tmp: Particle = p.copy();
        tmp.apply_force(Vec3::new(negate(WIND), 0, 0));
        tmp
    }

    fn as_drawable(&self) -> (r: Option<Overlay>) {
        None
    }
}

/// Drag that opposes the velocity.
#[derive(Debug, Clone, Copy, PartialEq, Eq, Structural)]
pub struct AirResistance {}


/// The speed at which `p` moves in the plane of x and y: the length of the step
/// that one tick takes it.
pub open spec fn probe_speed(p: ParticleState) -> i64 {
    let next = p.integrated();
    Vec3 {
        x: difference(next.position.x, p.position.x),
        y: difference(next.position.y, p.position.y),
        z: 0,
    }.norm()
}

/// The size of the drag on `p`: half the product of air density, drag
/// coefficient, cross-section and speed, formed exactly and rounded toward
/// zero once. The cross-section is taken as pi times the radius, a linear
/// stand-in for the area of a disc.
pub open spec fn drag(p: ParticleState) -> i64 {
    sat(
        trunc_div(
            AIR_DENSITY * DRAG_COEFFICIENT * PI_FINE * p.radius * probe_speed(p),
            2 * SCALE * SCALE * PI_FINE_SCALE,
        ),
    )
}

impl PhysicProperty for AirResistance {
    /// A particle at rest feels no drag; a moving one is pushed against its
    /// velocity's direction by a force of the size of the drag.
    open spec fn updated(&self, p: ParticleState) -> ParticleState {
        if p.velocity == Vec3::zero() {
            p
        } else {
            p.pushed(p.velocity.stretched(negation(drag(p))))
        }
    }

    open spec fn overlay(&self) -> Option<Overlay> {
        None
    }

    fn update_particle(&self, p: &Particle) -> (r: Particle) {
        let mut next_point: Particle = p.copy();
        next_point.update();
        let step: Vec3 = Vec3::new(
            minus(next_point.get_position().x, p.get_position().x),
            minus(next_point.get_position().y, p.get_position().y),
            0,
        );
        let speed: i64 = step.length();
        let f: i64 = drag_on(p.get_radius(), speed);
        let mut tmp: Particle = p.copy();
        match p.get_direction().with_length(negate(f)) {
            Ok(force) => {
                tmp.apply_force(force);
            },
            Err(_) => {},
        }
        tmp
    }

    fn as_drawable(&self) -> (r: Option<Overlay>) {
        None
    }
}

/// Half the product of air density, drag coefficient, pi, `radius` and
/// `speed`.
fn drag_on(radius: i16, speed: i64) -> (f: i64)
    requires
        speed >= 0,
    ensures
        f == sat(
            trunc_div(
                AIR_DENSITY * DRAG_COEFFICIENT * PI_FINE * radius * speed,
                2 * SCALE * SCALE * PI_FINE_SCALE,
            ),
        ),
{
    let size: u128 = wide_magnitude(radius as i64);
    let base: u128 = 62_831_853_071_780_000_000_000;
    let wide: u128 = base * size;
    let pace: u128 = speed as u128;
    proof {
        assert(AIR_DENSITY * DRAG_COEFFICIENT * PI_FINE == base);
        assert(2 * SCALE * SCALE * PI_FINE_SCALE == 1_000_000_000_000 * 2_000_000_000_000);
        let exact = AIR_DENSITY * DRAG_COEFFICIENT * PI_FINE * radius * speed;
        assert(exact == (base * radius) * speed) by (nonlinear_arith)
            requires
                exact == AIR_DENSITY * DRAG_COEFFICIENT * PI_FINE * radius * speed,
                AIR_DENSITY * DRAG_COEFFICIENT * PI_FINE == base,
        ;
        lemma_product_sign(base as int, radius as int);
        lemma_product_sign(base * radius, speed as int);
        assert(magnitude(exact) == wide * pace);
        assert(wide / 1_000_000_000_000 <= 2_058_874_161_456_087);
        assert((wide / 1_000_000_000_000 + 1) * pace <= 2_058_874_161_456_088
            * 0x8000_0000_0000_0000) by (nonlinear_arith)
            requires
                wide / 1_000_000_000_000 <= 2_058_874_161_456_087,
                pace <= 0x8000_0000_0000_0000,
        ;
        assert(1_000_000_000_000 * pace <= 1_000_000_000_000 * 0x8000_0000_0000_0000)
            by (nonlinear_arith)
            requires
                pace <= 0x8000_0000_0000_0000,
        ;
        assert(exact < 0 ==> radius < 0);
        assert(radius < 0 ==> exact <= 0);
    }
    let q: u128 = wide_ratio(wide, pace, 1_000_000_000_000, 2_000_000_000_000);
    with_sign(q, radius < 0)
}

/// An attractor with three shells of falling strength.
#[derive(Debug, Clone, Copy, PartialEq, Eq, Structural)]
pub struct GravityWell {
    pub position: Point3,
    pub strength: i64,
    pub area_of_effect: i64,
}

/// The shell of a well of radius `aoe` that a point at squared distance
/// `dist` from its centre lies in: 1, 2 or 3 from the inside, or 0 outside
/// the well. The shells end at one, two and three times the radius, and a
/// point on a shell's edge belongs to the next one.
pub open spec fn well_shell(dist: int, aoe: i64) -> int {
    if nearer_than(dist, aoe) {
        1
    } else if nearer_than(dist, product(aoe, whole(2))) {
        2
    } else if nearer_than(dist, product(aoe, whole(3))) {
        3
    } else {
        0
    }
}

impl GravityWell {
    /// A well at `p` with strength `s` and innermost radius `aoe`.
    pub fn new(p: Point3, s: i64, aoe: i64) -> (w: GravityWell)
        ensures
            w == (GravityWell { position: p, strength: s, area_of_effect: aoe }),
    {
        GravityWell { position: p, strength: s, area_of_effect: aoe }
    }

    /// The shell that the particle `p` lies in, 0 if in none.
    pub open spec fn shell_of(self, p: ParticleState) -> int {
        well_shell(planar_distance_squared(self.position, p.position), self.area_of_effect)
    }

    /// The discs that show the well: the three shells from the outside in,
    /// each more opaque, and the centre.
    pub open spec fn discs(self) -> Seq<Shape> {
        let x = pixel_of(self.position.x);
        let y = pixel_of(self.position.y);
        seq![
            Shape::Disc {
                x,
                y,
                radius: pixel_of(product(self.area_of_effect, whole(3))),
                color: well_color(0, 100),
            },
            Shape::Disc {
                x,
                y,
                radius: pixel_of(product(self.area_of_effect, whole(2))),
                color: well_color(0, 150),
            },
            Shape::Disc { x, y, radius: pixel_of(self.area_of_effect), color: well_color(0, 200) },
            Shape::Disc { x, y, radius: 5, color: well_color(0, 255) },
        ]
    }

    fn own_discs(&self) -> (shapes: Vec<Shape>)
        ensures
            shapes@ == self.discs(),
    {
        let x: i16 = pixel(self.position.x);
        let y: i16 = pixel(self.position.y);
        let mut shapes: Vec<Shape> = Vec::new();
        shapes.push(
            Shape::Disc {
                x,
                y,
                radius: pixel(times(self.area_of_effect, from_int(3))),
                color: Color { red: 0, green: 0, blue: 255, alpha: 100 },
            },
        );
        shapes.push(
            Shape::Disc {
                x,
                y,
                radius: pixel(times(self.area_of_effect, from_int(2))),
                color: Color { red: 0, green: 0, blue: 255, alpha: 150 },
            },
        );
        shapes.push(
            Shape::Disc {
                x,
                y,
                radius: pixel(self.area_of_effect),
                color: Color { red: 0, green: 0, blue: 255, alpha: 200 },
            },
        );
        shapes.push(
            Shape::Disc {
                x,
                y,
                radius: 5,
                color: Color { red: 0, green: 0, blue: 255, alpha: 255 },
            },
        );
        assert(shapes@ =~= self.discs());
        shapes
    }
}

impl Default for GravityWell {
    fn default() -> (w: GravityWell)
        ensures
            w == (GravityWell { position: Point3::origin(), strength: 0, area_of_effect: 0 }),
    {
        GravityWell { position: Point3 { x: 0, y: 0, z: 0 }, strength: 0, area_of_effect: 0 }
    }
}

impl Drawable for GravityWell {
    open spec fn window_shapes(&self) -> Seq<Shape> {
        self.discs()
    }

    open spec fn surface_shapes(&self) -> Seq<Shape> {
        self.discs()
    }

    fn draw_window(&self) -> (shapes: Vec<Shape>) {
        self.own_discs()
    }

    fn draw_surface(&self) -> (shapes: Vec<Shape>) {
        self.own_discs()
    }
}

impl PhysicProperty for GravityWell {
    /// A particle inside a shell is pulled toward the centre with that
    /// shell's part of the strength; one outside the well is left alone.
    open spec fn updated(&self, p: ParticleState) -> ParticleState {
        let shell = self.shell_of(p);
        if shell == 0 {
            p
        } else {
            p.pushed(attraction(self.position, self.strength, shell, p))
        }
    }

    open spec fn overlay(&self) -> Option<Overlay> {
        Some(Overlay::Well(*self))
    }

    fn update_particle(&self, p: &Particle) -> (r: Particle) {
        let pos: Point3 = p.get_position();
        let dist: u128 = planar(&self.position, &pos);
        let aoe: i64 = self.area_of_effect;
        let aoe2: i64 = times(aoe, from_int(2));
        let aoe3: i64 = times(aoe, from_int(3));
        let mut tmp: Particle = p.copy();
        if dist < wide_square(aoe) {
            tmp.apply_force(pull(&self.position, self.strength, 1, p));
        } else if dist < wide_square(aoe2) {
            tmp.apply_force(pull(&self.position, self.strength, 2, p));
        } else if dist < wide_square(aoe3) {
            tmp.apply_force(pull(&self.position, self.strength, 3, p));
        }
        tmp
    }

    fn as_drawable(&self) -> (r: Option<Overlay>) {
        Some(Overlay::Well(*self))
    }
}

/// The squared distance between `a` and `b` in the plane of x and y.
fn planar(a: &Point3, b: &Point3) -> (d: u128)
    ensures
        d == planar_distance_squared(*a, *b),
{
    wide_square(minus(a.x, b.x)) + wide_square(minus(a.y, b.y))
}

/// The pull of shell number `shell` of a well at `center` on `p`.
fn pull(center: &Point3, strength: i64, shell: u64, p: &Particle) -> (f: Vec3)
    requires
        shell >= 1,
    ensures
        f == attraction(*center, strength, shell as int, p@),
{
    let pos: Point3 = p.get_position();
    let mass: i64 = p.get_mass();
    Vec3::new(
        pull_along(minus(pos.x, center.x), strength, mass, shell),
        pull_along(minus(pos.y, center.y), strength, mass, shell),
        pull_along(minus(pos.z, center.z), strength, mass, shell),
    )
}

/// One component of the pull of shell number `shell`.
fn pull_along(away: i64, strength: i64, mass: i64, shell: u64) -> (r: i64)
    requires
        shell >= 1,
        -32_768_000_000 <= mass <= 32_768_000_000,
    ensures
        r == pull_part(away, strength, mass, shell as int),
{
    let reach: u128 = wide_magnitude(away);
    let force: u128 = wide_magnitude(strength);
    let weight: u128 = wide_magnitude(mass);
    proof {
        lemma_product_sign(away as int, strength as int);
        lemma_product_sign(away * strength, mass as int);
        assert(reach * force <= 0x8000_0000_0000_0000 * 0x8000_0000_0000_0000)
            by (nonlinear_arith)
            requires
                reach <= 0x8000_0000_0000_0000,
                force <= 0x8000_0000_0000_0000,
        ;
    }
    let wide: u128 = reach * force;
    proof {
        assert(wide / 1_000_000_000_000 <= 85_070_591_730_234_615_865_843_651);
        assert((wide / 1_000_000_000_000 + 1) * weight <= 85_070_591_730_234_615_865_843_652
            * 32_768_000_000) by (nonlinear_arith)
            requires
                wide / 1_000_000_000_000 <= 85_070_591_730_234_615_865_843_651,
                weight <= 32_768_000_000,
        ;
        assert(1_000_000_000_000 * weight <= 1_000_000_000_000 * 32_768_000_000)
            by (nonlinear_arith)
            requires
                weight <= 32_768_000_000,
        ;
        let exact = away * strength * mass;
        assert(magnitude(-exact) == wide * weight);
        assert(shell * SCALE * SCALE == 1_000_000_000_000 * shell) by (nonlinear_arith)
            requires
                SCALE == 1_000_000,
        ;
        assert(magnitude(1_000_000_000_000 * shell) == 1_000_000_000_000 * shell);
    }
    let q: u128 = wide_ratio(wide, weight, 1_000_000_000_000, shell as u128);
    let falls: bool = ((away < 0) != (strength < 0)) != (mass < 0);
    with_sign(q, !falls)
}

/// An attractor with any number of shells, each wider than the one inside
/// it; only the innermost shell that holds a particle acts on it.
#[derive(Debug, Clone, Copy, PartialEq, Eq, Structural)]
pub struct BigGravityWell {
    pub position: Point3,
    pub strength: i64,
    pub area_of_effect: i64,
    pub layers: u64,
}

/// The outer radius of shell number `shell`, counted from 1: the innermost
/// shell has radius `aoe`, and each further one one and a half times the
/// radius of the one inside it, plus `aoe`.
pub open spec fn shell_radius(aoe: i64, shell: nat) -> i64
    decreases shell,
{
    if shell <= 1 {
        aoe
    } else {
        sum(product(shell_radius(aoe, (shell - 1) as nat), SHELL_GROWTH), aoe)
    }
}

/// Whether a point at squared distance `dist` from the centre lies within
/// the outer radius of shell number `shell`.
pub open spec fn within_shell(dist: int, aoe: i64, shell: nat) -> bool {
    nearer_than(dist, shell_radius(aoe, shell))
}

/// The first shell from number `from` to number `layers` that holds a point
/// at squared distance `dist`; 0 if none does.
pub open spec fn first_shell_from(dist: int, aoe: i64, from: nat, layers: nat) -> nat
    decreases layers + 1 - from,
{
    if from > layers {
        0
    } else if within_shell(dist, aoe, from) {
        from
    } else {
        first_shell_from(dist, aoe, from + 1, layers)
    }
}

/// The innermost of `layers` shells that holds a point at squared distance
/// `dist`, counted from 1; 0 if none does.
pub open spec fn big_well_shell(dist: int, aoe: i64, layers: nat) -> nat {
    first_shell_from(dist, aoe, 1, layers)
}

/// What `first_shell_from` finds is a shell that holds the point, and no
/// shell before it does; it finds none only if no shell holds the point.
pub proof fn lemma_first_shell(dist: int, aoe: i64, from: nat, layers: nat)
    requires
        from >= 1,
    ensures
        ({
            let s = first_shell_from(dist, aoe, from, layers);
            &&& s == 0 || from <= s <= layers
            &&& s != 0 ==> within_shell(dist, aoe, s)
            &&& forall|j: nat|
                from <= j <= layers && (s == 0 || j < s) ==> !within_shell(dist, aoe, j)
        }),
    decreases layers + 1 - from,
{
    if from <= layers && !within_shell(dist, aoe, from) {
        lemma_first_shell(dist, aoe, from + 1, layers);
    }
}

impl BigGravityWell {
    /// A well at `p` with strength `s`, innermost radius `aoe` and `l`
    /// shells.
    pub fn new(p: Point3, s: i64, aoe: i64, l: u64) -> (w: BigGravityWell)
        ensures
            w == (BigGravityWell { position: p, strength: s, area_of_effect: aoe, layers: l }),
    {
        BigGravityWell { position: p, strength: s, area_of_effect: aoe, layers: l }
    }

    /// The shell that acts on the particle `p`, 0 if none does.
    pub open spec fn shell_of(self, p: ParticleState) -> nat {
        big_well_shell(
            planar_distance_squared(self.position, p.position),
            self.area_of_effect,
            self.layers as nat,
        )
    }

    /// The disc that shows shell number `i + 1` in a window: greener and
    /// more opaque from shell to shell, up to the full value.
    pub open spec fn window_disc(self, i: int) -> Shape {
        Shape::Disc {
            x: pixel_of(self.position.x),
            y: pixel_of(self.position.y),
            radius: pixel_of(shell_radius(self.area_of_effect, (i + 1) as nat)),
            color: well_color(
                (if i >= 22 { 255 } else { 12 * i }) as u8,
                (if i >= 10 { 255 } else { 55 + 20 * i }) as u8,
            ),
        }
    }

    /// The disc that shows shell number `i + 1` on a surface: opaque in the
    /// middle, and more transparent by the same step from shell to shell.
    pub open spec fn surface_disc(self, i: int) -> Shape {
        Shape::Disc {
            x: pixel_of(self.position.x),
            y: pixel_of(self.position.y),
            radius: pixel_of(shell_radius(self.area_of_effect, (i + 1) as nat)),
            color: well_color(0, (255 - i * (255int / (self.layers + 1))) as u8),
        }
    }
}

impl Default for BigGravityWell {
    fn default() -> (w: BigGravityWell)
        ensures
            w == (BigGravityWell {
                position: Point3::origin(),
                strength: 0,
                area_of_effect: 0,
                layers: 0,
            }),
    {
        BigGravityWell {
            position: Point3 { x: 0, y: 0, z: 0 },
            strength: 0,
            area_of_effect: 0,
            layers: 0,
        }
    }
}

impl Drawable for BigGravityWell {
    open spec fn window_shapes(&self) -> Seq<Shape> {
        Seq::new(self.layers as nat, |i: int| self.window_disc(i))
    }

    open spec fn surface_shapes(&self) -> Seq<Shape> {
        Seq::new(self.layers as nat, |i: int| self.surface_disc(i))
    }

    fn draw_window(&self) -> (shapes: Vec<Shape>) {
        let x: i16 = pixel(self.position.x);
        let y: i16 = pixel(self.position.y);
        let mut shapes: Vec<Shape> = Vec::new();
        let mut aoe: i64 = self.area_of_effect;
        let mut i: u64 = 0;
        while i < self.layers
            invariant
                i <= self.layers,
                x == pixel_of(self.position.x),
                y == pixel_of(self.position.y),
                aoe == shell_radius(self.area_of_effect, (i + 1) as nat),
                shapes@ == Seq::new(i as nat, |k: int| self.window_disc(k)),
            decreases self.layers - i,
        {
            let green: u8 = if i >= 22 {
                255
            } else {
                (12 * i) as u8
            };
            let alpha: u8 = if i >= 10 {
                255
            } else {
                (55 + 20 * i) as u8
            };
            shapes.push(
                Shape::Disc {
                    x,
                    y,
                    radius: pixel(aoe),
                    color: Color { red: 0, green, blue: 255, alpha },
                },
            );
            aoe = plus(times(aoe, SHELL_GROWTH), self.area_of_effect);
            i = i + 1;
            assert(shapes@ =~= Seq::new(i as nat, |k: int| self.window_disc(k)));
        }
        shapes
    }

    fn draw_surface(&self) -> (shapes: Vec<Shape>) {
        let x: i16 = pixel(self.position.x);
        let y: i16 = pixel(self.position.y);
        let step: u64 = (255 / (self.layers as u128 + 1)) as u64;
        let mut shapes: Vec<Shape> = Vec::new();
        let mut alpha: u64 = 255;
        let mut aoe: i64 = self.area_of_effect;
        let mut i: u64 = 0;
        while i < self.layers
            invariant
                i <= self.layers,
                x == pixel_of(self.position.x),
                y == pixel_of(self.position.y),
                step == 255int / (self.layers + 1),
                alpha == 255 - i * step,
                aoe == shell_radius(self.area_of_effect, (i + 1) as nat),
                shapes@ == Seq::new(i as nat, |k: int| self.surface_disc(k)),
            decreases self.layers - i,
        {
            assert((i + 1) * step <= 255) by (nonlinear_arith)
                requires
                    i < self.layers,
                    step == 255int / (self.layers + 1),
            ;
            assert((i + 1) * step == i * step + step) by (nonlinear_arith);
            shapes.push(
                Shape::Disc {
                    x,
                    y,
                    radius: pixel(aoe),
                    color: Color { red: 0, green: 0, blue: 255, alpha: alpha as u8 },
                },
            );
            alpha = alpha - step;
            aoe = plus(times(aoe, SHELL_GROWTH), self.area_of_effect);
            i = i + 1;
            assert(shapes@ =~= Seq::new(i as nat, |k: int| self.surface_disc(k)));
        }
        shapes
    }
}

impl PhysicProperty for BigGravityWell {
    /// A particle inside the well is pulled toward the centre by the
    /// innermost shell that holds it, with the strength divided by that
    /// shell's number, and by no other shell.
    open spec fn updated(&self, p: ParticleState) -> ParticleState {
        let shell = self.shell_of(p);
        if shell == 0 {
            p
        } else {
            p.pushed(attraction(self.position, self.strength, shell as int, p))
        }
    }

    open spec fn overlay(&self) -> Option<Overlay> {
        Some(Overlay::BigWell(*self))
    }

    fn update_particle(&self, p: &Particle) -> (r: Particle) {
        let pos: Point3 = p.get_position();
        let dist: u128 = planar(&self.position, &pos);
        let mut aoe: i64 = self.area_of_effect;
        let mut tmp: Particle = p.copy();
        let mut passed: u64 = 0;
        while passed < self.layers
            invariant_except_break
                aoe == shell_radius(self.area_of_effect, (passed + 1) as nat),
                tmp@ == p@,
                self.shell_of(p@) == first_shell_from(
                    dist as int,
                    self.area_of_effect,
                    (passed + 1) as nat,
                    self.layers as nat,
                ),
            invariant
                passed <= self.layers,
                dist == planar_distance_squared(self.position, p@.position),
            ensures
                tmp@ == self.updated(p@),
            decreases self.layers - passed,
        {
            let shell: u64 = passed + 1;
            if dist < wide_square(aoe) {
                tmp.apply_force(pull(&self.position, self.strength, shell, p));
                break ;
            }
            aoe = plus(times(aoe, SHELL_GROWTH), self.area_of_effect);
            passed = shell;
        }
        tmp
    }

    fn as_drawable(&self) -> (r: Option<Overlay>) {
        Some(Overlay::BigWell(*self))
    }
}

/// The innermost shell of a gravity well pulls with the full strength, the
/// second with half of it and the third with a third; a particle on the
/// edge between two shells belongs to the outer one, and one outside the
/// third shell is left alone.
pub proof fn lemma_well_shell_strengths(w: GravityWell, p: ParticleState)
    ensures
        ({
            let d = planar_distance_squared(w.position, p.position);
            let a = w.area_of_effect;
            let a2 = product(a, whole(2));
            let a3 = product(a, whole(3));
            &&& d < a * a ==> w.updated(p) == p.pushed(attraction(w.position, w.strength, 1, p))
            &&& a * a <= d < a2 * a2 ==> w.updated(p) == p.pushed(
                attraction(w.position, w.strength, 2, p),
            )
            &&& a * a <= d && a2 * a2 <= d < a3 * a3 ==> w.updated(p) == p.pushed(
                attraction(w.position, w.strength, 3, p),
            )
            &&& a * a <= d && a2 * a2 <= d && a3 * a3 <= d ==> w.updated(p) == p
        }),
{
}

/// The pull of a shell is rounded only once: unless it is clamped, it is
/// less than one raw step away from minus distance times strength times
/// mass over the shell's number, and it is that value wherever a scalar can
/// hold it.
pub proof fn lemma_pull_rounded_once(away: i64, strength: i64, mass: i64, shell: int)
    requires
        shell >= 1,
        i64::MIN <= trunc_div(-(away * strength * mass), shell * SCALE * SCALE) <= i64::MAX,
    ensures
        ({
            let exact = -(away * strength * mass);
            let steps = shell * SCALE * SCALE;
            let pull = pull_part(away, strength, mass, shell);
            &&& magnitude(exact - pull * steps) < steps
            &&& forall|t: int| exact == #[trigger] (t * steps) ==> pull == t
        }),
{
    assert(shell * SCALE * SCALE > 0) by (nonlinear_arith)
        requires
            shell >= 1,
            SCALE == 1_000_000,
    ;
    lemma_rounded_once(-(away * strength * mass), shell * SCALE * SCALE);
}

/// The drag is rounded only once: unless it is clamped, it is less than one
/// raw step away from half the product of air density, drag coefficient,
/// pi, radius and speed.
pub proof fn lemma_drag_rounded_once(p: ParticleState)
    requires
        i64::MIN <= trunc_div(
            AIR_DENSITY * DRAG_COEFFICIENT * PI_FINE * p.radius * probe_speed(p),
            2 * SCALE * SCALE * PI_FINE_SCALE,
        ) <= i64::MAX,
    ensures
        ({
            let exact = AIR_DENSITY * DRAG_COEFFICIENT * PI_FINE * p.radius * probe_speed(p);
            let steps = 2 * SCALE * SCALE * PI_FINE_SCALE;
            magnitude(exact - drag(p) * steps) < steps
        }),
{
    lemma_rounded_once(
        AIR_DENSITY * DRAG_COEFFICIENT * PI_FINE * p.radius * probe_speed(p),
        2 * SCALE * SCALE * PI_FINE_SCALE,
    );
}

/// A particle that lies within shell number `shell` of a big gravity well,
/// and within no shell inside it, is pulled by that shell alone: with the
/// strength divided by the shell's number, and not with the sum over the
/// shells that hold it.
pub proof fn lemma_big_well_single_shell(w: BigGravityWell, p: ParticleState, shell: nat)
    requires
        1 <= shell <= w.layers,
        within_shell(planar_distance_squared(w.position, p.position), w.area_of_effect, shell),
        forall|j: nat|
            1 <= j < shell ==> !within_shell(
                planar_distance_squared(w.position, p.position),
                w.area_of_effect,
                j,
            ),
    ensures
        w.shell_of(p) == shell,
        w.updated(p) == p.pushed(attraction(w.position, w.strength, shell as int, p)),
{
    lemma_first_shell(
        planar_distance_squared(w.position, p.position),
        w.area_of_effect,
        1,
        w.layers as nat,
    );
}

/// A particle that lies within no shell of a big gravity well is left
/// alone.
pub proof fn lemma_big_well_outside(w: BigGravityWell, p: ParticleState)
    requires
        forall|j: nat|
            1 <= j <= w.layers ==> !within_shell(
                planar_distance_squared(w.position, p.position),
                w.area_of_effect,
                j,
            ),
    ensures
        w.updated(p) == p,
{
    lemma_first_shell(
        planar_distance_squared(w.position, p.position),
        w.area_of_effect,
        1,
        w.layers as nat,
    );
}

impl Drawable for Overlay {
    open spec fn window_shapes(&self) -> Seq<Shape> {
        match *self {
            Overlay::Well(w) => w.window_shapes(),
            Overlay::BigWell(w) => w.window_shapes(),
        }
    }

    open spec fn surface_shapes(&self) -> Seq<Shape> {
        match *self {
            Overlay::Well(w) => w.surface_shapes(),
            Overlay::BigWell(w) => w.surface_shapes(),
        }
    }

    fn draw_window(&self) -> (shapes: Vec<Shape>) {
        match self {
            Overlay::Well(w) => w.draw_window(),
            Overlay::BigWell(w) => w.draw_window(),
        }
    }

    fn draw_surface(&self) -> (shapes: Vec<Shape>) {
        match self {
            Overlay::Well(w) => w.draw_surface(),
            Overlay::BigWell(w) => w.draw_surface(),
        }
    }
}

/// Any of the force fields of the library.
#[derive(Debug, Clone, Copy, PartialEq, Eq, Structural)]
pub enum ForceField {
    Gravity(Gravity),
    Wind(Wind),
    AirResistance(AirResistance),
    GravityWell(GravityWell),
    BigGravityWell(BigGravityWell),
}

impl PhysicProperty for ForceField {
    open spec fn updated(&self, p: ParticleState) -> ParticleState {
        match *self {
            ForceField::Gravity(f) => f.updated(p),
            ForceField::Wind(f) => f.updated(p),
            ForceField::AirResistance(f) => f.updated(p),
            ForceField::GravityWell(f) => f.updated(p),
            ForceField::BigGravityWell(f) => f.updated(p),
        }
    }

    open spec fn overlay(&self) -> Option<Overlay> {
        match *self {
            ForceField::Gravity(f) => f.overlay(),
            ForceField::Wind(f) => f.overlay(),
            ForceField::AirResistance(f) => f.overlay(),
            ForceField::GravityWell(f) => f.overlay(),
            ForceField::BigGravityWell(f) => f.overlay(),
        }
    }

    fn update_particle(&self, p: &Particle) -> (r: Particle) {
        match self {
            ForceField::Gravity(f) => f.update_particle(p),
            ForceField::Wind(f) => f.update_particle(p),
            ForceField::AirResistance(f) => f.update_particle(p),
            ForceField::GravityWell(f) => f.update_particle(p),
            ForceField::BigGravityWell(f) => f.update_particle(p),
        }
    }

    fn as_drawable(&self) -> (r: Option<Overlay>) {
        match self {
            ForceField::Gravity(f) => f.as_drawable(),
            ForceField::Wind(f) => f.as_drawable(),
            ForceField::AirResistance(f) => f.as_drawable(),
            ForceField::GravityWell(f) => f.as_drawable(),
            ForceField::BigGravityWell(f) => f.as_drawable(),
        }
    }
}

/// A force field changes the velocity of a particle and nothing else: not
/// where it is, nor whether it lives, nor how long, nor its size or mass.
pub proof fn lemma_field_changes_velocity_only(f: ForceField, p: ParticleState)
    ensures
        f.updated(p) == (ParticleState { velocity: f.updated(p).velocity, ..p }),
{
}

} // verus!
