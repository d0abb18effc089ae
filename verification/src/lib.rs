//! A particle simulation in fixed-point arithmetic.
//!
//! A [`world::World`] holds a store of [`particle::Particle`]s, an ordered
//! list of force fields and a boundary. Each tick every particle is stepped
//! on its own: the force fields change its velocity, it moves and ages, and
//! the boundary kills or reflects it; every so often the dead particles are
//! swept out of the store.
//!
//! All quantities are fixed-point scalars ([`scalar`]): integers that count
//! millionths of a unit, with arithmetic that rounds toward zero and
//! saturates at the ends of the range. Every function is total on the values
//! it accepts, and its contract says exactly what it returns.

pub mod scalar;
pub mod vec3;
pub mod point3;
pub mod drawable;
pub mod particle;
pub mod physic_property;
pub mod rectangle;
pub mod world;
