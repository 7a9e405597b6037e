//! Verified integer core of a two-dimensional MLS-MPM snow simulation and of
//! the small rendering demos that accompany it.
//!
//! Everything that the simulation decides without arithmetic on real numbers
//! lives here: how the background grid is laid out and addressed, which grid
//! nodes obey which wall rule, how particles are counted and tagged at
//! start-up, and how yield limits are enforced on single-precision values.

pub mod fountain;
pub mod grid;
pub mod layout;
pub mod noise;
pub mod plasticity;
pub mod seeding;
pub mod single;
