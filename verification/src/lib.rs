//! An artificial-life sandbox core: agents ("cells") with an evolvable
//! recurrent neural controller forage for food on a chunked 2D map,
//! reproduce with mutated offspring, and die when out of energy.
//!
//! All quantities are fixed-point numbers: an `i64` counts multiples of
//! `1 / FX_ONE`. See [`fixed`] for the arithmetic, [`brain`] for the neural
//! controller and its mutation, [`world`] for the chunk grid and its spatial
//! queries, and [`tick`] for the generation step.

pub mod fixed;
pub mod rng;
pub mod brain;
pub mod trig;
pub mod world;
pub mod tick;
