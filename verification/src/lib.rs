//! Simulation core of a small arcade game: a fixed cannon defends vaults on
//! the ground against bombs falling from the sky.
//!
//! All lengths, positions and speeds are fixed-point numbers counted in
//! thousandths of a pixel (see [`config::UNIT`]), so that every step of the
//! simulation is exact integer arithmetic. What does not come out whole is
//! rounded toward zero: the components of a normalized vector, which are
//! those of the exact unit vector, and the quotients of fixed-point products.
//! A normalized vector is thus never longer than one unit, and shorter by at
//! most two thousandths.
//!
//! [`game::Game`] holds a game and advances it tick by tick; [`model`] says
//! in terms of sequences what one tick does, and what holds of every game;
//! [`render`] lists the shapes that show a game. The window, the input
//! devices and the drawing are the caller's business.

pub mod config;
pub mod entities;
pub mod fixed;
pub mod game;
pub mod geom;
pub mod input;
pub mod model;
pub mod random;
pub mod render;
pub mod seq_facts;
