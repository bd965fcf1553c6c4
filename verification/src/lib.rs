//! A verified core for a toroidal-plane arcade simulation: a player craft,
//! free-flying bullets and fragmenting obstacles move over a wrap-around 2D
//! playfield. All state is fixed-point: coordinates in 1/1024ths of a world
//! unit, angles in 1/4096ths of a turn, speed scalars in 1/32nds. Window,
//! input and rendering are outside collaborators: the library consumes held
//! control states and emits polygon vertex loops.

pub mod collide;
pub mod entity;
pub mod geom;
pub mod kinem;
pub mod sim;
pub mod spawn;
pub mod trig;
pub mod wrap;
