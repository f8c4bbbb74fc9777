//! A side-scrolling jump-and-dodge game core: physics, spawning, collision,
//! scoring and an arithmetic revival challenge, all on integer fixed-point
//! values so that every rule is stated and proved.
pub mod draws;
pub mod entity;
pub mod game;
pub mod quiz;
mod random;
pub mod world;
