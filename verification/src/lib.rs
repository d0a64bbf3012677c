pub mod components;
pub mod map;
mod rng;
pub mod systems;
pub mod utils;
