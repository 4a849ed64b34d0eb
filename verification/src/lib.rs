pub mod app;
pub mod game;
pub mod input;
pub mod laws;
pub mod persist;
pub mod rng;
pub mod session;
pub mod sound;
pub mod text;
