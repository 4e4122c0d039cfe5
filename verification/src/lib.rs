//! Rules of a small arcade game: a ship steered by four keys dodges asteroids
//! that home in on it, and loses health when one comes too close.
//!
//! Everything here is exact integer arithmetic. Lengths are counted in
//! millionths of a world unit and time in microseconds, so that the product
//! of a speed in units per second and a time in microseconds is a length.
//! Fractions, such as a random draw between zero and one or the cosine of an
//! angle, are counted in millionths too.
//!
//! A caller plays a game by calling [`Game::frame`] once for every frame,
//! with the time that the frame before took, the keys that are held and a
//! random draw, by calling [`Game::spawn`] where the frame's report asks for
//! a new asteroid, and by drawing what the game then holds.

pub mod asteroid;
pub mod game;
pub mod health;
pub mod input;
pub mod key;
pub mod play;
pub mod vector;

pub use asteroid::Asteroid;
pub use game::Game;
pub use health::Health;
pub use input::handle_keys;
pub use vector::Vec3;
