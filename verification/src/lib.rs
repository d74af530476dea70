//! A paddle and a handful of bouncing balls in a window, simulated frame by
//! frame in exact integer arithmetic.
//!
//! Positions are counted in thousandths of a pixel, headings in millionths and
//! time in microseconds. A [`World`] holds what is simulated; the functions
//! of [`spawn`] fill it, and [`tick`] carries it through one frame by calling,
//! in this order, [`player_movement`], [`restrict_player_movement`],
//! [`ball_movement`], [`update_ball_direction`] and [`ball_player_collision`].

pub mod bounds;
pub mod collision;
pub mod frame;
pub mod geometry;
pub mod movement;
pub mod roots;
pub mod spawn;
pub mod units;
pub mod world;

pub use bounds::{restrict_player_movement, update_ball_direction};
pub use collision::{ball_player_collision, side_of_collision, Hit, Side};
pub use frame::{tick, Frame};
pub use geometry::{Direction, Point};
pub use movement::{ball_movement, player_movement, Keys};
pub use spawn::{ball_from_samples, spawn_ball, spawn_camera, spawn_player};
pub use units::{
    BALL_SIZE, BALL_SPEED, DIRECTION_ONE, MICROS_PER_SECOND, NUMBER_OF_BALLS, PLAYER_SIZE_HEIGHT,
    PLAYER_SIZE_WIDTH, PLAYER_SPEED, UNITS_PER_PIXEL,
};
pub use world::{Ball, Camera, Player, Window, World};
