//! Simulation core of a "curve fever" arcade game: snakes that steer
//! continuously, leave permanent trails, and die on walls or trails.
//!
//! Positions are fixed-point integers (`SUBPIXELS` units per pixel) and
//! headings are whole steps of a circle divided into `HEADINGS` parts, so the
//! whole simulation is exact integer arithmetic.

pub mod colour;
pub mod geometry;
pub mod heading;
pub mod snake;
pub mod trails;
pub mod game;

pub use colour::{Colour, TurnDirection};
pub use geometry::{Vec2, Pixel, WIDTH, HEIGHT, SUBPIXELS};
pub use heading::{HEADINGS, QUARTER_TURN, VELOCITY, step_x, step_y};
pub use snake::{Snake, SNAKE_RADIUS, PLAYER_MAX, generate_snakes};
pub use trails::{TrailBitmap, TrailEntry, TrailQueue, BUFFER_DELAY, add_trails_from_buffer};
pub use game::{
    Round, Match, FrameOutcome, PlayerCountError, PLAYER_MIN, intent_from_keys, validate_player_count,
};
