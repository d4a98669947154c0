//! ratgames — a small retro-game presentation toolkit, with its pixel
//! compositing, arcade session rules, and layout arithmetic verified.

pub mod chars;
pub mod color;
pub mod copy;
pub mod game;
pub mod config;
pub mod geometry;
pub mod glyph;
pub mod host;
pub mod input;
pub mod marquee;
pub mod placard;
pub mod present;
pub mod quiz;
pub mod scene;
pub mod session;
pub mod sprite;
pub mod surface;
pub mod text;
pub mod theme;
pub mod tiles;
pub mod ui;
