//! Logic of a small toy racer.
pub mod base64;
pub mod buffer;
pub mod button;
pub mod color;
pub mod display;
pub mod effect;
pub mod frame;
pub mod http;
pub mod motion;
pub mod page;
pub mod pulse;
pub mod race;
pub mod server;
pub mod sha1;
pub mod status;
pub mod text;
pub mod tick;
pub mod websocket;

pub use color::{hsv_to_rgb, rainbow_color, RAINBOW_LEN, RGB8};
pub use motion::{Accel, Axis};
pub use effect::{update_leds, Effect, NUM_LEDS, TOTAL_LEDS};
