//! Scroll controller and sensor-reading logic for a looping star-field
//! backdrop driven by a networked position sensor.

pub mod scroll;
pub mod sensor;
pub mod text;

pub use scroll::{calculate_scroll_speed, SkyImage};
pub use sensor::SensorState;
pub use text::{parse_decimal_u16, parse_reading};
