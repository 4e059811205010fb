//! Bit-banged WS2812 transmission, derived from first principles.
//!
//! A WS2812 strip is driven over one output pin with pulses whose widths are
//! counted in CPU cycles. This crate turns a timing profile and a clock
//! frequency into cycle counts and padding, lays out the exact instruction
//! stream that sends a pixel buffer, and measures and decodes such a stream
//! again, so that what reaches the wire can be stated and proved.

pub mod color;
pub mod decoder;
pub mod driver;
pub mod engine;
pub mod laws;
pub mod ports;
pub mod scope;
mod sealed;
pub mod timings;
pub mod util;

pub use crate::color::{ColorOrder, BGR, GRB, RGB};
pub use crate::driver::WS2812;
pub use crate::engine::ws2812_write;
pub use crate::ports::StaticPin;
pub use crate::timings::{
    CalculatedTimings, ConfigError, DefaultTimings, Timings, TypedTimings,
};
