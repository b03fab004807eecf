//! The signal logic of a Haas-effect stereo delay: a two-channel delay line with a
//! round-robin write position, a trigger-driven sample player, a FIFO sample buffer sized
//! from a delay in milliseconds, and the text handling of time values.

pub mod channel;
pub mod custom_formatters;
pub mod delay_line;
pub mod haas_buffer;
pub mod ring;
pub mod sample_player;
pub mod util;
