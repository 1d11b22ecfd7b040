//! A freshness-aware cache over a bot's radar.
//!
//! The radar answers in squares of size 3, 5, 7 or 9 centred on the bot,
//! each scan overwriting only the area it covers. [`Radar`] remembers, for
//! every ring of tiles around the bot, which scan last covered it and when,
//! so that each tile can be reported together with the tick its data was
//! captured at.
//!
//! The library holds the bookkeeping only: whether the sensor is ready, the
//! current tick and the raw tile words are read by the caller and handed in
//! as plain values.
pub mod radar;

pub use radar::{half_width, Radar, ScanError};
