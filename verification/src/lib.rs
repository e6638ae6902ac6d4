pub mod calendars;
pub mod cycle;
pub mod cycles;
pub mod date;
pub mod duration;
pub mod error;
pub mod fixed_freq;
pub mod iter;
pub mod op;
pub mod parse;
pub mod semantic_freq;
pub mod seq;
pub mod span;
pub mod time;

pub use error::{Error, Result};
