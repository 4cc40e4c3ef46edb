//! Signal generation framework: signal classifications and generator settings.

pub mod signal_core;
pub mod example;
pub mod momentum;
pub mod utils;

pub use crate::signals::signal_core::{SignalQuality, SignalType};
