//! Everything a user of the logging system needs, in one place.

pub use super::level::Level;
pub use super::logger::{error_f, log_f, set_level, set_logger, warn_f, LogState, Logger};
pub use super::write::ANSI;
