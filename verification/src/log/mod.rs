//! Runtime logging: severity levels, the `Logger` trait, and the state that
//! decides which records reach the installed logger.

pub mod level;
pub mod logger;
pub mod prelude;
pub mod write;

pub use level::{level_order, severity, Level};
pub use logger::{
    error_f, forwards, log_f, set_level, set_logger, warn_f, write_post, LogState, Logger,
};
