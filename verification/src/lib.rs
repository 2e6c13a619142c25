//! Small utilities: a runtime logging system with three severity levels and
//! a logger that can be replaced at any time, an ANSI terminal logger, and the
//! decision core of a "builder" code generator for structs.

pub mod builder;
pub mod log;
pub mod render;
