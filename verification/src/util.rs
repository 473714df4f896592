//! The environment, and the messages the program prints.
pub mod helpers;
pub mod logging;
