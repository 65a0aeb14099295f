//! The agent-program executor's decisions: what is registered, what is
//! advertised, how a model round ends, and how the program is driven.

pub mod driver;
pub mod error;
pub mod messages;
pub mod round;
pub mod scope;
