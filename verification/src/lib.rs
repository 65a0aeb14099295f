//! The prompt workshop's core.

pub mod agent;
pub mod binding;
pub mod cancel;
pub mod events;
pub mod gateway;
pub mod heartbeat;
pub mod json;
pub mod log;
pub mod menu;
pub mod models;
pub mod observe;
pub mod resolve;
pub mod status;
pub mod subscriber;
pub mod text;
pub mod tools;
pub mod untrusted;
pub mod wire;
