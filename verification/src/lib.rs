//! Control-message pipeline for driving a host's pointer and keyboard remotely.

pub mod actuator;
pub mod device;
pub mod keys;
pub mod message;
pub mod motion;
pub mod session;
pub mod text;
