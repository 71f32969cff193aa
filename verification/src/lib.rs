//! Control plane for a supervised media engine: the settings it is started
//! with, the life cycle of its handle, and the channel protocol (requests,
//! notifications and per-target buffering) that connects the two sides.

pub mod diagnostics;
pub mod ids;
pub mod lifecycle;
pub mod notifications;
pub mod ports;
pub mod requests;
pub mod routing;
pub mod settings;
pub mod text;
pub mod worker;
