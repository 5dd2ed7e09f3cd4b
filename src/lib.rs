//! A real-time chat relay: exclusive display names, a lossy broadcast hub,
//! and the per-connection session lifecycle that ties them together.
pub mod hub;
pub mod registry;
pub mod session;
