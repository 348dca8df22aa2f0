//! A userspace WireGuard tunnel agent: key material, peer descriptors and their
//! validation, the per-network peer table and packet dispatch, the tunnel life
//! cycle and the supervisor that maps network names to tunnels.

pub mod error;
pub mod text;
pub mod addr;
pub mod validation;
pub mod keys;
pub mod peer;
pub mod session;
pub mod device;
pub mod tunnel;
pub mod json;
pub mod api;
pub mod config;
pub mod handler;
pub mod monitoring;
pub mod platform;
pub mod security;
pub mod service;
