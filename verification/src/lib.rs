//! Verified core of a software KVM: a host captures keyboard and mouse and
//! streams them to client machines over a framed connection.
pub mod keys;
pub mod protocol;
pub mod text;
pub mod edge;
pub mod hook;
pub mod tracker;
pub mod inject;
pub mod monitors;
pub mod config;
pub mod resolve;
pub mod arrangement;
pub mod session;
pub mod hyprland;
pub mod paths;
pub mod daemon;
pub mod fingerprint;
pub mod setup;
