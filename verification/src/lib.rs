//! Verified core of a Minecraft launcher: configuration and profiles,
//! accounts and sign-in decisions, version metadata, launch command lines,
//! asset locations and themes.
pub mod text;
pub mod paths;
pub mod error;
pub mod keyed;
pub mod config;
pub mod auth;
pub mod minecraft;
pub mod theme;
pub mod java;
