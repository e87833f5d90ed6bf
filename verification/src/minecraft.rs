//! Minecraft versions, assets and launching.
pub mod version;
pub mod assets;
pub mod launch;
