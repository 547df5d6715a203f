//! Manifests of mods and of profiles.

pub mod mod_manifest;
pub mod profile_manifest;
