//! The engine of a mod manager for a game that loads its assets from patch
//! archives named by a hash identity and an index.
//!
//! The engine reads and writes the manifests of mods, in a legacy schema and
//! in a current one ([`serializer`]); it keeps the store of the installed
//! mods, no two of which share an identifier, and the profiles that select
//! among them ([`store`]); and it resolves a profile into the patch files to
//! install, grouped by hash identity ([`resolver`]).
//!
//! The engine never touches the file system: whoever uses it says what was
//! found on disk, in plain values, and is told what to read or write next.

pub mod error;
pub mod errors;
pub mod guid;
pub mod json;
pub mod manifests;
pub mod paths;
pub mod resolver;
pub mod serializer;
pub mod store;
pub mod text;

pub use store::{Mod, ModManager, Profile};
