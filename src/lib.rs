//! Hosts-file profiles: the entry codec, the profile store and the
//! backup-then-write transaction that makes a profile the live hosts file.

pub mod model;
pub mod text;
pub mod codec;
pub mod store;
pub mod paths;
pub mod apply;
pub mod system;
