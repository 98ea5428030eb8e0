//! The Windows provider: identities, checkpoints, journal records and directory scans.

pub mod changes;
pub mod checkpoint;
pub mod identity;
pub mod journal;
pub mod laws;
pub mod resources;
pub mod scan;
