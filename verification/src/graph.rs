//! The durable filesystem graph: volumes, objects, links and the catalog derived from them.

pub mod benchmark;
pub mod codes;
pub mod domain;
pub mod effects;
pub mod error;
pub mod fingerprint;
pub mod laws;
pub mod model;
pub mod pages;
pub mod rows;
pub mod scan_model;
pub mod soundness;
pub mod step_laws;
pub mod store;
pub mod upkeep_laws;
pub mod upkeep_model;
