//! Substring search: normalization, query policy, candidate retrieval, verification and ranking.

pub mod error;
pub mod laws;
pub mod measure;
pub mod normalize;
pub mod outcome;
pub mod output_laws;
pub mod policy;
pub mod ranking;
pub mod recall;
pub mod report;
pub mod report_laws;
pub mod retrieval;
pub mod workload;
