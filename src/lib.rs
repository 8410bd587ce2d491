//! Curation of a power-hour session from a playlist: draining a paginated
//! source, filtering eligible tracks, and truncating to a target length.
pub mod model;
pub mod eligibility;
pub mod sampler;
pub mod paginator;
pub mod curation;
pub mod report;
