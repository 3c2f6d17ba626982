//! Audits a range of commits: fetches, stage by stage, the pull requests and
//! reviews behind each commit, and reduces them to a trust verdict.

pub mod trust;
pub mod stage;
pub mod laws;
pub mod provider;
