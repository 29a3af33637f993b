//! Verified core of a bounded-concurrency application fetcher: extraction
//! patterns, the extractor over lookup bodies, the per-item download state
//! machine, the launch scheduler and the version lister.
pub mod extract;
pub mod matcher;
pub mod orchestrator;
pub mod pattern;
pub mod report;
pub mod scheduler;
pub mod versions;
