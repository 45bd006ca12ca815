//! Tracking of local git repositories: a category-keyed store of entries,
//! discovery of repositories on disk, and their clean/dirty status.

pub mod configuration;
pub mod content;
pub mod file;
pub mod git;

pub use content::ConfigurationContent;
pub mod reconcile;
pub mod scan;
