//! The run's configuration and its one check: the placeholder must occur
//! in the template, or the run is rejected before any request is issued.

use vstd::prelude::*;
use crate::text::{contains_placeholder, has_occurrence};

verus! {

/// A fatal configuration error, reported before any work begins.
#[derive(Clone, Copy, Debug, PartialEq, Eq, Structural)]
pub enum ConfigError {
    MissingPlaceholder,
}

/// The read-only configuration every worker shares: the URL template, the
/// placeholder token marking substitution points, the per-request timeout,
/// the worker count, and where results are persisted.
pub struct FuzzConfig {
    pub template: String,
    pub placeholder: String,
    pub timeout_secs: u64,
    pub worker_count: usize,
    pub output_dir: String,
}

impl FuzzConfig {
    /// Accepts the configuration exactly when the placeholder occurs in
    /// the template; a template without it is a fatal error, found before
    /// any request is issued.
    pub fn validate(&self) -> (r: Result<(), ConfigError>)
        ensures
            r is Ok <==> has_occurrence(self.template@, self.placeholder@),
            r is Err ==> (r matches Err(e) && e == ConfigError::MissingPlaceholder),
    {
        if contains_placeholder(self.template.as_str(), self.placeholder.as_str()) {
            Ok(())
        } else {
            Err(ConfigError::MissingPlaceholder)
        }
    }
}

} // verus!
