//! State shared by every request handler.
use crate::configure::AppConfig;
use std::sync::Arc;
use vstd::prelude::*;

verus! {

/// The settings, shared read-only by every handler.
#[derive(Clone)]
pub struct AppState {
    pub config: Arc<AppConfig>,
}

impl AppState {
    /// State around the given settings.
    pub fn new(config: AppConfig) -> (r: AppState)
        ensures
            *r.config == config,
    {
        AppState { config: Arc::new(config) }
    }
}

} // verus!
