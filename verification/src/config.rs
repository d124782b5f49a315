//! Service configuration.
//!
//! The configuration is read once at process start — connection string,
//! default model identifier, default credential — and passed by reference
//! wherever it is needed; there is no hidden global state.  A request that
//! names no model falls back to the configured default; the agent-tool
//! front-end starts only when both defaults are present.

use vstd::prelude::*;

verus! {

/// The values read once at process start.
pub struct AppConfig {
    /// Connection string for the graph database.
    pub falkordb_connection: String,
    /// Model used when a request names none.
    pub default_model: Option<String>,
    /// Credential used when a request carries none.
    pub default_key: Option<String>,
}

impl AppConfig {
    /// Packs the startup values into one explicit configuration object.
    pub fn new(
        falkordb_connection: String,
        default_model: Option<String>,
        default_key: Option<String>,
    ) -> (r: AppConfig)
        ensures
            r.falkordb_connection == falkordb_connection,
            r.default_model == default_model,
            r.default_key == default_key,
    {
        AppConfig { falkordb_connection, default_model, default_key }
    }

    /// The agent-tool front-end runs only when both a default model and a
    /// default credential are configured.
    pub fn should_start_mcp_server(&self) -> (r: bool)
        ensures
            r == (self.default_model is Some && self.default_key is Some),
    {
        self.default_model.is_some() && self.default_key.is_some()
    }
}

} // verus!
