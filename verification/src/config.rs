//! The settings of the server.
use vstd::prelude::*;

verus! {

/// The settings of the server.
#[derive(Clone, Debug)]
pub struct Config {
    pub model_name: String,
    pub model_path: String,
    pub model_version: u64,
    pub http_port: u16,
    pub grpc_port: u16,
    /// The number of rows at which a batch is dispatched. With 1 every request is
    /// dispatched by itself.
    pub max_batch_size: usize,
    /// How long an incomplete batch waits for more requests, in milliseconds.
    pub max_batch_wait_ms: u64,
    /// Numbers of rows at which a batch does not wait any longer.
    pub preferred_batch_sizes: Vec<usize>,
}

impl Default for Config {
    fn default() -> (c: Self)
        ensures
            c.model_name@ == "catboost"@,
            c.model_path@ == "/mnt/models/model.cbm"@,
            c.model_version == 1,
            c.http_port == 8080,
            c.grpc_port == 9000,
            c.max_batch_size == 1,
            c.max_batch_wait_ms == 5,
            c.preferred_batch_sizes@.len() == 0,
    {
        Config {
            model_name: "catboost".to_owned(),
            model_path: "/mnt/models/model.cbm".to_owned(),
            model_version: 1,
            http_port: 8080,
            grpc_port: 9000,
            max_batch_size: 1,
            max_batch_wait_ms: 5,
            preferred_batch_sizes: Vec::new(),
        }
    }
}

} // verus!
