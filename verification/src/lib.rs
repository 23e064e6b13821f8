//! Request handling for a KServe v2 inference server with a gradient-boosting
//! backend: tensor decoding, shape rules, dynamic batching, the model registry and
//! the replies of the two protocol front ends.
use vstd::prelude::*;

pub mod bench;
pub mod config;
pub mod decimal;
pub mod float;
pub mod frames;
pub mod grpc;
pub mod http;
pub mod ids;
pub mod inference;
pub mod json;
pub mod messages;
pub mod metadata;
pub mod model;
pub mod proto;
pub mod registry;
pub mod select;
pub mod server;
pub mod status;
pub mod tensor;
pub mod text;
pub mod types;
