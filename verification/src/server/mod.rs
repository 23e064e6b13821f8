//! The batching server: its HTTP and gRPC front ends.
use vstd::prelude::*;

pub mod grpc;
pub mod http;
pub mod types;

use crate::inference::batcher::{InferError, OverloadError, Placement, SendOutcome};
use crate::status::{GrpcCode, HttpStatus};

verus! {

/// The platform of every model.
pub const PLATFORM: &'static str = "catboost";

/// The protocol extension that the server has.
pub const EXTENSION: &'static str = "model_repository_extension";

/// The protocol extensions that the server has.
pub fn extensions() -> (v: Vec<String>)
    ensures
        crate::frames::texts(v@) == seq![EXTENSION@],
{
    let only = EXTENSION.to_owned();
    let v: Vec<String> = vec![only];
    assert(crate::frames::texts(v@) =~= seq![EXTENSION@]);
    v
}

/// A request that finds every worker's queue full is shed, and only such a request. Over HTTP
/// it is answered with status 429, over gRPC with RESOURCE_EXHAUSTED.
pub proof fn law_shed_requests_are_told_so(p: Placement, outcomes: Seq<SendOutcome>)
    requires
        p.wf(),
        p.tried == 0,
    ensures
        crate::inference::batcher::refusal_of(crate::inference::batcher::search(p, outcomes))
            == Some(InferError::Overload(OverloadError)) <==> {
            &&& outcomes.len() >= p.workers
            &&& forall|i: int| 0 <= i < p.workers ==> #[trigger] outcomes[i] == SendOutcome::Full
        },
        crate::server::http::failure_status(InferError::Overload(OverloadError))
            == HttpStatus::TooManyRequests,
        crate::server::grpc::failure_code(InferError::Overload(OverloadError))
            == GrpcCode::ResourceExhausted,
{
    crate::inference::batcher::law_shed_only_when_all_are_busy(p, outcomes);
}

} // verus!
