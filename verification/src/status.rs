//! Status codes of the protocols.
use vstd::prelude::*;

verus! {

/// The HTTP statuses that the server answers with.
#[derive(Clone, Copy, Debug, PartialEq, Eq, Structural)]
pub enum HttpStatus {
    Success,
    BadRequest,
    NotFound,
    TooManyRequests,
    InternalServerError,
    ServiceUnavailable,
}

impl HttpStatus {
    /// The number of the status.
    pub fn code(self) -> (n: u16)
        ensures
            n == match self {
                HttpStatus::Success => 200u16,
                HttpStatus::BadRequest => 400u16,
                HttpStatus::NotFound => 404u16,
                HttpStatus::TooManyRequests => 429u16,
                HttpStatus::InternalServerError => 500u16,
                HttpStatus::ServiceUnavailable => 503u16,
            },
    {
        match self {
            HttpStatus::Success => 200,
            HttpStatus::BadRequest => 400,
            HttpStatus::NotFound => 404,
            HttpStatus::TooManyRequests => 429,
            HttpStatus::InternalServerError => 500,
            HttpStatus::ServiceUnavailable => 503,
        }
    }
}

/// The gRPC codes that the server fails with.
#[derive(Clone, Copy, Debug, PartialEq, Eq, Structural)]
pub enum GrpcCode {
    InvalidArgument,
    NotFound,
    ResourceExhausted,
    Internal,
    Unavailable,
}

impl GrpcCode {
    /// The number of the code.
    pub fn code(self) -> (n: i32)
        ensures
            n == match self {
                GrpcCode::InvalidArgument => 3i32,
                GrpcCode::NotFound => 5i32,
                GrpcCode::ResourceExhausted => 8i32,
                GrpcCode::Internal => 13i32,
                GrpcCode::Unavailable => 14i32,
            },
    {
        match self {
            GrpcCode::InvalidArgument => 3,
            GrpcCode::NotFound => 5,
            GrpcCode::ResourceExhausted => 8,
            GrpcCode::Internal => 13,
            GrpcCode::Unavailable => 14,
        }
    }
}

/// Statuses differ by their numbers: a success is in the two hundreds, what the client can mend
/// in the four hundreds, and what it cannot in the five hundreds.
pub proof fn law_statuses_tell_whose_fault_it_is(s: HttpStatus, t: HttpStatus, m: u16, n: u16)
    requires
        call_ensures(HttpStatus::code, (s,), m),
        call_ensures(HttpStatus::code, (t,), n),
    ensures
        m == n <==> s == t,
        200 <= m < 300 <==> s == HttpStatus::Success,
        400 <= m < 500 <==> s == HttpStatus::BadRequest || s == HttpStatus::NotFound || s
            == HttpStatus::TooManyRequests,
        500 <= m < 600 <==> s == HttpStatus::InternalServerError || s
            == HttpStatus::ServiceUnavailable,
{
}

/// Codes differ by their numbers.
pub proof fn law_codes_differ(s: GrpcCode, t: GrpcCode, m: i32, n: i32)
    requires
        call_ensures(GrpcCode::code, (s,), m),
        call_ensures(GrpcCode::code, (t,), n),
    ensures
        m == n <==> s == t,
        m > 0,
{
}

} // verus!
