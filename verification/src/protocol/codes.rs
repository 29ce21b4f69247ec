//! The error codes of the worker protocol.

use vstd::prelude::*;

verus! {

pub const PARSE_ERROR: i64 = -32700;

pub const INVALID_REQUEST: i64 = -32600;

pub const METHOD_NOT_FOUND: i64 = -32601;

pub const INVALID_PARAMS: i64 = -32602;

pub const INTERNAL_ERROR: i64 = -32603;

/// The calling plugin was not granted the capability.
pub const FORBIDDEN: i64 = -32001;

/// The host's policy denies an authorized request.
pub const POLICY_DENIED: i64 = -32002;

/// The request conflicts with what exists.
pub const CONFLICT: i64 = -32003;

/// A rate or concurrency limit was reached.
pub const RATE_LIMITED: i64 = -32004;

/// Something has to change before the request can succeed.
pub const FAILED_PRECONDITION: i64 = -32005;

/// The host cannot serve the request now; it may be tried again.
pub const SERVICE_UNAVAILABLE: i64 = -32006;

} // verus!
