//! JSON-RPC / LSP error codes.

use vstd::prelude::*;

verus! {

/// JSON-RPC `InternalError`. The upstream is gone and cannot answer.
pub const INTERNAL_ERROR: i64 = -32603;

/// LSP `RequestCancelled`. The client sent `$/cancelRequest`.
pub const REQUEST_CANCELLED: i64 = -32800;

/// LSP `RequestFailed` (3.17). Syntactically correct, but `health` is `error` and the result
/// cannot be trusted, or `shutdown` made it impossible to keep waiting.
pub const REQUEST_FAILED: i64 = -32803;

} // verus!
