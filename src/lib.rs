//! Request-dispatch core of a web-serving layer that runs foreign handler
//! callables: route table, dependency resolution, argument planning, response
//! conversion, middleware configuration and the WebSocket frame pump.
//!
//! Foreign callables are referred to by an opaque [`CallableId`]; the code that
//! owns the embedded runtime maps each id to the real callable and performs the
//! calls that the functions here plan.
use vstd::prelude::*;

pub mod dependencies;
pub mod dispatch;
pub mod middleware;
pub mod params;
pub mod responses;
pub mod routes;
pub mod security;
pub mod signatures;
pub mod status;
pub mod upload;
pub mod websocket;

verus! {

/// Identity of a foreign callable (handler, dependency or middleware function).
pub type CallableId = u64;

} // verus!
