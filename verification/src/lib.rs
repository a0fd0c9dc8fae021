//! A small HTTP service: a fixed greeting and a saturating Fibonacci
//! calculator keyed by a path parameter.
//!
//! The library holds the verified logic: the Fibonacci computation, the
//! decimal parsing and rendering of the path parameter, the JSON bodies,
//! and the request dispatcher. Serving the result over TCP is left to the
//! embedding binary.

pub mod decimal;
pub mod fib;
pub mod http;
