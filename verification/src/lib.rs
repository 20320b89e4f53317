//! The execution and dispatch engine of a pool of workers that host
//! WebAssembly programs.
//!
//! A coordinator keeps the addresses of the workers and hands them out in
//! turn ([`arbiter`]). For each call of a procedure it builds the request for
//! the next worker and reads what the worker answers ([`outcall`]). A worker
//! reads the request from a connection ([`reader`], [`wire`]), finds out what
//! it asks for ([`node`]), calls the operation of the program that is meant
//! ([`harness_os`], [`wapc_host`]), and writes the response ([`http`]).
//!
//! The library computes and decides; it neither reads from a connection nor
//! writes to one, and it starts no engine and runs no call in one: it says
//! what is to be done and takes what doing it ended in. Every function is
//! verified against its contract, but for one conversion of bytes to text,
//! whose contract is taken on trust and says so.

pub mod arbiter;
pub mod error;
pub mod harness_os;
pub mod http;
pub mod internals;
pub mod node;
pub mod outcall;
pub mod program;
pub mod reader;
pub mod result;
pub mod round_trip;
pub mod schema;
pub mod text;
pub mod wapc_host;
pub mod wire;

pub use harness_os::HarnessOs;
pub use result::HarnessResult;
