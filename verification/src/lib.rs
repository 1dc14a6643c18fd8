//! PCTX core: a code-mode gateway library for the Model Context Protocol.
//!
//! The library lowers JSON Schema tool descriptors into TypeScript source,
//! assembles the sandboxed program a gateway executes, and carries the pure
//! decision logic of the executor pipeline: diagnostic filtering, network
//! permission checks, console capture, and result reporting.  All I/O (HTTP
//! transport, the JavaScript engine) lives outside this crate and hands the
//! library plain values.

pub mod case;
pub mod client;
pub mod diagnostics;
pub mod emit;
pub mod executor;
pub mod gateway;
pub mod hosts;
pub mod json;
pub mod node;
pub mod registry;
pub mod schema;
pub mod text;
pub mod token;
pub mod typegen;
pub mod typename;

use vstd::prelude::*;

verus! {

/// The library version.
pub fn version() -> (r: &'static str)
    ensures
        r@ == "0.1.0"@,
{
    "0.1.0"
}

} // verus!
