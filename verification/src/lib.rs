//! A dispatcher for zero-knowledge proof systems.
//!
//! A host registers its circuits once, each under the name of its artifact and
//! with the proof system it was compiled for. A request to prove or to verify is
//! then routed by the artifact's name to the adapter of that proof system, its
//! inputs are checked at the boundary, and its progress is followed by one
//! lifecycle that all adapters share. The cryptography and the files belong to
//! the host: the library decides, the host acts and reports back.

use vstd::prelude::*;

pub mod arithmetic;
pub mod dispatch;
pub mod envelope;
pub mod error;
pub mod inputs;
pub mod lifecycle;
pub mod polynomial;
pub mod registry;
pub mod text;
pub mod universal;

verus! {

/// The greeting that host bindings use to probe that the library is loaded.
pub open spec fn greeting() -> Seq<char> {
    "Hello, World!"@
}

/// Returns the fixed greeting, so that a host can check its binding end to end.
pub fn mopro_uniffi_hello_world() -> (text: String)
    ensures
        text@ == greeting(),
{
    "Hello, World!".to_string()
}

} // verus!
