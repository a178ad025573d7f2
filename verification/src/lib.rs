//! Canonical Extended JSON transcoding for a document-database HTTP API.
//!
//! The crate converts wire bytes to and from a typed extended-value tree,
//! gates requests on their declared content type, binds decoded documents
//! to typed request structures, and classifies store failures into a
//! fixed set of wire-safe error shapes. Success and failure bodies go
//! through the same codec, under exactly two outward statuses.

use vstd::prelude::*;

pub mod base64;
pub mod bind;
pub mod codec;
pub mod decode;
pub mod errors;
pub mod guard;
pub mod hex;
pub mod json;
pub mod numbers;
pub mod parse;
pub mod render;
pub mod requests;
pub mod results;
pub mod text;
pub mod value;
pub mod wire;

pub use value::ExtendedValue;
pub use wire::EJSON;
pub use wire::WireMessage;

verus! {

} // verus!
