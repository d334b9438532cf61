//! A verified model and round-trip codec for the `srv3` timed-text caption
//! dialect: an XML-based format carrying styled, timed caption paragraphs.
//!
//! The crate offers a document model ([`TimedText`]), a decoder from XML
//! text, an encoder back to XML text, and plain-text extraction over the
//! caption tree.

use vstd::prelude::*;

pub mod codec;
pub mod decode;
pub mod diag;
pub mod encode;
pub mod laws;
pub mod model;
pub mod text;
pub mod token;
pub mod xml;

verus! {

} // verus!
