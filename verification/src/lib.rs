//! A decoder for the XDBF container format: the binary resource
//! database embedded in Xbox 360 title executables, holding
//! achievements, localized strings, stats layouts, title metadata and
//! auxiliary files.
//!
//! The decode is one pass over an immutable byte buffer: the byte order
//! is detected from a probe word, the header and entry directory are
//! read, and each directory descriptor selects a range of the data
//! segment that is decoded into one of twelve structured record kinds
//! or passed through as opaque bytes. Every decoder's result is stated
//! exactly, byte offset by byte offset, over the input sequence.
pub mod container;
pub mod gzip;
pub mod ident;
pub mod sections;
pub mod text;
pub mod words;

use vstd::prelude::*;

verus! {

/// The ways a container decode can fail.
#[derive(Clone, Copy, Debug, PartialEq, Eq, Structural)]
pub enum XdbfError {
    /// The buffer is shorter than the fixed header, or the header's
    /// table lengths and counts are inconsistent with each other or
    /// with the buffer size.
    MalformedHeader,
    /// A descriptor's absolute offset plus length exceeds the buffer.
    TruncatedData,
    /// A structured section's counts or enumerated values are inconsistent
    /// with its data.
    MalformedSection,
    /// A length-prefixed string is not valid UTF-8.
    InvalidText,
    /// An embedded gzip stream is malformed.
    DecompressionError,
    /// An embedded container could not be located in an executable image.
    ResourceNotFound,
}

} // verus!
