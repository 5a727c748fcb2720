//! Error kinds for decoding a single captured frame.
//!
//! A decode error condemns only the frame that produced it: the capture loop
//! drops the frame and continues with the next one.

use vstd::prelude::*;

verus! {

/// Why a frame could not be decoded.
#[derive(Copy, Clone, Debug, PartialEq, Eq, Structural)]
pub enum Dot11Error {
    /// The frame-control field carries a protocol version other than 0.
    UnsupportedProtocolVersion,
    /// Fewer bytes were available than a fixed-width field requires.
    TruncatedInput,
}

} // verus!
