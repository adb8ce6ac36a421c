//! The typed errors of the codec.
//!
//! Every decode or encode error is fatal to the call that produced it and
//! propagates to the caller with the name of the element being read or
//! written attached; the codec never retries and never invents a default
//! value to paper over missing data.

use vstd::prelude::*;

verus! {

/// Why a decode failed.
#[derive(Debug, Clone, PartialEq)]
pub enum DecodeError {
    /// The stream ended before the matching close tag.
    UnexpectedEndOfStream,
    /// An event occurred that no state of the current decoder accepts.
    UnexpectedElement { expected: String, found: String },
    /// A structurally valid parse left a mandatory field unset.
    RequiredDataMissing { required_field: String, element: String },
    /// The wire bytes could not be tokenized into events at all.
    MalformedDocument,
}

/// View of a decode error over character sequences.
#[verifier::ext_equal]
pub enum DecodeErrorV {
    UnexpectedEndOfStream,
    UnexpectedElement { expected: Seq<char>, found: Seq<char> },
    RequiredDataMissing { required_field: Seq<char>, element: Seq<char> },
    MalformedDocument,
}

impl DeepView for DecodeError {
    type V = DecodeErrorV;

    open spec fn deep_view(&self) -> DecodeErrorV {
        match self {
            DecodeError::UnexpectedEndOfStream => DecodeErrorV::UnexpectedEndOfStream,
            DecodeError::UnexpectedElement { expected, found } => DecodeErrorV::UnexpectedElement {
                expected: expected@,
                found: found@,
            },
            DecodeError::RequiredDataMissing { required_field, element } => {
                DecodeErrorV::RequiredDataMissing {
                    required_field: required_field@,
                    element: element@,
                }
            },
            DecodeError::MalformedDocument => DecodeErrorV::MalformedDocument,
        }
    }
}

/// Why an encode failed: the underlying sink refused a write.  The name of
/// the element being written is attached for diagnostics.
#[derive(Debug, Clone, PartialEq)]
pub enum EncodeError {
    SinkWriteFailure { element: String },
}

} // verus!
