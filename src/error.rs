//! Errors of the two protocol generations.

use vstd::prelude::*;

verus! {

/// Why a control-plane message, header or field could not be decoded.
#[derive(Debug, Clone, Copy, PartialEq, Eq, Structural)]
pub enum GTPV2Error {
    /// The header is truncated, or the message is shorter than its header says.
    MessageInvalidMessageFormat,
    /// The message type in the header is not the one the caller asked for.
    MessageIncorrectMessageType,
    /// A mandatory field of the given type was not found.
    MessageMandatoryIEMissing(u8),
    /// A field of the given type runs past its buffer or has a size its type does not allow.
    IEInvalidLength(u8),
    /// A field of the given type has the right size but a shape its type does not allow.
    IEIncorrect(u8),
    /// The header names a protocol version other than 2.
    HeaderVersionNotSupported,
}

/// Why a user-plane extension header could not be decoded.
#[derive(Debug, Clone, Copy, PartialEq, Eq, Structural)]
pub enum GTPV1Error {
    /// A link declares a length of zero or runs past its buffer.
    ExtHeaderInvalidLength,
}

} // verus!
