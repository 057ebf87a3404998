use vstd::prelude::*;

verus! {

/// Errors of the wire codec and the message layer.
#[derive(Copy, Clone, PartialEq, Eq, Structural, Debug, Hash)]
pub enum Error {
    /// A buffer is too short for a header or a record.
    WireTruncated,
    /// An indexed sub-packet access lies past its count or capacity.
    WireIndexOutOfBounds,
    /// The frame preamble is not `PREAMBLE_WORD`.
    WirePreamble,
    /// The payload type does not fit the operation or the message kind.
    WireInvalidPayloadType,
    /// A bounded vector or queue is full.
    Capacity,
    /// A value would change its variant.
    ValueTypeMismatch,
    /// A textual value type name is not known.
    ParseValue,
}

} // verus!
