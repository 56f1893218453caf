use vstd::prelude::*;

verus! {

/// Everything that can go wrong while building, decoding or sending LLDP data.
#[derive(Debug, Clone, Copy, PartialEq, Eq, Structural)]
pub enum LldpError {
    /// The buffer is shorter or longer than its header declares, or the
    /// declared length is impossible for the record's kind.
    MalformedHeader,
    /// The type code is not one of the registered kinds (or, for a decoder of
    /// one kind, not that kind).
    UnknownTlvType,
    /// A subtype byte is not allowed for the kind, or does not match the value.
    InvalidSubtype,
    /// A value is not UTF-8, has a bad address-family prefix, the wrong number
    /// of address bytes, or does not fit the kind's size bounds.
    InvalidEncoding,
    /// Some enabled capability is not supported.
    CapabilityMismatch,
    /// One of the three mandatory records is missing from its position.
    OrderingViolation,
    /// A mandatory record appears again after the first three positions.
    DuplicateMandatory,
    /// Something was appended after the end-of-LLDPDU record.
    TerminatorAlreadyPresent,
    /// The data unit would grow beyond 1500 bytes.
    SizeExceeded,
    /// The transport channel failed.
    TransportFailure,
}

} // verus!
