use vstd::prelude::*;

verus! {

/// Why a connection was given up.
#[derive(Clone, Copy, Debug, PartialEq, Eq, Structural)]
pub enum ProtocolError {
    /// Five bytes were read and the VarInt still had not ended.
    MalformedVarInt,
    /// The bytes stopped before the field or packet being read was complete.
    UnexpectedEndOfStream,
    /// A length prefix decoded to a negative number.
    InvalidLength,
    /// A packet body would be longer than a length prefix can declare.
    PacketTooLong,
    /// The JSON encoder refused a value of the document.
    SerializationFailure,
}

impl ProtocolError {
    /// A short description, fit for a log line.
    pub fn message(&self) -> (text: &'static str)
        ensures
            text@ == match *self {
                ProtocolError::MalformedVarInt => "VarInt is too big"@,
                ProtocolError::UnexpectedEndOfStream => "unexpected end of stream"@,
                ProtocolError::InvalidLength => "negative length prefix"@,
                ProtocolError::PacketTooLong => "packet is too long"@,
                ProtocolError::SerializationFailure => "document could not be serialized"@,
            },
    {
        match self {
            ProtocolError::MalformedVarInt => "VarInt is too big",
            ProtocolError::UnexpectedEndOfStream => "unexpected end of stream",
            ProtocolError::InvalidLength => "negative length prefix",
            ProtocolError::PacketTooLong => "packet is too long",
            ProtocolError::SerializationFailure => "document could not be serialized",
        }
    }
}

} // verus!
