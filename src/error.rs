use vstd::prelude::*;
use vstd::string::*;

verus! {

/// Everything that can go wrong talking to the relay board.
#[derive(Debug)]
pub enum Error {
    /// The connection failed while sending or receiving.
    Io(String),
    /// A failure described only by its message.
    Generic(String),
    /// A response broke the framing rules: it filled the whole receive
    /// buffer, or a configuration reply lacked its `>` ... `;` envelope.
    Framing(String),
    /// A response did not have the expected fixed shape.
    Decode(String),
    /// A configuration reply held this many fields instead of one per key.
    FieldCount(usize),
    /// The named configuration key does not exist or cannot be written.
    KeyNotFound(String),
    /// The device answered a write with `ERR`.
    DeviceRejected,
    /// The device answered a write with something other than `OK` or `ERR`.
    UnknownResponse(String),
    /// The reply was well formed but the channel was not closed afterwards.
    Verification(u8),
    /// A channel selector expression could not be parsed.
    Parse(String),
}

impl Error {
    /// The text that describes this error.
    pub open spec fn spec_description(&self) -> Seq<char> {
        match self {
            Error::Io(m) => "IO error: "@ + m@,
            Error::Generic(m) => "Generic error: "@ + m@,
            Error::Framing(m) => "Framing error: "@ + m@,
            Error::Decode(m) => "Decode error: "@ + m@,
            Error::FieldCount(_) => "Unexpected number of values"@,
            Error::KeyNotFound(k) => "Key not found: "@ + k@,
            Error::DeviceRejected => "Device replied with error"@,
            Error::UnknownResponse(p) => "Unknown response: "@ + p@,
            Error::Verification(_) => "Channel not closed when expected"@,
            Error::Parse(x) => "Failed to parse: "@ + x@,
        }
    }

    /// Describes this error in words.
    pub fn description(&self) -> (r: String)
        ensures
            r@ == self.spec_description(),
    {
        match self {
            Error::Io(m) => String::from_str("IO error: ").concat(m.as_str()),
            Error::Generic(m) => String::from_str("Generic error: ").concat(m.as_str()),
            Error::Framing(m) => String::from_str("Framing error: ").concat(m.as_str()),
            Error::Decode(m) => String::from_str("Decode error: ").concat(m.as_str()),
            Error::FieldCount(_) => String::from_str("Unexpected number of values"),
            Error::KeyNotFound(k) => String::from_str("Key not found: ").concat(k.as_str()),
            Error::DeviceRejected => String::from_str("Device replied with error"),
            Error::UnknownResponse(p) => String::from_str("Unknown response: ").concat(p.as_str()),
            Error::Verification(_) => String::from_str("Channel not closed when expected"),
            Error::Parse(x) => String::from_str("Failed to parse: ").concat(x.as_str()),
        }
    }
}

/// Builds a [`Error::Generic`] carrying `msg`.
pub fn make_generic(msg: &str) -> (r: Error)
    ensures
        r matches Error::Generic(m) && m@ == msg@,
{
    Error::Generic(msg.to_owned())
}

} // verus!
