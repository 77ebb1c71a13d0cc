//! The error taxonomy: framing errors are recoverable and abandon one
//! frame attempt; an unserializable outgoing message is dropped. Only
//! transport failures, which live outside this library, are fatal.
use crate::text::dec_chars;
use crate::text::u64_to_string;
use vstd::prelude::*;
use vstd::string::StringExecFns;

verus! {

/// Why one buffered message attempt could not be decoded.
#[derive(Debug, PartialEq, Eq)]
pub enum DecodeError {
    /// The buffer holds no `\r\n\r\n` header delimiter.
    MissingDelimiter,
    /// The bytes before the delimiter are not valid UTF-8.
    HeaderNotUtf8,
    /// The header does not start with `Content-Length: `.
    MissingPrefix { found: String },
    /// The rest of the header is not a non-negative decimal number.
    InvalidLengthField { field: String },
    /// The buffer holds fewer body bytes than the header declares.
    IncompleteBody { expected: usize, found: usize },
    /// The body is not one well-formed JSON value of the supported subset.
    Json,
}

/// Why an outgoing message could not be serialized.
#[derive(Debug, PartialEq, Eq)]
pub enum EncodeError {
    /// Some string holds a control character the wire format cannot carry.
    Unserializable,
}

/// The text `message` returns for each error.
pub open spec fn message_spec(e: DecodeError) -> Seq<char> {
    match e {
        DecodeError::MissingDelimiter => "could not find the message separator \"\\r\\n\\r\\n\" in the buffer"@,
        DecodeError::HeaderNotUtf8 => "header bytes are not valid UTF-8"@,
        DecodeError::MissingPrefix { found } => "expected header to start with \"Content-Length: \", but found: `"@
            + found@ + "`"@,
        DecodeError::InvalidLengthField { field } => "failed to parse the Content-Length value `"@
            + field@ + "` as a non-negative integer"@,
        DecodeError::IncompleteBody { expected, found } => "declared Content-Length is "@
            + dec_chars(expected as nat) + " but only "@ + dec_chars(found as nat)
            + " bytes of body data were provided"@,
        DecodeError::Json => "message body is not well-formed JSON"@,
    }
}

impl DecodeError {
    /// A human-readable account of the error.
    pub fn message(&self) -> (s: String)
        ensures
            s@ == message_spec(*self),
    {
        match self {
            DecodeError::MissingDelimiter => String::from_str(
                "could not find the message separator \"\\r\\n\\r\\n\" in the buffer",
            ),
            DecodeError::HeaderNotUtf8 => String::from_str("header bytes are not valid UTF-8"),
            DecodeError::MissingPrefix { found } => {
                let mut s = String::from_str(
                    "expected header to start with \"Content-Length: \", but found: `",
                );
                s.append(found.as_str());
                s.append("`");
                s
            },
            DecodeError::InvalidLengthField { field } => {
                let mut s = String::from_str("failed to parse the Content-Length value `");
                s.append(field.as_str());
                s.append("` as a non-negative integer");
                s
            },
            DecodeError::IncompleteBody { expected, found } => {
                let mut s = String::from_str("declared Content-Length is ");
                let e = u64_to_string(*expected as u64);
                s.append(e.as_str());
                s.append(" but only ");
                let f = u64_to_string(*found as u64);
                s.append(f.as_str());
                s.append(" bytes of body data were provided");
                s
            },
            DecodeError::Json => String::from_str("message body is not well-formed JSON"),
        }
    }
}

impl EncodeError {
    /// A human-readable account of the error.
    pub fn message(&self) -> (s: String)
        ensures
            s@ == "a string in the outgoing message holds a control character"@,
    {
        String::from_str("a string in the outgoing message holds a control character")
    }
}

} // verus!
