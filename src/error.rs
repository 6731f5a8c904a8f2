//! Error types of the codec and of the bus framer, with their abstract views.
use vstd::prelude::*;

verus! {

/// `std::io::Error`, carried unopened by the I/O error variants.
#[verifier::external_type_specification]
#[verifier::external_body]
pub struct ExIoError(std::io::Error);

/// `std::str::Utf8Error`, returned by `std::str::from_utf8` and carried unopened.
#[verifier::external_type_specification]
#[verifier::external_body]
pub struct ExUtf8Error(std::str::Utf8Error);

/// `std::num::ParseIntError`, returned by the integer parsers and carried unopened.
#[verifier::external_type_specification]
#[verifier::external_body]
pub struct ExParseIntError(std::num::ParseIntError);

/// `hex::FromHexError`, returned by `hex::decode` and carried unopened.
#[verifier::external_type_specification]
#[verifier::external_body]
pub struct ExFromHexError(hex::FromHexError);

/// The top-level failure of a transfer: either the command could not be
/// written, or its acknowledgment / response could not be read.
#[derive(Debug)]
pub enum TransferError {
    Write(WriteError),
    Read(ReadError),
}

/// The transport refused the outbound command line.
#[derive(Debug)]
pub enum WriteError {
    Io(std::io::Error),
}

/// Failure while waiting for, or interpreting, a packet from the adapter.
#[derive(Debug)]
pub enum ReadError {
    /// The transport read failed.
    Io(std::io::Error),
    /// The response packet is not valid UTF-8.
    Utf8(std::str::Utf8Error),
    /// The response packet is text but not a well-formed `rcv` line.
    Parse(ParseError),
    /// A packet of the wrong kind arrived, or none arrived before the deadline.
    LostSync { expected: String, received: String },
}

/// Fine-grained failure of decoding an inbound `rcv` line.
#[derive(Debug)]
pub enum ParseError {
    /// The first token is not the expected one.
    UnexpectedData { expected: String, received: String },
    /// The line ended where a token was expected.
    UnexpectedEOL { expected: String },
    /// A boolean flag token carries characters after its letter.
    UnexpectedFlagData { flag: String, data: String },
    /// The arbitration id is not a hexadecimal `u16`.
    ID(std::num::ParseIntError),
    /// The payload is not a valid hex string.
    Data(hex::FromHexError),
    /// The payload decodes to more than 64 bytes; the field holds its length.
    DataLength(usize),
    /// The timestamp digits are not a decimal `u32`.
    TimeStamp(std::num::ParseIntError),
}

/// A payload of more than 64 bytes was offered to a frame constructor; the
/// field holds the offending length.
#[derive(Debug, PartialEq, Eq)]
pub struct InvalidFrameLength(pub usize);

/// What a `ParseError` says, with the text of its fields and without the
/// opaque errors of the number and hex parsers.
pub enum ParseFault {
    UnexpectedData { expected: Seq<char>, received: Seq<char> },
    UnexpectedEOL { expected: Seq<char> },
    UnexpectedFlagData { flag: Seq<char>, data: Seq<char> },
    ID,
    Data,
    DataLength(nat),
    TimeStamp,
}

/// What a `ReadError` says.
pub enum ReadFault {
    Io,
    Utf8,
    Parse(ParseFault),
    LostSync { expected: Seq<char>, received: Seq<char> },
}

impl View for ParseError {
    type V = ParseFault;

    open spec fn view(&self) -> ParseFault {
        match self {
            ParseError::UnexpectedData { expected, received } => ParseFault::UnexpectedData {
                expected: expected@,
                received: received@,
            },
            ParseError::UnexpectedEOL { expected } => ParseFault::UnexpectedEOL {
                expected: expected@,
            },
            ParseError::UnexpectedFlagData { flag, data } => ParseFault::UnexpectedFlagData {
                flag: flag@,
                data: data@,
            },
            ParseError::ID(_) => ParseFault::ID,
            ParseError::Data(_) => ParseFault::Data,
            ParseError::DataLength(n) => ParseFault::DataLength(*n as nat),
            ParseError::TimeStamp(_) => ParseFault::TimeStamp,
        }
    }
}

impl View for ReadError {
    type V = ReadFault;

    open spec fn view(&self) -> ReadFault {
        match self {
            ReadError::Io(_) => ReadFault::Io,
            ReadError::Utf8(_) => ReadFault::Utf8,
            ReadError::Parse(e) => ReadFault::Parse(e@),
            ReadError::LostSync { expected, received } => ReadFault::LostSync {
                expected: expected@,
                received: received@,
            },
        }
    }
}

} // verus!
