//! The failures a lookup or a configuration load can end in.

use vstd::prelude::*;

verus! {

/// Why a lookup or a configuration load failed.
#[derive(Debug, Clone, Copy, PartialEq, Eq, Structural)]
pub enum Error {
    /// A timer elapsed before the operation finished.
    TimeoutError,
    /// A file or socket operation failed.
    FileSystemError,
    /// A token that had to be an IP address is not one.
    IpAddrParseError,
    /// A string slice is not valid UTF-8.
    Utf8StrError,
    /// An owned string is not valid UTF-8.
    Utf8StringError,
    /// A token of a configuration file is not valid UTF-8.
    Utf8ByteStringError,
    /// A DNS message is too short, or its sections cannot be read.
    ShortMessage,
    /// The question or the OPT record did not fit into the query message.
    MessagePushError,
    /// A domain name is malformed on the wire.
    NameError,
    /// A host name is not a domain name in presentation format.
    DomainNameParseError,
    /// A domain name grew past its size limit.
    DomainNamePushError,
    /// The query message could not even take its header.
    AppendError,
    /// The query is too long for the 16-bit length prefix of a stream.
    QueryTooLarge,
    /// A response carries another transaction identifier than the query.
    InvalidMessageID { expected: u16, found: u16 },
}

} // verus!
