//! Header of a binary response.
use vstd::prelude::*;

use crate::binary_port::error_code::{error_code_value, ErrorCode};
use crate::binary_port::response_type::ResponseType;
use crate::bytesrepr::{
    from_bytes_option_u8, from_bytes_u16, lemma_option_u8_roundtrip, lemma_u16_roundtrip,
    option_u8_bytes, parse_option_u8, parse_u16, parsed_view, serialized_length_option_u8,
    u16_bytes, write_option_u8, write_u16, Error, Parsed, U16_SERIALIZED_LENGTH,
};

verus! {

/// Version of the binary response format that this node writes.
pub const BINARY_RESPONSE_VERSION: u16 = 1;

/// Header of the binary response.
#[derive(Debug, Clone, Copy, PartialEq, Eq, Structural)]
pub struct BinaryResponseHeader {
    binary_response_version: u16,
    error: u16,
    returned_data_type_tag: Option<u8>,
}

/// The header's encoding: version, error code, then the optional payload tag.
spec fn header_bytes(h: BinaryResponseHeader) -> Seq<u8> {
    u16_bytes(h.binary_response_version) + u16_bytes(h.error) + option_u8_bytes(
        h.returned_data_type_tag,
    )
}

/// Decoding of a header from the front of `s`.
spec fn parse_header(s: Seq<u8>) -> Parsed<BinaryResponseHeader> {
    match parse_u16(s) {
        Err(e) => Err(e),
        Ok((version, r1)) => match parse_u16(r1) {
            Err(e) => Err(e),
            Ok((error, r2)) => match parse_option_u8(r2) {
                Err(e) => Err(e),
                Ok((tag, r3)) => Ok(
                    (
                        BinaryResponseHeader {
                            binary_response_version: version,
                            error,
                            returned_data_type_tag: tag,
                        },
                        r3,
                    ),
                ),
            },
        },
    }
}

/// Decoding a header that was encoded in front of `rest` gives it back, with `rest`.
proof fn lemma_header_roundtrip(h: BinaryResponseHeader, rest: Seq<u8>)
    ensures
        parse_header(header_bytes(h) + rest) == Ok::<(BinaryResponseHeader, Seq<u8>), Error>(
            (h, rest),
        ),
{
    let tail2 = option_u8_bytes(h.returned_data_type_tag) + rest;
    let tail1 = u16_bytes(h.error) + tail2;
    assert(header_bytes(h) + rest =~= u16_bytes(h.binary_response_version) + tail1);
    lemma_u16_roundtrip(h.binary_response_version, tail1);
    lemma_u16_roundtrip(h.error, tail2);
    lemma_option_u8_roundtrip(h.returned_data_type_tag, rest);
}

impl BinaryResponseHeader {
    pub closed spec fn spec_version(&self) -> u16 {
        self.binary_response_version
    }

    pub closed spec fn spec_error(&self) -> u16 {
        self.error
    }

    pub closed spec fn spec_returned_data_type_tag(&self) -> Option<u8> {
        self.returned_data_type_tag
    }

    /// The header's bytes on the wire.
    pub closed spec fn spec_bytes(&self) -> Seq<u8> {
        header_bytes(*self)
    }

    /// The header decoded from the front of `s`, with the bytes that follow it.
    pub closed spec fn spec_parse(s: Seq<u8>) -> Parsed<BinaryResponseHeader> {
        parse_header(s)
    }

    /// Creates a new binary response header representing success.
    pub fn new(returned_data_type: Option<ResponseType>) -> (h: Self)
        ensures
            h.spec_version() == BINARY_RESPONSE_VERSION,
            h.spec_error() == error_code_value(ErrorCode::NoError),
            h.spec_returned_data_type_tag() == match returned_data_type {
                None => None,
                Some(ty) => Some(ty.tag),
            },
    {
        Self {
            binary_response_version: BINARY_RESPONSE_VERSION,
            error: ErrorCode::NoError.value(),
            returned_data_type_tag: match returned_data_type {
                None => None,
                Some(ty) => Some(ty.tag),
            },
        }
    }

    /// Creates a new binary response header representing an error.
    pub fn new_error(error: ErrorCode) -> (h: Self)
        ensures
            h.spec_version() == BINARY_RESPONSE_VERSION,
            h.spec_error() == error_code_value(error),
            h.spec_returned_data_type_tag() == None::<u8>,
    {
        Self {
            binary_response_version: BINARY_RESPONSE_VERSION,
            error: error.value(),
            returned_data_type_tag: None,
        }
    }

    /// Creates a header from its three fields, as read from the wire or drawn at random.
    pub fn from_parts(binary_response_version: u16, error: u16, returned_data_type_tag: Option<
        u8,
    >) -> (h: Self)
        ensures
            h.spec_version() == binary_response_version,
            h.spec_error() == error,
            h.spec_returned_data_type_tag() == returned_data_type_tag,
    {
        Self { binary_response_version, error, returned_data_type_tag }
    }

    /// Returns the version of the response format.
    pub fn binary_response_version(&self) -> (v: u16)
        ensures
            v == self.spec_version(),
    {
        self.binary_response_version
    }

    /// Returns the type of the returned data.
    pub fn returned_data_type_tag(&self) -> (t: Option<u8>)
        ensures
            t == self.spec_returned_data_type_tag(),
    {
        self.returned_data_type_tag
    }

    /// Returns the error code.
    pub fn error_code(&self) -> (e: u16)
        ensures
            e == self.spec_error(),
    {
        self.error
    }

    /// Returns true if the response represents success.
    pub fn is_success(&self) -> (b: bool)
        ensures
            b == (self.spec_error() == error_code_value(ErrorCode::NoError)),
    {
        self.error == ErrorCode::NoError.value()
    }

    /// Returns true if the response indicates the data was not found.
    pub fn is_not_found(&self) -> (b: bool)
        ensures
            b == (self.spec_error() == error_code_value(ErrorCode::NotFound)),
    {
        self.error == ErrorCode::NotFound.value()
    }

    /// Number of bytes of the header's encoding.
    pub fn serialized_length(&self) -> (n: usize)
        ensures
            n == self.spec_bytes().len(),
    {
        proof {
            lemma_u16_roundtrip(self.binary_response_version, seq![]);
            lemma_u16_roundtrip(self.error, seq![]);
        }
        U16_SERIALIZED_LENGTH + U16_SERIALIZED_LENGTH + serialized_length_option_u8(
            self.returned_data_type_tag,
        )
    }

    /// Appends the header's encoding to `writer`.
    pub fn write_bytes(&self, writer: &mut Vec<u8>) -> (res: Result<(), Error>)
        ensures
            res is Ok,
            final(writer)@ == old(writer)@ + self.spec_bytes(),
    {
        write_u16(writer, self.binary_response_version);
        write_u16(writer, self.error);
        write_option_u8(writer, self.returned_data_type_tag);
        assert(writer@ =~= old(writer)@ + self.spec_bytes());
        Ok(())
    }

    /// Serializes the header.
    pub fn to_bytes(&self) -> (res: Result<Vec<u8>, Error>)
        ensures
            res matches Ok(v) && v@ == self.spec_bytes(),
    {
        let mut buffer: Vec<u8> = Vec::new();
        self.write_bytes(&mut buffer)?;
        assert(buffer@ =~= self.spec_bytes());
        Ok(buffer)
    }

    /// Deserializes a header from the front of `bytes`, returning it with the remaining bytes.
    pub fn from_bytes(bytes: &[u8]) -> (res: Result<(Self, &[u8]), Error>)
        ensures
            parsed_view(res) == Self::spec_parse(bytes@),
    {
        let (binary_response_version, remainder) = from_bytes_u16(bytes)?;
        let (error, remainder) = from_bytes_u16(remainder)?;
        let (returned_data_type_tag, remainder) = from_bytes_option_u8(remainder)?;
        Ok((BinaryResponseHeader { binary_response_version, error, returned_data_type_tag }, remainder))
    }
}

/// A header takes five bytes on the wire without a payload tag, six with one.
pub proof fn lemma_header_bytes_len(h: BinaryResponseHeader)
    ensures
        h.spec_bytes().len() == if h.spec_returned_data_type_tag() is Some { 6int } else { 5int },
{
    lemma_u16_roundtrip(h.binary_response_version, seq![]);
    lemma_u16_roundtrip(h.error, seq![]);
}

/// A header's bytes on the wire: its version as two little-endian bytes, then its error
/// code likewise, then its optional payload tag; the first two bytes decode to the version.
pub proof fn lemma_header_layout(h: BinaryResponseHeader)
    ensures
        h.spec_bytes() == u16_bytes(h.spec_version()) + u16_bytes(h.spec_error())
            + option_u8_bytes(h.spec_returned_data_type_tag()),
        h.spec_bytes().take(2) == u16_bytes(h.spec_version()),
        vstd::bytes::spec_u16_from_le_bytes(h.spec_bytes().take(2)) == h.spec_version(),
{
    lemma_u16_roundtrip(h.binary_response_version, seq![]);
    vstd::bytes::lemma_auto_spec_u16_to_from_le_bytes();
    assert(h.spec_bytes().take(2) =~= u16_bytes(h.spec_version()));
}

/// A header read back from its own encoding, followed by anything, is the header itself.
pub proof fn lemma_header_bytes_roundtrip(h: BinaryResponseHeader, rest: Seq<u8>)
    ensures
        BinaryResponseHeader::spec_parse(h.spec_bytes() + rest) == Ok::<
            (BinaryResponseHeader, Seq<u8>),
            Error,
        >((h, rest)),
{
    lemma_header_roundtrip(h, rest);
}

} // verus!
