//! The response of the binary port protocol: a header and an opaque payload.
use vstd::prelude::*;

use crate::binary_port::binary_response_header::{
    lemma_header_bytes_len, lemma_header_bytes_roundtrip, BinaryResponseHeader, BINARY_RESPONSE_VERSION,
};
use crate::binary_port::error_code::{error_code_value, ErrorCode};
use crate::binary_port::response_type::ResponseType;
use crate::bytesrepr::{
    byte_string_bytes, byte_string_representable, from_bytes_byte_string,
    lemma_byte_string_roundtrip, lemma_u32_roundtrip, parse_byte_string, write_byte_string, Error,
    Parsed, U32_SERIALIZED_LENGTH,
};

verus! {

/// The response used in the binary port protocol.
#[derive(Debug, PartialEq, Eq)]
pub struct BinaryResponse {
    /// Header of the binary response.
    header: BinaryResponseHeader,
    /// The response.
    payload: Vec<u8>,
}

/// The encoding of a response with the given header and payload.
pub open spec fn response_bytes(header: BinaryResponseHeader, payload: Seq<u8>) -> Seq<u8> {
    header.spec_bytes() + byte_string_bytes(payload)
}

/// Decoding of a response, as its header and payload, from the front of `s`.
pub open spec fn parse_response(s: Seq<u8>) -> Parsed<(BinaryResponseHeader, Seq<u8>)> {
    match BinaryResponseHeader::spec_parse(s) {
        Err(e) => Err(e),
        Ok((header, r1)) => match parse_byte_string(r1) {
            Err(e) => Err(e),
            Ok((payload, r2)) => Ok(((header, payload), r2)),
        },
    }
}

/// A response with a representable payload, read back from its own encoding followed by
/// anything, is the response itself.
pub proof fn lemma_response_roundtrip(
    header: BinaryResponseHeader,
    payload: Seq<u8>,
    rest: Seq<u8>,
)
    requires
        byte_string_representable(payload),
    ensures
        parse_response(response_bytes(header, payload) + rest) == Ok::<
            ((BinaryResponseHeader, Seq<u8>), Seq<u8>),
            Error,
        >(((header, payload), rest)),
{
    let tail = byte_string_bytes(payload) + rest;
    assert(response_bytes(header, payload) + rest =~= header.spec_bytes() + tail);
    lemma_header_bytes_roundtrip(header, tail);
    lemma_byte_string_roundtrip(payload, rest);
}

impl View for BinaryResponse {
    type V = (BinaryResponseHeader, Seq<u8>);

    open spec fn view(&self) -> (BinaryResponseHeader, Seq<u8>) {
        (self.spec_header(), self.spec_payload())
    }
}

impl BinaryResponse {
    pub closed spec fn spec_header(&self) -> BinaryResponseHeader {
        self.header
    }

    pub closed spec fn spec_payload(&self) -> Seq<u8> {
        self.payload@
    }

    /// Creates a response from a header and a payload.
    pub fn from_parts(header: BinaryResponseHeader, payload: Vec<u8>) -> (r: Self)
        ensures
            r.spec_header() == header,
            r.spec_payload() == payload@,
    {
        BinaryResponse { header, payload }
    }

    /// Creates new empty binary response.
    pub fn new_empty() -> (r: Self)
        ensures
            r.spec_header().spec_version() == BINARY_RESPONSE_VERSION,
            r.spec_header().spec_error() == error_code_value(ErrorCode::NoError),
            r.spec_header().spec_returned_data_type_tag() == None::<u8>,
            r.spec_payload() == Seq::<u8>::empty(),
    {
        Self { header: BinaryResponseHeader::new(None), payload: Vec::new() }
    }

    /// Creates new binary response with error code.
    pub fn new_error(error: ErrorCode) -> (r: Self)
        ensures
            r.spec_header().spec_version() == BINARY_RESPONSE_VERSION,
            r.spec_header().spec_error() == error_code_value(error),
            r.spec_header().spec_returned_data_type_tag() == None::<u8>,
            r.spec_payload() == Seq::<u8>::empty(),
    {
        BinaryResponse { header: BinaryResponseHeader::new_error(error), payload: Vec::new() }
    }

    /// Creates new binary response from raw bytes.
    pub fn from_raw_bytes(payload_type: ResponseType, payload: Vec<u8>) -> (r: Self)
        ensures
            r.spec_header().spec_version() == BINARY_RESPONSE_VERSION,
            r.spec_header().spec_error() == error_code_value(ErrorCode::NoError),
            r.spec_header().spec_returned_data_type_tag() == Some(payload_type.tag),
            r.spec_payload() == payload@,
    {
        BinaryResponse { header: BinaryResponseHeader::new(Some(payload_type)), payload }
    }

    /// Creates a binary response from a value, given as the outcome of serializing it:
    /// the payload with the value's type on success, an internal error with no payload
    /// otherwise.
    pub fn from_value(payload_type: ResponseType, serialized: Result<Vec<u8>, Error>) -> (r:
        Self)
        ensures
            serialized is Ok ==> r.spec_header().spec_error() == error_code_value(
                ErrorCode::NoError,
            ) && r.spec_header().spec_returned_data_type_tag() == Some(payload_type.tag)
                && r.spec_payload() == serialized->Ok_0@,
            serialized is Err ==> r.spec_header().spec_error() == error_code_value(
                ErrorCode::InternalError,
            ) && r.spec_header().spec_returned_data_type_tag() == None::<u8>
                && r.spec_payload() == Seq::<u8>::empty(),
            r.spec_header().spec_version() == BINARY_RESPONSE_VERSION,
    {
        match serialized {
            Ok(payload) => Self::from_raw_bytes(payload_type, payload),
            Err(_) => Self::new_error(ErrorCode::InternalError),
        }
    }

    /// Creates a binary response from an optional value, given as the outcome of
    /// serializing it: an empty response when there is none.
    pub fn from_option(
        payload_type: ResponseType,
        serialized: Option<Result<Vec<u8>, Error>>,
    ) -> (r: Self)
        ensures
            serialized is None ==> r.spec_header().spec_error() == error_code_value(
                ErrorCode::NoError,
            ) && r.spec_header().spec_returned_data_type_tag() == None::<u8>
                && r.spec_payload() == Seq::<u8>::empty(),
            serialized matches Some(Ok(p)) ==> r.spec_header().spec_error() == error_code_value(
                ErrorCode::NoError,
            ) && r.spec_header().spec_returned_data_type_tag() == Some(payload_type.tag)
                && r.spec_payload() == p@,
            serialized matches Some(Err(_)) ==> r.spec_header().spec_error() == error_code_value(
                ErrorCode::InternalError,
            ) && r.spec_header().spec_returned_data_type_tag() == None::<u8>
                && r.spec_payload() == Seq::<u8>::empty(),
            r.spec_header().spec_version() == BINARY_RESPONSE_VERSION,
    {
        match serialized {
            Some(s) => Self::from_value(payload_type, s),
            None => Self::new_empty(),
        }
    }

    /// Returns the header.
    pub fn header(&self) -> (h: &BinaryResponseHeader)
        ensures
            *h == self.spec_header(),
    {
        &self.header
    }

    /// Returns true if response is success.
    pub fn is_success(&self) -> (b: bool)
        ensures
            b == (self.spec_header().spec_error() == error_code_value(ErrorCode::NoError)),
    {
        self.header.is_success()
    }

    /// Returns the error code.
    pub fn error_code(&self) -> (e: u16)
        ensures
            e == self.spec_header().spec_error(),
    {
        self.header.error_code()
    }

    /// Returns the payload type of the response.
    pub fn returned_data_type_tag(&self) -> (t: Option<u8>)
        ensures
            t == self.spec_header().spec_returned_data_type_tag(),
    {
        self.header.returned_data_type_tag()
    }

    /// Returns true if the response means that data has not been found.
    pub fn is_not_found(&self) -> (b: bool)
        ensures
            b == (self.spec_header().spec_error() == error_code_value(ErrorCode::NotFound)),
    {
        self.header.is_not_found()
    }

    /// Returns the payload.
    pub fn payload(&self) -> (p: &[u8])
        ensures
            p@ == self.spec_payload(),
    {
        self.payload.as_slice()
    }

    /// The response's bytes on the wire.
    pub open spec fn spec_bytes(&self) -> Seq<u8> {
        response_bytes(self.spec_header(), self.spec_payload())
    }

    /// Number of bytes of the response's encoding.
    pub fn serialized_length(&self) -> (n: usize)
        requires
            self.spec_payload().len() + 10 <= usize::MAX,
        ensures
            n == self.spec_bytes().len(),
            n <= self.spec_payload().len() + 10,
    {
        proof {
            lemma_header_bytes_len(self.header);
            lemma_u32_roundtrip(self.payload@.len() as u32, seq![]);
        }
        self.header.serialized_length() + U32_SERIALIZED_LENGTH + self.payload.len()
    }

    /// Appends the response's encoding to `writer`. Fails when the payload is longer
    /// than a `u32` can count; the header is then already written.
    pub fn write_bytes(&self, writer: &mut Vec<u8>) -> (res: Result<(), Error>)
        ensures
            byte_string_representable(self.spec_payload()) ==> res is Ok && final(writer)@ == old(
                writer,
            )@ + self.spec_bytes(),
            !byte_string_representable(self.spec_payload()) ==> res == Err::<(), Error>(
                Error::NotRepresentable,
            ) && final(writer)@ == old(writer)@ + self.spec_header().spec_bytes(),
    {
        self.header.write_bytes(writer)?;
        let r = write_byte_string(writer, self.payload.as_slice());
        assert(byte_string_representable(self.spec_payload()) ==> writer@ =~= old(writer)@
            + self.spec_bytes());
        r
    }

    /// Serializes the response. Fails with `OutOfMemory` when the encoding is longer than
    /// a `u32` can count.
    pub fn to_bytes(&self) -> (res: Result<Vec<u8>, Error>)
        requires
            self.spec_payload().len() + 10 <= usize::MAX,
        ensures
            self.spec_bytes().len() <= u32::MAX ==> (res matches Ok(v) && v@ == self.spec_bytes()),
            self.spec_bytes().len() > u32::MAX ==> res == Err::<Vec<u8>, Error>(
                Error::OutOfMemory,
            ),
    {
        let n = self.serialized_length();
        if n > u32::MAX as usize {
            return Err(Error::OutOfMemory);
        }
        let mut buffer: Vec<u8> = Vec::new();
        self.write_bytes(&mut buffer)?;
        assert(buffer@ =~= self.spec_bytes());
        Ok(buffer)
    }

    /// The response decoded from the front of `s`, with the bytes that follow it.
    pub open spec fn spec_parse(s: Seq<u8>) -> Parsed<(BinaryResponseHeader, Seq<u8>)> {
        parse_response(s)
    }

    /// Deserializes a response from the front of `bytes`, returning it with the remaining
    /// bytes.
    pub fn from_bytes(bytes: &[u8]) -> (res: Result<(Self, &[u8]), Error>)
        ensures
            match res {
                Ok((r, rem)) => Self::spec_parse(bytes@) == Ok::<
                    ((BinaryResponseHeader, Seq<u8>), Seq<u8>),
                    Error,
                >((r@, rem@)),
                Err(e) => Self::spec_parse(bytes@) == Err::<
                    ((BinaryResponseHeader, Seq<u8>), Seq<u8>),
                    Error,
                >(e),
            },
    {
        let (header, remainder) = BinaryResponseHeader::from_bytes(bytes)?;
        let (payload, remainder) = from_bytes_byte_string(remainder)?;
        Ok((BinaryResponse { header, payload }, remainder))
    }
}

/// Serializing a response and reading it back gives the same response and no leftover
/// bytes.
pub proof fn lemma_binary_response_roundtrip(r: BinaryResponse)
    requires
        byte_string_representable(r.spec_payload()),
    ensures
        BinaryResponse::spec_parse(r.spec_bytes()) == Ok::<
            ((BinaryResponseHeader, Seq<u8>), Seq<u8>),
            Error,
        >((r@, Seq::<u8>::empty())),
{
    lemma_response_roundtrip(r.spec_header(), r.spec_payload(), Seq::<u8>::empty());
    assert(r.spec_bytes() + Seq::<u8>::empty() =~= r.spec_bytes());
}

} // verus!
