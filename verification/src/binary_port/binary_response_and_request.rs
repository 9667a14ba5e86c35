//! A binary response with the original binary request attached.
use vstd::prelude::*;

use crate::binary_port::binary_response::{
    lemma_response_roundtrip, parse_response, response_bytes, BinaryResponse,
};
use crate::binary_port::binary_response_header::{BinaryResponseHeader, BINARY_RESPONSE_VERSION};
use crate::binary_port::error_code::{error_code_value, ErrorCode};
use crate::binary_port::response_type::ResponseType;
use crate::bytesrepr::{
    byte_string_bytes, byte_string_representable, from_bytes_byte_string,
    lemma_byte_string_roundtrip, lemma_u32_roundtrip, parse_byte_string, write_byte_string, Error, Parsed,
    U32_SERIALIZED_LENGTH,
};

verus! {

/// The binary response along with the original binary request attached.
#[derive(Debug, PartialEq, Eq)]
pub struct BinaryResponseAndRequest {
    /// Context of the original request.
    request: Vec<u8>,
    /// The response.
    response: BinaryResponse,
}

/// The model of a response with its request: the request bytes, then the response's
/// header and payload.
pub type ResponseAndRequestModel = (Seq<u8>, (BinaryResponseHeader, Seq<u8>));

/// The encoding: the request as a byte string, then the response.
pub open spec fn response_and_request_bytes(m: ResponseAndRequestModel) -> Seq<u8> {
    byte_string_bytes(m.0) + response_bytes(m.1.0, m.1.1)
}

/// Decoding of a response with its request from the front of `s`.
pub open spec fn parse_response_and_request(s: Seq<u8>) -> Parsed<ResponseAndRequestModel> {
    match parse_byte_string(s) {
        Err(e) => Err(e),
        Ok((request, r1)) => match parse_response(r1) {
            Err(e) => Err(e),
            Ok((response, r2)) => Ok(((request, response), r2)),
        },
    }
}

impl View for BinaryResponseAndRequest {
    type V = ResponseAndRequestModel;

    open spec fn view(&self) -> ResponseAndRequestModel {
        (self.spec_request(), self.spec_response()@)
    }
}

impl BinaryResponseAndRequest {
    pub closed spec fn spec_request(&self) -> Seq<u8> {
        self.request@
    }

    pub closed spec fn spec_response(&self) -> BinaryResponse {
        self.response
    }

    /// Creates new binary response with the original request attached.
    pub fn new(data: BinaryResponse, request: Vec<u8>) -> (r: Self)
        ensures
            r.spec_request() == request@,
            r.spec_response() == data,
    {
        Self { request, response: data }
    }

    /// Returns a new binary response with the given serialized data of the given type and no
    /// original request.
    pub fn new_test_response(payload_type: ResponseType, data: Vec<u8>) -> (r: Self)
        ensures
            r.spec_request() == Seq::<u8>::empty(),
            r.spec_response().spec_header().spec_version() == BINARY_RESPONSE_VERSION,
            r.spec_response().spec_header().spec_error() == error_code_value(ErrorCode::NoError),
            r.spec_response().spec_header().spec_returned_data_type_tag() == Some(payload_type.tag),
            r.spec_response().spec_payload() == data@,
    {
        let response = BinaryResponse::from_raw_bytes(payload_type, data);
        Self::new(response, Vec::new())
    }

    /// Returns true if response is success.
    pub fn is_success(&self) -> (b: bool)
        ensures
            b == (self.spec_response().spec_header().spec_error() == error_code_value(
                ErrorCode::NoError,
            )),
    {
        self.response.is_success()
    }

    /// Returns the error code.
    pub fn error_code(&self) -> (e: u16)
        ensures
            e == self.spec_response().spec_header().spec_error(),
    {
        self.response.error_code()
    }

    /// Returns serialized bytes representing the original request.
    pub fn request(&self) -> (r: &[u8])
        ensures
            r@ == self.spec_request(),
    {
        self.request.as_slice()
    }

    /// Returns the inner binary response.
    pub fn response(&self) -> (r: &BinaryResponse)
        ensures
            *r == self.spec_response(),
    {
        &self.response
    }

    /// Takes the inner binary response, dropping the request.
    pub fn into_response(self) -> (r: BinaryResponse)
        ensures
            r == self.spec_response(),
    {
        self.response
    }

    /// The bytes on the wire.
    pub open spec fn spec_bytes(&self) -> Seq<u8> {
        response_and_request_bytes(self@)
    }

    /// Number of bytes of the encoding.
    pub fn serialized_length(&self) -> (n: usize)
        requires
            self.spec_request().len() + self.spec_response().spec_payload().len() + 20
                <= usize::MAX,
        ensures
            n == self.spec_bytes().len(),
    {
        proof {
            lemma_u32_roundtrip(self.request@.len() as u32, seq![]);
        }
        U32_SERIALIZED_LENGTH + self.request.len() + self.response.serialized_length()
    }

    /// Appends the encoding to `writer`. Fails with `NotRepresentable` when the request or
    /// the payload is longer than a `u32` can count.
    pub fn write_bytes(&self, writer: &mut Vec<u8>) -> (res: Result<(), Error>)
        ensures
            byte_string_representable(self.spec_request()) && byte_string_representable(
                self.spec_response().spec_payload(),
            ) ==> res is Ok && final(writer)@ == old(writer)@ + self.spec_bytes(),
            !(byte_string_representable(self.spec_request()) && byte_string_representable(
                self.spec_response().spec_payload(),
            )) ==> res == Err::<(), Error>(Error::NotRepresentable),
    {
        write_byte_string(writer, self.request.as_slice())?;
        let r = self.response.write_bytes(writer);
        assert(r is Ok ==> writer@ =~= old(writer)@ + self.spec_bytes());
        r
    }

    /// Serializes the response with its request. Fails with `OutOfMemory` when the
    /// encoding is longer than a `u32` can count.
    pub fn to_bytes(&self) -> (res: Result<Vec<u8>, Error>)
        requires
            self.spec_request().len() + self.spec_response().spec_payload().len() + 20
                <= usize::MAX,
        ensures
            self.spec_bytes().len() <= u32::MAX ==> (res matches Ok(v) && v@ == self.spec_bytes()),
            self.spec_bytes().len() > u32::MAX ==> res == Err::<Vec<u8>, Error>(
                Error::OutOfMemory,
            ),
    {
        let n = self.serialized_length();
        if n > u32::MAX as usize {
            return Err(Error::OutOfMemory);
        }
        let mut buffer: Vec<u8> = Vec::new();
        self.write_bytes(&mut buffer)?;
        assert(buffer@ =~= self.spec_bytes());
        Ok(buffer)
    }

    /// The value decoded from the front of `s`, with the bytes that follow it.
    pub open spec fn spec_parse(s: Seq<u8>) -> Parsed<ResponseAndRequestModel> {
        parse_response_and_request(s)
    }

    /// Deserializes from the front of `bytes`, returning the value with the remaining
    /// bytes.
    pub fn from_bytes(bytes: &[u8]) -> (res: Result<(Self, &[u8]), Error>)
        ensures
            match res {
                Ok((r, rem)) => Self::spec_parse(bytes@) == Ok::<
                    (ResponseAndRequestModel, Seq<u8>),
                    Error,
                >((r@, rem@)),
                Err(e) => Self::spec_parse(bytes@) == Err::<
                    (ResponseAndRequestModel, Seq<u8>),
                    Error,
                >(e),
            },
    {
        let (request, remainder) = from_bytes_byte_string(bytes)?;
        let (response, remainder) = BinaryResponse::from_bytes(remainder)?;
        Ok((BinaryResponseAndRequest { request, response }, remainder))
    }
}

/// Serializing a response with its request and reading it back gives the same value and
/// no leftover bytes.
pub proof fn lemma_response_and_request_roundtrip(r: BinaryResponseAndRequest)
    requires
        byte_string_representable(r.spec_request()),
        byte_string_representable(r.spec_response().spec_payload()),
    ensures
        BinaryResponseAndRequest::spec_parse(r.spec_bytes()) == Ok::<
            (ResponseAndRequestModel, Seq<u8>),
            Error,
        >((r@, Seq::<u8>::empty())),
{
    let resp = r.spec_response();
    let tail = response_bytes(resp.spec_header(), resp.spec_payload());
    lemma_byte_string_roundtrip(r.spec_request(), tail);
    lemma_response_roundtrip(resp.spec_header(), resp.spec_payload(), Seq::<u8>::empty());
    assert(tail + Seq::<u8>::empty() =~= tail);
}

} // verus!
