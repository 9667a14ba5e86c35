//! The byte representation used on the wire: little-endian integers, options
//! prefixed by a one-byte tag, and byte strings prefixed by their `u32` length.
use vstd::bytes::*;
use vstd::prelude::*;

verus! {

broadcast use vstd::seq_lib::group_seq_properties;

/// Length in bytes of a serialized `u8`.
pub const U8_SERIALIZED_LENGTH: usize = 1;

/// Length in bytes of a serialized `u16`.
pub const U16_SERIALIZED_LENGTH: usize = 2;

/// Length in bytes of a serialized `u32`.
pub const U32_SERIALIZED_LENGTH: usize = 4;

/// Tag byte of a serialized `None`.
pub const OPTION_NONE_TAG: u8 = 0;

/// Tag byte of a serialized `Some`.
pub const OPTION_SOME_TAG: u8 = 1;

/// Serialization and deserialization errors.
#[derive(Debug, Clone, Copy, PartialEq, Eq, Structural)]
pub enum Error {
    /// Early end of stream while deserializing.
    EarlyEndOfStream,
    /// Formatting error while deserializing.
    Formatting,
    /// Not all input bytes were consumed in `deserialize`.
    LeftOverBytes,
    /// Out of memory error.
    OutOfMemory,
    /// No serialized representation is available for a value.
    NotRepresentable,
    /// Exceeded a recursion depth limit.
    ExceededRecursionDepth,
}

/// What a decoder yields: the value and the bytes that follow it.
pub type Parsed<T> = Result<(T, Seq<u8>), Error>;

/// The view of an executable decoder result, with the remainder taken by its view.
pub open spec fn parsed_view<T>(r: Result<(T, &[u8]), Error>) -> Parsed<T> {
    match r {
        Ok((v, rem)) => Ok((v, rem@)),
        Err(e) => Err(e),
    }
}

// ---------------------------------------------------------------------------
// Encodings
// ---------------------------------------------------------------------------

pub open spec fn u16_bytes(v: u16) -> Seq<u8> {
    spec_u16_to_le_bytes(v)
}

pub open spec fn u32_bytes(v: u32) -> Seq<u8> {
    spec_u32_to_le_bytes(v)
}

/// An optional byte: `[0]` for `None`, `[1, b]` for `Some(b)`.
pub open spec fn option_u8_bytes(o: Option<u8>) -> Seq<u8> {
    match o {
        None => seq![OPTION_NONE_TAG],
        Some(b) => seq![OPTION_SOME_TAG, b],
    }
}

/// A byte string: its length as a `u32`, then its bytes.
pub open spec fn byte_string_bytes(b: Seq<u8>) -> Seq<u8> {
    u32_bytes(b.len() as u32) + b
}

/// A byte string has a representation exactly when its length fits in a `u32`.
pub open spec fn byte_string_representable(b: Seq<u8>) -> bool {
    b.len() <= u32::MAX
}

// ---------------------------------------------------------------------------
// Decodings
// ---------------------------------------------------------------------------

pub open spec fn parse_u8(s: Seq<u8>) -> Parsed<u8> {
    if s.len() < 1 {
        Err(Error::EarlyEndOfStream)
    } else {
        Ok((s[0], s.skip(1)))
    }
}

pub open spec fn parse_u16(s: Seq<u8>) -> Parsed<u16> {
    if s.len() < 2 {
        Err(Error::EarlyEndOfStream)
    } else {
        Ok((spec_u16_from_le_bytes(s.take(2)), s.skip(2)))
    }
}

pub open spec fn parse_u32(s: Seq<u8>) -> Parsed<u32> {
    if s.len() < 4 {
        Err(Error::EarlyEndOfStream)
    } else {
        Ok((spec_u32_from_le_bytes(s.take(4)), s.skip(4)))
    }
}

pub open spec fn parse_option_u8(s: Seq<u8>) -> Parsed<Option<u8>> {
    match parse_u8(s) {
        Err(e) => Err(e),
        Ok((tag, rest)) => if tag == OPTION_NONE_TAG {
            Ok((None, rest))
        } else if tag == OPTION_SOME_TAG {
            match parse_u8(rest) {
                Err(e) => Err(e),
                Ok((b, rest2)) => Ok((Some(b), rest2)),
            }
        } else {
            Err(Error::Formatting)
        },
    }
}

pub open spec fn parse_byte_string(s: Seq<u8>) -> Parsed<Seq<u8>> {
    match parse_u32(s) {
        Err(e) => Err(e),
        Ok((n, rest)) => if rest.len() < n {
            Err(Error::EarlyEndOfStream)
        } else {
            Ok((rest.take(n as int), rest.skip(n as int)))
        },
    }
}

// ---------------------------------------------------------------------------
// Round trips of the primitive encodings
// ---------------------------------------------------------------------------

/// Decoding a `u16` that was encoded in front of `rest` gives it back, with `rest`.
pub proof fn lemma_u16_roundtrip(v: u16, rest: Seq<u8>)
    ensures
        u16_bytes(v).len() == 2,
        parse_u16(u16_bytes(v) + rest) == Ok::<(u16, Seq<u8>), Error>((v, rest)),
{
    lemma_auto_spec_u16_to_from_le_bytes();
    let s = u16_bytes(v) + rest;
    assert(s.take(2) =~= u16_bytes(v));
    assert(s.skip(2) =~= rest);
}

/// Decoding a `u32` that was encoded in front of `rest` gives it back, with `rest`.
pub proof fn lemma_u32_roundtrip(v: u32, rest: Seq<u8>)
    ensures
        u32_bytes(v).len() == 4,
        parse_u32(u32_bytes(v) + rest) == Ok::<(u32, Seq<u8>), Error>((v, rest)),
{
    lemma_auto_spec_u32_to_from_le_bytes();
    let s = u32_bytes(v) + rest;
    assert(s.take(4) =~= u32_bytes(v));
    assert(s.skip(4) =~= rest);
}

/// Decoding an optional byte that was encoded in front of `rest` gives it back, with `rest`.
pub proof fn lemma_option_u8_roundtrip(o: Option<u8>, rest: Seq<u8>)
    ensures
        parse_option_u8(option_u8_bytes(o) + rest) == Ok::<(Option<u8>, Seq<u8>), Error>((o, rest)),
{
    let s = option_u8_bytes(o) + rest;
    match o {
        None => {
            assert(s.skip(1) =~= rest);
        },
        Some(b) => {
            assert(s.skip(1) =~= seq![b] + rest);
            assert((seq![b] + rest).skip(1) =~= rest);
        },
    }
}

/// Decoding a representable byte string that was encoded in front of `rest` gives it
/// back, with `rest`.
pub proof fn lemma_byte_string_roundtrip(b: Seq<u8>, rest: Seq<u8>)
    requires
        byte_string_representable(b),
    ensures
        parse_byte_string(byte_string_bytes(b) + rest) == Ok::<(Seq<u8>, Seq<u8>), Error>((b, rest)),
{
    let s = byte_string_bytes(b) + rest;
    lemma_u32_roundtrip(b.len() as u32, b + rest);
    assert(s =~= u32_bytes(b.len() as u32) + (b + rest));
    assert((b + rest).take(b.len() as int) =~= b);
    assert((b + rest).skip(b.len() as int) =~= rest);
}

// ---------------------------------------------------------------------------
// Executable encoders
// ---------------------------------------------------------------------------

/// Appends `bytes` to `writer`.
pub fn write_raw(writer: &mut Vec<u8>, bytes: &[u8])
    ensures
        final(writer)@ == old(writer)@ + bytes@,
{
    let mut i: usize = 0;
    while i < bytes.len()
        invariant
            i <= bytes@.len(),
            writer@ == old(writer)@ + bytes@.take(i as int),
        decreases bytes@.len() - i,
    {
        writer.push(bytes[i]);
        i = i + 1;
        assert(bytes@.take(i as int) =~= bytes@.take(i - 1) + seq![bytes@[i - 1]]);
    }
    assert(bytes@.take(i as int) =~= bytes@);
}

pub fn write_u8(writer: &mut Vec<u8>, v: u8)
    ensures
        final(writer)@ == old(writer)@ + seq![v],
{
    writer.push(v);
}

pub fn write_u16(writer: &mut Vec<u8>, v: u16)
    ensures
        final(writer)@ == old(writer)@ + u16_bytes(v),
{
    let b = u16_to_le_bytes(v);
    write_raw(writer, b.as_slice());
}

pub fn write_u32(writer: &mut Vec<u8>, v: u32)
    ensures
        final(writer)@ == old(writer)@ + u32_bytes(v),
{
    let b = u32_to_le_bytes(v);
    write_raw(writer, b.as_slice());
}

pub fn write_option_u8(writer: &mut Vec<u8>, o: Option<u8>)
    ensures
        final(writer)@ == old(writer)@ + option_u8_bytes(o),
{
    match o {
        None => {
            writer.push(OPTION_NONE_TAG);
            assert(writer@ =~= old(writer)@ + option_u8_bytes(o));
        },
        Some(b) => {
            writer.push(OPTION_SOME_TAG);
            writer.push(b);
            assert(writer@ =~= old(writer)@ + option_u8_bytes(o));
        },
    }
}

/// Writes a byte string: its length as a `u32`, then the bytes. Fails, writing nothing,
/// when the length does not fit in a `u32`.
pub fn write_byte_string(writer: &mut Vec<u8>, bytes: &[u8]) -> (res: Result<(), Error>)
    ensures
        byte_string_representable(bytes@) ==> res is Ok && final(writer)@ == old(writer)@
            + byte_string_bytes(bytes@),
        !byte_string_representable(bytes@) ==> res == Err::<(), Error>(Error::NotRepresentable)
            && final(writer)@ == old(writer)@,
{
    if bytes.len() > u32::MAX as usize {
        return Err(Error::NotRepresentable);
    }
    let len = bytes.len() as u32;
    write_u32(writer, len);
    write_raw(writer, bytes);
    assert(writer@ =~= old(writer)@ + byte_string_bytes(bytes@));
    Ok(())
}

pub open spec fn option_u8_serialized_length(o: Option<u8>) -> nat {
    match o {
        None => 1,
        Some(_) => 2,
    }
}

pub fn serialized_length_option_u8(o: Option<u8>) -> (n: usize)
    ensures
        n == option_u8_bytes(o).len(),
        n == option_u8_serialized_length(o),
{
    match o {
        None => 1,
        Some(_) => 2,
    }
}

// ---------------------------------------------------------------------------
// Executable decoders
// ---------------------------------------------------------------------------

pub fn from_bytes_u8(bytes: &[u8]) -> (res: Result<(u8, &[u8]), Error>)
    ensures
        parsed_view(res) == parse_u8(bytes@),
{
    if bytes.len() < 1 {
        return Err(Error::EarlyEndOfStream);
    }
    let (_, rem) = bytes.split_at(1);
    Ok((bytes[0], rem))
}

pub fn from_bytes_u16(bytes: &[u8]) -> (res: Result<(u16, &[u8]), Error>)
    ensures
        parsed_view(res) == parse_u16(bytes@),
{
    if bytes.len() < 2 {
        return Err(Error::EarlyEndOfStream);
    }
    let (head, rem) = bytes.split_at(2);
    Ok((u16_from_le_bytes(head), rem))
}

pub fn from_bytes_u32(bytes: &[u8]) -> (res: Result<(u32, &[u8]), Error>)
    ensures
        parsed_view(res) == parse_u32(bytes@),
{
    if bytes.len() < 4 {
        return Err(Error::EarlyEndOfStream);
    }
    let (head, rem) = bytes.split_at(4);
    Ok((u32_from_le_bytes(head), rem))
}

pub fn from_bytes_option_u8(bytes: &[u8]) -> (res: Result<(Option<u8>, &[u8]), Error>)
    ensures
        parsed_view(res) == parse_option_u8(bytes@),
{
    let (tag, rem) = from_bytes_u8(bytes)?;
    if tag == OPTION_NONE_TAG {
        Ok((None, rem))
    } else if tag == OPTION_SOME_TAG {
        let (b, rem2) = from_bytes_u8(rem)?;
        Ok((Some(b), rem2))
    } else {
        Err(Error::Formatting)
    }
}

pub fn from_bytes_byte_string(bytes: &[u8]) -> (res: Result<(Vec<u8>, &[u8]), Error>)
    ensures
        match res {
            Ok((v, rem)) => parse_byte_string(bytes@) == Ok::<(Seq<u8>, Seq<u8>), Error>(
                (v@, rem@),
            ),
            Err(e) => parse_byte_string(bytes@) == Err::<(Seq<u8>, Seq<u8>), Error>(e),
        },
{
    let (n, rem) = from_bytes_u32(bytes)?;
    if (rem.len() as u64) < (n as u64) {
        return Err(Error::EarlyEndOfStream);
    }
    let (head, rest) = rem.split_at(n as usize);
    let mut v: Vec<u8> = Vec::new();
    write_raw(&mut v, head);
    Ok((v, rest))
}

} // verus!
