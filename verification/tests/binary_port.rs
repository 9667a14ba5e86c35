use casper_core::binary_port::binary_response::BinaryResponse;
use casper_core::binary_port::binary_response_and_request::BinaryResponseAndRequest;
use casper_core::binary_port::binary_response_header::{BinaryResponseHeader, BINARY_RESPONSE_VERSION};
use casper_core::binary_port::error_code::ErrorCode;
use casper_core::binary_port::response_type::ResponseType;
use casper_core::bytesrepr::Error;
use rand::Rng;

fn random_header(rng: &mut impl Rng) -> BinaryResponseHeader {
    let error: u16 = rng.gen();
    let returned_data_type_tag = if rng.gen() { None } else { Some(rng.gen()) };
    BinaryResponseHeader::from_parts(BINARY_RESPONSE_VERSION, error, returned_data_type_tag)
}

fn random_response(rng: &mut impl Rng) -> BinaryResponse {
    let len = rng.gen_range(64..128);
    let payload: Vec<u8> = (0..len).map(|_| rng.gen()).collect();
    BinaryResponse::from_parts(random_header(rng), payload)
}

#[test]
fn binary_response_header_bytesrepr_roundtrip() {
    let mut rng = rand::thread_rng();
    for _ in 0..100 {
        let val = random_header(&mut rng);
        let bytes = val.to_bytes().unwrap();
        assert_eq!(bytes.len(), val.serialized_length());
        let (decoded, rem) = BinaryResponseHeader::from_bytes(&bytes).unwrap();
        assert_eq!(decoded, val);
        assert!(rem.is_empty());
    }
}

#[test]
fn binary_response_bytesrepr_roundtrip() {
    let mut rng = rand::thread_rng();
    for _ in 0..100 {
        let val = random_response(&mut rng);
        let bytes = val.to_bytes().unwrap();
        assert_eq!(bytes.len(), val.serialized_length());
        let (decoded, rem) = BinaryResponse::from_bytes(&bytes).unwrap();
        assert_eq!(decoded, val);
        assert!(rem.is_empty());
    }
}

#[test]
fn roundtrip() {
    let mut rng = rand::thread_rng();
    let bytes = vec![1; 155];
    let response = random_response(&mut rng);
    let val = BinaryResponseAndRequest::new(response, bytes);
    let encoded = val.to_bytes().unwrap();
    assert_eq!(encoded.len(), val.serialized_length());
    let (decoded, rem) = BinaryResponseAndRequest::from_bytes(&encoded).unwrap();
    assert_eq!(decoded, val);
    assert!(rem.is_empty());
}

#[test]
fn binary_response_and_request_bytesrepr_roundtrip() {
    let mut rng = rand::thread_rng();
    let val = BinaryResponseAndRequest::new(random_response(&mut rng), vec![1; 155]);
    let encoded = val.to_bytes().unwrap();
    let (decoded, rem) = BinaryResponseAndRequest::from_bytes(&encoded).unwrap();
    assert_eq!(decoded, val);
    assert!(rem.is_empty());
}

#[test]
fn header_encoding_is_little_endian_with_option_tag() {
    let h = BinaryResponseHeader::new(Some(ResponseType::from_tag(7)));
    assert_eq!(h.to_bytes().unwrap(), vec![1, 0, 0, 0, 1, 7]);
    let e = BinaryResponseHeader::new_error(ErrorCode::NotFound);
    assert_eq!(e.to_bytes().unwrap(), vec![1, 0, 2, 0, 0]);
    assert!(e.is_not_found());
    assert!(!e.is_success());
    assert_eq!(e.error_code(), 2);
}

#[test]
fn response_constructors() {
    let empty = BinaryResponse::new_empty();
    assert!(empty.is_success());
    assert_eq!(empty.returned_data_type_tag(), None);
    assert!(empty.payload().is_empty());
    let err = BinaryResponse::new_error(ErrorCode::InternalError);
    assert!(!err.is_success());
    assert_eq!(err.error_code(), 6);
    let raw = BinaryResponse::from_raw_bytes(ResponseType::from_tag(3), vec![9, 8]);
    assert_eq!(raw.returned_data_type_tag(), Some(3));
    assert_eq!(raw.payload(), &[9, 8]);
    assert_eq!(raw.to_bytes().unwrap(), vec![1, 0, 0, 0, 1, 3, 2, 0, 0, 0, 9, 8]);
    let failed = BinaryResponse::from_value(ResponseType::from_tag(3), Err(Error::Formatting));
    assert_eq!(failed.error_code(), ErrorCode::InternalError.value());
    let none = BinaryResponse::from_option(ResponseType::from_tag(3), None);
    assert!(none.is_success());
    assert_eq!(none.returned_data_type_tag(), None);
}

#[test]
fn truncated_input_is_early_end_of_stream() {
    assert_eq!(BinaryResponseHeader::from_bytes(&[1, 0, 0]), Err(Error::EarlyEndOfStream));
    assert_eq!(BinaryResponseHeader::from_bytes(&[1, 0, 0, 0, 5]), Err(Error::Formatting));
    let bytes = [1u8, 0, 0, 0, 0, 3, 0, 0, 0, 1, 2];
    assert!(matches!(BinaryResponse::from_bytes(&bytes), Err(Error::EarlyEndOfStream)));
}
