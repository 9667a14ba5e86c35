//! Framing of the responses that a node sends over its binary port.
pub mod binary_response;
pub mod binary_response_and_request;
pub mod binary_response_header;
pub mod error_code;
pub mod response_type;
