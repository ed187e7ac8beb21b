use grpc_web::{decode_web_request, Error, GrpcWebRequest};

#[test]
fn should_decode_http_request() {
    let request = GrpcWebRequest::from_body(b"AAAAAAcKBVRvbmlj").unwrap();
    assert_eq!(
        request.as_bytes(),
        &vec![0, 0, 0, 0, 7, 10, 5, 84, 111, 110, 105, 99]
    );
}

#[test]
fn request_payload_drops_the_frame_header() {
    assert_eq!(
        decode_web_request(b"AAAAAAcKBVRvbmlj").unwrap(),
        vec![10, 5, 84, 111, 110, 105, 99]
    );
}

#[test]
fn request_with_empty_message() {
    assert_eq!(decode_web_request(b"AAAAAAA=").unwrap(), Vec::<u8>::new());
}

#[test]
fn request_with_one_byte_message() {
    assert_eq!(decode_web_request(b"AAAAAAEq").unwrap(), vec![42]);
}

#[test]
fn request_that_is_not_base64() {
    assert!(matches!(decode_web_request(b"not base64!"), Err(Error::Base64Decode)));
    assert!(matches!(GrpcWebRequest::from_body(b"AA AA"), Err(Error::Base64Decode)));
}

#[test]
fn request_shorter_than_a_header() {
    // "AAAA" decodes to three zero bytes.
    assert!(matches!(decode_web_request(b"AAAA"), Err(Error::InvalidRequest)));
    let request = GrpcWebRequest::from_body(b"AAAA").unwrap();
    assert!(matches!(request.into_payload(), Err(Error::InvalidRequest)));
}

#[test]
fn request_flags_are_not_checked() {
    // A trailer-flagged frame around [1, 2].
    let body = base64::encode([0x80u8, 0, 0, 0, 2, 1, 2]);
    assert_eq!(decode_web_request(body.as_bytes()).unwrap(), vec![1, 2]);
}

#[test]
fn request_round_trip_through_data_chunk() {
    for message in [vec![], vec![0u8], vec![10, 5, 84, 111, 110, 105, 99], vec![0xab; 1000]] {
        let body = grpc_web::response::encode_data_chunk(&message).unwrap();
        assert_eq!(decode_web_request(&body).unwrap(), message);
    }
}
