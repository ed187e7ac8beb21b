use grpc_web::frame::{decode_frames, encode_frame, Frame};
use grpc_web::response::{
    copy_trailers_to_payload, encode_data_chunk, encode_trailer_chunk, extract_headers,
    pack_metadata,
};
use grpc_web::{decode_web_request, encode_web_response, GrpcWebResponse, MetadataEntry};

fn entry(name: &str, value: &str) -> MetadataEntry {
    MetadataEntry {
        name: name.as_bytes().to_vec(),
        value: value.as_bytes().to_vec(),
    }
}

#[test]
fn should_copy_trailers_to_payload() {
    assert_eq!(
        copy_trailers_to_payload(Vec::from([0u8; 14])).unwrap(),
        vec![0, 0, 0, 0, 14, 0, 0, 0, 0, 0, 0, 0, 0, 0, 0, 0, 0, 0, 0],
    );
}

#[test]
fn should_extract_headers() {
    let meta = vec![
        entry("content-type", "application/grpc"),
        entry("grpc-status", "0"),
    ];
    assert_eq!(
        vec![
            128, 0, 0, 0, 46, 99, 111, 110, 116, 101, 110, 116, 45, 116, 121, 112, 101, 58, 97,
            112, 112, 108, 105, 99, 97, 116, 105, 111, 110, 47, 103, 114, 112, 99, 13, 10, 103,
            114, 112, 99, 45, 115, 116, 97, 116, 117, 115, 58, 48, 13, 10
        ],
        extract_headers(&meta).unwrap()
    );
}

#[test]
fn packing_keeps_order_and_duplicates() {
    let meta = vec![entry("b", "1"), entry("a", "2"), entry("b", "3")];
    assert_eq!(pack_metadata(&meta), b"b:1\r\na:2\r\nb:3\r\n".to_vec());
}

#[test]
fn packing_skips_entries_that_are_not_printable() {
    let meta = vec![
        entry("x-bad", "tab\there"),
        MetadataEntry { name: b"x-bin".to_vec(), value: vec![0xff, 0x00] },
        entry("grpc-status", "0"),
    ];
    assert_eq!(pack_metadata(&meta), b"grpc-status:0\r\n".to_vec());
}

#[test]
fn empty_metadata_gives_an_empty_trailer() {
    assert_eq!(extract_headers(&Vec::new()).unwrap(), vec![0x80, 0, 0, 0, 0]);
}

#[test]
fn frame_length_field_is_big_endian() {
    let payload = vec![7u8; 0x0102];
    let f = encode_frame(0, &payload).unwrap();
    assert_eq!(&f[..5], &[0, 0, 0, 1, 2]);
    assert_eq!(f.len(), 5 + 0x0102);
}

#[test]
fn web_response_text() {
    let trailer = extract_headers(&vec![entry("grpc-status", "0")]).unwrap();
    let body = encode_web_response(&vec![104, 105], &trailer).unwrap();
    assert_eq!(
        String::from_utf8(body).unwrap(),
        "AAAAAAJoaQ==gAAAAA9ncnBjLXN0YXR1czowDQo="
    );
}

#[test]
fn web_response_reads_back_segment_by_segment() {
    let message = vec![10u8, 5, 84, 111, 110, 105, 99];
    let meta = vec![entry("grpc-status", "0"), entry("grpc-message", "ok")];
    let response = GrpcWebResponse::new(message.clone(), &meta).unwrap();
    let body = response.into_bytes();
    // The data frame of 12 bytes takes 16 symbols of base64.
    let (first, second) = body.split_at(16);
    assert_eq!(decode_web_request(first).unwrap(), message);
    let mut bytes = base64::decode(first).unwrap();
    bytes.extend(base64::decode(second).unwrap());
    assert_eq!(
        decode_frames(&bytes).unwrap(),
        vec![
            Frame { flags: 0, payload: message },
            Frame { flags: 0x80, payload: b"grpc-status:0\r\ngrpc-message:ok\r\n".to_vec() },
        ]
    );
}

#[test]
fn web_response_without_metadata() {
    let response = GrpcWebResponse::new(vec![1, 2, 3], &Vec::new()).unwrap();
    let body = response.into_bytes();
    assert_eq!(String::from_utf8(body.clone()).unwrap(), "AAAAAAMBAgM=gAAAAAA=");
    let (first, second) = body.split_at(12);
    assert_eq!(decode_web_request(first).unwrap(), vec![1, 2, 3]);
    assert_eq!(base64::decode(second).unwrap(), vec![0x80, 0, 0, 0, 0]);
}

#[test]
fn web_response_with_empty_and_single_byte_message() {
    for message in [vec![], vec![9u8]] {
        let response = GrpcWebResponse::new(message.clone(), &Vec::new()).unwrap();
        let body = response.into_bytes();
        let (first, _) = body.split_at(8);
        assert_eq!(decode_web_request(first).unwrap(), message);
    }
}

#[test]
fn streamed_frames_decode_in_order() {
    let messages = vec![vec![1u8], vec![], vec![2, 3, 4], vec![5; 300]];
    let mut bytes = Vec::new();
    let mut text = Vec::new();
    for m in &messages {
        bytes.extend(encode_frame(0, m).unwrap());
        text.extend(encode_data_chunk(m).unwrap());
    }
    text.extend(encode_trailer_chunk(&vec![entry("grpc-status", "0")]).unwrap());
    let frames = decode_frames(&bytes).unwrap();
    let payloads: Vec<Vec<u8>> = frames.into_iter().map(|f| f.payload).collect();
    assert_eq!(payloads, messages);
    assert!(text.iter().all(|c| c.is_ascii_alphanumeric() || b"+/=".contains(c)));
}

#[test]
fn truncated_frames_are_refused() {
    assert!(decode_frames(&[0, 0, 0, 0, 3, 1, 2]).is_err());
    assert!(decode_frames(&[0, 0, 0]).is_err());
    assert_eq!(decode_frames(&[]).unwrap(), vec![]);
}
