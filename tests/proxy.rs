use grpc_web::proxy::{call_kind, is_grpc_web_request};
use grpc_web::{
    plan_request, CallKind, ConnectionType, Error, HttpMethod, Metadata, Plan, ProxyCodec,
};

fn greeter() -> Metadata {
    Metadata::new(vec![(
        "helloworld.Greeter".to_string(),
        vec![
            ("SayHello".to_string(), ConnectionType::Unary),
            ("SayHellos".to_string(), ConnectionType::ServerStreaming),
            ("Chat".to_string(), ConnectionType::Streaming),
        ],
    )])
}

#[test]
fn unary_post_is_forwarded_with_its_message() {
    let plan = plan_request(
        &greeter(),
        HttpMethod::Post,
        Some("application/grpc-web-text"),
        Some("/helloworld.Greeter/SayHello"),
        b"AAAAAAcKBVRvbmlj",
    );
    match plan {
        Ok(Plan::Call { kind, payload }) => {
            assert_eq!(kind, CallKind::Unary);
            assert_eq!(payload, vec![10, 5, 84, 111, 110, 105, 99]);
        }
        other => panic!("unexpected plan {:?}", other),
    }
}

#[test]
fn server_streaming_post_is_forwarded() {
    let plan = plan_request(
        &greeter(),
        HttpMethod::Post,
        Some("application/grpc-web-text"),
        Some("/helloworld.Greeter/SayHellos"),
        b"AAAAAAA=",
    );
    assert!(matches!(plan, Ok(Plan::Call { kind: CallKind::ServerStreaming, .. })));
}

#[test]
fn post_of_another_content_type_is_refused() {
    let plan = plan_request(
        &greeter(),
        HttpMethod::Post,
        Some("text/plain"),
        Some("/helloworld.Greeter/SayHello"),
        b"AAAAAAA=",
    );
    assert!(matches!(plan, Err(Error::InvalidRequest)));
    assert_eq!(Error::InvalidRequest.http_status(), 400);
    assert!(!is_grpc_web_request(None));
    assert!(is_grpc_web_request(Some("application/grpc-web-text")));
}

#[test]
fn options_is_a_preflight() {
    let plan = plan_request(&greeter(), HttpMethod::Options, None, Some("/anything"), b"");
    assert!(matches!(plan, Ok(Plan::Preflight)));
}

#[test]
fn other_methods_are_refused() {
    let plan = plan_request(&greeter(), HttpMethod::Other, None, None, b"");
    assert!(matches!(plan, Err(Error::InvalidRequest)));
}

#[test]
fn request_errors_in_order() {
    let m = greeter();
    let ct = Some("application/grpc-web-text");
    assert!(matches!(
        plan_request(&m, HttpMethod::Post, ct, None, b"AAAAAAA="),
        Err(Error::InvalidRequest)
    ));
    assert!(matches!(
        plan_request(&m, HttpMethod::Post, ct, Some("/x/y"), b"%%%%"),
        Err(Error::Base64Decode)
    ));
    assert!(matches!(
        plan_request(&m, HttpMethod::Post, ct, Some("/x/y"), b"AAAAAAA="),
        Err(Error::UnknownService)
    ));
    assert!(matches!(
        plan_request(&m, HttpMethod::Post, ct, Some("/helloworld.Greeter/Nope"), b"AAAAAAA="),
        Err(Error::UnknownMethod)
    ));
    assert!(matches!(
        plan_request(&m, HttpMethod::Post, ct, Some("bad"), b"AAAAAAA="),
        Err(Error::InvalidQuery)
    ));
    assert!(matches!(
        plan_request(&m, HttpMethod::Post, ct, Some("/helloworld.Greeter/Chat"), b"AAAAAAA="),
        Err(Error::InvalidRequest)
    ));
}

#[test]
fn call_kinds() {
    assert_eq!(call_kind(ConnectionType::Unary), Ok(CallKind::Unary));
    assert_eq!(call_kind(ConnectionType::ServerStreaming), Ok(CallKind::ServerStreaming));
    assert_eq!(call_kind(ConnectionType::ClientStreaming), Err(Error::InvalidRequest));
    assert_eq!(call_kind(ConnectionType::Streaming), Err(Error::InvalidRequest));
}

#[test]
fn http_status_of_errors() {
    assert_eq!(Error::InvalidQuery.http_status(), 400);
    assert_eq!(Error::Base64Decode.http_status(), 400);
    assert_eq!(Error::UnknownService.http_status(), 404);
    assert_eq!(Error::UnknownMethod.http_status(), 404);
    assert_eq!(Error::Transport.http_status(), 502);
    assert_eq!(Error::NoResponse.http_status(), 502);
    assert_eq!(Error::Overflow.http_status(), 500);
}

#[test]
fn identity_codec_copies_bytes() {
    let mut codec = ProxyCodec;
    let mut buf = vec![1u8];
    codec.encoder().encode(vec![2, 3], &mut buf);
    assert_eq!(buf, vec![1, 2, 3]);
    assert_eq!(codec.decoder().decode(&[4, 5]), Some(vec![4, 5]));
}
