use grpc_web::reflection::{methods_of_reply, services_of_reply};
use grpc_web::{ConnectionType, Error, Metadata, MethodDescriptor, ReflectionReply};
use prost::Message;
use prost_types::{FileDescriptorProto, MethodDescriptorProto, ServiceDescriptorProto};

fn descriptor(name: &str, client: Option<bool>, server: Option<bool>) -> MethodDescriptor {
    MethodDescriptor {
        name: Some(name.to_string()),
        client_streaming: client,
        server_streaming: server,
    }
}

#[test]
fn should_get_query_type() {
    let metadata = Metadata::new(vec![(
        "service".to_string(),
        vec![("method".to_string(), ConnectionType::Unary)],
    )]);
    assert!(metadata.get_query_type("/service/method").is_ok());
    assert!(matches!(
        metadata.get_query_type("/unknown/method"),
        Err(Error::UnknownService)
    ));
    assert!(matches!(
        metadata.get_query_type("/service/unknown"),
        Err(Error::UnknownMethod)
    ));
}

#[test]
fn short_paths_are_invalid_queries() {
    let metadata = Metadata::new(vec![(
        "service".to_string(),
        vec![("method".to_string(), ConnectionType::Unary)],
    )]);
    for path in ["", "/", "service", "/service", "service/method"] {
        assert!(matches!(metadata.get_query_type(path), Err(Error::InvalidQuery)), "{}", path);
    }
    // Extra parts after the method are ignored.
    assert_eq!(
        metadata.get_query_type("/service/method/extra"),
        Ok(ConnectionType::Unary)
    );
}

#[test]
fn classification_of_streaming_flags() {
    assert_eq!(ConnectionType::from_flags(false, false), ConnectionType::Unary);
    assert_eq!(ConnectionType::from_flags(true, false), ConnectionType::ClientStreaming);
    assert_eq!(ConnectionType::from_flags(false, true), ConnectionType::ServerStreaming);
    assert_eq!(ConnectionType::from_flags(true, true), ConnectionType::Streaming);
    assert_eq!(
        ConnectionType::from(descriptor("m", None, None)),
        ConnectionType::Unary
    );
    assert_eq!(
        ConnectionType::from(descriptor("m", Some(true), Some(false))),
        ConnectionType::ClientStreaming
    );
    assert_eq!(
        ConnectionType::from(descriptor("m", None, Some(true))),
        ConnectionType::ServerStreaming
    );
}

#[test]
fn map_from_descriptors() {
    let metadata = Metadata::from_services(vec![
        (
            "helloworld.Greeter".to_string(),
            vec![
                descriptor("SayHello", None, None),
                descriptor("SayHellos", Some(false), Some(true)),
                MethodDescriptor { name: None, client_streaming: None, server_streaming: None },
            ],
        ),
        (
            "chat.Room".to_string(),
            vec![descriptor("Talk", Some(true), Some(true))],
        ),
    ]);
    assert_eq!(
        metadata.get_query_type("/helloworld.Greeter/SayHello"),
        Ok(ConnectionType::Unary)
    );
    assert_eq!(
        metadata.get_query_type("/helloworld.Greeter/SayHellos"),
        Ok(ConnectionType::ServerStreaming)
    );
    assert_eq!(
        metadata.get_query_type("/chat.Room/Talk"),
        Ok(ConnectionType::Streaming)
    );
    assert_eq!(
        metadata.get_query_type("/chat.Room/SayHello"),
        Err(Error::UnknownMethod)
    );
    assert_eq!(metadata.get_query_type("/helloworld/SayHello"), Err(Error::UnknownService));
}

#[test]
fn empty_map_knows_no_service() {
    let metadata = Metadata::from_services(Vec::new());
    assert_eq!(metadata.get_query_type("/svc/m"), Err(Error::UnknownService));
}

#[test]
fn services_reply() {
    let names = vec!["a.B".to_string(), "c.D".to_string()];
    assert_eq!(
        services_of_reply(Some(ReflectionReply::ListServices(names.clone()))),
        Ok(names)
    );
    assert_eq!(services_of_reply(None), Err(Error::NoResponse));
    assert_eq!(services_of_reply(Some(ReflectionReply::Other)), Err(Error::NoServices));
}

#[test]
fn methods_reply_decodes_the_first_service() {
    let file = FileDescriptorProto {
        service: vec![
            ServiceDescriptorProto {
                name: Some("Greeter".to_string()),
                method: vec![
                    MethodDescriptorProto {
                        name: Some("SayHello".to_string()),
                        ..Default::default()
                    },
                    MethodDescriptorProto {
                        name: Some("SayHellos".to_string()),
                        server_streaming: Some(true),
                        ..Default::default()
                    },
                ],
                ..Default::default()
            },
            ServiceDescriptorProto {
                name: Some("Other".to_string()),
                method: vec![MethodDescriptorProto {
                    name: Some("Ignored".to_string()),
                    ..Default::default()
                }],
                ..Default::default()
            },
        ],
        ..Default::default()
    };
    let reply = ReflectionReply::FileDescriptors(vec![file.encode_to_vec()]);
    let methods = methods_of_reply(Some(reply)).unwrap();
    assert_eq!(methods.len(), 2);
    assert_eq!(methods[0].name.as_deref(), Some("SayHello"));
    assert_eq!(methods[1].name.as_deref(), Some("SayHellos"));
    assert_eq!(methods[1].server_streaming, Some(true));
    assert_eq!(methods[0].client_streaming, None);
}

#[test]
fn methods_reply_errors() {
    assert!(matches!(methods_of_reply(None), Err(Error::NoResponse)));
    assert!(matches!(
        methods_of_reply(Some(ReflectionReply::FileDescriptors(vec![]))),
        Err(Error::ProstDecode)
    ));
    assert!(matches!(
        methods_of_reply(Some(ReflectionReply::FileDescriptors(vec![vec![0xff, 0xff, 0xff]]))),
        Err(Error::ProstDecode)
    ));
    let no_service = FileDescriptorProto::default().encode_to_vec();
    assert!(matches!(
        methods_of_reply(Some(ReflectionReply::FileDescriptors(vec![no_service]))),
        Err(Error::ProstDecode)
    ));
    assert!(methods_of_reply(Some(ReflectionReply::Other)).unwrap().is_empty());
}

#[test]
fn methods_with_empty_names_are_not_recorded() {
    let metadata = Metadata::from_services(vec![(
        "svc".to_string(),
        vec![descriptor("", None, None), descriptor("m", None, None)],
    )]);
    assert_eq!(metadata.get_query_type("/svc/"), Err(Error::UnknownMethod));
    assert_eq!(metadata.get_query_type("/svc/m"), Ok(ConnectionType::Unary));
}
