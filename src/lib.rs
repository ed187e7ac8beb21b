//! A proxy core between gRPC-Web (text mode) and native gRPC.
//!
//! The library holds the framing codec, the trailer packer, the map of
//! upstream methods learned by server reflection, the identity codec and the
//! decisions of the HTTP front end. Network I/O stays with the caller.
pub mod codec;
pub mod error;
pub mod frame;
pub mod metadata;
pub mod proxy;
pub mod reflection;
pub mod request;
pub mod stream;
pub mod response;
pub mod text;

pub use codec::{ProxyCodec, ProxyDecoder, ProxyEncoder};
pub use error::Error;
pub use metadata::{ConnectionType, Metadata, MethodDescriptor};
pub use proxy::{plan_request, CallKind, HttpMethod, Plan};
pub use reflection::ReflectionReply;
pub use request::{decode_web_request, GrpcWebRequest};
pub use response::{encode_web_response, GrpcWebResponse, MetadataEntry};
pub use stream::{status_trailer, stream_chunk, StreamEvent};
