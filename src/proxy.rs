//! The decisions of the HTTP front end: which requests are forwarded, and
//! how.
use vstd::prelude::*;

use crate::error::Error;
use crate::metadata::{query_outcome, ConnectionType, Metadata};
use crate::request::{decode_web_request, request_payload};

verus! {

/// The content type of a gRPC-Web text request.
pub const GRPC_WEB_TEXT_CONTENT_TYPE: &'static str = "application/grpc-web-text";

/// The content type of a gRPC-Web text response.
pub const GRPC_WEB_TEXT_CONTENT_TYPE_PROTO: &'static str = "application/grpc-web-text+proto";

/// The HTTP methods that the front end tells apart.
#[derive(Debug, Clone, Copy, PartialEq, Eq, Structural)]
pub enum HttpMethod {
    Options,
    Post,
    Other,
}

/// How a call goes to the upstream.
#[derive(Debug, Clone, Copy, PartialEq, Eq, Structural)]
pub enum CallKind {
    Unary,
    ServerStreaming,
}

/// What to do with an HTTP request.
#[derive(Debug)]
pub enum Plan {
    /// Answer a CORS preflight: status 200, CORS headers, empty body.
    Preflight,
    /// Send the message to the upstream method of the request path.
    Call { kind: CallKind, payload: Vec<u8> },
}

/// Whether a content-type header marks a gRPC-Web text request.
pub fn is_grpc_web_request(content_type: Option<&str>) -> (r: bool)
    ensures
        r == (content_type matches Some(c) && c@ == GRPC_WEB_TEXT_CONTENT_TYPE@),
{
    match content_type {
        Some(c) => c.to_owned() == GRPC_WEB_TEXT_CONTENT_TYPE.to_owned(),
        None => false,
    }
}

/// The call kind of a method's connection type: only unary and
/// server-streaming methods are forwarded.
pub open spec fn call_kind_of(t: ConnectionType) -> Result<CallKind, Error> {
    match t {
        ConnectionType::Unary => Ok(CallKind::Unary),
        ConnectionType::ServerStreaming => Ok(CallKind::ServerStreaming),
        _ => Err(Error::InvalidRequest),
    }
}

/// How a method of the given connection type is called; client-streaming
/// and bidirectional methods are refused with `InvalidRequest`.
pub fn call_kind(t: ConnectionType) -> (r: Result<CallKind, Error>)
    ensures
        r == call_kind_of(t),
{
    match t {
        ConnectionType::Unary => Ok(CallKind::Unary),
        ConnectionType::ServerStreaming => Ok(CallKind::ServerStreaming),
        _ => Err(Error::InvalidRequest),
    }
}

/// Whether a plan answers a preflight.
pub open spec fn is_preflight(r: Result<Plan, Error>) -> bool {
    r matches Ok(Plan::Preflight)
}

/// Whether a plan calls the upstream with this kind and payload.
pub open spec fn is_call(r: Result<Plan, Error>, kind: CallKind, payload: Seq<u8>) -> bool {
    r matches Ok(Plan::Call { kind: k, payload: p }) && k == kind && p@ == payload
}

/// What to do with a request, from its method, content type, path and body.
/// `OPTIONS` is a preflight. A `POST` of a gRPC-Web text body with a path is
/// decoded, its path looked up, and the call planned; every other request is
/// `InvalidRequest`.
pub fn plan_request(
    metadata: &Metadata,
    method: HttpMethod,
    content_type: Option<&str>,
    path: Option<&str>,
    body: &[u8],
) -> (r: Result<Plan, Error>)
    ensures
        method == HttpMethod::Options ==> is_preflight(r),
        method == HttpMethod::Other ==> r matches Err(Error::InvalidRequest),
        method == HttpMethod::Post ==> {
            if !(content_type matches Some(c) && c@ == GRPC_WEB_TEXT_CONTENT_TYPE@) {
                r matches Err(Error::InvalidRequest)
            } else {
                match path {
                    None => r matches Err(Error::InvalidRequest),
                    Some(p) => match request_payload(body@) {
                        Err(e) => r == Err::<Plan, Error>(e),
                        Ok(payload) => match query_outcome(metadata@, p@) {
                            Err(e) => r == Err::<Plan, Error>(e),
                            Ok(t) => match call_kind_of(t) {
                                Err(e) => r == Err::<Plan, Error>(e),
                                Ok(kind) => is_call(r, kind, payload),
                            },
                        },
                    },
                }
            }
        },
{
    match method {
        HttpMethod::Options => Ok(Plan::Preflight),
        HttpMethod::Other => Err(Error::InvalidRequest),
        HttpMethod::Post => {
            if !is_grpc_web_request(content_type) {
                return Err(Error::InvalidRequest);
            }
            let p = match path {
                Some(p) => p,
                None => return Err(Error::InvalidRequest),
            };
            let payload = decode_web_request(body)?;
            let t = metadata.get_query_type(p)?;
            let kind = call_kind(t)?;
            Ok(Plan::Call { kind, payload })
        },
    }
}

} // verus!
