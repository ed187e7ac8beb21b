//! The body of a gRPC-Web text request: base64 of one data frame.
use vstd::prelude::*;

use crate::error::Error;
use crate::frame::{extend_range, fits_frame, frame, DATA_FLAGS};
use crate::text::{base64_bytes, base64_text, decode_base64, has_non_base64_byte, text_decodes};

verus! {

/// A request body after base64 decoding: the frame header and the message.
#[derive(Debug)]
pub struct GrpcWebRequest(Vec<u8>);

impl View for GrpcWebRequest {
    type V = Seq<u8>;

    closed spec fn view(&self) -> Seq<u8> {
        self.0@
    }
}

/// The message that a decoded request body carries: what follows the 5-byte
/// header, whose flags and length are not looked at.
pub open spec fn frame_payload(decoded: Seq<u8>) -> Result<Seq<u8>, Error> {
    if decoded.len() < 5 {
        Err(Error::InvalidRequest)
    } else {
        Ok(decoded.subrange(5, decoded.len() as int))
    }
}

/// The message of a request body, from its base64 text.
pub open spec fn request_payload(body: Seq<u8>) -> Result<Seq<u8>, Error> {
    match base64_bytes(body) {
        None => Err(Error::Base64Decode),
        Some(decoded) => frame_payload(decoded),
    }
}

/// The bytes of a result, in place of the vector.
pub open spec fn bytes_result(r: Result<Vec<u8>, Error>) -> Result<Seq<u8>, Error> {
    match r {
        Ok(v) => Ok(v@),
        Err(e) => Err(e),
    }
}

impl GrpcWebRequest {
    /// Decodes the base64 text of a request body.
    pub fn from_body(body: &[u8]) -> (r: Result<GrpcWebRequest, Error>)
        ensures
            match base64_bytes(body@) {
                Some(decoded) => (r matches Ok(req) && req@ == decoded),
                None => r matches Err(Error::Base64Decode),
            },
            has_non_base64_byte(body@) ==> base64_bytes(body@) is None,
    {
        match decode_base64(body) {
            Ok(decoded) => Ok(GrpcWebRequest(decoded)),
            Err(_) => Err(Error::Base64Decode),
        }
    }

    /// The decoded body: frame header and message.
    pub fn as_bytes(&self) -> (r: &Vec<u8>)
        ensures
            r@ == self@,
    {
        &self.0
    }

    /// The message, without the 5-byte frame header; `InvalidRequest` where
    /// the body is shorter than a header.
    pub fn into_payload(self) -> (r: Result<Vec<u8>, Error>)
        ensures
            bytes_result(r) == frame_payload(self@),
    {
        if self.0.len() < 5 {
            Err(Error::InvalidRequest)
        } else {
            let mut payload: Vec<u8> = Vec::new();
            extend_range(&mut payload, self.0.as_slice(), 5, self.0.len());
            Ok(payload)
        }
    }
}

/// The message of a gRPC-Web text request body: base64 decoding, then the
/// 5-byte frame header stripped.
pub fn decode_web_request(body: &[u8]) -> (r: Result<Vec<u8>, Error>)
    ensures
        bytes_result(r) == request_payload(body@),
        has_non_base64_byte(body@) ==> r == Err::<Vec<u8>, Error>(Error::Base64Decode),
{
    let req = GrpcWebRequest::from_body(body)?;
    req.into_payload()
}

/// The base64 text of a data frame around `msg` decodes, as a request
/// body, to `msg`.
pub proof fn lemma_request_round_trip(msg: Seq<u8>)
    requires
        fits_frame(msg),
        text_decodes(frame(DATA_FLAGS, msg)),
    ensures
        request_payload(base64_text(frame(DATA_FLAGS, msg))) == Ok::<Seq<u8>, Error>(msg),
{
    assert(frame(DATA_FLAGS, msg).subrange(5, frame(DATA_FLAGS, msg).len() as int) =~= msg);
}

} // verus!
