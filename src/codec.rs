//! The identity codec: payloads cross the gRPC client as raw bytes, with no
//! protobuf parsing.
use vstd::prelude::*;

use crate::frame::extend_range;

verus! {

/// Writes a payload as it is.
#[derive(Debug, Clone, Copy, Default)]
pub struct ProxyEncoder;

/// Reads a payload as it is.
#[derive(Debug, Clone, Copy, Default)]
pub struct ProxyDecoder;

/// The pair of the identity encoder and decoder.
#[derive(Debug, Clone, Copy, Default)]
pub struct ProxyCodec;

impl ProxyEncoder {
    /// Appends the payload to the outgoing buffer.
    pub fn encode(&mut self, item: Vec<u8>, buf: &mut Vec<u8>)
        ensures
            final(buf)@ == old(buf)@ + item@,
    {
        extend_range(buf, item.as_slice(), 0, item.len());
        assert(item@.subrange(0, item@.len() as int) =~= item@);
    }
}

impl ProxyDecoder {
    /// The whole remaining input as one payload.
    pub fn decode(&mut self, buf: &[u8]) -> (r: Option<Vec<u8>>)
        ensures
            r matches Some(v) && v@ == buf@,
    {
        let mut out: Vec<u8> = Vec::new();
        extend_range(&mut out, buf, 0, buf.len());
        assert(out@ =~= buf@);
        Some(out)
    }
}

impl ProxyCodec {
    pub fn encoder(&mut self) -> ProxyEncoder {
        ProxyEncoder
    }

    pub fn decoder(&mut self) -> ProxyDecoder {
        ProxyDecoder
    }
}

} // verus!
