//! The body of a gRPC-Web text response: base64 of the data frame, then
//! base64 of a trailer frame that carries the response metadata.
use vstd::prelude::*;

use crate::error::Error;
use crate::frame::{
    encode_frame, extend_range, fits_frame, frame, lemma_parse_frames_bytes, frames_bytes, parse_frames,
    DATA_FLAGS, TRAILER_FLAGS,
};
use crate::request::{bytes_result, lemma_request_round_trip, request_payload};
use crate::text::{base64_bytes, base64_text, encode_base64, text_decodes};

verus! {

/// One (name, value) pair of response metadata.
#[derive(Debug, Clone)]
pub struct MetadataEntry {
    pub name: Vec<u8>,
    pub value: Vec<u8>,
}

/// A printable ASCII byte: space to `~`.
pub open spec fn is_printable(c: u8) -> bool {
    0x20 <= c <= 0x7e
}

pub open spec fn all_printable(s: Seq<u8>) -> bool {
    forall|i: int| 0 <= i < s.len() ==> is_printable(#[trigger] s[i])
}

/// `name:value\r\n`, the colon being 58 and the line end 13, 10.
pub open spec fn entry_line(name: Seq<u8>, value: Seq<u8>) -> Seq<u8> {
    name + seq![58u8] + value + seq![13u8, 10u8]
}

/// The lines of the entries whose name and value are printable ASCII, in
/// order; the others are left out.
pub open spec fn packed_metadata(es: Seq<MetadataEntry>) -> Seq<u8>
    decreases es.len(),
{
    if es.len() == 0 {
        Seq::empty()
    } else {
        let e = es.last();
        packed_metadata(es.drop_last()) + if all_printable(e.name@) && all_printable(e.value@) {
            entry_line(e.name@, e.value@)
        } else {
            Seq::empty()
        }
    }
}

/// The padded base64 texts of the two frames, one after the other.
pub open spec fn web_response(payload: Seq<u8>, trailer: Seq<u8>) -> Seq<u8> {
    base64_text(frame(DATA_FLAGS, payload)) + base64_text(trailer)
}

fn is_printable_text(s: &Vec<u8>) -> (r: bool)
    ensures
        r == all_printable(s@),
{
    let mut i: usize = 0;
    while i < s.len()
        invariant
            i <= s@.len(),
            forall|j: int| 0 <= j < i ==> is_printable(#[trigger] s@[j]),
        decreases s@.len() - i,
    {
        if s[i] < 0x20 || s[i] > 0x7e {
            return false;
        }
        i = i + 1;
    }
    true
}

fn append_bytes(dst: &mut Vec<u8>, src: &Vec<u8>)
    ensures
        final(dst)@ == old(dst)@ + src@,
{
    extend_range(dst, src.as_slice(), 0, src.len());
    assert(src@.subrange(0, src@.len() as int) =~= src@);
}

/// The payload of the trailer frame: `name:value\r\n` for each entry in
/// order, skipping those whose name or value is not printable ASCII.
pub fn pack_metadata(meta: &Vec<MetadataEntry>) -> (r: Vec<u8>)
    ensures
        r@ == packed_metadata(meta@),
{
    let mut out: Vec<u8> = Vec::new();
    let mut i: usize = 0;
    while i < meta.len()
        invariant
            i <= meta@.len(),
            out@ == packed_metadata(meta@.subrange(0, i as int)),
        decreases meta@.len() - i,
    {
        let e = &meta[i];
        let ghost before = out@;
        if is_printable_text(&e.name) && is_printable_text(&e.value) {
            append_bytes(&mut out, &e.name);
            out.push(58u8);
            append_bytes(&mut out, &e.value);
            out.push(13u8);
            out.push(10u8);
        }
        proof {
            let s = meta@.subrange(0, i + 1);
            assert(s.drop_last() =~= meta@.subrange(0, i as int));
            assert(s.last() == meta@[i as int]);
            if all_printable(e.name@) && all_printable(e.value@) {
                assert(out@ =~= before + entry_line(e.name@, e.value@));
            } else {
                assert(out@ =~= before + Seq::<u8>::empty());
            }
        }
        i = i + 1;
    }
    assert(meta@.subrange(0, meta@.len() as int) =~= meta@);
    out
}

/// The trailer frame of the response metadata; `Overflow` where the packed
/// metadata does not fit the length field.
pub fn extract_headers(meta: &Vec<MetadataEntry>) -> (r: Result<Vec<u8>, Error>)
    ensures
        fits_frame(packed_metadata(meta@)) ==> bytes_result(r) == Ok::<Seq<u8>, Error>(
            frame(TRAILER_FLAGS, packed_metadata(meta@)),
        ),
        !fits_frame(packed_metadata(meta@)) ==> r == Err::<Vec<u8>, Error>(Error::Overflow),
{
    let body = pack_metadata(meta);
    encode_frame(TRAILER_FLAGS, body.as_slice())
}

/// The data frame around a message; `Overflow` where the message does not
/// fit the length field.
pub fn copy_trailers_to_payload(body: Vec<u8>) -> (r: Result<Vec<u8>, Error>)
    ensures
        fits_frame(body@) ==> bytes_result(r) == Ok::<Seq<u8>, Error>(frame(DATA_FLAGS, body@)),
        !fits_frame(body@) ==> r == Err::<Vec<u8>, Error>(Error::Overflow),
{
    encode_frame(DATA_FLAGS, body.as_slice())
}

/// The text of one data frame of a streamed response.
pub fn encode_data_chunk(payload: &Vec<u8>) -> (r: Result<Vec<u8>, Error>)
    ensures
        fits_frame(payload@) ==> bytes_result(r) == Ok::<Seq<u8>, Error>(
            base64_text(frame(DATA_FLAGS, payload@)),
        ),
        fits_frame(payload@) ==> text_decodes(frame(DATA_FLAGS, payload@)),
        !fits_frame(payload@) ==> r == Err::<Vec<u8>, Error>(Error::Overflow),
{
    let data = encode_frame(DATA_FLAGS, payload.as_slice())?;
    Ok(encode_base64(data.as_slice()))
}

/// The text of the trailer frame that closes a streamed response.
pub fn encode_trailer_chunk(meta: &Vec<MetadataEntry>) -> (r: Result<Vec<u8>, Error>)
    ensures
        fits_frame(packed_metadata(meta@)) ==> bytes_result(r) == Ok::<Seq<u8>, Error>(
            base64_text(frame(TRAILER_FLAGS, packed_metadata(meta@))),
        ),
        fits_frame(packed_metadata(meta@)) ==> text_decodes(
            frame(TRAILER_FLAGS, packed_metadata(meta@)),
        ),
        !fits_frame(packed_metadata(meta@)) ==> r == Err::<Vec<u8>, Error>(Error::Overflow),
{
    let trailer = extract_headers(meta)?;
    Ok(encode_base64(trailer.as_slice()))
}

/// A response body: the padded base64 of the data frame around `payload`,
/// followed by the padded base64 of `trailer`, a whole trailer frame.
/// `Overflow` where the payload does not fit the length field.
pub fn encode_web_response(payload: &Vec<u8>, trailer: &Vec<u8>) -> (r: Result<Vec<u8>, Error>)
    ensures
        fits_frame(payload@) ==> bytes_result(r) == Ok::<Seq<u8>, Error>(
            web_response(payload@, trailer@),
        ),
        fits_frame(payload@) ==> text_decodes(frame(DATA_FLAGS, payload@)),
        fits_frame(payload@) ==> text_decodes(trailer@),
        !fits_frame(payload@) ==> r == Err::<Vec<u8>, Error>(Error::Overflow),
{
    let mut out = encode_data_chunk(payload)?;
    let tail = encode_base64(trailer.as_slice());
    append_bytes(&mut out, &tail);
    Ok(out)
}

/// The body of a unary gRPC-Web response.
pub struct GrpcWebResponse(Vec<u8>);

impl View for GrpcWebResponse {
    type V = Seq<u8>;

    closed spec fn view(&self) -> Seq<u8> {
        self.0@
    }
}

impl GrpcWebResponse {
    /// The response for a message and the metadata that the upstream sent
    /// with it.
    pub fn new(body: Vec<u8>, meta: &Vec<MetadataEntry>) -> (r: Result<GrpcWebResponse, Error>)
        ensures
            fits_frame(body@) && fits_frame(packed_metadata(meta@)) ==> (r matches Ok(resp)
                && resp@ == web_response(body@, frame(TRAILER_FLAGS, packed_metadata(meta@)))
                && text_decodes(frame(DATA_FLAGS, body@)) && text_decodes(
                frame(TRAILER_FLAGS, packed_metadata(meta@)),
            )),
            !(fits_frame(body@) && fits_frame(packed_metadata(meta@))) ==> r matches Err(
                Error::Overflow,
            ),
    {
        if body.len() > 0xffff_ffffusize {
            return Err(Error::Overflow);
        }
        let trailer = extract_headers(meta)?;
        let out = encode_web_response(&body, &trailer)?;
        Ok(GrpcWebResponse(out))
    }

    /// The bytes of the body.
    pub fn into_bytes(self) -> (r: Vec<u8>)
        ensures
            r@ == self@,
    {
        self.0
    }
}

/// A response body read back segment by segment: its first segment, the
/// base64 of the data frame, decodes like a request body to the message, and
/// the two segments together decode to the data frame followed by the
/// trailer frame.
pub proof fn lemma_response_round_trip(payload: Seq<u8>, meta: Seq<MetadataEntry>)
    requires
        fits_frame(payload),
        fits_frame(packed_metadata(meta)),
        text_decodes(frame(DATA_FLAGS, payload)),
        text_decodes(frame(TRAILER_FLAGS, packed_metadata(meta))),
    ensures
        ({
            let body = web_response(payload, frame(TRAILER_FLAGS, packed_metadata(meta)));
            let k = base64_text(frame(DATA_FLAGS, payload)).len() as int;
            &&& request_payload(body.subrange(0, k)) == Ok::<Seq<u8>, Error>(payload)
            &&& parse_frames(
                base64_bytes(body.subrange(0, k)).unwrap() + base64_bytes(
                    body.subrange(k, body.len() as int),
                ).unwrap(),
            ) == Some(seq![(DATA_FLAGS, payload), (TRAILER_FLAGS, packed_metadata(meta))])
        }),
{
    let trailer = frame(TRAILER_FLAGS, packed_metadata(meta));
    let body = web_response(payload, trailer);
    let first = base64_text(frame(DATA_FLAGS, payload));
    let k = first.len() as int;
    assert(body.subrange(0, k) =~= first);
    assert(body.subrange(k, body.len() as int) =~= base64_text(trailer));
    lemma_request_round_trip(payload);
    let fs = seq![(DATA_FLAGS, payload), (TRAILER_FLAGS, packed_metadata(meta))];
    assert(fs[0].1 == payload);
    assert(fs[1].1 == packed_metadata(meta));
    lemma_parse_frames_bytes(fs);
    let t = fs.drop_first();
    assert(t.drop_first() =~= Seq::<(u8, Seq<u8>)>::empty());
    assert(frames_bytes(t.drop_first()) =~= Seq::<u8>::empty());
    assert(t[0] == (TRAILER_FLAGS, packed_metadata(meta)));
    assert(frames_bytes(t) =~= trailer);
    assert(frames_bytes(fs) =~= frame(DATA_FLAGS, payload) + trailer);
}

/// Without metadata the trailer frame is empty: a response read back yields
/// the message and an empty trailer payload.
pub proof fn lemma_response_without_metadata(payload: Seq<u8>)
    requires
        fits_frame(payload),
        text_decodes(frame(DATA_FLAGS, payload)),
        text_decodes(frame(TRAILER_FLAGS, packed_metadata(Seq::empty()))),
    ensures
        packed_metadata(Seq::empty()) == Seq::<u8>::empty(),
        ({
            let body = web_response(payload, frame(TRAILER_FLAGS, Seq::empty()));
            let k = base64_text(frame(DATA_FLAGS, payload)).len() as int;
            &&& request_payload(body.subrange(0, k)) == Ok::<Seq<u8>, Error>(payload)
            &&& parse_frames(
                base64_bytes(body.subrange(0, k)).unwrap() + base64_bytes(
                    body.subrange(k, body.len() as int),
                ).unwrap(),
            ) == Some(seq![(DATA_FLAGS, payload), (TRAILER_FLAGS, Seq::<u8>::empty())])
        }),
{
    lemma_response_round_trip(payload, Seq::empty());
}

} // verus!
