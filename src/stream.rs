//! The text of a streamed response, one upstream event at a time: a data
//! frame for each message, then one trailer frame that closes the stream.
use vstd::prelude::*;

use crate::error::Error;
use crate::frame::{
    fits_frame, frame, frames_bytes, lemma_parse_frames_bytes, parse_frames, DATA_FLAGS,
    TRAILER_FLAGS,
};
use crate::response::{
    all_printable, encode_data_chunk, encode_trailer_chunk, entry_line, packed_metadata,
    web_response, MetadataEntry,
};
use crate::text::{base64_bytes, base64_text, text_decodes};

verus! {

/// The decimal digits of `n`, most significant first.
pub open spec fn decimal(n: nat) -> Seq<u8>
    decreases n,
{
    if n < 10 {
        seq![(48 + n) as u8]
    } else {
        decimal(n / 10) + seq![(48 + n % 10) as u8]
    }
}

/// `grpc-status`.
pub open spec fn grpc_status_name() -> Seq<u8> {
    seq![103u8, 114u8, 112u8, 99u8, 45u8, 115u8, 116u8, 97u8, 116u8, 117u8, 115u8]
}

/// `grpc-message`.
pub open spec fn grpc_message_name() -> Seq<u8> {
    seq![103u8, 114u8, 112u8, 99u8, 45u8, 109u8, 101u8, 115u8, 115u8, 97u8, 103u8, 101u8]
}

/// The trailer payload that reports an upstream status: the code in
/// decimal, then the message where it is printable ASCII.
pub open spec fn status_packed(code: nat, message: Seq<u8>) -> Seq<u8> {
    entry_line(grpc_status_name(), decimal(code)) + if all_printable(message) {
        entry_line(grpc_message_name(), message)
    } else {
        Seq::empty()
    }
}

proof fn lemma_decimal_printable(n: nat)
    ensures
        all_printable(decimal(n)),
    decreases n,
{
    if n >= 10 {
        lemma_decimal_printable(n / 10);
    }
}

fn push_decimal(out: &mut Vec<u8>, n: u32)
    ensures
        final(out)@ == old(out)@ + decimal(n as nat),
    decreases n,
{
    if n >= 10 {
        push_decimal(out, n / 10);
    }
    out.push(48u8 + (n % 10) as u8);
    proof {
        if n >= 10 {
            assert(decimal(n as nat) == decimal((n / 10) as nat) + seq![(48 + n % 10) as u8]);
        }
    }
    assert(out@ =~= old(out)@ + decimal(n as nat));
}

/// The metadata that carries a non-OK upstream status to the client:
/// `grpc-status` with the code in decimal, then `grpc-message`.
pub fn status_trailer(code: u32, message: Vec<u8>) -> (r: Vec<MetadataEntry>)
    ensures
        r@.len() == 2,
        r@[0].name@ == grpc_status_name(),
        r@[0].value@ == decimal(code as nat),
        r@[1].name@ == grpc_message_name(),
        r@[1].value@ == message@,
        packed_metadata(r@) == status_packed(code as nat, message@),
{
    let status_name = vec![103u8, 114u8, 112u8, 99u8, 45u8, 115u8, 116u8, 97u8, 116u8, 117u8, 115u8];
    let message_name = vec![
        103u8, 114u8, 112u8, 99u8, 45u8, 109u8, 101u8, 115u8, 115u8, 97u8, 103u8, 101u8,
    ];
    let mut digits: Vec<u8> = Vec::new();
    push_decimal(&mut digits, code);
    assert(status_name@ =~= grpc_status_name());
    assert(message_name@ =~= grpc_message_name());
    assert(digits@ =~= decimal(code as nat));
    let mut r: Vec<MetadataEntry> = Vec::new();
    r.push(MetadataEntry { name: status_name, value: digits });
    r.push(MetadataEntry { name: message_name, value: message });
    proof {
        lemma_decimal_printable(code as nat);
        assert(all_printable(grpc_status_name()));
        assert(all_printable(grpc_message_name()));
        let es = r@;
        assert(es.drop_last().drop_last() =~= Seq::<MetadataEntry>::empty());
        assert(es.drop_last().last() == es[0]);
        assert(packed_metadata(es.drop_last().drop_last()) =~= Seq::<u8>::empty());
        assert(es[0].name@ == grpc_status_name());
        assert(es[0].value@ == decimal(code as nat));
        assert(es.last() == es[1]);
        assert(packed_metadata(es.drop_last()) =~= entry_line(
            grpc_status_name(),
            decimal(code as nat),
        ));
    }
    r
}

/// What the upstream stream did next.
pub enum StreamEvent {
    /// A message arrived.
    Message(Vec<u8>),
    /// The stream ended with this trailing metadata.
    Finished(Vec<MetadataEntry>),
    /// The stream ended with a non-OK status.
    Failed { code: u32, message: Vec<u8> },
}

/// Whether a step gave this chunk text and this end flag.
pub open spec fn is_chunk(r: Result<(Vec<u8>, bool), Error>, text: Seq<u8>, done: bool) -> bool {
    r matches Ok((c, d)) && c@ == text && d == done
}

/// The text that answers one event of a streamed call, and whether the
/// response ends with it. A message gives its data frame; the end of the
/// stream, or a failure, gives the one trailer frame, and the response ends.
pub fn stream_chunk(event: StreamEvent) -> (r: Result<(Vec<u8>, bool), Error>)
    ensures
        match event {
            StreamEvent::Message(p) => if fits_frame(p@) {
                is_chunk(r, base64_text(frame(DATA_FLAGS, p@)), false) && text_decodes(
                    frame(DATA_FLAGS, p@),
                )
            } else {
                r matches Err(Error::Overflow)
            },
            StreamEvent::Finished(meta) => if fits_frame(packed_metadata(meta@)) {
                is_chunk(r, base64_text(frame(TRAILER_FLAGS, packed_metadata(meta@))), true)
                    && text_decodes(frame(TRAILER_FLAGS, packed_metadata(meta@)))
            } else {
                r matches Err(Error::Overflow)
            },
            StreamEvent::Failed { code, message } => if fits_frame(
                status_packed(code as nat, message@),
            ) {
                is_chunk(r, base64_text(frame(TRAILER_FLAGS, status_packed(code as nat, message@))), true)
                    && text_decodes(frame(TRAILER_FLAGS, status_packed(code as nat, message@)))
            } else {
                r matches Err(Error::Overflow)
            },
        },
{
    match event {
        StreamEvent::Message(p) => {
            let c = encode_data_chunk(&p)?;
            Ok((c, false))
        },
        StreamEvent::Finished(meta) => {
            let c = encode_trailer_chunk(&meta)?;
            Ok((c, true))
        },
        StreamEvent::Failed { code, message } => {
            let meta = status_trailer(code, message);
            let c = encode_trailer_chunk(&meta)?;
            Ok((c, true))
        },
    }
}

/// The number of base64 symbols of a frame whose payload has `n` bytes; a
/// reader learns `n` from the frame's header.
pub open spec fn segment_len(n: nat) -> nat {
    4 * ((n + 5 + 2) / 3)
}

/// Reads `body` segment by segment, the i-th segment being as long as a
/// frame with a payload of `lens[i]` bytes, and joins what the segments
/// decode to; `None` where a segment is missing or not valid base64, or text
/// is left over.
pub open spec fn read_segments(body: Seq<u8>, lens: Seq<nat>) -> Option<Seq<u8>>
    decreases lens.len(),
{
    if lens.len() == 0 {
        if body.len() == 0 {
            Some(Seq::empty())
        } else {
            None
        }
    } else {
        let k = segment_len(lens[0]) as int;
        if body.len() < k {
            None
        } else {
            match (
                base64_bytes(body.subrange(0, k)),
                read_segments(body.subrange(k, body.len() as int), lens.drop_first()),
            ) {
                (Some(a), Some(b)) => Some(a + b),
                _ => None,
            }
        }
    }
}

/// The frames of responses, each a message with its metadata: the data
/// frame, then the trailer frame, for each response in order.
pub open spec fn response_frames(rs: Seq<(Seq<u8>, Seq<MetadataEntry>)>) -> Seq<(u8, Seq<u8>)>
    decreases rs.len(),
{
    if rs.len() == 0 {
        Seq::empty()
    } else {
        seq![(DATA_FLAGS, rs[0].0), (TRAILER_FLAGS, packed_metadata(rs[0].1))] + response_frames(
            rs.drop_first(),
        )
    }
}

/// The bodies of responses, one after another.
pub open spec fn responses_text(rs: Seq<(Seq<u8>, Seq<MetadataEntry>)>) -> Seq<u8>
    decreases rs.len(),
{
    if rs.len() == 0 {
        Seq::empty()
    } else {
        web_response(rs[0].0, frame(TRAILER_FLAGS, packed_metadata(rs[0].1))) + responses_text(
            rs.drop_first(),
        )
    }
}

/// The payload lengths of frames, as their headers state them.
pub open spec fn payload_lens(fs: Seq<(u8, Seq<u8>)>) -> Seq<nat> {
    fs.map_values(|f: (u8, Seq<u8>)| f.1.len())
}

/// Whether each response fits the length fields and its two frames have
/// base64 texts that decode back, as the encoders of responses ensure.
pub open spec fn responses_encodable(rs: Seq<(Seq<u8>, Seq<MetadataEntry>)>) -> bool {
    forall|i: int|
        0 <= i < rs.len() ==> {
            &&& fits_frame(#[trigger] rs[i].0)
            &&& fits_frame(packed_metadata(rs[i].1))
            &&& text_decodes(frame(DATA_FLAGS, rs[i].0))
            &&& text_decodes(frame(TRAILER_FLAGS, packed_metadata(rs[i].1)))
        }
}

proof fn lemma_response_frames_fit(rs: Seq<(Seq<u8>, Seq<MetadataEntry>)>)
    requires
        responses_encodable(rs),
    ensures
        forall|j: int|
            0 <= j < response_frames(rs).len() ==> fits_frame(#[trigger] response_frames(rs)[j].1),
        response_frames(rs).len() == 2 * rs.len(),
    decreases rs.len(),
{
    if rs.len() > 0 {
        let tail = rs.drop_first();
        assert forall|i: int| 0 <= i < tail.len() implies ({
            &&& fits_frame(#[trigger] tail[i].0)
            &&& fits_frame(packed_metadata(tail[i].1))
            &&& text_decodes(frame(DATA_FLAGS, tail[i].0))
            &&& text_decodes(frame(TRAILER_FLAGS, packed_metadata(tail[i].1)))
        }) by {
            assert(tail[i] == rs[i + 1]);
        }
        lemma_response_frames_fit(tail);
        let fs = response_frames(rs);
        let head = seq![(DATA_FLAGS, rs[0].0), (TRAILER_FLAGS, packed_metadata(rs[0].1))];
        assert(fits_frame(rs[0].0));
        assert forall|j: int| 0 <= j < fs.len() implies fits_frame(#[trigger] fs[j].1) by {
            if j >= 2 {
                assert(fs[j] == response_frames(tail)[j - 2]);
            }
        }
    }
}

/// Responses sent one after another read back segment by segment: with the
/// payload lengths that the frame headers state, the text splits into one
/// segment per frame, the segments decode to the frames' bytes, and those
/// parse to the data and trailer frame of each response, in order.
pub proof fn lemma_responses_read_in_order(rs: Seq<(Seq<u8>, Seq<MetadataEntry>)>)
    requires
        responses_encodable(rs),
    ensures
        read_segments(responses_text(rs), payload_lens(response_frames(rs))) == Some(
            frames_bytes(response_frames(rs)),
        ),
        parse_frames(frames_bytes(response_frames(rs))) == Some(response_frames(rs)),
{
    lemma_response_frames_fit(rs);
    lemma_parse_frames_bytes(response_frames(rs));
    lemma_read_responses(rs);
}

#[verifier::rlimit(50)]
proof fn lemma_read_responses(rs: Seq<(Seq<u8>, Seq<MetadataEntry>)>)
    requires
        responses_encodable(rs),
    ensures
        read_segments(responses_text(rs), payload_lens(response_frames(rs))) == Some(
            frames_bytes(response_frames(rs)),
        ),
    decreases rs.len(),
{
    if rs.len() == 0 {
        assert(payload_lens(response_frames(rs)) =~= Seq::<nat>::empty());
    } else {
        let tail = rs.drop_first();
        assert forall|i: int| 0 <= i < tail.len() implies ({
            &&& fits_frame(#[trigger] tail[i].0)
            &&& fits_frame(packed_metadata(tail[i].1))
            &&& text_decodes(frame(DATA_FLAGS, tail[i].0))
            &&& text_decodes(frame(TRAILER_FLAGS, packed_metadata(tail[i].1)))
        }) by {
            assert(tail[i] == rs[i + 1]);
        }
        lemma_read_responses(tail);
        assert(fits_frame(rs[0].0));
        let p = rs[0].0;
        let m = packed_metadata(rs[0].1);
        let d = frame(DATA_FLAGS, p);
        let t = frame(TRAILER_FLAGS, m);
        let fs = response_frames(rs);
        let fs1 = fs.drop_first();
        let rest = response_frames(tail);
        assert(fs1 =~= seq![(TRAILER_FLAGS, m)] + rest);
        assert(fs1.drop_first() =~= rest);
        let lens = payload_lens(fs);
        assert(lens.drop_first() =~= payload_lens(fs1));
        assert(lens.drop_first().drop_first() =~= payload_lens(rest));
        let body = responses_text(rs);
        let td = base64_text(d);
        let tt = base64_text(t);
        let k1 = segment_len(p.len()) as int;
        let k2 = segment_len(m.len()) as int;
        assert(td.len() == k1);
        assert(tt.len() == k2);
        assert(body =~= td + (tt + responses_text(tail)));
        assert(body.subrange(0, k1) =~= td);
        let body1 = body.subrange(k1, body.len() as int);
        assert(body1 =~= tt + responses_text(tail));
        assert(body1.subrange(0, k2) =~= tt);
        assert(body1.subrange(k2, body1.len() as int) =~= responses_text(tail));
        assert(read_segments(body1, lens.drop_first()) == Some(
            t + frames_bytes(rest),
        ));
        assert(frames_bytes(fs1) =~= t + frames_bytes(rest));
        assert(frames_bytes(fs) =~= d + frames_bytes(fs1));
        assert(d + (t + frames_bytes(rest)) =~= frames_bytes(fs));
    }
}

} // verus!
