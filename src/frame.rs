//! The 5-byte length-prefixed gRPC frame: `[flags | length as u32 big-endian]`
//! followed by `length` payload bytes.
use vstd::prelude::*;

use crate::error::Error;

verus! {

/// Flags of a data frame.
pub const DATA_FLAGS: u8 = 0;

/// Flags of a trailer frame.
pub const TRAILER_FLAGS: u8 = 0x80;

/// The four big-endian bytes of `n`.
pub open spec fn be32(n: u32) -> Seq<u8> {
    seq![(n >> 24u32) as u8, (n >> 16u32) as u8, (n >> 8u32) as u8, n as u8]
}

/// The number that four big-endian bytes stand for.
pub open spec fn read_be32(b0: u8, b1: u8, b2: u8, b3: u8) -> u32 {
    ((b0 as u32) << 24u32) | ((b1 as u32) << 16u32) | ((b2 as u32) << 8u32) | (b3 as u32)
}

/// The bytes of one frame with the given flags around `payload`.
pub open spec fn frame(flags: u8, payload: Seq<u8>) -> Seq<u8> {
    seq![flags] + be32(payload.len() as u32) + payload
}

/// Whether a payload fits the 32-bit length field.
pub open spec fn fits_frame(payload: Seq<u8>) -> bool {
    payload.len() <= u32::MAX
}

/// The frames, as (flags, payload), that `s` holds one after another, or
/// `None` where `s` does not split exactly into whole frames.
pub open spec fn parse_frames(s: Seq<u8>) -> Option<Seq<(u8, Seq<u8>)>>
    decreases s.len(),
{
    if s.len() == 0 {
        Some(Seq::empty())
    } else if s.len() < 5 {
        None
    } else {
        let n = read_be32(s[1], s[2], s[3], s[4]) as int;
        if s.len() < 5 + n {
            None
        } else {
            match parse_frames(s.subrange(5 + n, s.len() as int)) {
                Some(rest) => Some(seq![(s[0], s.subrange(5, 5 + n))] + rest),
                None => None,
            }
        }
    }
}

/// The bytes of the frames `fs`, one after another.
pub open spec fn frames_bytes(fs: Seq<(u8, Seq<u8>)>) -> Seq<u8>
    decreases fs.len(),
{
    if fs.len() == 0 {
        Seq::empty()
    } else {
        frame(fs[0].0, fs[0].1) + frames_bytes(fs.drop_first())
    }
}

/// One decoded frame.
#[derive(Debug, Clone, PartialEq, Eq)]
pub struct Frame {
    pub flags: u8,
    pub payload: Vec<u8>,
}

impl View for Frame {
    type V = (u8, Seq<u8>);

    open spec fn view(&self) -> (u8, Seq<u8>) {
        (self.flags, self.payload@)
    }
}

/// The (flags, payload) pairs of a list of frames.
pub open spec fn frames_view(fs: Seq<Frame>) -> Seq<(u8, Seq<u8>)> {
    fs.map_values(|f: Frame| f@)
}

/// Reading back the four big-endian bytes of `n` gives `n`.
pub proof fn lemma_be32_round_trip(n: u32)
    ensures
        read_be32(be32(n)[0], be32(n)[1], be32(n)[2], be32(n)[3]) == n,
{
    assert(((((n >> 24u32) as u8) as u32) << 24u32) | ((((n >> 16u32) as u8) as u32) << 16u32)
        | ((((n >> 8u32) as u8) as u32) << 8u32) | ((n as u8) as u32) == n) by (bit_vector);
}

/// A frame's header states the length of its payload, and reading the frame
/// back yields its flags and payload with the bytes that follow untouched.
pub proof fn lemma_frame_header(flags: u8, payload: Seq<u8>, rest: Seq<u8>)
    requires
        fits_frame(payload),
    ensures
        ({
            let s = frame(flags, payload) + rest;
            &&& s.len() >= 5
            &&& s[0] == flags
            &&& read_be32(s[1], s[2], s[3], s[4]) as int == payload.len()
            &&& s.subrange(5, 5 + payload.len() as int) == payload
            &&& s.subrange(5 + payload.len() as int, s.len() as int) == rest
        }),
{
    let s = frame(flags, payload) + rest;
    lemma_be32_round_trip(payload.len() as u32);
    assert(s.subrange(5, 5 + payload.len() as int) =~= payload);
    assert(s.subrange(5 + payload.len() as int, s.len() as int) =~= rest);
}

/// Decoding the concatenation of frames one after another yields those
/// frames, in order.
pub proof fn lemma_parse_frames_bytes(fs: Seq<(u8, Seq<u8>)>)
    requires
        forall|i: int| 0 <= i < fs.len() ==> fits_frame(#[trigger] fs[i].1),
    ensures
        parse_frames(frames_bytes(fs)) == Some(fs),
    decreases fs.len(),
{
    if fs.len() == 0 {
        assert(frames_bytes(fs) =~= Seq::<u8>::empty());
    } else {
        let tail = fs.drop_first();
        assert forall|i: int| 0 <= i < tail.len() implies fits_frame(#[trigger] tail[i].1) by {
            assert(tail[i] == fs[i + 1]);
        }
        lemma_parse_frames_bytes(tail);
        lemma_frame_header(fs[0].0, fs[0].1, frames_bytes(tail));
        assert(seq![(fs[0].0, fs[0].1)] + tail =~= fs);
    }
}

/// The big-endian bytes of `n`.
pub fn be32_bytes(n: u32) -> (r: [u8; 4])
    ensures
        r@ == be32(n),
{
    let r = [(n >> 24u32) as u8, (n >> 16u32) as u8, (n >> 8u32) as u8, n as u8];
    assert(r@ =~= be32(n));
    r
}

/// Appends `src[from..to]` to `dst`.
pub(crate) fn extend_range(dst: &mut Vec<u8>, src: &[u8], from: usize, to: usize)
    requires
        from <= to <= src@.len(),
    ensures
        final(dst)@ == old(dst)@ + src@.subrange(from as int, to as int),
{
    let mut i = from;
    while i < to
        invariant
            from <= i <= to <= src@.len(),
            dst@ == old(dst)@ + src@.subrange(from as int, i as int),
        decreases to - i,
    {
        dst.push(src[i]);
        i = i + 1;
        assert(src@.subrange(from as int, i as int) =~= src@.subrange(from as int, (i - 1) as int)
            + seq![src@[i - 1]]);
    }
}

/// The frame with the given flags around `payload`; `Overflow` where the
/// payload does not fit the length field.
pub fn encode_frame(flags: u8, payload: &[u8]) -> (r: Result<Vec<u8>, Error>)
    ensures
        fits_frame(payload@) ==> (r matches Ok(v) && v@ == frame(flags, payload@)),
        !fits_frame(payload@) ==> r == Err::<Vec<u8>, Error>(Error::Overflow),
{
    if payload.len() > 0xffff_ffffusize {
        return Err(Error::Overflow);
    }
    let header = be32_bytes(payload.len() as u32);
    let mut out: Vec<u8> = Vec::new();
    out.push(flags);
    out.push(header[0]);
    out.push(header[1]);
    out.push(header[2]);
    out.push(header[3]);
    extend_range(&mut out, payload, 0, payload.len());
    assert(out@ =~= frame(flags, payload@));
    Ok(out)
}

/// Splits `buf` into the frames it holds one after another; `InvalidRequest`
/// where it ends inside a frame.
pub fn decode_frames(buf: &[u8]) -> (r: Result<Vec<Frame>, Error>)
    ensures
        match parse_frames(buf@) {
            Some(fs) => (r matches Ok(v) && frames_view(v@) == fs),
            None => r == Err::<Vec<Frame>, Error>(Error::InvalidRequest),
        },
{
    let mut out: Vec<Frame> = Vec::new();
    let mut pos: usize = 0;
    proof {
        assert(buf@.subrange(0, buf@.len() as int) =~= buf@);
        match parse_frames(buf@) {
            Some(rest) => assert(frames_view(out@) + rest =~= rest),
            None => {},
        }
    }
    while pos < buf.len()
        invariant
            pos <= buf@.len(),
            parse_frames(buf@) == match parse_frames(buf@.subrange(pos as int, buf@.len() as int)) {
                Some(rest) => Some(frames_view(out@) + rest),
                None => None::<Seq<(u8, Seq<u8>)>>,
            },
        decreases buf@.len() - pos,
    {
        let ghost s = buf@.subrange(pos as int, buf@.len() as int);
        if buf.len() - pos < 5 {
            return Err(Error::InvalidRequest);
        }
        let n = ((buf[pos + 1] as u32) << 24u32) | ((buf[pos + 2] as u32) << 16u32)
            | ((buf[pos + 3] as u32) << 8u32) | (buf[pos + 4] as u32);
        assert(n == read_be32(s[1], s[2], s[3], s[4]));
        if buf.len() - pos - 5 < n as usize {
            return Err(Error::InvalidRequest);
        }
        let end = pos + 5 + n as usize;
        let mut payload: Vec<u8> = Vec::new();
        extend_range(&mut payload, buf, pos + 5, end);
        let f = Frame { flags: buf[pos], payload };
        proof {
            assert(payload@ =~= s.subrange(5, 5 + n as int));
            assert(buf@.subrange(end as int, buf@.len() as int) =~= s.subrange(
                5 + n as int,
                s.len() as int,
            ));
        }
        let ghost before = out@;
        out.push(f);
        proof {
            assert(frames_view(out@) =~= frames_view(before) + seq![f@]);
            match parse_frames(buf@.subrange(end as int, buf@.len() as int)) {
                Some(rest) => {
                    assert(frames_view(before) + (seq![f@] + rest) =~= frames_view(out@) + rest);
                },
                None => {},
            }
        }
        pos = end;
    }
    proof {
        assert(buf@.subrange(pos as int, buf@.len() as int) =~= Seq::<u8>::empty());
        assert(frames_view(out@) + Seq::<(u8, Seq<u8>)>::empty() =~= frames_view(out@));
    }
    Ok(out)
}

} // verus!
