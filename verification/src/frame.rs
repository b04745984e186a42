//! Length-delimited framing of the protocol stream.
//!
//! Every frame on the wire is a 4-byte big-endian length field followed by
//! the payload. The length field counts itself, so its value is the payload
//! length plus 4 (the codec is configured with a length adjustment of -4).
//! Frames whose length field exceeds `MAX_FRAME_LENGTH` are refused.

use vstd::prelude::*;

verus! {

/// Size in bytes of the length field in front of every frame.
pub const LENGTH_FIELD_LEN: usize = 4;

/// Largest accepted value of the length field, and largest accepted
/// payload when encoding (8 MiB).
pub const MAX_FRAME_LENGTH: usize = 8388608;

/// Why a frame could not be encoded or decoded.
#[derive(Debug, Clone, Copy, PartialEq, Eq, Structural)]
pub enum FrameError {
    /// The frame is longer than `MAX_FRAME_LENGTH`.
    FrameTooBig,
    /// The length field is smaller than the length field itself.
    LengthUnderflow,
}

/// The unsigned big-endian value of four bytes.
pub open spec fn be_u32(b0: u8, b1: u8, b2: u8, b3: u8) -> int {
    b0 * 16777216 + b1 * 65536 + b2 * 256 + b3
}

/// The four big-endian bytes of `n`, for `n < 2^32`.
pub open spec fn be_bytes(n: nat) -> Seq<u8> {
    seq![
        (n / 16777216) as u8,
        ((n / 65536) % 256) as u8,
        ((n / 256) % 256) as u8,
        (n % 256) as u8,
    ]
}

/// The bytes of the frame that carries `payload`.
pub open spec fn frame_bytes(payload: Seq<u8>) -> Seq<u8> {
    be_bytes(payload.len() + 4) + payload
}

/// The value of the length field at the start of `buf` (needs 4 bytes).
pub open spec fn length_field(buf: Seq<u8>) -> int {
    be_u32(buf[0], buf[1], buf[2], buf[3])
}

/// What decoding the front of `buf` yields: `Ok(None)` while the frame is
/// incomplete, `Ok(Some((payload, consumed)))` for a complete frame, or the
/// error that the length field calls for.
#[verifier::opaque]
pub open spec fn decode_spec(buf: Seq<u8>) -> Result<Option<(Seq<u8>, nat)>, FrameError> {
    if buf.len() < 4 {
        Ok(None)
    } else if length_field(buf) > MAX_FRAME_LENGTH {
        Err(FrameError::FrameTooBig)
    } else if length_field(buf) < 4 {
        Err(FrameError::LengthUnderflow)
    } else if buf.len() < length_field(buf) {
        Ok(None)
    } else {
        Ok(Some((buf.subrange(4, length_field(buf)), length_field(buf) as nat)))
    }
}

/// Encodes `payload` as one frame: its length plus 4, big-endian, then the
/// payload itself. Payloads longer than `MAX_FRAME_LENGTH` are refused.
pub fn encode_frame(payload: &[u8]) -> (r: Result<Vec<u8>, FrameError>)
    ensures
        r is Ok <==> payload@.len() <= MAX_FRAME_LENGTH,
        r matches Ok(v) ==> v@ == frame_bytes(payload@),
        r matches Err(e) ==> e == FrameError::FrameTooBig,
{
    let len = payload.len();
    if len > MAX_FRAME_LENGTH {
        return Err(FrameError::FrameTooBig);
    }
    let n: usize = len + LENGTH_FIELD_LEN;
    let mut out: Vec<u8> = Vec::with_capacity(n);
    out.push((n / 16777216) as u8);
    out.push(((n / 65536) % 256) as u8);
    out.push(((n / 256) % 256) as u8);
    out.push((n % 256) as u8);
    let mut i: usize = 0;
    while i < len
        invariant
            i <= len,
            len == payload@.len(),
            n == len + 4,
            out@ == be_bytes(n as nat) + payload@.subrange(0, i as int),
        decreases len - i,
    {
        out.push(payload[i]);
        i = i + 1;
        assert(payload@.subrange(0, i as int) == payload@.subrange(0, (i - 1) as int).push(payload@[i - 1]));
    }
    assert(payload@.subrange(0, len as int) == payload@);
    Ok(out)
}


/// A complete frame taken from the front of a buffer.
#[derive(Debug, PartialEq, Eq)]
pub struct Frame {
    /// The frame's payload, without its length field.
    pub payload: Vec<u8>,
    /// How many bytes of the buffer the frame occupied, length field included.
    pub consumed: usize,
}

/// The plain value of a decoding result.
pub open spec fn decoded_view(r: Result<Option<Frame>, FrameError>) -> Result<Option<(Seq<u8>, nat)>, FrameError> {
    match r {
        Ok(Some(f)) => Ok(Some((f.payload@, f.consumed as nat))),
        Ok(None) => Ok(None),
        Err(e) => Err(e),
    }
}

/// Copies `buf[from..to]` into a new vector.
fn copy_range(buf: &[u8], from: usize, to: usize) -> (v: Vec<u8>)
    requires
        from <= to <= buf@.len(),
    ensures
        v@ == buf@.subrange(from as int, to as int),
{
    let mut v: Vec<u8> = Vec::with_capacity(to - from);
    let mut i: usize = from;
    while i < to
        invariant
            from <= i <= to,
            to <= buf@.len(),
            v@ == buf@.subrange(from as int, i as int),
        decreases to - i,
    {
        v.push(buf[i]);
        i = i + 1;
        assert(buf@.subrange(from as int, i as int) == buf@.subrange(from as int, (i - 1) as int).push(buf@[i - 1]));
    }
    v
}

/// Decodes the frame at the front of `buf`. Returns `Ok(None)` while the
/// buffer does not yet hold a whole frame, and refuses a length field above
/// `MAX_FRAME_LENGTH` or below the size of the length field.
pub fn decode_frame(buf: &[u8]) -> (r: Result<Option<Frame>, FrameError>)
    ensures
        decoded_view(r) == decode_spec(buf@),
{
    reveal(decode_spec);
    if buf.len() < LENGTH_FIELD_LEN {
        return Ok(None);
    }
    let n: u64 = (buf[0] as u64) * 16777216 + (buf[1] as u64) * 65536 + (buf[2] as u64) * 256 + (buf[3] as u64);
    assert(n == length_field(buf@));
    if n > MAX_FRAME_LENGTH as u64 {
        return Err(FrameError::FrameTooBig);
    }
    if n < LENGTH_FIELD_LEN as u64 {
        return Err(FrameError::LengthUnderflow);
    }
    let n: usize = n as usize;
    if buf.len() < n {
        return Ok(None);
    }
    let payload = copy_range(buf, LENGTH_FIELD_LEN, n);
    Ok(Some(Frame { payload, consumed: n }))
}


/// Reading back the big-endian bytes of a 32-bit value gives the value.
proof fn lemma_be_roundtrip(n: u32)
    ensures
        be_u32(be_bytes(n as nat)[0], be_bytes(n as nat)[1], be_bytes(n as nat)[2], be_bytes(n as nat)[3]) == n,
{
    let x = n as int;
    let q1 = x / 256;
    let q2 = x / 65536;
    let q3 = x / 16777216;
    vstd::arithmetic::div_mod::lemma_fundamental_div_mod(x, 256);
    vstd::arithmetic::div_mod::lemma_fundamental_div_mod(q1, 256);
    vstd::arithmetic::div_mod::lemma_fundamental_div_mod(q2, 256);
    vstd::arithmetic::div_mod::lemma_div_denominator(x, 256, 256);
    vstd::arithmetic::div_mod::lemma_div_denominator(x, 65536, 256);
    vstd::arithmetic::div_mod::lemma_div_pos_is_pos(x, 256);
    vstd::arithmetic::div_mod::lemma_div_pos_is_pos(x, 65536);
    vstd::arithmetic::div_mod::lemma_div_pos_is_pos(x, 16777216);
    vstd::arithmetic::div_mod::lemma_mod_bound(x, 256);
    vstd::arithmetic::div_mod::lemma_mod_bound(q1, 256);
    vstd::arithmetic::div_mod::lemma_mod_bound(q2, 256);
    assert(q1 / 256 == q2);
    assert(q2 / 256 == q3);
    assert(q3 < 256) by {
        vstd::arithmetic::div_mod::lemma_div_is_ordered(x, 0xffff_ffff, 16777216);
    }
}

/// Decoding the bytes of an encoded frame, followed by anything, gives the
/// payload back and consumes exactly the frame. This holds for payloads of
/// up to `MAX_FRAME_LENGTH - 4` bytes: a longer payload is still encoded,
/// but its length field then exceeds the limit that decoding enforces.
pub proof fn law_frame_roundtrip(payload: Seq<u8>, rest: Seq<u8>)
    requires
        payload.len() + 4 <= MAX_FRAME_LENGTH,
    ensures
        decode_spec(frame_bytes(payload) + rest) == Ok::<Option<(Seq<u8>, nat)>, FrameError>(
            Some((payload, (payload.len() + 4) as nat)),
        ),
{
    reveal(decode_spec);
    let n: u32 = (payload.len() + 4) as u32;
    lemma_be_roundtrip(n);
    let buf = frame_bytes(payload) + rest;
    assert(buf[0] == be_bytes(n as nat)[0]);
    assert(buf[1] == be_bytes(n as nat)[1]);
    assert(buf[2] == be_bytes(n as nat)[2]);
    assert(buf[3] == be_bytes(n as nat)[3]);
    assert(length_field(buf) == n);
    assert(buf.subrange(4, n as int) =~= payload);
}

/// Every strict prefix of an encoded frame decodes as incomplete, for the
/// payloads that decoding accepts back.
pub proof fn law_frame_prefix_incomplete(payload: Seq<u8>, k: nat)
    requires
        payload.len() + 4 <= MAX_FRAME_LENGTH,
        k < frame_bytes(payload).len(),
    ensures
        decode_spec(frame_bytes(payload).take(k as int)) == Ok::<Option<(Seq<u8>, nat)>, FrameError>(None),
{
    reveal(decode_spec);
    let n: u32 = (payload.len() + 4) as u32;
    lemma_be_roundtrip(n);
    let buf = frame_bytes(payload).take(k as int);
    if k >= 4 {
        assert(buf[0] == be_bytes(n as nat)[0]);
        assert(buf[1] == be_bytes(n as nat)[1]);
        assert(buf[2] == be_bytes(n as nat)[2]);
        assert(buf[3] == be_bytes(n as nat)[3]);
        assert(length_field(buf) == n);
    }
}


/// Frames laid one after the other come out of the stream in the order in
/// which they were written: the first decoding yields the first payload,
/// and decoding what follows it yields the second.
pub proof fn law_frames_in_order(first: Seq<u8>, second: Seq<u8>)
    requires
        first.len() + 4 <= MAX_FRAME_LENGTH,
        second.len() + 4 <= MAX_FRAME_LENGTH,
    ensures
        decode_spec(frame_bytes(first) + frame_bytes(second)) == Ok::<Option<(Seq<u8>, nat)>, FrameError>(
            Some((first, (first.len() + 4) as nat)),
        ),
        decode_spec((frame_bytes(first) + frame_bytes(second)).skip(first.len() + 4int))
            == Ok::<Option<(Seq<u8>, nat)>, FrameError>(Some((second, (second.len() + 4) as nat))),
{
    let both = frame_bytes(first) + frame_bytes(second);
    let tail = both.skip(first.len() + 4int);
    law_frame_roundtrip(first, frame_bytes(second));
    assert(tail =~= frame_bytes(second) + Seq::<u8>::empty());
    law_frame_roundtrip(second, Seq::<u8>::empty());
}

/// The bytes of the frames carrying `payloads`, one after the other.
pub open spec fn frames_bytes(payloads: Seq<Seq<u8>>) -> Seq<u8>
    decreases payloads.len(),
{
    if payloads.len() == 0 {
        Seq::empty()
    } else {
        frame_bytes(payloads[0]) + frames_bytes(payloads.drop_first())
    }
}

/// Where the frame of `payloads[i]` starts in `frames_bytes(payloads)`.
pub open spec fn frame_offset(payloads: Seq<Seq<u8>>, i: nat) -> nat
    decreases i,
{
    if i == 0 {
        0
    } else {
        frame_offset(payloads, (i - 1) as nat) + payloads[i - 1].len() + 4
    }
}

proof fn lemma_frames_skip(payloads: Seq<Seq<u8>>, i: nat)
    requires
        i <= payloads.len(),
    ensures
        frame_offset(payloads, i) <= frames_bytes(payloads).len(),
        frames_bytes(payloads).skip(frame_offset(payloads, i) as int) == frames_bytes(payloads.skip(i as int)),
    decreases i,
{
    if i == 0 {
        assert(payloads.skip(0) =~= payloads);
        assert(frames_bytes(payloads).skip(0) =~= frames_bytes(payloads));
    } else {
        let j = (i - 1) as nat;
        lemma_frames_skip(payloads, j);
        let tail = payloads.skip(j as int);
        assert(tail.len() > 0);
        assert(tail[0] == payloads[j as int]);
        assert(tail.drop_first() =~= payloads.skip(i as int));
        let fb = frames_bytes(payloads);
        let off = frame_offset(payloads, j);
        assert(fb.skip(off as int) == frame_bytes(tail[0]) + frames_bytes(tail.drop_first()));
        assert(fb.skip(frame_offset(payloads, i) as int) =~= fb.skip(off as int).skip(payloads[j as int].len() + 4int));
        assert((frame_bytes(tail[0]) + frames_bytes(tail.drop_first())).skip(payloads[j as int].len() + 4int)
            =~= frames_bytes(tail.drop_first()));
    }
}

/// Any number of frames laid one after the other come out of the stream in
/// the order in which they were written: decoding at the start of the i-th
/// frame yields the i-th payload and consumes exactly that frame, so the
/// next decoding starts at the next frame. This holds for the payloads that
/// decoding accepts back (at most `MAX_FRAME_LENGTH - 4` bytes each).
pub proof fn law_all_frames_in_order(payloads: Seq<Seq<u8>>, i: nat)
    requires
        i < payloads.len(),
        forall|k: int| 0 <= k < payloads.len() ==> #[trigger] payloads[k].len() + 4 <= MAX_FRAME_LENGTH,
    ensures
        decode_spec(frames_bytes(payloads).skip(frame_offset(payloads, i) as int))
            == Ok::<Option<(Seq<u8>, nat)>, FrameError>(Some((payloads[i as int], (payloads[i as int].len() + 4) as nat))),
        frame_offset(payloads, i + 1) == frame_offset(payloads, i) + payloads[i as int].len() + 4,
{
    lemma_frames_skip(payloads, i);
    let tail = payloads.skip(i as int);
    assert(tail[0] == payloads[i as int]);
    assert(payloads[i as int].len() + 4 <= MAX_FRAME_LENGTH);
    assert(frames_bytes(tail) == frame_bytes(tail[0]) + frames_bytes(tail.drop_first()));
    law_frame_roundtrip(payloads[i as int], frames_bytes(tail.drop_first()));
}

/// The length field of an encoded frame is the big-endian value of its four
/// bytes: byte 0 counts 2^24, byte 1 counts 2^16, byte 2 counts 2^8 and
/// byte 3 counts 1, and their weighted sum is the payload length plus 4.
/// Behind it comes the payload, unchanged.
pub proof fn law_frame_header_is_big_endian(payload: Seq<u8>)
    requires
        payload.len() <= MAX_FRAME_LENGTH,
    ensures
        frame_bytes(payload).len() == payload.len() + 4,
        frame_bytes(payload)[0] * 16777216 + frame_bytes(payload)[1] * 65536
            + frame_bytes(payload)[2] * 256 + frame_bytes(payload)[3] == payload.len() + 4,
        frame_bytes(payload).subrange(4, payload.len() + 4int) == payload,
{
    let n: u32 = (payload.len() + 4) as u32;
    lemma_be_roundtrip(n);
    let fb = frame_bytes(payload);
    assert(fb[0] == be_bytes(n as nat)[0]);
    assert(fb[1] == be_bytes(n as nat)[1]);
    assert(fb[2] == be_bytes(n as nat)[2]);
    assert(fb[3] == be_bytes(n as nat)[3]);
    assert(fb.subrange(4, payload.len() + 4int) =~= payload);
}

/// Decoding reads the length field big-endian: the first byte counts 2^24,
/// the second 2^16, the third 2^8 and the fourth 1.
pub proof fn law_length_field_is_big_endian(buf: Seq<u8>)
    requires
        buf.len() >= 4,
    ensures
        length_field(buf) == buf[0] * 16777216 + buf[1] * 65536 + buf[2] * 256 + buf[3],
{
}

/// A buffer whose first four bytes weigh, big-endian, `n` (with
/// `4 <= n <= MAX_FRAME_LENGTH`) and that holds at least `n` bytes decodes
/// to the `n - 4` bytes after the length field, consuming `n`.
pub proof fn law_decode_reads_big_endian_length(buf: Seq<u8>, n: int)
    requires
        buf.len() >= 4,
        n == buf[0] * 16777216 + buf[1] * 65536 + buf[2] * 256 + buf[3],
        4 <= n <= MAX_FRAME_LENGTH,
        buf.len() >= n,
    ensures
        decode_spec(buf) == Ok::<Option<(Seq<u8>, nat)>, FrameError>(Some((buf.subrange(4, n), n as nat))),
{
    reveal(decode_spec);
}

/// Bytes that arrive later never change what the buffered bytes already
/// decode to: a complete frame stays the same frame, and a bad length field
/// stays the same error.
pub proof fn law_decode_prefix_stable(buf: Seq<u8>, rest: Seq<u8>)
    requires
        decode_spec(buf) != Ok::<Option<(Seq<u8>, nat)>, FrameError>(None),
    ensures
        decode_spec(buf + rest) == decode_spec(buf),
{
    reveal(decode_spec);
    let all = buf + rest;
    assert(all[0] == buf[0] && all[1] == buf[1] && all[2] == buf[2] && all[3] == buf[3]);
    if length_field(buf) >= 4 && length_field(buf) <= MAX_FRAME_LENGTH {
        assert(all.subrange(4, length_field(buf)) =~= buf.subrange(4, length_field(buf)));
    }
}

/// The bytes read from the stream that are not yet taken as frames.
pub struct FrameBuffer {
    buf: Vec<u8>,
}

impl View for FrameBuffer {
    type V = Seq<u8>;

    closed spec fn view(&self) -> Seq<u8> {
        self.buf@
    }
}

impl FrameBuffer {
    /// An empty buffer.
    pub fn new() -> (r: FrameBuffer)
        ensures
            r@ == Seq::<u8>::empty(),
    {
        FrameBuffer { buf: Vec::new() }
    }

    /// Number of buffered bytes.
    pub fn len(&self) -> (r: usize)
        ensures
            r == self@.len(),
    {
        self.buf.len()
    }

    /// Appends bytes read from the stream.
    pub fn extend(&mut self, bytes: &[u8])
        ensures
            final(self)@ == old(self)@ + bytes@,
    {
        let mut i: usize = 0;
        let ghost start = self.buf@;
        while i < bytes.len()
            invariant
                i <= bytes@.len(),
                self.buf@ == start + bytes@.subrange(0, i as int),
            decreases bytes@.len() - i,
        {
            self.buf.push(bytes[i]);
            i = i + 1;
            assert(bytes@.subrange(0, i as int) == bytes@.subrange(0, (i - 1) as int).push(bytes@[i - 1]));
        }
        assert(bytes@.subrange(0, bytes@.len() as int) == bytes@);
    }

    /// Takes the next complete frame from the front of the buffer and
    /// returns its payload. While no whole frame is buffered it returns
    /// `Ok(None)`; a bad length field gives the error. In both of these
    /// cases the buffer is left as it was.
    pub fn next_frame(&mut self) -> (r: Result<Option<Vec<u8>>, FrameError>)
        ensures
            match decode_spec(old(self)@) {
                Ok(Some((payload, consumed))) => {
                    &&& r matches Ok(Some(v)) && v@ == payload
                    &&& final(self)@ == old(self)@.skip(consumed as int)
                },
                Ok(None) => r matches Ok(None) && final(self)@ == old(self)@,
                Err(e) => r == Err::<Option<Vec<u8>>, FrameError>(e) && final(self)@ == old(self)@,
            },
    {
        proof {
            reveal(decode_spec);
        }
        let decoded = decode_frame(self.buf.as_slice());
        match decoded {
            Ok(Some(frame)) => {
                let rest = copy_range(self.buf.as_slice(), frame.consumed, self.buf.len());
                assert(rest@ =~= self.buf@.skip(frame.consumed as int));
                self.buf = rest;
                Ok(Some(frame.payload))
            },
            Ok(None) => Ok(None),
            Err(e) => Err(e),
        }
    }
}

} // verus!
