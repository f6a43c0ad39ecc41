//! Frames: how a stream of bytes falls into them, and which of them can be taken.
use vstd::prelude::*;
use vstd::slice::slice_subrange;
use solicit::http::connection::{HttpFrame, ReceiveFrame, SendFrame};
use solicit::http::frame::{unpack_header, FrameHeader, FrameHeaderBuffer, RawFrame};
use solicit::http::{HttpError, HttpResult};
use crate::header_block::{breaks_off_in_size, cut_in_size};

verus! {

/// Every frame begins with a header of that many octets.
pub const HEADER_LEN: usize = 9;

/// The type of frames that carry data on a stream.
pub const DATA: u8 = 0;

/// The type of frames that carry headers on a stream.
pub const HEADERS: u8 = 1;

/// The type of frames that carry settings of the connection.
pub const SETTINGS: u8 = 4;

/// The first three octets, most significant first.
pub open spec fn be24(b: Seq<u8>) -> nat {
    (b[0] * 0x1_0000 + b[1] * 0x100 + b[2]) as nat
}

/// The first four octets, most significant first.
pub open spec fn be32(b: Seq<u8>) -> nat {
    (b[0] * 0x100_0000 + b[1] * 0x1_0000 + b[2] * 0x100 + b[3]) as nat
}

/// The stream that a frame belongs to.
pub open spec fn stream_of(f: Seq<u8>) -> nat {
    be32(f.subrange(5, 9))
}

/// How long the frame at the front of `b` is, once all of it is there.
pub open spec fn first_frame(b: Seq<u8>) -> Option<int> {
    if b.len() >= HEADER_LEN && b.len() >= HEADER_LEN + be24(b) {
        Some(HEADER_LEN + be24(b))
    } else {
        None
    }
}

/// The frames that `b` begins with, as far as all of a frame is there.
pub open spec fn frames(b: Seq<u8>) -> Seq<Seq<u8>>
    decreases b.len(),
{
    match first_frame(b) {
        None => Seq::empty(),
        Some(n) => seq![b.take(n)] + frames(b.skip(n)),
    }
}

/// What is left of `b` behind its frames.
pub open spec fn rest(b: Seq<u8>) -> Seq<u8>
    decreases b.len(),
{
    match first_frame(b) {
        None => b,
        Some(n) => rest(b.skip(n)),
    }
}

/// What a frame carries behind its header.
pub open spec fn payload(f: Seq<u8>) -> Seq<u8> {
    f.skip(HEADER_LEN as int)
}

/// Where a frame is padded, the padding leaves room for its length.
pub open spec fn padding_fits(f: Seq<u8>) -> bool {
    f[4] & 0x8 != 0 ==> payload(f).len() > 0 && payload(f)[0] < payload(f).len()
}

/// The payload of a frame without its padding.
pub open spec fn unpadded(f: Seq<u8>) -> Seq<u8> {
    if f[4] & 0x8 != 0 {
        payload(f).subrange(1, payload(f).len() - payload(f)[0])
    } else {
        payload(f)
    }
}

/// The header block of a HEADERS frame. There is none where the frame is too short for what its
/// flags announce.
pub open spec fn header_block(f: Seq<u8>) -> Option<Seq<u8>> {
    if !padding_fits(f) {
        None
    } else if f[4] & 0x20 == 0 {
        Some(unpadded(f))
    } else if unpadded(f).len() >= 5 {
        Some(unpadded(f).skip(5))
    } else {
        None
    }
}

/// A frame that can be decoded without breaking off: no HEADERS frame that is too short for what
/// its flags announce, or whose header block breaks off within a new size of the table.
pub open spec fn sound(f: Seq<u8>) -> bool {
    f[3] == HEADERS ==> (header_block(f) matches Some(b) && !cut_in_size(b))
}

/// A frame that is what its type says it is. Frames of other types are anything.
pub open spec fn decodes(f: Seq<u8>) -> bool {
    if f[3] == DATA || f[3] == HEADERS {
        f.len() == HEADER_LEN + be24(f) && stream_of(f) != 0 && padding_fits(f)
    } else if f[3] == SETTINGS {
        f.len() == HEADER_LEN + be24(f) && stream_of(f) == 0 && if f[4] & 0x1 != 0 {
            payload(f).len() == 0
        } else {
            payload(f).len() % 6 == 0
        }
    } else {
        true
    }
}

/// [`solicit::http::HttpError`], of which nothing is visible.
#[verifier::external_type_specification]
#[verifier::external_body]
pub struct ExHttpError(HttpError);

/// [`solicit::http::connection::HttpFrame`], of which nothing is visible.
#[verifier::external_type_specification]
#[verifier::external_body]
pub struct ExHttpFrame(HttpFrame);

/// [`solicit::http::frame::RawFrame`], of which nothing is visible but the bytes that
/// [`raw_bytes`] stands for.
#[verifier::external_type_specification]
#[verifier::external_body]
pub struct ExRawFrame(RawFrame);

/// The bytes that a raw frame holds.
pub uninterp spec fn raw_bytes(f: RawFrame) -> Seq<u8>;

/// `unpack_header`: the length of the payload, the type, the flags and the stream of a frame.
pub assume_specification[ unpack_header ](header: &FrameHeaderBuffer) -> (r: FrameHeader)
    ensures
        r.0 == be24(header@),
        r.1 == header@[3],
        r.2 == header@[4],
        r.3 == be32(header@.subrange(5, 9)),
;

/// `RawFrame::from_buf`: holds the buffer, where the buffer is one frame and nothing else.
pub assume_specification[ RawFrame::from_buf ](buf: &[u8]) -> (r: Option<RawFrame>)
    ensures
        match r {
            Some(f) => buf@.len() >= HEADER_LEN && buf@.len() == HEADER_LEN + be24(buf@)
                && raw_bytes(f) == buf@,
            None => !(buf@.len() >= HEADER_LEN && buf@.len() == HEADER_LEN + be24(buf@)),
        },
;

/// `RawFrame::serialize`: the bytes that the frame holds.
pub assume_specification[ RawFrame::serialize ](f: &RawFrame) -> (v: Vec<u8>)
    ensures
        v@ == raw_bytes(*f),
;

/// `HttpFrame::from_raw`: succeeds on a frame that is what its type says it is, and on frames of
/// other types than those. The decoder looks for the header block of a HEADERS frame without
/// asking whether the frame is long enough, so it has to be.
pub assume_specification[ HttpFrame::from_raw ](raw_frame: RawFrame) -> (r: HttpResult<HttpFrame>)
    requires
        raw_bytes(raw_frame).len() >= HEADER_LEN,
        raw_bytes(raw_frame)[3] == HEADERS && padding_fits(raw_bytes(raw_frame)) ==> header_block(
            raw_bytes(raw_frame),
        ) is Some,
    ensures
        r is Ok <==> decodes(raw_bytes(raw_frame)),
;

/// `HttpError::InvalidFrame`: an error of the kind that a frame is rejected with.
#[verifier::external_body]
fn invalid_frame() -> (e: HttpError)
{
    HttpError::InvalidFrame
}

/// The header block of a HEADERS frame.
fn find_block(f: &[u8]) -> (r: Option<&[u8]>)
    requires
        f@.len() >= HEADER_LEN,
    ensures
        match r {
            Some(b) => header_block(f@) == Some(b@),
            None => header_block(f@) is None,
        },
{
    let mut from: usize = HEADER_LEN;
    let mut to: usize = f.len();
    if f[4] & 0x8 != 0 {
        if f.len() == HEADER_LEN || f[9] as usize >= f.len() - HEADER_LEN {
            return None;
        }
        from = HEADER_LEN + 1;
        to = f.len() - f[9] as usize;
    }
    assert(padding_fits(f@));
    assert(unpadded(f@) =~= f@.subrange(from as int, to as int));
    if f[4] & 0x20 != 0 {
        if to - from < 5 {
            return None;
        }
        from = from + 5;
    }
    let block = slice_subrange(f, from, to);
    assert(header_block(f@) matches Some(b) && b =~= block@);
    Some(block)
}

/// A frame that came in, on its way to the session. The view is the bytes of the frame.
pub struct WrappedReceive {
    frame: Option<RawFrame>,
}

impl View for WrappedReceive {
    type V = Option<Seq<u8>>;

    closed spec fn view(&self) -> Option<Seq<u8>> {
        match self.frame {
            Some(f) => Some(raw_bytes(f)),
            None => None,
        }
    }
}

impl WrappedReceive {
    #[verifier::type_invariant]
    spec fn is_one_frame(self) -> bool {
        self.frame matches Some(f) ==> raw_bytes(f).len() >= HEADER_LEN && raw_bytes(f).len()
            == HEADER_LEN + be24(raw_bytes(f))
    }

    /// Nothing to receive.
    pub fn none() -> (w: WrappedReceive)
        ensures
            w@ is None,
    {
        WrappedReceive { frame: None }
    }

    /// The frame at the front of `buf`, once all of it is there.
    pub fn parse(buf: &[u8]) -> (r: Option<WrappedReceive>)
        ensures
            match first_frame(buf@) {
                None => r is None,
                Some(n) => r matches Some(w) && w@ == Some(buf@.take(n)),
            },
    {
        if buf.len() < HEADER_LEN {
            return None;
        }
        let header: [u8; 9] = [
            buf[0],
            buf[1],
            buf[2],
            buf[3],
            buf[4],
            buf[5],
            buf[6],
            buf[7],
            buf[8],
        ];
        let (length, _, _, _) = unpack_header(&header);
        assert(be24(header@) == be24(buf@));
        let len: usize = HEADER_LEN + length as usize;
        if buf.len() < len {
            return None;
        }
        let bytes = slice_subrange(buf, 0, len);
        assert(bytes@ =~= buf@.take(len as int));
        assert(be24(bytes@) == be24(buf@));
        Some(WrappedReceive { frame: RawFrame::from_buf(bytes) })
    }

    /// How many bytes the frame takes.
    pub fn len(&self) -> (n: usize)
        ensures
            n == match self@ {
                Some(f) => f.len(),
                None => 0,
            },
    {
        match &self.frame {
            Some(frame) => frame.serialize().len(),
            None => 0,
        }
    }

    /// The frame itself.
    pub fn frame(&self) -> (f: Option<&RawFrame>)
        ensures
            match f {
                Some(f) => self@ == Some(raw_bytes(*f)),
                None => self@ is None,
            },
    {
        self.frame.as_ref()
    }

    /// Whether there is a frame, and it can be decoded without breaking off.
    pub fn is_sound(&self) -> (b: bool)
        ensures
            b == (self@ matches Some(f) && sound(f)),
            self@ matches Some(f) ==> f.len() >= HEADER_LEN,
    {
        proof {
            use_type_invariant(self);
        }
        match &self.frame {
            Some(frame) => {
                let bytes = frame.serialize();
                if bytes[3] != HEADERS {
                    return true;
                }
                match find_block(bytes.as_slice()) {
                    Some(block) => !breaks_off_in_size(block),
                    None => false,
                }
            },
            None => false,
        }
    }
}

impl ReceiveFrame for WrappedReceive {
    fn recv_frame(&mut self) -> (r: HttpResult<HttpFrame>)
        ensures
            final(self)@ == old(self)@,
            r is Ok <==> (old(self)@ matches Some(f) && decodes(f) && (f[3] == HEADERS
                ==> header_block(f) is Some)),
            old(self)@ matches Some(f) ==> (f[3] == HEADERS ==> header_block(f) is Some) ==> exists|
                raw: RawFrame,
            |
                raw_bytes(raw) == f && #[trigger] call_ensures(HttpFrame::from_raw, (raw,), r),
    {
        proof {
            use_type_invariant(&*self);
        }
        let bytes = match &self.frame {
            Some(frame) => frame.serialize(),
            None => return Err(invalid_frame()),
        };
        if bytes[3] == HEADERS && find_block(bytes.as_slice()).is_none() {
            return Err(invalid_frame());
        }
        match RawFrame::from_buf(bytes.as_slice()) {
            Some(frame) => HttpFrame::from_raw(frame),
            None => Err(invalid_frame()),
        }
    }
}

/// Frames that the session sends, in order.
pub struct SendDirect {
    frames: Vec<Vec<u8>>,
}

/// The bytes of each of the given frames.
pub open spec fn bytes_of_each(frames: Seq<Vec<u8>>) -> Seq<Seq<u8>> {
    Seq::new(frames.len(), |i: int| frames[i]@)
}

impl View for SendDirect {
    type V = Seq<Seq<u8>>;

    closed spec fn view(&self) -> Seq<Seq<u8>> {
        bytes_of_each(self.frames@)
    }
}

impl SendDirect {
    /// Nothing sent.
    pub fn new() -> (s: SendDirect)
        ensures
            s@ == Seq::<Seq<u8>>::empty(),
    {
        let s = SendDirect { frames: Vec::new() };
        assert(s@ =~= Seq::<Seq<u8>>::empty());
        s
    }

    /// The frames that were sent.
    pub fn into_frames(self) -> (f: Vec<Vec<u8>>)
        ensures
            bytes_of_each(f@) == self@,
    {
        self.frames
    }
}

impl SendFrame for SendDirect {
    fn send_raw_frame(&mut self, frame: RawFrame) -> (r: HttpResult<()>)
        ensures
            r is Ok,
            final(self)@ == old(self)@.push(raw_bytes(frame)),
    {
        let ghost before = self@;
        self.frames.push(frame.serialize());
        assert(self@ =~= before.push(raw_bytes(frame)));
        Ok(())
    }
}

} // verus!
