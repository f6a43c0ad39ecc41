//! The session of an HTTP/2 connection: its streams, and the state that both peers keep in
//! common. [`solicit`] keeps it.
use vstd::prelude::*;
use solicit::http::client::ClientSession;
use solicit::http::connection::{EndStream, HttpConnection};
use solicit::http::priority::SimplePrioritizer;
use solicit::http::session::{DefaultSessionState, SessionState, Stream, StreamState};
use solicit::http::{Header, HttpError, HttpScheme, StreamId};
use crate::delegate::{
    closed_local, enters, headers_of, hears, BoxStream, Headers, StreamView, Told,
};
use crate::frames::{
    be24, bytes_of_each, decodes, header_block, payload, sound, stream_of, unpadded, SendDirect,
    WrappedReceive, DATA, HEADERS, HEADER_LEN, SETTINGS,
};

verus! {

/// [`solicit::http::HttpScheme`], with its variants as they are.
#[verifier::external_type_specification]
pub struct ExHttpScheme(HttpScheme);

/// The frame that acknowledges the settings of the peer.
pub open spec fn settings_ack() -> Seq<u8> {
    seq![0u8, 0, 0, SETTINGS, 1, 0, 0, 0, 0]
}

/// What is sent in answer to a frame: settings are acknowledged, unless they are themselves an
/// acknowledgement.
pub open spec fn replies(f: Seq<u8>) -> Seq<Seq<u8>> {
    if f[3] == SETTINGS && decodes(f) && f[4] & 0x1 == 0 {
        seq![settings_ack()]
    } else {
        Seq::empty()
    }
}

/// What is sent in answer to whatever is received.
pub open spec fn replies_to(received: Option<Seq<u8>>) -> Seq<Seq<u8>> {
    match received {
        Some(f) => replies(f),
        None => Seq::empty(),
    }
}

/// `f` is a frame of the given type on the given stream.
pub open spec fn is_frame_on(f: Seq<u8>, kind: u8, stream_id: StreamId) -> bool {
    f.len() >= HEADER_LEN && be24(f) == (f.len() - HEADER_LEN) % 0x100_0000 && f[3] == kind
        && stream_of(f) == stream_id
}

/// `f` is a HEADERS frame with the given header block, and says whether anything follows it.
pub open spec fn is_headers_frame(
    f: Seq<u8>,
    stream_id: StreamId,
    block: Seq<u8>,
    end_stream: bool,
) -> bool {
    is_frame_on(f, HEADERS, stream_id) && payload(f) == block && f[4] == (if end_stream {
        0x5u8
    } else {
        0x4u8
    })
}

/// `f` is a DATA frame with the given data, which is or is not the last of its stream.
pub open spec fn is_data_frame(f: Seq<u8>, stream_id: StreamId, data: Seq<u8>, last: bool) -> bool {
    is_frame_on(f, DATA, stream_id) && payload(f) == data && f[4] == (if last {
        0x1u8
    } else {
        0x0u8
    })
}

/// What the session is handed for a frame: the frame, unless it breaks off.
pub open spec fn received(f: Seq<u8>) -> Option<Seq<u8>> {
    if sound(f) {
        Some(f)
    } else {
        None
    }
}

/// What a session amounts to: the streams that it holds, each under its number, and the header
/// blocks that it was handed and the headers that it sent, in order, on which it depends what
/// later ones stand for.
pub struct SessionView {
    pub streams: Map<StreamId, StreamView>,
    pub blocks: Seq<Seq<u8>>,
    pub lists: Seq<Headers>,
}

/// What `Decoder::decode`, by which [`HttpConnection`] decodes header blocks, makes of the last of
/// these when it is given all of them, in order. There is nothing where that cannot be decoded.
pub uninterp spec fn decoded(blocks: Seq<Seq<u8>>) -> Option<Headers>;

/// The header block that `Encoder::encode`, by which [`HttpConnection`] encodes headers, makes of
/// the last of these when it is given all of them, in order.
pub uninterp spec fn encoded(lists: Seq<Headers>) -> Seq<u8>;

/// The header block of a HEADERS frame that has one.
pub open spec fn block_of(f: Seq<u8>) -> Seq<u8> {
    header_block(f)->0
}

/// Whether a session takes what is received: a frame has to be what its type says it is, and
/// where it carries headers, these have to be decoded.
pub open spec fn takes(s: SessionView, received: Option<Seq<u8>>) -> bool {
    match received {
        Some(f) => decodes(f) && (f[3] == HEADERS ==> decoded(s.blocks.push(block_of(f))) is Some),
        None => false,
    }
}

/// What a frame carries: data, without its padding, or headers.
pub open spec fn carried(s: SessionView, f: Seq<u8>) -> Told {
    if f[3] == DATA {
        Told::Data(unpadded(f))
    } else {
        Told::Headers(decoded(s.blocks.push(block_of(f)))->0)
    }
}

/// The streams of a session that took a frame. The delegate of the stream that the frame is on is
/// told what the frame carries, and that the stream is over, where the frame says so. Frames on
/// streams that are not held, and frames of other types, change nothing.
pub open spec fn delivered(s: SessionView, f: Seq<u8>) -> Map<StreamId, StreamView> {
    let id = stream_of(f) as StreamId;
    if (f[3] == DATA || f[3] == HEADERS) && s.streams.contains_key(id) {
        let heard = hears(s.streams[id], carried(s, f));
        s.streams.insert(
            id,
            if f[4] & 0x1 != 0 {
                enters(heard, StreamState::Closed)
            } else {
                heard
            },
        )
    } else {
        s.streams
    }
}

/// A session after it was handed what is received. What it does not take changes no stream.
pub open spec fn handed(s: SessionView, received: Option<Seq<u8>>) -> SessionView {
    match received {
        Some(f) if decodes(f) => SessionView {
            streams: if takes(s, received) {
                delivered(s, f)
            } else {
                s.streams
            },
            blocks: if f[3] == HEADERS {
                s.blocks.push(block_of(f))
            } else {
                s.blocks
            },
            ..s
        },
        _ => s,
    }
}

/// A stream that was asked for data, made `before` into `after`, and had none to give. It may
/// have said that it will have no more, and is told then that its end is closed.
pub open spec fn declined(before: StreamView, after: StreamView) -> bool {
    let told = before.told.push(Told::Asked(None));
    ||| after.told == told
    ||| closed_local(after.state) && after.told == told.push(Told::State(after.state))
}

/// Some of the streams `before`, among those on which data may go out, were asked for data, which
/// made them into `after`. All that were asked had none to give, but for the one that `gave`
/// names, if any: it gave the data that goes with it.
pub open spec fn asked_in_turn(
    before: Map<StreamId, StreamView>,
    after: Map<StreamId, StreamView>,
    gave: Option<(StreamId, Seq<u8>, bool)>,
) -> bool {
    &&& after.dom() == before.dom()
    &&& gave matches Some((id, _, _)) ==> before.contains_key(id)
    &&& forall|id: StreamId| #[trigger]
        before.contains_key(id) ==> match gave {
            Some((giver, data, last)) if giver == id => !closed_local(before[id].state)
                && after[id].told == before[id].told.push(Told::Asked(Some((data, last)))),
            _ => after[id] == before[id] || !closed_local(before[id].state) && declined(
                before[id],
                after[id],
            ),
        }
}

/// Every one of the streams on which data may go out was asked for data, and had none to give.
pub open spec fn all_declined(
    before: Map<StreamId, StreamView>,
    after: Map<StreamId, StreamView>,
) -> bool {
    forall|id: StreamId| #[trigger]
        before.contains_key(id) && !closed_local(before[id].state) ==> declined(
            before[id],
            after[id],
        )
}

/// What goes out when a stream gives data.
pub open spec fn data_frames(sent: Seq<Seq<u8>>, gave: Option<(StreamId, Seq<u8>, bool)>) -> bool {
    match gave {
        Some((id, data, last)) => sent.len() == 1 && is_data_frame(sent[0], id, data, last),
        None => sent.len() == 0,
    }
}

/// The streams `before` were asked for data, which went well or did not, and made them into
/// `after`. What one of them gave, which is at most `room` bytes, goes out. Where nothing goes
/// out and nothing went wrong, none of them had any; where something went wrong, it did so with
/// one that was asked.
pub open spec fn sent_next(
    before: Map<StreamId, StreamView>,
    after: Map<StreamId, StreamView>,
    room: nat,
    sent: Seq<Seq<u8>>,
    ok: bool,
) -> bool {
    exists|gave: Option<(StreamId, Seq<u8>, bool)>|
        {
            &&& #[trigger] data_frames(sent, gave)
            &&& asked_in_turn(before, after, gave)
            &&& match gave {
                Some((_, data, _)) => ok && data.len() <= room,
                None => if ok {
                    all_declined(before, after)
                } else {
                    exists|id: StreamId| #[trigger]
                        before.contains_key(id) && !closed_local(before[id].state) && declined(
                            before[id],
                            after[id],
                        )
                },
            }
        }
}

/// The streams that are not closed.
pub open spec fn still_open(streams: Map<StreamId, StreamView>) -> Map<StreamId, StreamView> {
    streams.restrict(Set::new(|id: StreamId| !(streams[id].state is Closed)))
}

/// A session without the streams that are closed.
pub open spec fn let_go(s: SessionView) -> SessionView {
    SessionView { streams: still_open(s.streams), ..s }
}

/// A session to which nothing has happened.
pub open spec fn fresh() -> SessionView {
    SessionView { streams: Map::empty(), blocks: Seq::empty(), lists: Seq::empty() }
}

/// The state of an HTTP/2 connection at the end of the client: the streams that are open, each
/// under its number, and the tables by which headers are packed and unpacked. Held by
/// [`solicit`], as a table of streams and the connection that leads to them.
#[verifier::external_body]
pub struct Session {
    conn: HttpConnection<SendDirect, WrappedReceive>,
    state: DefaultSessionState<BoxStream>,
}

/// The streams that the session holds, each under its number.
pub uninterp spec fn streams_of(s: Session) -> Map<StreamId, StreamView>;

/// The header blocks that the session was handed, in order.
pub uninterp spec fn blocks_of(s: Session) -> Seq<Seq<u8>>;

/// The headers that the session sent, in order.
pub uninterp spec fn lists_of(s: Session) -> Seq<Headers>;

impl View for Session {
    type V = SessionView;

    open spec fn view(&self) -> SessionView {
        SessionView {
            streams: streams_of(*self),
            blocks: blocks_of(*self),
            lists: lists_of(*self),
        }
    }
}

impl Session {
    /// `HttpConnection::new` and `DefaultSessionState::new`: a session without streams, for
    /// connections that are not encrypted.
    #[verifier::external_body]
    pub(crate) fn new(sender: SendDirect, receiver: WrappedReceive) -> (s: Session)
        ensures
            streams_of(s) == fresh().streams,
            blocks_of(s) == fresh().blocks,
            lists_of(s) == fresh().lists,
    {
        Session {
            conn: HttpConnection::new(sender, receiver, HttpScheme::Http),
            state: DefaultSessionState::new(),
        }
    }

    /// `HttpConnection::scheme`: the scheme that the connection was made with, which is the same
    /// for every session.
    #[verifier::external_body]
    pub(crate) fn scheme(&self) -> (s: HttpScheme)
        ensures
            s == HttpScheme::Http,
    {
        self.conn.scheme
    }

    /// `HttpConnection::handle_next_frame`: takes the frame from the receiver, acts on it, and
    /// sends what is to be sent in answer. Headers are decoded by a decoder that has seen the
    /// header blocks of all frames before. What the frame carries goes to the stream that it is
    /// on. The header block of a HEADERS frame must not break off within a new size of the table:
    /// the decoder does not expect that.
    #[verifier::external_body]
    pub(crate) fn handle_next_frame(
        &mut self,
        receiver: &mut WrappedReceive,
        sender: &mut SendDirect,
    ) -> (r: Result<(), HttpError>)
        requires
            old(receiver)@ matches Some(f) && f.len() >= HEADER_LEN && sound(f),
        ensures
            final(sender)@ == old(sender)@ + replies_to(old(receiver)@),
            (r is Ok) == takes(old(self)@, old(receiver)@),
            old(receiver)@ matches Some(f) && decodes(f) && f[3] == HEADERS ==> (r is Ok) == (
            decoded(blocks_of(*final(self))) is Some),
            final(self)@ == handed(old(self)@, old(receiver)@),
    {
        std::mem::swap(&mut self.conn.receiver, receiver);
        std::mem::swap(&mut self.conn.sender, sender);
        let r = self.conn.handle_next_frame(&mut ClientSession::new(&mut self.state));
        std::mem::swap(&mut self.conn.receiver, receiver);
        std::mem::swap(&mut self.conn.sender, sender);
        r
    }

    /// `HttpConnection::send_headers`: sends the headers in one frame. They are encoded by an
    /// encoder that has seen all headers that were sent before.
    #[verifier::external_body]
    pub(crate) fn send_headers(
        &mut self,
        headers: Vec<Header>,
        stream_id: StreamId,
        end_stream: bool,
        sender: &mut SendDirect,
    ) -> (r: Result<(), HttpError>)
        ensures
            r is Ok,
            streams_of(*final(self)) == streams_of(*old(self)),
            blocks_of(*final(self)) == blocks_of(*old(self)),
            lists_of(*final(self)) == lists_of(*old(self)).push(headers_of(headers@)),
            final(sender)@.len() == old(sender)@.len() + 1,
            final(sender)@.drop_last() == old(sender)@,
            is_headers_frame(
                final(sender)@.last(),
                stream_id,
                encoded(lists_of(*final(self))),
                end_stream,
            ),
    {
        let end = if end_stream { EndStream::Yes } else { EndStream::No };
        std::mem::swap(&mut self.conn.sender, sender);
        let r = self.conn.send_headers(headers, stream_id, end);
        std::mem::swap(&mut self.conn.sender, sender);
        r
    }

    /// `HttpConnection::send_next_data`, on what `SimplePrioritizer` finds: asks the streams on
    /// which data may go out in turn, by way of `buf`, until one gives some, and sends that. A
    /// stream that says that it will have no more has its end closed; any other failure of a
    /// stream ends the search. Which stream is asked first is left open.
    #[verifier::external_body]
    pub(crate) fn send_next_data(&mut self, buf: &mut [u8], sender: &mut SendDirect) -> (r: Result<
        (),
        HttpError,
    >)
        ensures
            final(sender)@.len() >= old(sender)@.len(),
            final(sender)@.take(old(sender)@.len() as int) == old(sender)@,
            blocks_of(*final(self)) == blocks_of(*old(self)),
            lists_of(*final(self)) == lists_of(*old(self)),
            sent_next(
                streams_of(*old(self)),
                streams_of(*final(self)),
                old(buf)@.len(),
                final(sender)@.skip(old(sender)@.len() as int),
                r is Ok,
            ),
    {
        std::mem::swap(&mut self.conn.sender, sender);
        let r = self.conn.send_next_data(&mut SimplePrioritizer::new(&mut self.state, buf));
        std::mem::swap(&mut self.conn.sender, sender);
        r.map(|_| ())
    }

    /// `SessionState::insert_stream`: the session holds the stream from now on, under its number.
    #[verifier::external_body]
    pub(crate) fn insert_stream(&mut self, stream: BoxStream)
        ensures
            blocks_of(*final(self)) == blocks_of(*old(self)),
            lists_of(*final(self)) == lists_of(*old(self)),
            streams_of(*final(self)) == streams_of(*old(self)).insert(stream.spec_id(), stream@),
    {
        self.state.insert_stream(stream)
    }

    /// `SessionState::get_closed`: the streams that are closed leave the session, and are given
    /// in an order that is left open.
    #[verifier::external_body]
    pub(crate) fn get_closed(&mut self) -> (closed: Vec<BoxStream>)
        ensures
            final(self)@ == let_go(old(self)@),
            forall|i: int|
                0 <= i < closed@.len() ==> streams_of(*old(self)).contains_pair(
                    (#[trigger] closed@[i]).spec_id(),
                    closed@[i]@,
                ) && closed@[i]@.state is Closed,
    {
        self.state.get_closed()
    }
}

/// How much data is asked of a stream at a time.
pub const MAX_CHUNK_SIZE: usize = 8192;

/// The session was asked to send the data that its streams have, with room for so many bytes,
/// which went well or did not.
pub closed spec fn asked_for_data(session: SessionView, room: nat, ok: bool) -> bool {
    exists|s: &mut Session, buf: &mut [u8], sender: &mut SendDirect, r: Result<(), HttpError>|
        (*s)@ == session && (*buf)@.len() == room && (r is Ok) == ok && #[trigger] call_ensures(
            Session::send_next_data,
            (s, buf, sender),
            r,
        )
}

/// The session was asked to send the data that its streams have, and turned from `before` into
/// `after`. `sent` is what goes out.
pub open spec fn sent_data(before: SessionView, after: SessionView, sent: Seq<Seq<u8>>) -> bool {
    after == (SessionView { streams: after.streams, ..before }) && exists|ok: bool| #[trigger]
        asked_for_data(before, MAX_CHUNK_SIZE as nat, ok) && sent_next(
            before.streams,
            after.streams,
            MAX_CHUNK_SIZE as nat,
            sent,
            ok,
        )
}

/// A request on its way to the session: its headers, and the stream that handles the response.
pub struct RequestStream {
    pub headers: Vec<Header>,
    pub stream: BoxStream,
}

/// A session that sent the headers of a request, and holds its stream.
pub open spec fn requested(s: SessionView, req: RequestStream) -> SessionView {
    let id = req.stream.spec_id();
    SessionView {
        streams: s.streams.insert(id, hears(req.stream@, Told::Started(id))),
        lists: s.lists.push(headers_of(req.headers@)),
        ..s
    }
}

impl Session {
    /// Hands a frame to the session. Says whether the session took it, and gives what is to be
    /// sent in answer. A frame that breaks off is not taken.
    pub fn take(&mut self, receiver: WrappedReceive) -> (r: (bool, Vec<Vec<u8>>))
        requires
            receiver@ is Some,
        ensures
            r.0 == takes(old(self)@, received(receiver@->0)),
            final(self)@ == handed(old(self)@, received(receiver@->0)),
            bytes_of_each(r.1@) == replies_to(received(receiver@->0)),
    {
        let mut receiver = receiver;
        let mut sender = SendDirect::new();
        if !receiver.is_sound() {
            return (false, sender.into_frames());
        }
        let taken = self.handle_next_frame(&mut receiver, &mut sender).is_ok();
        (taken, sender.into_frames())
    }

    /// Lets go of the streams that are closed.
    pub fn drop_closed(&mut self)
        ensures
            final(self)@ == let_go(old(self)@),
    {
        let _ = self.get_closed();
    }

    /// Sends the headers of a request, and holds its stream from then on. The delegate of the
    /// stream is told. Gives what is to be sent.
    pub fn start_request(&mut self, req: RequestStream) -> (sent: Vec<Vec<u8>>)
        ensures
            final(self)@ == requested(old(self)@, req),
            sent@.len() == 1,
            is_headers_frame(
                sent@[0]@,
                req.stream.spec_id(),
                encoded(final(self)@.lists),
                closed_local(req.stream@.state),
            ),
    {
        let mut sender = SendDirect::new();
        let mut stream = req.stream;
        let end_stream = stream.closed_local();
        let _ = self.send_headers(req.headers, stream.id(), end_stream, &mut sender);
        stream.started();
        // The stream is held once its headers are on their way.
        self.insert_stream(stream);
        sender.into_frames()
    }

    /// Asks the streams for data, and gives what is to be sent.
    pub fn next_data(&mut self) -> (sent: Vec<Vec<u8>>)
        ensures
            sent_data(old(self)@, final(self)@, bytes_of_each(sent@)),
    {
        let mut sender = SendDirect::new();
        let mut buf: Vec<u8> = vec![0; MAX_CHUNK_SIZE];
        let r = self.send_next_data(buf.as_mut_slice(), &mut sender);
        assert(asked_for_data(old(self)@, MAX_CHUNK_SIZE as nat, r is Ok));
        assert(sender@.skip(0) =~= sender@);
        sender.into_frames()
    }
}

} // verus!
