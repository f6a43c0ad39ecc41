//! A client in another thread than the event loop: its delegates, and what it gets to read.
use vstd::prelude::*;
use vstd::slice::slice_to_vec;
use solicit::http::session::{StreamDataChunk, StreamDataError, StreamState};
use solicit::http::{Header, StreamId};
use crate::channel::{fresh_pipe, pipe, put_bytes, put_once, Inlet, Outlet};
use crate::cursor::Cursor;
use crate::delegate::{close_local, headers_of, local_end_closed, RequestDelegate, Told};
use crate::evtloop::{ConnectionHandle, OnConnectionReady};
use crate::reader::{kept, read, read_once};

verus! {

/// The body that every request of the client has: `AB`.
pub open spec fn body() -> Seq<u8> {
    seq![0x41u8, 0x42]
}

/// How long that body is.
pub const BODY_LEN: usize = 2;

/// A delegate of the client, with its stream in the state `before`, was asked for data and gave
/// its body, all at once, where the buffer has room for it. Its end is closed then. Where there
/// is no room, it has nothing to give for now.
pub open spec fn gave_body(
    before: StreamState,
    old_buf: Seq<u8>,
    r: Result<StreamDataChunk, StreamDataError>,
    new_buf: Seq<u8>,
    after: StreamState,
) -> bool {
    if old_buf.len() < BODY_LEN {
        &&& r == Ok::<StreamDataChunk, StreamDataError>(StreamDataChunk::Unavailable)
        &&& new_buf == old_buf
        &&& after == before
    } else {
        &&& r == Ok::<StreamDataChunk, StreamDataError>(StreamDataChunk::Last(BODY_LEN))
        &&& new_buf == body() + old_buf.skip(BODY_LEN as int)
        &&& after == local_end_closed(before)
    }
}

/// Places the body into a buffer.
fn write_body(buf: &mut [u8])
    requires
        old(buf)@.len() >= BODY_LEN,
    ensures
        final(buf)@ == body() + old(buf)@.skip(BODY_LEN as int),
{
    let ghost before = buf@;
    buf[0] = 0x41;
    buf[1] = 0x42;
    assert(buf@ =~= body() + before.skip(BODY_LEN as int));
}

/// A delegate that takes no notice of the response.
pub struct EchoDelegate {
    pub state: StreamState,
    pub told: Ghost<Seq<Told>>,
}

impl EchoDelegate {
    /// For a stream in the given state.
    pub fn new(state: StreamState) -> (d: EchoDelegate)
        ensures
            d.state == state,
            d.told@ == Seq::<Told>::empty(),
    {
        EchoDelegate { state, told: Ghost(Seq::empty()) }
    }
}

impl RequestDelegate for EchoDelegate {
    open spec fn in_state(&self) -> StreamState {
        self.state
    }

    open spec fn told(&self) -> Seq<Told> {
        self.told@
    }

    fn started(&mut self, stream_id: StreamId) {
        self.told = Ghost(self.told@.push(Told::Started(stream_id)));
    }

    fn new_data_chunk(&mut self, data: &[u8]) {
        self.told = Ghost(self.told@.push(Told::Data(data@)));
    }

    fn set_headers(&mut self, headers: Vec<Header>) {
        self.told = Ghost(self.told@.push(Told::Headers(headers_of(headers@))));
    }

    fn set_state(&mut self, state: StreamState) {
        self.state = state;
        self.told = Ghost(self.told@.push(Told::State(state)));
    }

    fn get_data_chunk(&mut self, buf: &mut [u8]) -> (r: Result<StreamDataChunk, StreamDataError>)
        ensures
            gave_body(old(self).state, old(buf)@, r, final(buf)@, final(self).state),
    {
        if buf.len() < BODY_LEN {
            self.told = Ghost(self.told@.push(Told::Asked(None)));
            return Ok(StreamDataChunk::Unavailable);
        }
        write_body(buf);
        self.state = close_local(self.state);
        self.told = Ghost(self.told@.push(Told::Asked(Some((buf@.take(BODY_LEN as int), true)))));
        Ok(StreamDataChunk::Last(BODY_LEN))
    }

    fn state(&self) -> StreamState {
        self.state
    }
}

/// The body of a response, as it comes in.
pub struct StreamResponse {
    pub stream: Inlet<Vec<u8>>,
    pub leftover: Option<Cursor>,
}

/// The response whose body comes out of the given channel, of which nothing has been read.
pub open spec fn starting(rx: Inlet<Vec<u8>>) -> StreamResponse {
    StreamResponse { stream: rx, leftover: None }
}

impl StreamResponse {
    /// Reads from the body. Fails where no more of it comes.
    pub fn read(&mut self, buf: &mut [u8]) -> (r: Result<usize, ()>)
        ensures
            read_once(
                old(self).stream,
                kept(old(self).leftover),
                old(buf)@,
                final(buf)@,
                kept(final(self).leftover),
                r,
                final(self).stream,
            ),
    {
        read(&mut self.stream, &mut self.leftover, buf)
    }
}

/// A delegate that hands the response over as it comes in.
pub struct ChannelDelegate {
    pub state: StreamState,
    pub resolve: Outlet<StreamResponse>,
    pub response_chunk_tx: Option<Outlet<Vec<u8>>>,
    pub told: Ghost<Seq<Told>>,
}

/// A response whose body comes out of a new channel, with `tx` at its other end, was put into
/// `before`, whether or not anybody waits for it, which made it into `after`.
pub open spec fn resolved(
    before: Outlet<StreamResponse>,
    tx: Outlet<Vec<u8>>,
    after: Outlet<StreamResponse>,
) -> bool {
    exists|rx: Inlet<Vec<u8>>, ok: bool|
        #![trigger fresh_pipe(tx, rx), put_once(before, starting(rx), ok, after)]
        fresh_pipe(tx, rx) && put_once(before, starting(rx), ok, after)
}

/// Data was put into `before` as one chunk, whether or not anybody takes it, which made it into
/// `after`.
pub open spec fn chunk_put(before: Outlet<Vec<u8>>, data: Seq<u8>, after: Outlet<Vec<u8>>) -> bool {
    exists|ok: bool| #[trigger] put_bytes(before, data, ok, after)
}

/// A response begins: it is put where it is waited for, and data that arrives goes into its
/// channel from now on.
pub open spec fn began(d: ChannelDelegate, e: ChannelDelegate) -> bool {
    e.response_chunk_tx is Some && resolved(d.resolve, e.response_chunk_tx->0, e.resolve)
}

/// Data arrived: it goes into the channel of the response that began last. Before any response
/// began, it goes nowhere.
pub open spec fn passed_on(d: ChannelDelegate, data: Seq<u8>, e: ChannelDelegate) -> bool {
    e.resolve == d.resolve && match (d.response_chunk_tx, e.response_chunk_tx) {
        (Some(before), Some(after)) => chunk_put(before, data, after),
        (None, None) => true,
        _ => false,
    }
}

/// Nothing that a response has to do with changed.
pub open spec fn response_kept(d: ChannelDelegate, e: ChannelDelegate) -> bool {
    e.resolve == d.resolve && e.response_chunk_tx == d.response_chunk_tx
}

impl ChannelDelegate {
    /// For a stream in the given state. The response is put into the given channel.
    pub fn new(state: StreamState, resolve: Outlet<StreamResponse>) -> (d: ChannelDelegate)
        ensures
            d.state == state,
            d.resolve == resolve,
            d.response_chunk_tx is None,
            d.told@ == Seq::<Told>::empty(),
    {
        ChannelDelegate { state, resolve, response_chunk_tx: None, told: Ghost(Seq::empty()) }
    }
}

impl RequestDelegate for ChannelDelegate {
    open spec fn in_state(&self) -> StreamState {
        self.state
    }

    open spec fn told(&self) -> Seq<Told> {
        self.told@
    }

    fn started(&mut self, stream_id: StreamId)
        ensures
            response_kept(*old(self), *final(self)),
    {
        self.told = Ghost(self.told@.push(Told::Started(stream_id)));
    }

    fn new_data_chunk(&mut self, data: &[u8])
        ensures
            passed_on(*old(self), data@, *final(self)),
    {
        self.told = Ghost(self.told@.push(Told::Data(data@)));
        match self.response_chunk_tx.take() {
            Some(tx) => {
                let ghost before = tx;
                let mut tx = tx;
                let ok = tx.put(slice_to_vec(data));
                assert(put_bytes(before, data@, ok, tx));
                assert(chunk_put(before, data@, tx));
                self.response_chunk_tx = Some(tx);
            },
            None => {},
        }
    }

    fn set_headers(&mut self, headers: Vec<Header>)
        ensures
            began(*old(self), *final(self)),
    {
        self.told = Ghost(self.told@.push(Told::Headers(headers_of(headers@))));
        let (tx, rx) = pipe();
        self.response_chunk_tx = Some(tx);
        let ok = self.resolve.put(StreamResponse { stream: rx, leftover: None });
        assert(fresh_pipe(tx, rx) && put_once(
            old(self).resolve,
            starting(rx),
            ok,
            self.resolve,
        ));
        assert(resolved(old(self).resolve, tx, self.resolve));
    }

    fn set_state(&mut self, state: StreamState)
        ensures
            response_kept(*old(self), *final(self)),
    {
        self.state = state;
        self.told = Ghost(self.told@.push(Told::State(state)));
    }

    fn get_data_chunk(&mut self, buf: &mut [u8]) -> (r: Result<StreamDataChunk, StreamDataError>)
        ensures
            gave_body(old(self).state, old(buf)@, r, final(buf)@, final(self).state),
            response_kept(*old(self), *final(self)),
    {
        if buf.len() < BODY_LEN {
            self.told = Ghost(self.told@.push(Told::Asked(None)));
            return Ok(StreamDataChunk::Unavailable);
        }
        write_body(buf);
        self.state = close_local(self.state);
        self.told = Ghost(self.told@.push(Told::Asked(Some((buf@.take(BODY_LEN as int), true)))));
        Ok(StreamDataChunk::Last(BODY_LEN))
    }

    fn state(&self) -> StreamState {
        self.state
    }
}

/// Hands over the handle of a connection once there is one.
#[verifier::reject_recursive_types(M)]
pub struct ChannelReady<M> {
    pub resolve: Outlet<Option<ConnectionHandle<M>>>,
}

impl<M> OnConnectionReady<M> for ChannelReady<M> {
    fn connection_ready(&mut self, handle: ConnectionHandle<M>) -> (r: Result<(), ()>)
        ensures
            put_once(old(self).resolve, Some(handle), r is Ok, final(self).resolve),
    {
        let ok = self.resolve.put(Some(handle));
        if ok {
            Ok(())
        } else {
            Err(())
        }
    }
}

} // verus!
