//! Delegates: who handles the response to a request, and provides its body.
use vstd::prelude::*;
use solicit::http::session::{Stream, StreamDataChunk, StreamDataError, StreamState};
use solicit::http::{Header, StreamId};

verus! {

/// [`solicit::http::session::StreamState`], with its variants as they are.
#[verifier::external_type_specification]
pub struct ExStreamState(StreamState);

/// [`solicit::http::session::StreamDataChunk`], with its variants as they are.
#[verifier::external_type_specification]
pub struct ExStreamDataChunk(StreamDataChunk);

/// [`solicit::http::session::StreamDataError`], of which nothing is visible.
#[verifier::external_type_specification]
#[verifier::external_body]
pub struct ExStreamDataError(StreamDataError);

/// No more data goes out on a stream in this state.
pub open spec fn closed_local(state: StreamState) -> bool {
    state is HalfClosedLocal || state is Closed
}

/// The state of a stream on which no more data goes out from now on.
pub open spec fn local_end_closed(state: StreamState) -> StreamState {
    if state is HalfClosedRemote {
        StreamState::Closed
    } else {
        StreamState::HalfClosedLocal
    }
}

/// Whether no more data goes out on a stream in this state.
pub fn is_closed_local(state: StreamState) -> (b: bool)
    ensures
        b == closed_local(state),
{
    match state {
        StreamState::HalfClosedLocal => true,
        StreamState::Closed => true,
        _ => false,
    }
}

/// The state of a stream on which no more data goes out from now on.
pub fn close_local(state: StreamState) -> (s: StreamState)
    ensures
        s == local_end_closed(state),
{
    match state {
        StreamState::HalfClosedRemote => StreamState::Closed,
        _ => StreamState::HalfClosedLocal,
    }
}

/// What a chunk of data announces fits into a buffer with room for `room` bytes.
pub open spec fn chunk_fits(chunk: Result<StreamDataChunk, StreamDataError>, room: nat) -> bool {
    match chunk {
        Ok(StreamDataChunk::Chunk(n)) => n <= room,
        Ok(StreamDataChunk::Last(n)) => n <= room,
        _ => true,
    }
}

/// The data that a chunk announces, which is at the front of `buf`, and whether it is the last
/// of the stream. There may be none.
pub open spec fn given(
    chunk: Result<StreamDataChunk, StreamDataError>,
    buf: Seq<u8>,
) -> Option<(Seq<u8>, bool)> {
    match chunk {
        Ok(StreamDataChunk::Chunk(n)) => Some((buf.take(n as int), false)),
        Ok(StreamDataChunk::Last(n)) => Some((buf.take(n as int), true)),
        _ => None,
    }
}

/// Headers: their names and values, in order.
pub type Headers = Seq<(Seq<u8>, Seq<u8>)>;

/// A header as it is: its name and its value.
pub open spec fn header_of(h: Header) -> (Seq<u8>, Seq<u8>) {
    (h.0@, h.1@)
}

/// Headers as they are.
pub open spec fn headers_of(headers: Seq<Header>) -> Headers {
    Seq::new(headers.len(), |i: int| header_of(headers[i]))
}

/// One thing that a delegate was told or asked.
pub enum Told {
    /// Its request was sent, on that stream.
    Started(StreamId),
    /// That data has arrived.
    Data(Seq<u8>),
    /// Those headers have arrived.
    Headers(Headers),
    /// The stream is in that state.
    State(StreamState),
    /// It was asked for data, and gave that; the flag says whether it was the last.
    Asked(Option<(Seq<u8>, bool)>),
}

/// Handles the response to a request, and provides the body of the request.
pub trait RequestDelegate: Send {
    /// The state that the stream of the request is in.
    spec fn in_state(&self) -> StreamState;

    /// Everything that the delegate was told or asked, in order.
    spec fn told(&self) -> Seq<Told>;

    /// The request was sent, on the given stream.
    fn started(&mut self, stream_id: StreamId)
        ensures
            final(self).in_state() == old(self).in_state(),
            final(self).told() == old(self).told().push(Told::Started(stream_id)),
    ;

    /// Data has arrived.
    fn new_data_chunk(&mut self, data: &[u8])
        ensures
            final(self).in_state() == old(self).in_state(),
            final(self).told() == old(self).told().push(Told::Data(data@)),
    ;

    /// The headers of the response have arrived.
    fn set_headers(&mut self, headers: Vec<Header>)
        ensures
            final(self).in_state() == old(self).in_state(),
            final(self).told() == old(self).told().push(Told::Headers(headers_of(headers@))),
    ;

    /// The stream is in a new state.
    fn set_state(&mut self, state: StreamState)
        ensures
            final(self).in_state() == state,
            final(self).told() == old(self).told().push(Told::State(state)),
    ;

    /// Places the next chunk of the body into `buf`, and says how long it is.
    fn get_data_chunk(&mut self, buf: &mut [u8]) -> (r: Result<StreamDataChunk, StreamDataError>)
        ensures
            final(buf)@.len() == old(buf)@.len(),
            chunk_fits(r, old(buf)@.len()),
            final(self).told() == old(self).told().push(Told::Asked(given(r, final(buf)@))),
    ;

    /// The state that the stream is in.
    fn state(&self) -> (s: StreamState)
        ensures
            s == self.in_state(),
    ;
}

/// A delegate that takes no notice of anything and provides nothing.
struct Discard {
    state: StreamState,
    told: Ghost<Seq<Told>>,
}

impl RequestDelegate for Discard {
    closed spec fn in_state(&self) -> StreamState {
        self.state
    }

    closed spec fn told(&self) -> Seq<Told> {
        self.told@
    }

    fn started(&mut self, stream_id: StreamId) {
        self.told = Ghost(self.told@.push(Told::Started(stream_id)));
    }

    fn new_data_chunk(&mut self, data: &[u8]) {
        self.told = Ghost(self.told@.push(Told::Data(data@)));
    }

    fn set_headers(&mut self, headers: Vec<Header>) {
        self.told = Ghost(self.told@.push(Told::Headers(headers_of(headers@))));
    }

    fn set_state(&mut self, state: StreamState) {
        self.state = state;
        self.told = Ghost(self.told@.push(Told::State(state)));
    }

    fn get_data_chunk(&mut self, _buf: &mut [u8]) -> (r: Result<StreamDataChunk, StreamDataError>) {
        self.told = Ghost(self.told@.push(Told::Asked(None)));
        Ok(StreamDataChunk::Unavailable)
    }

    fn state(&self) -> StreamState {
        self.state
    }
}

/// What a stream amounts to: its state, and everything that its delegate was told.
pub struct StreamView {
    pub state: StreamState,
    pub told: Seq<Told>,
}

/// A stream whose delegate was told one thing more.
pub open spec fn hears(s: StreamView, t: Told) -> StreamView {
    StreamView { told: s.told.push(t), ..s }
}

/// A stream whose delegate was told the state that the stream is in from now on.
pub open spec fn enters(s: StreamView, state: StreamState) -> StreamView {
    StreamView { state, told: s.told.push(Told::State(state)) }
}

/// Holds a value as it is. A boxed delegate that goes through it is the same afterwards; one that
/// is moved into a field of its own type is coerced on the way, and then nothing is known of it.
struct Held<T> {
    value: T,
}

impl<T> Held<T> {
    /// Holds the given value.
    fn new(value: T) -> (h: Held<T>)
        ensures
            h.value == value,
    {
        Held { value }
    }
}

/// A delegate of whatever type, on the heap.
pub struct Delegate {
    inner: Held<Box<dyn RequestDelegate>>,
}

impl View for Delegate {
    type V = StreamView;

    closed spec fn view(&self) -> StreamView {
        StreamView { state: (*self.inner.value).in_state(), told: (*self.inner.value).told() }
    }
}

impl Delegate {
    /// Takes over a delegate.
    pub fn new(inner: Box<dyn RequestDelegate>) -> (d: Delegate)
        ensures
            d@ == (StreamView { state: (*inner).in_state(), told: (*inner).told() }),
    {
        let inner = Held::new(inner);
        Delegate { inner }
    }

    /// The state that the stream of the delegate is in.
    pub fn state(&self) -> (s: StreamState)
        ensures
            s == self@.state,
    {
        self.inner.value.state()
    }
}

/// A stream of the session, which passes everything on to a delegate.
pub struct BoxStream {
    stream_id: StreamId,
    delegate: Delegate,
}

impl View for BoxStream {
    type V = StreamView;

    closed spec fn view(&self) -> StreamView {
        self.delegate@
    }
}

impl BoxStream {
    /// The number of the stream.
    pub closed spec fn spec_id(&self) -> StreamId {
        self.stream_id
    }

    /// The stream with the given number and delegate.
    pub fn with_delegate(stream_id: StreamId, delegate: Delegate) -> (s: BoxStream)
        ensures
            s.spec_id() == stream_id,
            s@ == delegate@,
    {
        BoxStream { stream_id, delegate }
    }

    /// Tells the delegate that its request was sent.
    pub fn started(&mut self)
        ensures
            final(self).spec_id() == old(self).spec_id(),
            final(self)@ == hears(old(self)@, Told::Started(old(self).spec_id())),
    {
        self.delegate.inner.value.started(self.stream_id);
    }

    /// Whether no more data goes out on the stream.
    pub fn closed_local(&self) -> (b: bool)
        ensures
            b == closed_local(self@.state),
    {
        is_closed_local(self.delegate.state())
    }
}

impl Stream for BoxStream {
    fn new(stream_id: StreamId) -> (s: BoxStream)
        ensures
            s.spec_id() == stream_id,
            s@ == (StreamView { state: StreamState::Open, told: Seq::empty() }),
    {
        let discard = Discard { state: StreamState::Open, told: Ghost(Seq::empty()) };
        BoxStream { stream_id, delegate: Delegate::new(Box::new(discard)) }
    }

    fn new_data_chunk(&mut self, data: &[u8])
        ensures
            final(self).spec_id() == old(self).spec_id(),
            final(self)@ == hears(old(self)@, Told::Data(data@)),
    {
        self.delegate.inner.value.new_data_chunk(data)
    }

    fn set_headers(&mut self, headers: Vec<Header>)
        ensures
            final(self).spec_id() == old(self).spec_id(),
            final(self)@ == hears(old(self)@, Told::Headers(headers_of(headers@))),
    {
        self.delegate.inner.value.set_headers(headers)
    }

    fn set_state(&mut self, state: StreamState)
        ensures
            final(self).spec_id() == old(self).spec_id(),
            final(self)@ == enters(old(self)@, state),
    {
        self.delegate.inner.value.set_state(state)
    }

    fn get_data_chunk(&mut self, buf: &mut [u8]) -> (r: Result<StreamDataChunk, StreamDataError>)
        ensures
            final(self).spec_id() == old(self).spec_id(),
            final(buf)@.len() == old(buf)@.len(),
            chunk_fits(r, old(buf)@.len()),
            final(self)@.told == old(self)@.told.push(Told::Asked(given(r, final(buf)@))),
    {
        self.delegate.inner.value.get_data_chunk(buf)
    }

    fn id(&self) -> (id: StreamId)
        ensures
            id == self.spec_id(),
    {
        self.stream_id
    }

    fn state(&self) -> (s: StreamState)
        ensures
            s == self@.state,
    {
        self.delegate.state()
    }
}

} // verus!
