//! HTTP/2, at the end of the client.
use vstd::prelude::*;
use vstd::slice::{slice_subrange, slice_to_vec};
use solicit::http::client::write_preface;
use solicit::http::connection::SendFrame;
use solicit::http::frame::RawFrame;
use solicit::http::{Header, HttpResult, HttpScheme, StreamId};
use crate::delegate::{
    closed_local, header_of, headers_of, hears, BoxStream, Delegate, Headers, Told,
};
use crate::evtloop::{ConnectionHandle, ConnectionRef, Envelope, Message, Protocol, Token};
use crate::frames::{bytes_of_each, frames, raw_bytes, rest, SendDirect, WrappedReceive};
use crate::session::{
    encoded, fresh, handed, is_headers_frame, let_go, received, replies_to, sent_data, takes,
    RequestStream, Session, SessionView,
};
use crate::text::{bytes, bytes_of};

pub use crate::delegate::RequestDelegate;
pub use crate::stream::{ProtoStream, Stream};

verus! {

/// What can be asked of a connection that speaks HTTP/2.
pub enum HttpMsg {
    /// Send a request. The delegate handles the response, and provides the body of the request.
    NewStream(Delegate),
}

/// Sends frames by way of messages to the connection, for those who do not have the connection
/// at hand. The view is what is to be sent to the event loop, in order.
pub struct SendLongWay {
    handle: ConnectionHandle<HttpMsg>,
    posts: Vec<Envelope<HttpMsg>>,
}

impl View for SendLongWay {
    type V = Seq<Envelope<HttpMsg>>;

    closed spec fn view(&self) -> Seq<Envelope<HttpMsg>> {
        self.posts@
    }
}

impl SendLongWay {
    /// The token of the connection.
    pub closed spec fn to(&self) -> Token {
        self.handle@
    }

    /// For the connection with the given handle, with nothing sent.
    pub fn new(handle: ConnectionHandle<HttpMsg>) -> (s: SendLongWay)
        ensures
            s@ == Seq::<Envelope<HttpMsg>>::empty(),
            s.to() == handle@,
    {
        SendLongWay { handle, posts: Vec::new() }
    }

    /// What is to be sent to the event loop.
    pub fn into_posts(self) -> (p: Vec<Envelope<HttpMsg>>)
        ensures
            p@ == self@,
    {
        self.posts
    }
}

impl SendFrame for SendLongWay {
    fn send_raw_frame(&mut self, frame: RawFrame) -> (r: HttpResult<()>)
        ensures
            r is Ok,
            final(self).to() == old(self).to(),
            final(self)@.len() == old(self)@.len() + 1,
            final(self)@.drop_last() == old(self)@,
            final(self)@.last().0 == old(self).to(),
            final(self)@.last().1 matches Message::QueueFrame(bytes) && bytes@ == raw_bytes(frame),
    {
        let post = self.handle.notify(Message::QueueFrame(frame.serialize()));
        self.posts.push(post);
        assert(self@.drop_last() =~= old(self)@);
        Ok(())
    }
}

/// What a client sends before anything else: the words that no other protocol begins with, and
/// its settings, which are that nothing may be pushed to it.
pub open spec fn client_preface() -> Seq<u8> {
    seq![
        // PRI * HTTP/2.0
        0x50u8, 0x52, 0x49, 0x20, 0x2a, 0x20, 0x48, 0x54, 0x54, 0x50, 0x2f, 0x32, 0x2e, 0x30,
        0x0d, 0x0a, 0x0d, 0x0a,
        // SM
        0x53, 0x4d, 0x0d, 0x0a, 0x0d, 0x0a,
        // A SETTINGS frame with one setting.
        0, 0, 6, 4, 0, 0, 0, 0, 0, 0, 2, 0, 0, 0, 0,
    ]
}

/// `write_preface`: writes the preface of a client. Writing into memory does not fail.
#[verifier::external_body]
fn preface() -> (b: Vec<u8>)
    ensures
        b@ == client_preface(),
{
    let mut buf = Vec::new();
    write_preface(&mut buf).unwrap();
    buf
}

/// `HttpScheme::as_bytes`: the name of the scheme.
#[verifier::external_body]
fn scheme_bytes(scheme: HttpScheme) -> (b: Vec<u8>)
    ensures
        b@ == bytes_of(
            match scheme {
                HttpScheme::Http => "http",
                HttpScheme::Https => "https",
            },
        ),
{
    scheme.as_bytes().to_vec()
}

/// The headers that every request begins with.
pub open spec fn pseudo_headers(method: Seq<u8>, path: Seq<u8>) -> Headers {
    seq![
        (bytes_of(":method"), method),
        (bytes_of(":path"), path),
        (bytes_of(":authority"), bytes_of("http2bin.org")),
        (bytes_of(":scheme"), bytes_of("http")),
    ]
}

/// What is sent in answer to the given frames, in order.
pub open spec fn all_replies(fs: Seq<Seq<u8>>) -> Seq<Seq<u8>>
    decreases fs.len(),
{
    if fs.len() == 0 {
        Seq::empty()
    } else {
        all_replies(fs.drop_last()) + replies_to(received(fs.last()))
    }
}

/// A session after it was handed the first `n` of the given frames, in order.
pub open spec fn after_frames(s: SessionView, fs: Seq<Seq<u8>>, n: int) -> SessionView
    decreases n,
{
    if n <= 0 {
        s
    } else {
        handed(after_frames(s, fs, n - 1), received(fs[n - 1]))
    }
}

/// The session takes the first `n` of the given frames.
pub open spec fn takes_first(s: SessionView, fs: Seq<Seq<u8>>, n: int) -> bool {
    forall|i: int| 0 <= i < n ==> takes(after_frames(s, fs, i), received(#[trigger] fs[i]))
}

/// The first of the given frames that the session does not take is the one at `k`.
pub open spec fn refuses_at(s: SessionView, fs: Seq<Seq<u8>>, k: int) -> bool {
    0 <= k < fs.len() && takes_first(s, fs, k) && !takes(after_frames(s, fs, k), received(fs[k]))
}

/// `buf` was handed to the session frame by frame. Where the session takes every frame, the
/// answer is how many bytes they are, and the session lets go of the streams that are closed
/// then; else the first frame that it does not take is the last that it is handed. `out` is what
/// is sent in answer.
pub open spec fn took_frames(
    before: SessionView,
    buf: Seq<u8>,
    out: Seq<Seq<u8>>,
    r: Result<usize, ()>,
    after: SessionView,
) -> bool {
    let fs = frames(buf);
    match r {
        Ok(n) => {
            &&& takes_first(before, fs, fs.len() as int)
            &&& n == buf.len() - rest(buf).len()
            &&& out == all_replies(fs)
            &&& after == let_go(after_frames(before, fs, fs.len() as int))
        },
        Err(_) => exists|k: int| #[trigger]
            refuses_at(before, fs, k) && out == all_replies(fs.take(k + 1)) && after
                == after_frames(before, fs, k + 1),
    }
}

/// What is to be sent before anything else, where that has not been done.
pub open spec fn greeting(init: bool) -> Seq<Seq<u8>> {
    if init {
        Seq::empty()
    } else {
        seq![client_preface()]
    }
}

/// The next stream can have that number: there is one for the stream after it, which is the next
/// odd number.
pub open spec fn has_next(id: StreamId) -> bool {
    id <= u32::MAX - 2
}

/// What the protocol amounts to: whether the preface has been sent, the session, and the number
/// of the next stream.
pub struct Http2View {
    pub init: bool,
    pub session: SessionView,
    pub next_stream_id: StreamId,
}

/// HTTP/2, at the end of the client.
pub struct Http2 {
    init: bool,
    session: Session,
    next_stream_id: StreamId,
}

impl View for Http2 {
    type V = Http2View;

    closed spec fn view(&self) -> Http2View {
        Http2View {
            init: self.init,
            session: self.session@,
            next_stream_id: self.next_stream_id,
        }
    }
}

/// Queues frames, in order.
fn queue_all(conn: &mut ConnectionRef<HttpMsg>, sent: Vec<Vec<u8>>)
    ensures
        final(conn)@ == old(conn)@ + bytes_of_each(sent@),
        final(conn).at() == old(conn).at(),
{
    let ghost before = conn@;
    let ghost all = sent@;
    let mut i: usize = 0;
    while i < sent.len()
        invariant
            i <= sent@.len(),
            sent@ == all,
            conn@ == before + bytes_of_each(all).take(i as int),
            conn.at() == old(conn).at(),
        decreases sent@.len() - i,
    {
        conn.queue_frame(slice_to_vec(sent[i].as_slice()));
        i += 1;
        assert(conn@ =~= before + bytes_of_each(all).take(i as int));
    }
    assert(bytes_of_each(all).take(i as int) =~= bytes_of_each(all));
}

impl Http2 {
    /// Makes a request of its parts. It is for the next stream, whose number is not used up before
    /// the request is started.
    pub fn new_stream(
        &mut self,
        method: &[u8],
        path: &[u8],
        extras: &[Header],
        _body: Option<Vec<u8>>,
        delegate: Delegate,
    ) -> (req: RequestStream)
        ensures
            final(self)@ == old(self)@,
            headers_of(req.headers@) == pseudo_headers(method@, path@) + headers_of(extras@),
            req.stream.spec_id() == old(self)@.next_stream_id,
            req.stream@ == delegate@,
    {
        let mut headers: Vec<Header> = Vec::new();
        headers.push((bytes(":method"), slice_to_vec(method)));
        headers.push((bytes(":path"), slice_to_vec(path)));
        headers.push((bytes(":authority"), bytes("http2bin.org")));
        headers.push((bytes(":scheme"), scheme_bytes(self.session.scheme())));
        let ghost pseudo = pseudo_headers(method@, path@);
        assert(headers_of(headers@) =~= pseudo + headers_of(extras@).take(0));
        let mut i: usize = 0;
        while i < extras.len()
            invariant
                i <= extras@.len(),
                headers_of(headers@) == pseudo + headers_of(extras@).take(i as int),
            decreases extras@.len() - i,
        {
            let ghost before = headers@;
            headers.push(
                (slice_to_vec(extras[i].0.as_slice()), slice_to_vec(extras[i].1.as_slice())),
            );
            i += 1;
            assert(headers_of(headers@) =~= headers_of(before).push(header_of(extras@[i - 1])));
            assert(headers_of(headers@) =~= pseudo + headers_of(extras@).take(i as int));
        }
        assert(headers_of(extras@).take(i as int) =~= headers_of(extras@));
        RequestStream {
            headers,
            stream: BoxStream::with_delegate(self.next_stream_id, delegate),
        }
    }

    /// Sends the preface, if that has not been done.
    fn greet(&mut self, conn: &mut ConnectionRef<HttpMsg>)
        ensures
            final(conn)@ == old(conn)@ + greeting(old(self)@.init),
            final(self)@ == (Http2View { init: true, ..old(self)@ }),
    {
        if !self.init {
            conn.queue_frame(preface());
            self.init = true;
            assert(conn@ =~= old(conn)@ + greeting(false));
        } else {
            assert(conn@ =~= old(conn)@ + greeting(true));
        }
    }
}

impl Protocol for Http2 {
    type Message = HttpMsg;

    open spec fn opened(token: Token, p: Http2) -> bool {
        p@ == (Http2View { init: false, session: fresh(), next_stream_id: 1 })
    }

    open spec fn took_data(
        pre: Http2,
        token: Token,
        buf: Seq<u8>,
        post: Http2,
        frames: Seq<Seq<u8>>,
        r: Result<usize, ()>,
    ) -> bool {
        &&& post@.init == pre@.init
        &&& post@.next_stream_id == pre@.next_stream_id
        &&& took_frames(pre@.session, buf, frames, r, post@.session)
    }

    open spec fn took_turn(pre: Http2, token: Token, post: Http2, frames: Seq<Seq<u8>>) -> bool {
        if !pre@.init {
            post@ == (Http2View { init: true, ..pre@ }) && frames == greeting(false)
        } else {
            &&& post@ == (Http2View { session: post@.session, ..pre@ })
            &&& sent_data(pre@.session, post@.session, frames)
        }
    }

    open spec fn took_message(
        pre: Http2,
        token: Token,
        msg: HttpMsg,
        post: Http2,
        frames: Seq<Seq<u8>>,
        r: Result<(), ()>,
    ) -> bool {
        let HttpMsg::NewStream(delegate) = msg;
        let id = pre@.next_stream_id;
        let end = closed_local(delegate@.state);
        let headers = pseudo_headers(bytes_of("POST"), bytes_of("/post"));
        if has_next(id) {
            &&& r is Ok
            &&& post@ == (Http2View {
                init: true,
                session: SessionView {
                    streams: pre@.session.streams.insert(id, hears(delegate@, Told::Started(id))),
                    lists: pre@.session.lists.push(headers),
                    ..pre@.session
                },
                next_stream_id: (id + 2) as StreamId,
            })
            &&& frames.len() == greeting(pre@.init).len() + 1
            &&& frames.drop_last() == greeting(pre@.init)
            &&& is_headers_frame(frames.last(), id, encoded(post@.session.lists), end)
        } else {
            &&& r is Err
            &&& post@ == (Http2View { init: true, ..pre@ })
            &&& frames == greeting(pre@.init)
        }
    }

    fn new(_conn: ConnectionHandle<HttpMsg>) -> Http2 {
        Http2 {
            init: false,
            session: Session::new(SendDirect::new(), WrappedReceive::none()),
            next_stream_id: 1,
        }
    }

    fn on_data(&mut self, buf: &[u8], conn: &mut ConnectionRef<HttpMsg>) -> Result<usize, ()> {
        let mut total_consumed: usize = 0;
        let ghost fs = frames(buf@);
        // The frames that the session has taken.
        let ghost mut done: Seq<Seq<u8>> = Seq::empty();
        assert(buf@.skip(0) =~= buf@);
        assert(fs =~= done + frames(buf@.skip(0)));
        loop
            invariant
                total_consumed <= buf@.len(),
                fs == frames(buf@),
                fs == done + frames(buf@.skip(total_consumed as int)),
                rest(buf@) == rest(buf@.skip(total_consumed as int)),
                takes_first(old(self)@.session, fs, done.len() as int),
                self@ == (Http2View {
                    session: after_frames(old(self)@.session, fs, done.len() as int),
                    ..old(self)@
                }),
                conn@ == all_replies(done),
            decreases buf@.len() - total_consumed,
        {
            let left = slice_subrange(buf, total_consumed, buf.len());
            assert(left@ =~= buf@.skip(total_consumed as int));
            match WrappedReceive::parse(left) {
                None => {
                    // No frame available yet. Nothing more is consumed, until there is more.
                    self.session.drop_closed();
                    assert(fs =~= done);
                    return Ok(total_consumed);
                },
                Some(receiver) => {
                    let len = receiver.len();
                    let ghost f = left@.take(len as int);
                    let ghost k = done.len() as int;
                    let (taken, sent) = self.session.take(receiver);
                    queue_all(conn, sent);
                    proof {
                        assert(left@.skip(len as int) =~= buf@.skip(total_consumed + len));
                        assert(fs =~= done.push(f) + frames(buf@.skip(total_consumed + len)));
                        assert(done.push(f).drop_last() =~= done);
                        assert(fs[k] == f);
                        assert(fs.take(k + 1) =~= done.push(f));
                    }
                    if !taken {
                        assert(refuses_at(old(self)@.session, fs, k));
                        return Err(());
                    }
                    total_consumed = total_consumed + len;
                    proof {
                        done = done.push(f);
                    }
                },
            }
        }
    }

    fn ready_write(&mut self, conn: &mut ConnectionRef<HttpMsg>) {
        if !self.init {
            self.greet(conn);
        } else {
            let sent = self.session.next_data();
            queue_all(conn, sent);
            assert(conn@ =~= bytes_of_each(sent@));
        }
    }

    fn notify(&mut self, msg: HttpMsg, conn: &mut ConnectionRef<HttpMsg>) -> Result<(), ()> {
        self.greet(conn);
        match msg {
            HttpMsg::NewStream(delegate) => {
                if self.next_stream_id > u32::MAX - 2 {
                    return Err(());
                }
                let extras: Vec<Header> = Vec::new();
                let method = bytes("POST");
                let path = bytes("/post");
                let body = bytes("Hello, World!");
                let req = self.new_stream(
                    method.as_slice(),
                    path.as_slice(),
                    extras.as_slice(),
                    Some(body),
                    delegate,
                );
                assert(headers_of(req.headers@) =~= pseudo_headers(method@, path@));
                let sent = self.session.start_request(req);
                // The number is used up once the request is on its way.
                self.next_stream_id = self.next_stream_id + 2;
                queue_all(conn, sent);
                assert(conn@.drop_last() =~= greeting(old(self)@.init));
                assert(conn@.last() == sent@[0]@);
                Ok(())
            },
        }
    }
}

} // verus!
