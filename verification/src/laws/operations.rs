//! What a call of each operation gives, on whatever it is called.
use vstd::prelude::*;
use vstd::string::*;
use solicit::http::frame::RawFrame;
use solicit::http::{Header, StreamId};
use crate::connection::{
    read_finished, tried, was_notified, was_read, wrote, Connection, ConnectionView, ReadError,
    ReadOutcome, Round, Step, WriteOutcome,
};
use crate::cursor::Cursor;
use crate::delegate::{headers_of, BoxStream, Delegate, StreamView, Told};
use crate::dispatcher::{added, Dispatched, Dispatcher};
use crate::evtloop::{
    left_of, ConnectionHandle, ConnectionRef, Envelope, Message, Protocol, Token, WorkItem,
};
use crate::frames::{bytes_of_each, raw_bytes, SendDirect, WrappedReceive};
use crate::h2::{took_frames, Http2, HttpMsg, SendLongWay};
use crate::header_block::{breaks_off_in_size, cut_in_size};
use crate::laws::connections::{turn_taken, writable_socket_is_written_to};
use crate::laws::frames::{block_inside, headers_have_their_block};
use crate::laws::framing::{part_of_a_frame_waits, whole_frame_is_found};
use crate::laws::protocol::{
    asked_once, first_headers, headed, near_end_closed, opening, request_goes_out,
    some_stream_asked, turn_is_for_the_streams,
};
use crate::session::{
    asked_for_data, encoded, handed, let_go, received, replies_to, requested, sent_data, takes,
    RequestStream, Session,
};
use crate::text::bytes;

verus! {

/// What a cursor copies out is the front of what it had, and it has the rest from then on: nothing
/// is lost, and as much goes over as there is of the one or room in the other. The rest of the
/// buffer is left alone.
pub proof fn cursor_loses_nothing(c: &mut Cursor, buf: &mut [u8], n: usize)
    requires
        call_ensures(Cursor::read, (c, buf), n),
    ensures
        n <= old(buf)@.len(),
        final(buf)@.len() == old(buf)@.len(),
        final(buf)@.take(n as int) + final(c)@ == old(c)@,
        final(buf)@.skip(n as int) == old(buf)@.skip(n as int),
        n < old(buf)@.len() ==> final(c)@.len() == 0,
{
    assert(final(buf)@.take(n as int) + final(c)@ =~= old(c)@);
    assert(final(buf)@.skip(n as int) =~= old(buf)@.skip(n as int));
}

/// A cursor begins with all of its data, says what is left of it, and has less by what it is moved
/// over.
pub proof fn cursor_says_what_is_left(
    data: Vec<u8>,
    made: Cursor,
    c: Cursor,
    len: usize,
    b: &[u8],
    moved: &mut Cursor,
    n: usize,
)
    ensures
        call_ensures(Cursor::new, (data,), made) ==> made@ == data@,
        call_ensures(Cursor::remaining, (&c,), len) ==> len == c@.len(),
        call_ensures(Cursor::bytes, (&c,), b) ==> b@ == c@,
        n <= old(moved)@.len() && call_ensures(Cursor::advance, (moved, n), ()) ==> old(
            moved,
        )@.take(n as int) + final(moved)@ == old(moved)@,
{
    if n <= old(moved)@.len() && call_ensures(Cursor::advance, (moved, n), ()) {
        assert(old(moved)@.take(n as int) + final(moved)@ =~= old(moved)@);
    }
}

/// A text that is nothing but ASCII has one byte for each of its characters; and the bytes of any
/// text are what its UTF-8 is.
pub proof fn text_is_its_bytes(text: &str, b: Vec<u8>)
    requires
        call_ensures(bytes, (text,), b),
    ensures
        b@ == text.spec_bytes(),
        text.is_ascii() ==> b@.len() == text@.len() && forall|i: int|
            0 <= i < text@.len() ==> #[trigger] b@[i] == text@[i] as u8,
{
    is_ascii_spec_bytes(text);
}

/// A whole frame at the front of a buffer is parsed, whatever its length and whatever follows it;
/// as long as some of it is missing, there is nothing to parse.
pub proof fn whole_frames_are_parsed(
    buf: &[u8],
    r: Option<WrappedReceive>,
    header: Seq<u8>,
    carried: Seq<u8>,
    more: Seq<u8>,
)
    requires
        call_ensures(WrappedReceive::parse, (buf,), r),
        header.len() == 9,
        carried.len() == header[0] * 65536 + header[1] * 256 + header[2],
    ensures
        buf@ == header + carried + more ==> r is Some && (r->0)@ == Some(header + carried),
        buf@.len() < 9 || buf@.len() < 9 + buf@[0] * 65536 + buf@[1] * 256 + buf@[2] ==> r is None,
{
    if buf@ == header + carried + more {
        whole_frame_is_found(header, carried, more);
        assert(buf@.take((9 + carried.len()) as int) =~= header + carried);
    }
    if buf@.len() < 9 || buf@.len() < 9 + buf@[0] * 65536 + buf@[1] * 256 + buf@[2] {
        part_of_a_frame_waits(buf@);
    }
}

/// A frame on its way to the session is as long as its bytes, is those bytes, and can be decoded
/// without breaking off unless it carries headers that do.
pub proof fn parsed_frame_is_itself(
    w: WrappedReceive,
    n: usize,
    frame: Option<&RawFrame>,
    sound: bool,
    f: Seq<u8>,
)
    requires
        w@ == Some(f),
        f.len() >= 9,
    ensures
        call_ensures(WrappedReceive::len, (&w,), n) ==> n == f.len(),
        call_ensures(WrappedReceive::frame, (&w,), frame) ==> frame is Some && raw_bytes(
            *(frame->0),
        ) == f,
        call_ensures(WrappedReceive::is_sound, (&w,), sound) ==> sound == (f[3] == 1 ==> (
        block_inside(f) is Some && !cut_in_size(block_inside(f)->0))),
{
    headers_have_their_block(f);
}

/// Without a frame there is nothing to measure, to give or to decode.
pub proof fn no_frame_is_nothing(w: WrappedReceive, n: usize, frame: Option<&RawFrame>, sound: bool)
    requires
        call_ensures(WrappedReceive::none, (), w),
    ensures
        call_ensures(WrappedReceive::len, (&w,), n) ==> n == 0,
        call_ensures(WrappedReceive::frame, (&w,), frame) ==> frame is None,
        call_ensures(WrappedReceive::is_sound, (&w,), sound) ==> !sound,
{
}

/// What is said of a header block goes for its octets, all of them.
pub proof fn header_blocks_are_judged_whole(b: &[u8], cut: bool)
    requires
        call_ensures(breaks_off_in_size, (b,), cut),
    ensures
        cut == cut_in_size(b@),
{
}

/// The bytes of frames are the bytes of each, one for one and in order; and so is what is left of
/// them.
pub proof fn frames_one_for_one(sent: Seq<Vec<u8>>, left: Seq<Cursor>)
    ensures
        bytes_of_each(sent).len() == sent.len(),
        forall|i: int| 0 <= i < sent.len() ==> #[trigger] bytes_of_each(sent)[i] == sent[i]@,
        left_of(left).len() == left.len(),
        forall|i: int| 0 <= i < left.len() ==> #[trigger] left_of(left)[i] == left[i]@,
{
}

/// What the session sends is given out again, in order.
pub proof fn sent_frames_come_out(fresh: SendDirect, s: SendDirect, f: Vec<Vec<u8>>)
    ensures
        call_ensures(SendDirect::new, (), fresh) ==> fresh@.len() == 0,
        call_ensures(SendDirect::into_frames, (s,), f) ==> f@.len() == s@.len() && forall|i: int|
            0 <= i < s@.len() ==> (#[trigger] f@[i])@ == s@[i],
{
    if call_ensures(SendDirect::into_frames, (s,), f) {
        assert forall|i: int| 0 <= i < s@.len() implies (#[trigger] f@[i])@ == s@[i] by {
            assert(bytes_of_each(f@)[i] == f@[i]@);
        }
        assert(bytes_of_each(f@).len() == f@.len());
    }
}

/// Handing a frame to a session is what the session takes it for, and gives its answers.
pub proof fn session_takes_frames(
    s: &mut Session,
    w: WrappedReceive,
    r: (bool, Vec<Vec<u8>>),
)
    requires
        w@ is Some,
        call_ensures(Session::take, (s, w), r),
    ensures
        r.0 == takes(old(s)@, received(w@->0)),
        final(s)@ == handed(old(s)@, received(w@->0)),
        r.1@.len() == replies_to(received(w@->0)).len(),
        forall|i: int|
            0 <= i < r.1@.len() ==> (#[trigger] r.1@[i])@ == replies_to(received(w@->0))[i],
{
    assert(bytes_of_each(r.1@).len() == r.1@.len());
    assert forall|i: int| 0 <= i < r.1@.len() implies (#[trigger] r.1@[i])@ == replies_to(
        received(w@->0),
    )[i] by {
        assert(bytes_of_each(r.1@)[i] == r.1@[i]@);
    }
}

/// The other things that a session can be asked for.
pub proof fn session_serves_streams(
    s: &mut Session,
    req: RequestStream,
    sent: Vec<Vec<u8>>,
)
    ensures
        call_ensures(Session::drop_closed, (s,), ()) ==> final(s)@ == let_go(old(s)@),
        call_ensures(Session::next_data, (s,), sent) ==> sent_data(
            old(s)@,
            final(s)@,
            bytes_of_each(sent@),
        ),
        call_ensures(Session::start_request, (s, req), sent) ==> {
            &&& final(s)@ == requested(old(s)@, req)
            &&& sent@.len() == 1
            &&& headed(sent@[0]@, 1, req.stream.spec_id())
            &&& sent@[0]@.skip(9) == encoded(final(s)@.lists)
            &&& sent@[0]@[4] == if near_end_closed(req.stream@.state) {
                5int
            } else {
                4
            }
        },
{
}

/// A stream of the session passes on what it is told, keeps its number, and says how its delegate
/// stands.
pub proof fn streams_tell_their_delegates(
    id: StreamId,
    delegate: Delegate,
    made: BoxStream,
    s: &mut BoxStream,
    b: bool,
)
    ensures
        call_ensures(BoxStream::with_delegate, (id, delegate), made) ==> made.spec_id() == id
            && made@ == delegate@,
        call_ensures(BoxStream::started, (s,), ()) ==> final(s).spec_id() == old(s).spec_id()
            && final(s)@ == (StreamView {
            state: old(s)@.state,
            told: old(s)@.told.push(Told::Started(old(s).spec_id())),
        }),
        call_ensures(BoxStream::closed_local, (&made,), b) ==> b == near_end_closed(made@.state),
{
}

/// A request is made of its method, its path and whatever else it says, in this order and behind
/// what every request has; it is for the next stream and the given delegate. Nothing is used up.
pub proof fn requests_are_made_of_their_parts(
    p: &mut Http2,
    method: &[u8],
    path: &[u8],
    extras: &[Header],
    body: Option<Vec<u8>>,
    delegate: Delegate,
    req: RequestStream,
)
    requires
        call_ensures(Http2::new_stream, (p, method, path, extras, body, delegate), req),
    ensures
        final(p)@ == old(p)@,
        req.headers@.len() == 4 + extras@.len(),
        headers_of(req.headers@).take(4) == first_headers(method@, path@),
        forall|i: int|
            0 <= i < extras@.len() ==> (#[trigger] req.headers@[4 + i]).0@ == extras@[i].0@
                && req.headers@[4 + i].1@ == extras@[i].1@,
        req.stream.spec_id() == old(p)@.next_stream_id,
        req.stream@ == delegate@,
{
    let all = headers_of(req.headers@);
    assert(all.len() == req.headers@.len());
    assert(all.take(4) =~= first_headers(method@, path@));
    assert forall|i: int| 0 <= i < extras@.len() implies (#[trigger] req.headers@[4 + i]).0@
        == extras@[i].0@ && req.headers@[4 + i].1@ == extras@[i].1@ by {
        assert(all[4 + i] == headers_of(extras@)[i]);
    }
}

/// Whatever a protocol is asked, it does what it says that it may do.
pub proof fn protocols_keep_their_word<P: Protocol>(
    p: &mut P,
    conn: &mut ConnectionRef<P::Message>,
    buf: &[u8],
    consumed: Result<usize, ()>,
    msg: P::Message,
    answer: Result<(), ()>,
)
    requires
        old(conn)@.len() == 0,
    ensures
        call_ensures(P::on_data, (p, buf, conn), consumed) ==> P::took_data(
            *old(p),
            old(conn).at(),
            buf@,
            *final(p),
            final(conn)@,
            consumed,
        ),
        call_ensures(P::ready_write, (p, conn), ()) ==> P::took_turn(
            *old(p),
            old(conn).at(),
            *final(p),
            final(conn)@,
        ),
        call_ensures(P::notify, (p, msg, conn), answer) ==> P::took_message(
            *old(p),
            old(conn).at(),
            msg,
            *final(p),
            final(conn)@,
            answer,
        ),
{
}

/// A request that HTTP/2 is asked for goes out, as long as there are numbers for two more streams:
/// in one HEADERS frame on the next stream, behind the preface where that has not been sent.
pub proof fn every_request_goes_out(
    p: &mut Http2,
    delegate: Delegate,
    conn: &mut ConnectionRef<HttpMsg>,
    r: Result<(), ()>,
)
    requires
        old(conn)@.len() == 0,
        old(p)@.next_stream_id <= 4294967293,
        call_ensures(Http2::notify, (p, HttpMsg::NewStream(delegate), conn), r),
    ensures
        r is Ok,
        final(p)@.next_stream_id == old(p)@.next_stream_id + 2,
        final(p)@.session.streams.contains_key(old(p)@.next_stream_id),
        final(conn)@.len() == if old(p)@.init {
            1nat
        } else {
            2
        },
        !old(p)@.init ==> final(conn)@[0] == opening(),
        headed(final(conn)@.last(), 1, old(p)@.next_stream_id),
{
    request_goes_out(*old(p), old(conn).at(), delegate, *final(p), final(conn)@, r);
}

/// Once the preface has been sent, HTTP/2 asks for data whenever it may write and data can go out
/// on some stream: such a stream is asked, whichever it is and however many there were before. If
/// nothing goes out in the end, all such streams were asked, unless one of them failed.
pub proof fn every_turn_asks_open_streams(
    p: &mut Http2,
    conn: &mut ConnectionRef<HttpMsg>,
    open: StreamId,
)
    requires
        old(conn)@.len() == 0,
        old(p)@.init,
        old(p)@.session.streams.contains_key(open),
        !near_end_closed(old(p)@.session.streams[open].state),
        call_ensures(Http2::ready_write, (p, conn), ()),
    ensures
        final(p)@.init,
        final(p)@.next_stream_id == old(p)@.next_stream_id,
        final(p)@.session.streams.contains_key(open),
        final(conn)@.len() <= 1,
        some_stream_asked(old(p)@.session, final(p)@.session),
        final(conn)@.len() == 0 ==> asked_for_data(old(p)@.session, 8192, false) || asked_once(
            old(p)@.session.streams[open],
            final(p)@.session.streams[open],
            None,
        ),
{
    turn_is_for_the_streams(*old(p), old(conn).at(), *final(p), final(conn)@);
    assert(final(p)@.session.streams.dom().contains(open));
}

/// What comes in to HTTP/2 is for its session, frame by frame.
pub proof fn everything_read_is_for_the_session(
    p: &mut Http2,
    buf: &[u8],
    conn: &mut ConnectionRef<HttpMsg>,
    r: Result<usize, ()>,
)
    requires
        old(conn)@.len() == 0,
        call_ensures(Http2::on_data, (p, buf, conn), r),
    ensures
        final(p)@.init == old(p)@.init,
        final(p)@.next_stream_id == old(p)@.next_stream_id,
        took_frames(old(p)@.session, buf@, final(conn)@, r, final(p)@.session),
{
}

/// Nothing was sent the long way by something new, and what was sent comes out as it is.
pub proof fn posts_come_out(
    handle: ConnectionHandle<HttpMsg>,
    made: SendLongWay,
    s: SendLongWay,
    posts: Vec<Envelope<HttpMsg>>,
)
    ensures
        call_ensures(SendLongWay::new, (handle,), made) ==> made@.len() == 0 && made.to()
            == handle@,
        call_ensures(SendLongWay::into_posts, (s,), posts) ==> posts@ == s@,
{
}

/// A handle leads to the connection that it was made for, and so does what is sent by way of it.
pub proof fn handles_lead_to_their_connection<M>(
    token: Token,
    made: ConnectionHandle<M>,
    h: ConnectionHandle<M>,
    t: Token,
    msg: Message<M>,
    e: Envelope<M>,
)
    ensures
        call_ensures(ConnectionHandle::<M>::new, (token,), made) ==> made@ == token,
        call_ensures(ConnectionHandle::<M>::token, (&h,), t) ==> t == h@,
        call_ensures(ConnectionHandle::<M>::notify, (&h, msg), e) ==> e.0 == h@ && e.1 == msg,
{
}

/// What a protocol queues is queued behind what it queued before, in both ways of queueing, and
/// comes out in that order.
pub proof fn queued_in_order<M>(
    handle: ConnectionHandle<M>,
    made: ConnectionRef<M>,
    c: &mut ConnectionRef<M>,
    frame: Vec<u8>,
    q: Vec<Cursor>,
    h: ConnectionHandle<M>,
)
    ensures
        call_ensures(ConnectionRef::<M>::new, (handle,), made) ==> made@.len() == 0 && made.at()
            == handle@,
        call_ensures(ConnectionRef::<M>::queue_frame, (c, frame), ()) || call_ensures(
            ConnectionRef::<M>::write_frame,
            (c, frame),
            (),
        ) ==> final(c)@ == old(c)@ + seq![frame@] && final(c).at() == old(c).at(),
        call_ensures(ConnectionRef::<M>::into_queued, (made,), q) ==> q@.len() == made@.len()
            && forall|i: int| 0 <= i < q@.len() ==> (#[trigger] q@[i])@ == made@[i],
        call_ensures(ConnectionRef::<M>::handle, (&made,), h) ==> h@ == made.at(),
{
    assert(old(c)@.push(frame@) =~= old(c)@ + seq![frame@]);
    if call_ensures(ConnectionRef::<M>::into_queued, (made,), q) {
        assert forall|i: int| 0 <= i < q@.len() implies (#[trigger] q@[i])@ == made@[i] by {
            assert(left_of(q@)[i] == q@[i]@);
        }
        assert(left_of(q@).len() == q@.len());
    }
}

/// A socket that is ready to be read from is read from first. One that is only ready to be written
/// to is written to at once where anything waits, however much that is, and where nothing waits,
/// the protocol is asked. One that is ready for neither is left alone.
pub proof fn ready_sockets_are_served<P: Protocol, S>(
    c: &mut Connection<P, S>,
    readable: bool,
    writable: bool,
    step: Step,
)
    requires
        call_ensures(Connection::<P, S>::ready, (c, readable, writable), step),
    ensures
        readable ==> step == Step::Read(writable) && final(c)@ == old(c)@,
        !readable && !writable ==> step == Step::Done && final(c)@ == old(c)@,
        !readable && writable && old(c)@.backlog.len() > 0 ==> step == Step::Write(Round::First)
            && final(c)@.writable && final(c)@.backlog == old(c)@.backlog && final(c)@.protocol
            == old(c)@.protocol && final(c)@.buf == old(c)@.buf,
        !readable && writable && old(c)@.backlog.len() == 0 ==> turn_taken(
            ConnectionView { writable: true, ..old(c)@ },
            final(c)@,
            step,
        ),
{
    if !readable && writable {
        writable_socket_is_written_to(old(c)@, final(c)@, step);
    }
}

/// A new connection is blank, says what it holds, and offers the first frame that waits.
pub proof fn connections_say_what_they_hold<P: Protocol, S>(
    token: Token,
    stream: S,
    proto: P,
    made: Connection<P, S>,
    c: Connection<P, S>,
    b: Option<&[u8]>,
    s: &S,
    p: &P,
)
    ensures
        call_ensures(Connection::<P, S>::new, (token, stream, proto), made) ==> {
            &&& made@.token == token
            &&& made@.stream == stream
            &&& made@.protocol == proto
            &&& made@.backlog.len() == 0
            &&& made@.buf.len() == 0
            &&& !made@.writable
        },
        call_ensures(Connection::<P, S>::pending, (&c,), b) ==> (b is Some <==> c@.backlog.len()
            > 0) && (b is Some ==> (b->0)@ == c@.backlog[0]),
        call_ensures(Connection::<P, S>::stream, (&c,), s) ==> *s == c@.stream,
        call_ensures(Connection::<P, S>::protocol, (&c,), p) ==> *p == c@.protocol,
{
}

/// The socket that a connection gives out to be used is its own, and what becomes of it is all that
/// changes.
pub proof fn sockets_are_given_out<P: Protocol, S>(
    c: &mut Connection<P, S>,
    s: &mut S,
    d: &mut Dispatcher<P, S>,
    token: Token,
)
    ensures
        call_ensures(Connection::<P, S>::stream_mut, (c,), s) ==> *old(s) == old(c)@.stream
            && final(c)@ == (ConnectionView { stream: *final(s), ..old(c)@ }),
        old(d).wf() && token < old(d)@.len() && call_ensures(
            Dispatcher::<P, S>::stream_mut,
            (d, token),
            s,
        ) ==> final(d).wf() && *old(s) == old(d)@[token as int].stream && final(d)@ == old(
            d,
        )@.update(
            token as int,
            ConnectionView { stream: *final(s), ..old(d)@[token as int] },
        ),
{
}

/// The operations of a connection are the events that they stand for.
pub proof fn connections_act_on_events<P: Protocol, S>(
    c: &mut Connection<P, S>,
    outcome: ReadOutcome,
    writable: bool,
    finished: Result<Step, ReadError>,
    read: Result<(), ReadError>,
    msg: Message<P::Message>,
    notified: Result<Step, ()>,
    round: Round,
    written: WriteOutcome,
    step: Step,
    room: usize,
    frame: Vec<u8>,
)
    ensures
        call_ensures(Connection::<P, S>::finish_read, (c, outcome, writable), finished)
            ==> read_finished(old(c)@, outcome, writable, final(c)@, finished),
        call_ensures(Connection::<P, S>::read, (c, outcome), read) ==> was_read(
            old(c)@,
            outcome,
            final(c)@,
            read,
        ),
        call_ensures(Connection::<P, S>::notify, (c, msg), notified) ==> was_notified(
            old(c)@,
            msg,
            final(c)@,
            notified,
        ),
        call_ensures(Connection::<P, S>::try_write, (c,), step) ==> tried(
            old(c)@,
            final(c)@,
            step,
        ),
        (written matches WriteOutcome::Wrote(n) ==> old(c)@.backlog.len() > 0 && n
            <= old(c)@.backlog[0].len()) && call_ensures(
            Connection::<P, S>::write_backlog,
            (c, round, written),
            step,
        ) ==> wrote(old(c)@, round, written, final(c)@, step),
        call_ensures(Connection::<P, S>::read_room, (c,), room) ==> final(c)@ == old(c)@ && room
            > 0 && room + old(c)@.buf.len() >= 4096 && (old(c)@.buf.len() >= 4096 ==> room >= 64),
        call_ensures(Connection::<P, S>::set_writable, (c, writable), ()) ==> final(c)@ == (
        ConnectionView { writable, ..old(c)@ }),
        call_ensures(Connection::<P, S>::queue_frame, (c, frame), ()) ==> final(c)@ == (
        ConnectionView { backlog: old(c)@.backlog.push(frame@), ..old(c)@ }),
{
}

/// An event loop takes 1024 connections and no more. Each gets the next number for a token, is
/// blank, and joins those that are there, which stay as they are.
pub proof fn connections_are_added_in_order<P: Protocol, S>(
    d: &mut Dispatcher<P, S>,
    stream: S,
    t: Option<Token>,
)
    requires
        old(d).wf(),
        call_ensures(Dispatcher::<P, S>::add_connection, (d, stream), t),
    ensures
        final(d).wf(),
        old(d)@.len() < 1024 ==> t is Some && t->0 == old(d)@.len() && final(d)@.len()
            == old(d)@.len() + 1 && final(d)@.drop_last() == old(d)@ && added(
            t->0,
            stream,
            final(d)@.last(),
        ),
        old(d)@.len() >= 1024 ==> t is None && final(d)@ == old(d)@,
{
    if t is Some {
        assert(final(d)@.drop_last() =~= old(d)@);
    }
}

/// A connection is found under its token, and nothing is found under any other.
pub proof fn connections_are_found_by_token<P: Protocol, S>(
    made: Dispatcher<P, S>,
    d: Dispatcher<P, S>,
    token: Token,
    b: bool,
    c: Option<&Connection<P, S>>,
)
    requires
        d.wf(),
    ensures
        call_ensures(Dispatcher::<P, S>::new, (), made) ==> made.wf() && made@.len() == 0,
        call_ensures(Dispatcher::<P, S>::contains, (&d, token), b) ==> b == (token < d@.len()),
        call_ensures(Dispatcher::<P, S>::connection, (&d, token), c) ==> (c is Some <==> token
            < d@.len()) && (c is Some ==> (c->0)@ == d@[token as int]),
{
}

/// `step` is what a socket leads to that is ready to be read from, or to be written to, or both.
pub open spec fn served<P: Protocol, S>(
    c: ConnectionView<P, S>,
    readable: bool,
    writable: bool,
    d: ConnectionView<P, S>,
    step: Step,
) -> bool {
    if readable {
        d == c && step == Step::Read(writable)
    } else if !writable {
        d == c && step == Step::Done
    } else if c.backlog.len() > 0 {
        d == (ConnectionView { writable: true, ..c }) && step == Step::Write(Round::First)
    } else {
        turn_taken(ConnectionView { writable: true, ..c }, d, step)
    }
}

/// What happens to one connection of an event loop happens to that connection, and to no other.
pub proof fn connections_are_kept_apart<P: Protocol, S>(
    d: &mut Dispatcher<P, S>,
    token: Token,
    other: Token,
    readable: bool,
    writable: bool,
    step: Step,
    outcome: ReadOutcome,
    finished: Result<Step, ReadError>,
    round: Round,
    written: WriteOutcome,
)
    requires
        old(d).wf(),
        token < old(d)@.len(),
        other < old(d)@.len(),
        other != token,
    ensures
        call_ensures(Dispatcher::<P, S>::ready, (d, token, readable, writable), step) ==> {
            &&& final(d).wf()
            &&& final(d)@.len() == old(d)@.len()
            &&& final(d)@[other as int] == old(d)@[other as int]
            &&& served(
                old(d)@[token as int],
                readable,
                writable,
                final(d)@[token as int],
                step,
            )
        },
        call_ensures(Dispatcher::<P, S>::finish_read, (d, token, outcome, writable), finished)
            ==> {
            &&& final(d).wf()
            &&& final(d)@.len() == old(d)@.len()
            &&& final(d)@[other as int] == old(d)@[other as int]
            &&& read_finished(
                old(d)@[token as int],
                outcome,
                writable,
                final(d)@[token as int],
                finished,
            )
        },
        (written matches WriteOutcome::Wrote(n) ==> old(d)@[token as int].backlog.len() > 0 && n
            <= old(d)@[token as int].backlog[0].len()) && call_ensures(
            Dispatcher::<P, S>::write_backlog,
            (d, token, round, written),
            step,
        ) ==> {
            &&& final(d).wf()
            &&& final(d)@.len() == old(d)@.len()
            &&& final(d)@[other as int] == old(d)@[other as int]
            &&& wrote(
                old(d)@[token as int],
                round,
                written,
                final(d)@[token as int],
                step,
            )
        },
{
    if call_ensures(Dispatcher::<P, S>::ready, (d, token, readable, writable), step) && !readable
        && writable {
        writable_socket_is_written_to(old(d)@[token as int], final(d)@[token as int], step);
    }
}

/// A message for a connection reaches that connection, and no other; a socket becomes the next
/// connection, as long as there is room for one, and its callback comes back with the token.
pub proof fn work_is_done<P: Protocol, S, C>(
    d: &mut Dispatcher<P, S>,
    item: WorkItem<P::Message, S, C>,
    r: Dispatched<C>,
)
    requires
        old(d).wf(),
        item matches WorkItem::NotifyConnection(e) ==> e.0 < old(d)@.len(),
        call_ensures(Dispatcher::<P, S>::notify::<C>, (d, item), r),
    ensures
        final(d).wf(),
        item matches WorkItem::NotifyConnection(e) ==> {
            &&& r is Notified
            &&& r->Notified_0 == e.0
            &&& final(d)@.len() == old(d)@.len()
            &&& forall|i: int|
                0 <= i < old(d)@.len() && i != e.0 ==> #[trigger] final(d)@[i] == old(d)@[i]
            &&& was_notified(
                old(d)@[e.0 as int],
                e.1,
                final(d)@[e.0 as int],
                r->Notified_1,
            )
        },
        item matches WorkItem::AddConnection(stream, ready) ==> if old(d)@.len() < 1024 {
            &&& r is Added
            &&& r->Added_0 == old(d)@.len()
            &&& r->Added_1 == ready
            &&& final(d)@.len() == old(d)@.len() + 1
            &&& final(d)@.drop_last() == old(d)@
            &&& added(r->Added_0, stream, final(d)@.last())
        } else {
            r is Full && final(d)@ == old(d)@
        },
{
    if item is AddConnection && old(d)@.len() < 1024 {
        assert(final(d)@.drop_last() =~= old(d)@);
    }
}

} // verus!
