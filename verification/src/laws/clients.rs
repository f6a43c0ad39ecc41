//! What clients, their delegates and their channels get, call by call.
use vstd::prelude::*;
use vstd::string::*;
use std::sync::mpsc::{Receiver, RecvError, SendError, Sender, TryRecvError};
use solicit::http::session::{StreamDataChunk, StreamDataError, StreamState};
use solicit::http::{Header, StreamId};
use crate::channel::{
    connected, fresh_pipe, pipe, polled, polled_once, put_bytes, put_once, received, sent,
    waited_once, Inlet, Outlet,
};
use crate::client::{
    began, gave_body, passed_on, resolved, response_kept, starting, ChannelDelegate, ChannelReady,
    EchoDelegate,
};
use crate::cursor::Cursor;
use crate::delegate::{
    close_local, closed_local, enters, given, headers_of, hears, is_closed_local, local_end_closed,
    RequestDelegate, StreamView, Told,
};
use crate::evtloop::{ConnectionHandle, Envelope, OnConnectionReady};
use crate::future::Future;
use crate::h2::HttpMsg;
use crate::reader::{get_next_chunk, kept, read, read_once};
use crate::request::{FutureRequest, Request};
use crate::response::{FutureResponse, Response, ResponseHandler};
use crate::stream::{joined, ProtoStream, Stream};

verus! {

/// The front of a chunk went into a buffer, as much as there is of the one or room in the other,
/// byte for byte; the rest of the buffer is as it was.
pub open spec fn filled(chunk: Seq<u8>, before: Seq<u8>, after: Seq<u8>, n: int) -> bool {
    &&& n <= chunk.len()
    &&& n <= before.len()
    &&& n == chunk.len() || n == before.len()
    &&& after.len() == before.len()
    &&& forall|i: int| 0 <= i < n ==> #[trigger] after[i] == chunk[i]
    &&& forall|i: int| n <= i < before.len() ==> #[trigger] after[i] == before[i]
}

/// A chunk was read into a buffer: its front went over, and it is kept, with nothing left of it,
/// just where all of it did.
pub open spec fn chunk_went_over(
    chunk: Seq<u8>,
    before: Seq<u8>,
    after: Seq<u8>,
    leftover: Option<Seq<u8>>,
    r: Result<usize, ()>,
) -> bool {
    &&& r is Ok
    &&& filled(chunk, before, after, r->Ok_0 as int)
    &&& leftover == if r->Ok_0 == chunk.len() {
        Some(Seq::<u8>::empty())
    } else {
        None
    }
}

/// One read gave what it should. Where a chunk was kept, it comes from that, and the channel is
/// left alone. Else the channel is waited on once, and what it gave is on record: the chunk that
/// is read from, whatever its length, or nothing, and then nothing is read either.
pub open spec fn read_well(
    rx: Inlet<Vec<u8>>,
    from: Option<Seq<u8>>,
    before: Seq<u8>,
    after: Seq<u8>,
    leftover: Option<Seq<u8>>,
    r: Result<usize, ()>,
    rx_after: Inlet<Vec<u8>>,
) -> bool {
    match from {
        Some(chunk) => rx_after == rx && chunk_went_over(chunk, before, after, leftover, r),
        None => {
            &&& rx_after.end() == rx.end()
            &&& rx_after@.len() == rx@.len() + 1
            &&& rx_after@.drop_last() == rx@
            &&& received(rx.end(), rx_after@.last())
            &&& match rx_after@.last() {
                Some(chunk) => chunk_went_over(chunk@, before, after, leftover, r),
                None => r is Err && after == before && leftover is None,
            }
        },
    }
}

/// Every read gives what it should.
pub proof fn reads_go_well(
    rx: Inlet<Vec<u8>>,
    from: Option<Seq<u8>>,
    before: Seq<u8>,
    after: Seq<u8>,
    leftover: Option<Seq<u8>>,
    r: Result<usize, ()>,
    rx_after: Inlet<Vec<u8>>,
)
    requires
        read_once(rx, from, before, after, leftover, r, rx_after),
    ensures
        read_well(rx, from, before, after, leftover, r, rx_after),
{
    if from is None {
        let got = choose|got: Option<Vec<u8>>| #[trigger] waited_once(rx, got, rx_after);
        assert(rx_after@.last() == got);
        assert(rx_after@.drop_last() =~= rx@);
    }
}

/// What is kept of a chunk is what is left of it.
pub proof fn kept_is_what_is_left(leftover: Option<Cursor>)
    ensures
        leftover is None ==> kept(leftover) is None,
        leftover matches Some(c) ==> kept(leftover) == Some(c@),
{
}

/// Whoever reads from a channel gets what they should.
pub proof fn reading_gives_what_it_should(
    rx: &mut Inlet<Vec<u8>>,
    leftover: &mut Option<Cursor>,
    buf: &mut [u8],
    r: Result<usize, ()>,
)
    requires
        call_ensures(read, (rx, leftover, buf), r),
    ensures
        read_well(
            *old(rx),
            kept(*old(leftover)),
            old(buf)@,
            final(buf)@,
            kept(*final(leftover)),
            r,
            *final(rx),
        ),
{
    reads_go_well(
        *old(rx),
        kept(*old(leftover)),
        old(buf)@,
        final(buf)@,
        kept(*final(leftover)),
        r,
        *final(rx),
    );
}

/// So does whoever reads a response.
pub proof fn reading_response(s: &mut Response, buf: &mut [u8], r: Result<usize, ()>)
    requires
        call_ensures(Response::read, (s, buf), r),
    ensures
        read_well(
            old(s).rx,
            kept(old(s).leftover),
            old(buf)@,
            final(buf)@,
            kept(final(s).leftover),
            r,
            final(s).rx,
        ),
{
    reads_go_well(
        old(s).rx,
        kept(old(s).leftover),
        old(buf)@,
        final(buf)@,
        kept(final(s).leftover),
        r,
        final(s).rx,
    );
}

/// So does whoever reads the response that a delegate hands over.
pub proof fn reading_delegated_response(
    s: &mut crate::client::StreamResponse,
    buf: &mut [u8],
    r: Result<usize, ()>,
)
    requires
        call_ensures(crate::client::StreamResponse::read, (s, buf), r),
    ensures
        read_well(
            old(s).stream,
            kept(old(s).leftover),
            old(buf)@,
            final(buf)@,
            kept(final(s).leftover),
            r,
            final(s).stream,
        ),
{
    reads_go_well(
        old(s).stream,
        kept(old(s).leftover),
        old(buf)@,
        final(buf)@,
        kept(final(s).leftover),
        r,
        final(s).stream,
    );
}

/// So does whoever reads the response to a request that was written. The request's end of the
/// stream is left alone.
pub proof fn reading_written_response(
    s: &mut crate::request::StreamResponse,
    buf: &mut [u8],
    r: Result<usize, ()>,
)
    requires
        call_ensures(crate::request::StreamResponse::read, (s, buf), r),
    ensures
        final(s).conn == old(s).conn,
        final(s).stream.tx == old(s).stream.tx,
        read_well(
            old(s).stream.rx,
            kept(old(s).leftover),
            old(buf)@,
            final(buf)@,
            kept(final(s).leftover),
            r,
            final(s).stream.rx,
        ),
{
    reads_go_well(
        old(s).stream.rx,
        kept(old(s).leftover),
        old(buf)@,
        final(buf)@,
        kept(final(s).leftover),
        r,
        final(s).stream.rx,
    );
}

/// The next chunk is all of what the channel gave, and there is none where it gave nothing.
pub proof fn next_chunk_is_whole(rx: &mut Inlet<Vec<u8>>, r: Result<Cursor, ()>)
    requires
        call_ensures(get_next_chunk, (rx,), r),
    ensures
        final(rx).end() == old(rx).end(),
        final(rx)@.drop_last() == old(rx)@,
        final(rx)@.len() == old(rx)@.len() + 1,
        match final(rx)@.last() {
            Some(chunk) => r is Ok && r->Ok_0@ == chunk@,
            None => r is Err,
        },
{
    let got = choose|got: Option<Vec<u8>>| #[trigger]
        waited_once(*old(rx), got, *final(rx)) && match got {
            Some(chunk) => r matches Ok(c) && c@ == chunk@,
            None => r is Err,
        };
    assert(final(rx)@.last() == got);
    assert(final(rx)@.drop_last() =~= old(rx)@);
}

/// What was put into an end of a channel is that value, once, behind all others, with whether it
/// went well; and it was put there by sending it on that end.
pub open spec fn one_more_put<T>(before: Outlet<T>, value: T, ok: bool, after: Outlet<T>) -> bool {
    &&& after.end() == before.end()
    &&& after@ == before@ + seq![(value, ok)]
    &&& exists|r: Result<(), SendError<T>>| #[trigger]
        call_ensures(Sender::<T>::send, (&before.end(), value), r) && ok == (r is Ok)
}

/// To put is to put one value more.
pub proof fn puts_are_on_record<T>(before: Outlet<T>, value: T, ok: bool, after: Outlet<T>)
    requires
        put_once(before, value, ok, after),
    ensures
        one_more_put(before, value, ok, after),
{
    assert(before@.push((value, ok)) =~= before@ + seq![(value, ok)]);
}

/// Bytes are put as one value, which is all of them and nothing else.
pub proof fn bytes_are_put_whole(
    before: Outlet<Vec<u8>>,
    bytes: Seq<u8>,
    ok: bool,
    after: Outlet<Vec<u8>>,
)
    requires
        put_bytes(before, bytes, ok, after),
    ensures
        after@.len() == before@.len() + 1,
        one_more_put(before, after@.last().0, ok, after),
        after@.last().0@ == bytes,
        after@.last().1 == ok,
{
    let v = choose|v: Vec<u8>| v@ == bytes && #[trigger] put_once(before, v, ok, after);
    puts_are_on_record(before, v, ok, after);
    assert(after@.last() == (v, ok));
}

/// What a look into a channel gave is on record behind all others, and the channel did give that.
pub open spec fn one_more_look<T>(before: Inlet<T>, got: Option<T>, after: Inlet<T>) -> bool {
    after.end() == before.end() && after@ == before@ + seq![got]
}

/// A call gave a value, or failed.
pub open spec fn gave<T, E>(r: Result<T, E>, got: Option<T>) -> bool {
    match r {
        Ok(value) => got == Some(value),
        Err(_) => got is None,
    }
}

/// To wait is to receive once.
pub proof fn waits_are_on_record<T>(before: Inlet<T>, got: Option<T>, after: Inlet<T>)
    requires
        waited_once(before, got, after),
    ensures
        one_more_look(before, got, after),
        exists|r: Result<T, RecvError>| #[trigger]
            call_ensures(Receiver::<T>::recv, (&before.end(),), r) && gave(r, got),
{
    assert(before@.push(got) =~= before@ + seq![got]);
}

/// To look is to try and receive once.
pub proof fn looks_are_on_record<T>(before: Inlet<T>, got: Option<T>, after: Inlet<T>)
    requires
        polled_once(before, got, after),
    ensures
        one_more_look(before, got, after),
        exists|r: Result<T, TryRecvError>| #[trigger]
            call_ensures(Receiver::<T>::try_recv, (&before.end(),), r) && gave(r, got),
{
    assert(before@.push(got) =~= before@ + seq![got]);
}

/// Putting, waiting and looking do that.
pub proof fn ends_do_what_they_say<T>(
    out: &mut Outlet<T>,
    value: T,
    ok: bool,
    into: &mut Inlet<T>,
    got: Option<T>,
)
    ensures
        call_ensures(Outlet::<T>::put, (out, value), ok) ==> one_more_put(
            *old(out),
            value,
            ok,
            *final(out),
        ),
        call_ensures(Inlet::<T>::wait_for, (into,), got) ==> one_more_look(
            *old(into),
            got,
            *final(into),
        ) && received(old(into).end(), got),
        call_ensures(Inlet::<T>::poll, (into,), got) ==> one_more_look(
            *old(into),
            got,
            *final(into),
        ) && polled(old(into).end(), got),
{
    if call_ensures(Outlet::<T>::put, (out, value), ok) {
        puts_are_on_record(*old(out), value, ok, *final(out));
    }
    if call_ensures(Inlet::<T>::wait_for, (into,), got) {
        waits_are_on_record(*old(into), got, *final(into));
    }
    if call_ensures(Inlet::<T>::poll, (into,), got) {
        looks_are_on_record(*old(into), got, *final(into));
    }
}

/// Both ends of a new channel belong together, and nothing is on record of either.
pub proof fn new_channels_are_unused<T>(ends: (Outlet<T>, Inlet<T>))
    requires
        call_ensures(pipe::<T>, (), ends) || fresh_pipe(ends.0, ends.1),
    ensures
        call_ensures(std::sync::mpsc::channel::<T>, (), (ends.0.end(), ends.1.end())),
        ends.0@.len() == 0,
        ends.1@.len() == 0,
{
}

/// A stream is two new channels, one in each direction.
pub proof fn streams_go_both_ways(client: Stream, proto: ProtoStream)
    requires
        call_ensures(Stream::pair, (), (client, proto)) || joined(client, proto),
    ensures
        connected(client.tx.end(), proto.rx.end()),
        connected(proto.tx.end(), client.rx.end()),
        client.tx@.len() == 0,
        client.rx@.len() == 0,
        proto.tx@.len() == 0,
        proto.rx@.len() == 0,
{
}

/// What a client writes goes into its stream as one chunk, and what it waits for comes out of its
/// stream; the other direction is left alone.
pub proof fn clients_write_and_wait(
    s: &mut Stream,
    buf: Vec<u8>,
    r: Result<(), ()>,
    t: &mut Stream,
    chunk: Result<Vec<u8>, ()>,
)
    ensures
        call_ensures(Stream::write, (s, buf), r) ==> {
            &&& final(s).rx == old(s).rx
            &&& final(s).tx@.len() == old(s).tx@.len() + 1
            &&& final(s).tx@.drop_last() == old(s).tx@
            &&& final(s).tx@.last().0@ == buf@
            &&& final(s).tx@.last().1 == (r is Ok)
        },
        call_ensures(Stream::recv_chunk, (t,), chunk) ==> {
            &&& final(t).tx == old(t).tx
            &&& final(t).rx@.len() == old(t).rx@.len() + 1
            &&& final(t).rx@.drop_last() == old(t).rx@
            &&& gave(chunk, final(t).rx@.last())
        },
{
    if call_ensures(Stream::write, (s, buf), r) {
        bytes_are_put_whole(old(s).tx, buf@, r is Ok, final(s).tx);
        assert(final(s).tx@.drop_last() =~= old(s).tx@);
    }
    if call_ensures(Stream::recv_chunk, (t,), chunk) {
        assert(final(t).rx@.drop_last() =~= old(t).rx@);
    }
}

/// What is written to a request goes into its stream as one chunk, all of it, and the connection is
/// to be woken up; where nobody is left to take it, that is a failure.
pub proof fn request_writes_all(
    q: &mut Request,
    buf: &[u8],
    r: Result<(usize, Envelope<HttpMsg>), ()>,
)
    requires
        call_ensures(Request::write, (q, buf), r),
    ensures
        final(q).conn == old(q).conn,
        final(q).stream.rx == old(q).stream.rx,
        final(q).stream.tx@.len() == old(q).stream.tx@.len() + 1,
        final(q).stream.tx@.drop_last() == old(q).stream.tx@,
        final(q).stream.tx@.last().0@ == buf@,
        final(q).stream.tx@.last().1 == (r is Ok),
        r matches Ok((n, wake)) ==> n == buf@.len() && wake.0 == old(q).conn@ && wake.1 is TryWrite,
{
    bytes_are_put_whole(old(q).stream.tx, buf@, r is Ok, final(q).stream.tx);
    assert(final(q).stream.tx@.drop_last() =~= old(q).stream.tx@);
}

/// A request ends with the words that say so, on its own stream, and the response is read from
/// there. The connection is to be woken up.
pub proof fn request_ends_with_trailer(
    q: Request,
    response: crate::request::StreamResponse,
    wake: Envelope<HttpMsg>,
)
    requires
        call_ensures(Request::send, (q,), Ok((response, wake))),
    ensures
        response.conn == q.conn,
        response.stream.rx == q.stream.rx,
        response.leftover is None,
        response.stream.tx.end() == q.stream.tx.end(),
        response.stream.tx@.len() == q.stream.tx@.len() + 1,
        response.stream.tx@.drop_last() == q.stream.tx@,
        response.stream.tx@.last().0@ == "Trailer! Done here!".spec_bytes(),
        response.stream.tx@.last().1,
        wake.0 == q.conn@,
        wake.1 is TryWrite,
{
    bytes_are_put_whole(
        q.stream.tx,
        "Trailer! Done here!".spec_bytes(),
        true,
        response.stream.tx,
    );
    assert(response.stream.tx@.drop_last() =~= q.stream.tx@);
}

/// It fails only where nobody is left to take those words.
pub proof fn request_fails_where_nobody_listens(q: Request)
    requires
        call_ensures(
            Request::send,
            (q,),
            Err::<(crate::request::StreamResponse, Envelope<HttpMsg>), ()>(()),
        ),
    ensures
        exists|v: Vec<u8>|
            v@ == "Trailer! Done here!".spec_bytes() && #[trigger] sent(
                q.stream.tx.end(),
                v,
                false,
            ),
{
    let tx = choose|tx: Outlet<Vec<u8>>| #[trigger]
        put_bytes(q.stream.tx, "Trailer! Done here!".spec_bytes(), false, tx);
    let v = choose|v: Vec<u8>|
        v@ == "Trailer! Done here!".spec_bytes() && #[trigger] put_once(
            q.stream.tx,
            v,
            false,
            tx,
        );
    assert(sent(q.stream.tx.end(), v, false));
}

/// A request comes to be once its stream was received, with that stream; and not at all where none
/// was.
pub proof fn future_request_gets_its_stream(f: FutureRequest, r: Option<Request>)
    requires
        call_ensures(FutureRequest::wait, (f,), r),
    ensures
        match r {
            Some(q) => q.conn == f.conn && received(f.future_stream, Some(q.stream)),
            None => received(f.future_stream, None::<Stream>),
        },
{
}

/// A future gives what was received, and so does a future response.
pub proof fn futures_give_what_was_received<T>(
    f: Future<T>,
    r: Option<T>,
    g: FutureResponse,
    s: Option<Response>,
)
    ensures
        call_ensures(Future::<T>::wait, (f,), r) ==> received(f.rx, r),
        call_ensures(FutureResponse::response, (g,), s) ==> received(g.rx.end(), s),
{
}

/// What somebody received is what a call gave.
pub proof fn received_is_what_a_call_gave<T>(rx: Receiver<T>, got: Option<T>)
    requires
        received(rx, got),
    ensures
        exists|r: Result<T, RecvError>| #[trigger]
            call_ensures(Receiver::<T>::recv, (&rx,), r) && gave(r, got),
{
}

/// A future response waits on a new channel, at whose other end the response is to be put.
pub proof fn future_response_is_new(f: FutureResponse, tx: Outlet<Response>)
    requires
        call_ensures(FutureResponse::new, (), (f, tx)),
    ensures
        connected(tx.end(), f.rx.end()),
        tx@.len() == 0,
        f.rx@.len() == 0,
{
}

/// Headers begin a response of which nothing has been read, and whose channel is new.
pub proof fn headers_begin_a_response(
    h: &mut ResponseHandler,
    headers: &[Header],
    r: Result<(), ()>,
)
    requires
        call_ensures(ResponseHandler::on_headers, (h, headers), r),
    ensures
        final(h).tx == old(h).tx,
        final(h).resolve.end() == old(h).resolve.end(),
        final(h).resolve@.len() == old(h).resolve@.len() + 1,
        final(h).resolve@.drop_last() == old(h).resolve@,
        final(h).resolve@.last().1 == (r is Ok),
        final(h).resolve@.last().0.leftover is None,
        final(h).resolve@.last().0.rx@.len() == 0,
        exists|tx: Outlet<Vec<u8>>| #[trigger]
            connected(tx.end(), final(h).resolve@.last().0.rx.end()),
{
    let (tx, rx) = choose|tx: Outlet<Vec<u8>>, rx: Inlet<Vec<u8>>| #[trigger]
        fresh_pipe(tx, rx) && put_once(
            old(h).resolve,
            Response { rx, leftover: None },
            r is Ok,
            final(h).resolve,
        );
    assert(final(h).resolve@.last() == (Response { rx, leftover: None }, r is Ok));
    assert(final(h).resolve@.drop_last() =~= old(h).resolve@);
    assert(final(h).resolve@.last().0.rx == rx);
    assert(connected(tx.end(), final(h).resolve@.last().0.rx.end()));
}

/// Data goes on as one chunk, all of it.
pub proof fn handled_data_goes_on(h: &mut ResponseHandler, buf: &[u8], r: Result<(), ()>)
    requires
        call_ensures(ResponseHandler::on_data, (h, buf), r),
    ensures
        final(h).resolve == old(h).resolve,
        final(h).tx@.len() == old(h).tx@.len() + 1,
        final(h).tx@.drop_last() == old(h).tx@,
        final(h).tx@.last().0@ == buf@,
        final(h).tx@.last().1 == (r is Ok),
{
    bytes_are_put_whole(old(h).tx, buf@, r is Ok, final(h).tx);
    assert(final(h).tx@.drop_last() =~= old(h).tx@);
}

/// The handle of a connection is handed over as it is, once.
pub proof fn handle_is_handed_over<M>(
    c: &mut ChannelReady<M>,
    handle: ConnectionHandle<M>,
    r: Result<(), ()>,
)
    requires
        call_ensures(ChannelReady::<M>::connection_ready, (c, handle), r),
    ensures
        final(c).resolve.end() == old(c).resolve.end(),
        final(c).resolve@ == old(c).resolve@ + seq![(Some(handle), r is Ok)],
{
    puts_are_on_record(old(c).resolve, Some(handle), r is Ok, final(c).resolve);
}

/// The headers of a response begin it: it is put where it is waited for, with nothing read of it,
/// and the delegate holds the other end of its channel from then on.
pub proof fn delegate_begins_a_response(d: ChannelDelegate, e: ChannelDelegate)
    requires
        began(d, e),
    ensures
        e.response_chunk_tx is Some,
        (e.response_chunk_tx->0)@.len() == 0,
        e.resolve.end() == d.resolve.end(),
        e.resolve@.len() == d.resolve@.len() + 1,
        e.resolve@.drop_last() == d.resolve@,
        e.resolve@.last().0.leftover is None,
        e.resolve@.last().0.stream@.len() == 0,
        connected((e.response_chunk_tx->0).end(), e.resolve@.last().0.stream.end()),
{
    let tx = e.response_chunk_tx->0;
    assert(resolved(d.resolve, tx, e.resolve));
    let (rx, ok) = choose|rx: Inlet<Vec<u8>>, ok: bool|
        #![trigger fresh_pipe(tx, rx), put_once(d.resolve, starting(rx), ok, e.resolve)]
        fresh_pipe(tx, rx) && put_once(d.resolve, starting(rx), ok, e.resolve);
    assert(e.resolve@.last() == (starting(rx), ok));
    assert(e.resolve@.drop_last() =~= d.resolve@);
}

/// Data that arrives is put into the channel of the response as one chunk, all of it, whatever its
/// length and whatever was put there before; without a response it goes nowhere.
pub proof fn delegate_passes_data_on(d: ChannelDelegate, data: Seq<u8>, e: ChannelDelegate)
    requires
        passed_on(d, data, e),
    ensures
        e.resolve == d.resolve,
        d.response_chunk_tx is None ==> e.response_chunk_tx is None,
        d.response_chunk_tx matches Some(before) ==> {
            &&& e.response_chunk_tx is Some
            &&& (e.response_chunk_tx->0).end() == before.end()
            &&& (e.response_chunk_tx->0)@.len() == before@.len() + 1
            &&& (e.response_chunk_tx->0)@.drop_last() == before@
            &&& (e.response_chunk_tx->0)@.last().0@ == data
        },
{
    if let (Some(before), Some(after)) = (d.response_chunk_tx, e.response_chunk_tx) {
        let ok = choose|ok: bool| #[trigger] put_bytes(before, data, ok, after);
        bytes_are_put_whole(before, data, ok, after);
        assert(after@.drop_last() =~= before@);
    }
}

/// Nothing but headers and data changes what a response has to do with.
pub proof fn response_is_left_alone(d: ChannelDelegate, e: ChannelDelegate)
    requires
        response_kept(d, e),
    ensures
        e.resolve == d.resolve,
        e.response_chunk_tx == d.response_chunk_tx,
{
}

/// What a delegate of the client gives when it is asked: both bytes of its body at once, and then
/// its end is closed, as long as there is room for two bytes; else nothing, for now.
pub proof fn body_is_given_at_once(
    before: StreamState,
    old_buf: Seq<u8>,
    r: Result<StreamDataChunk, StreamDataError>,
    new_buf: Seq<u8>,
    after: StreamState,
)
    requires
        gave_body(before, old_buf, r, new_buf, after),
    ensures
        r is Ok,
        new_buf.len() == old_buf.len(),
        old_buf.len() < 2 ==> r->Ok_0 is Unavailable && new_buf == old_buf && after == before,
        old_buf.len() >= 2 ==> {
            &&& r->Ok_0 == StreamDataChunk::Last(2)
            &&& new_buf[0] == 0x41
            &&& new_buf[1] == 0x42
            &&& forall|i: int| 2 <= i < old_buf.len() ==> #[trigger] new_buf[i] == old_buf[i]
            &&& after == if before is HalfClosedRemote {
                StreamState::Closed
            } else {
                StreamState::HalfClosedLocal
            }
        },
{
}

/// Both delegates of the client give their body in that way, and a delegate that hands the response
/// over does all it does to its channels in those ways.
pub proof fn delegates_do_what_they_say(
    d: &mut EchoDelegate,
    e: &mut ChannelDelegate,
    buf: &mut [u8],
    r: Result<StreamDataChunk, StreamDataError>,
    data: &[u8],
    headers: Vec<Header>,
    id: StreamId,
    state: StreamState,
)
    ensures
        call_ensures(EchoDelegate::get_data_chunk, (d, buf), r) ==> gave_body(
            old(d).state,
            old(buf)@,
            r,
            final(buf)@,
            final(d).state,
        ),
        call_ensures(ChannelDelegate::get_data_chunk, (e, buf), r) ==> gave_body(
            old(e).state,
            old(buf)@,
            r,
            final(buf)@,
            final(e).state,
        ) && response_kept(*old(e), *final(e)),
        call_ensures(ChannelDelegate::new_data_chunk, (e, data), ()) ==> passed_on(
            *old(e),
            data@,
            *final(e),
        ),
        call_ensures(ChannelDelegate::set_headers, (e, headers), ()) ==> began(
            *old(e),
            *final(e),
        ),
        call_ensures(ChannelDelegate::started, (e, id), ()) ==> response_kept(*old(e), *final(e))
            && final(e).state == old(e).state,
        call_ensures(ChannelDelegate::set_state, (e, state), ()) ==> response_kept(
            *old(e),
            *final(e),
        ) && final(e).state == state,
{
}

/// What a delegate gave is what stands at the front of the buffer, as far as it said.
pub proof fn given_is_the_front(r: Result<StreamDataChunk, StreamDataError>, buf: Seq<u8>)
    ensures
        r matches Ok(StreamDataChunk::Chunk(n)) ==> given(r, buf) == Some(
            (buf.take(n as int), false),
        ),
        r matches Ok(StreamDataChunk::Last(n)) ==> given(r, buf) == Some(
            (buf.take(n as int), true),
        ),
        r is Err || r->Ok_0 is Unavailable ==> given(r, buf) is None,
{
}

/// Which states leave no more data to go out, and what becomes of a state when that ends.
pub proof fn near_ends(state: StreamState, b: bool, s: StreamState)
    ensures
        closed_local(state) <==> state == StreamState::HalfClosedLocal || state
            == StreamState::Closed,
        closed_local(local_end_closed(state)),
        local_end_closed(state) == StreamState::Closed <==> state == StreamState::HalfClosedRemote,
        call_ensures(is_closed_local, (state,), b) ==> (b <==> state
            == StreamState::HalfClosedLocal || state == StreamState::Closed),
        call_ensures(close_local, (state,), s) ==> s == if state == StreamState::HalfClosedRemote {
            StreamState::Closed
        } else {
            StreamState::HalfClosedLocal
        },
{
}

/// Whatever a delegate is told stands behind all that it was told before, and nothing but a new
/// state changes the state of its stream.
pub proof fn delegates_are_told_in_order(s: StreamView, t: Told, state: StreamState)
    ensures
        hears(s, t).state == s.state,
        hears(s, t).told == s.told + seq![t],
        enters(s, state).state == state,
        enters(s, state).told == s.told + seq![Told::State(state)],
{
    assert(s.told.push(t) =~= s.told + seq![t]);
    assert(s.told.push(Told::State(state)) =~= s.told + seq![Told::State(state)]);
}

/// Everything that a delegate is told or asked is on record, as it was, behind all others.
pub proof fn delegates_record_everything<D: RequestDelegate>(
    d: &mut D,
    id: StreamId,
    data: &[u8],
    headers: Vec<Header>,
    state: StreamState,
    buf: &mut [u8],
    r: Result<StreamDataChunk, StreamDataError>,
)
    ensures
        call_ensures(D::started, (d, id), ()) ==> final(d).told() == old(d).told().push(
            Told::Started(id),
        ) && final(d).in_state() == old(d).in_state(),
        call_ensures(D::new_data_chunk, (d, data), ()) ==> final(d).told() == old(d).told().push(
            Told::Data(data@),
        ) && final(d).in_state() == old(d).in_state(),
        call_ensures(D::set_headers, (d, headers), ()) ==> final(d).told() == old(d).told().push(
            Told::Headers(headers_of(headers@)),
        ) && final(d).in_state() == old(d).in_state(),
        call_ensures(D::set_state, (d, state), ()) ==> final(d).told() == old(d).told().push(
            Told::State(state),
        ) && final(d).in_state() == state,
        call_ensures(D::get_data_chunk, (d, buf), r) ==> {
            &&& final(buf)@.len() == old(buf)@.len()
            &&& final(d).told().len() == old(d).told().len() + 1
            &&& final(d).told().drop_last() == old(d).told()
            &&& match r {
                Ok(StreamDataChunk::Chunk(n)) => n <= final(buf)@.len() && final(d).told().last()
                    == Told::Asked(Some((final(buf)@.take(n as int), false))),
                Ok(StreamDataChunk::Last(n)) => n <= final(buf)@.len() && final(d).told().last()
                    == Told::Asked(Some((final(buf)@.take(n as int), true))),
                _ => final(d).told().last() == Told::Asked(None),
            }
        },
{
    if call_ensures(D::get_data_chunk, (d, buf), r) {
        assert(final(d).told().drop_last() =~= old(d).told());
    }
}

/// What is made of parts is made of those parts, and nothing has happened to it.
pub proof fn made_of_their_parts<T>(
    state: StreamState,
    echo: EchoDelegate,
    resolve: Outlet<crate::client::StreamResponse>,
    channel: ChannelDelegate,
    tx: Outlet<Vec<u8>>,
    rx: Inlet<Vec<u8>>,
    client: Stream,
    proto: ProtoStream,
    conn: ConnectionHandle<HttpMsg>,
    request: Request,
    response: Response,
    receiver: Receiver<T>,
    future: Future<T>,
)
    ensures
        call_ensures(EchoDelegate::new, (state,), echo) ==> echo.state == state
            && echo.told@.len() == 0,
        call_ensures(ChannelDelegate::new, (state, resolve), channel) ==> channel.state == state
            && channel.resolve == resolve && channel.response_chunk_tx is None
            && channel.told@.len() == 0,
        call_ensures(Stream::new, (tx, rx), client) ==> client.tx == tx && client.rx == rx,
        call_ensures(ProtoStream::new, (rx, tx), proto) ==> proto.tx == tx && proto.rx == rx,
        call_ensures(Request::new, (conn, client), request) ==> request.conn == conn
            && request.stream == client,
        call_ensures(Response::new, (rx,), response) ==> response.rx == rx && response.leftover
            is None,
        call_ensures(Future::<T>::from_channel, (receiver,), future) ==> future.rx == receiver,
{
}

/// An end of a channel that is taken over is that end, with nothing on record. And to flush a
/// request is to do nothing.
pub proof fn taken_over_as_they_are<T>(
    tx: Sender<T>,
    out: Outlet<T>,
    rx: Receiver<T>,
    into: Inlet<T>,
    q: &mut Request,
    r: Result<(), ()>,
)
    ensures
        call_ensures(Outlet::<T>::new, (tx,), out) ==> out.end() == tx && out@.len() == 0,
        call_ensures(Inlet::<T>::new, (rx,), into) ==> into.end() == rx && into@.len() == 0,
        call_ensures(Request::flush, (q,), r) ==> r is Ok && *final(q) == *old(q),
{
}

} // verus!
