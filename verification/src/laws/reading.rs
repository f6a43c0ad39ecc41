//! What becomes of the bytes that come in on a connection.
use vstd::prelude::*;
use solicit::http::session::StreamState;
use solicit::http::StreamId;
use crate::connection::{was_read, ConnectionView, ReadError, ReadOutcome};
use crate::delegate::{StreamView, Told};
use crate::evtloop::{Protocol, Token};
use crate::frames::{
    decodes, first_frame, frames, rest, stream_of, unpadded, DATA, HEADERS, SETTINGS,
};
use crate::h2::{
    after_frames, all_replies, refuses_at, takes_first, took_frames, Http2, HttpMsg,
};
use crate::laws::framing::{cuts_do_not_matter, frames_and_rest_are_all, rest_has_no_frame};
use crate::session::{
    asked_in_turn, carried, data_frames, handed, received, replies, settings_ack, takes,
    SessionView,
};

verus! {

/// A connection keeps what its protocol did not consume, and nothing else: what was there and
/// what came in is what is consumed now, followed by what is kept.
pub proof fn read_keeps_bytes<P: Protocol, S>(
    c: ConnectionView<P, S>,
    data: Vec<u8>,
    d: ConnectionView<P, S>,
    r: Result<(), ReadError>,
)
    requires
        was_read(c, ReadOutcome::Received(data), d, r),
    ensures
        d.buf.is_suffix_of(c.buf + data@),
        r is Err ==> d.buf == c.buf + data@,
{
    assert(c.buf.is_suffix_of(c.buf));
    if data@.len() == 0 {
        assert(c.buf + data@ =~= c.buf);
    }
}

/// All bytes that came in with the first `n` of the given reads.
pub open spec fn came_in(chunks: Seq<Vec<u8>>, n: nat) -> Seq<u8>
    decreases n,
{
    if n == 0 {
        Seq::empty()
    } else {
        came_in(chunks, (n - 1) as nat) + chunks[n - 1]@
    }
}

/// Reads that follow one another on a connection, with what came of them. `cs` is what the
/// connection was before each of them and after the last.
pub open spec fn reads<P: Protocol, S>(
    cs: Seq<ConnectionView<P, S>>,
    chunks: Seq<Vec<u8>>,
    rs: Seq<Result<(), ReadError>>,
) -> bool {
    &&& cs.len() == chunks.len() + 1
    &&& rs.len() == chunks.len()
    &&& forall|i: int|
        0 <= i < chunks.len() ==> was_read(
            cs[i],
            ReadOutcome::Received(#[trigger] chunks[i]),
            cs[i + 1],
            rs[i],
        )
}

/// Over any number of reads, whatever is spoken on the connection and whatever came of them, no
/// byte gets lost: what was there and everything that came in is what was consumed, followed by
/// what is kept.
pub proof fn reads_keep_bytes<P: Protocol, S>(
    cs: Seq<ConnectionView<P, S>>,
    chunks: Seq<Vec<u8>>,
    rs: Seq<Result<(), ReadError>>,
    n: nat,
)
    requires
        reads(cs, chunks, rs),
        n <= chunks.len(),
    ensures
        cs[n as int].buf.is_suffix_of(cs[0].buf + came_in(chunks, n)),
    decreases n,
{
    let start = cs[0].buf;
    if n == 0 {
        assert(start + came_in(chunks, 0) =~= start);
    } else {
        let i = n - 1;
        reads_keep_bytes(cs, chunks, rs, i as nat);
        assert(was_read(cs[i], ReadOutcome::Received(chunks[i]), cs[i + 1], rs[i]));
        read_keeps_bytes(cs[i], chunks[i], cs[n as int], rs[i]);
        let sofar = start + came_in(chunks, i as nat);
        let all = start + came_in(chunks, n);
        let left = cs[i].buf + chunks[i]@;
        assert(all =~= sofar + chunks[i]@);
        assert(left =~= all.skip(all.len() - left.len()));
        assert(cs[n as int].buf =~= all.skip(all.len() - cs[n as int].buf.len()));
    }
}

/// The data that the given delegate history tells of, in order.
pub open spec fn heard(told: Seq<Told>) -> Seq<u8>
    decreases told.len(),
{
    if told.len() == 0 {
        Seq::empty()
    } else {
        heard(told.drop_last()) + match told.last() {
            Told::Data(data) => data,
            _ => Seq::empty(),
        }
    }
}

/// The data that the given frames carry on the given stream, in order and without padding.
pub open spec fn data_on(fs: Seq<Seq<u8>>, id: StreamId) -> Seq<u8>
    decreases fs.len(),
{
    if fs.len() == 0 {
        Seq::empty()
    } else {
        data_on(fs.drop_last(), id) + if fs.last()[3] == DATA && stream_of(fs.last()) == id {
            unpadded(fs.last())
        } else {
            Seq::empty()
        }
    }
}

/// The data of two runs of frames is the data of one and of the other.
proof fn data_on_both(a: Seq<Seq<u8>>, b: Seq<Seq<u8>>, id: StreamId)
    ensures
        data_on(a + b, id) == data_on(a, id) + data_on(b, id),
    decreases b.len(),
{
    if b.len() == 0 {
        assert(a + b =~= a);
        assert(data_on(a, id) + data_on(b, id) =~= data_on(a, id));
    } else {
        data_on_both(a, b.drop_last(), id);
        assert((a + b).drop_last() =~= a + b.drop_last());
        assert(data_on(a + b, id) =~= data_on(a, id) + data_on(b, id));
    }
}

/// Telling a delegate one thing adds what it tells of.
proof fn heard_more(told: Seq<Told>, t: Told)
    ensures
        heard(told.push(t)) == heard(told) + match t {
            Told::Data(data) => data,
            _ => Seq::empty(),
        },
{
    assert(told.push(t).drop_last() =~= told);
}

/// One frame brings a delegate the data that the frame carries on its stream, if the frame is
/// taken.
proof fn one_frame_heard(s: SessionView, f: Seq<u8>, id: StreamId)
    requires
        takes(s, received(f)),
        s.streams.contains_key(id),
    ensures
        handed(s, received(f)).streams.contains_key(id),
        heard(handed(s, received(f)).streams[id].told) == heard(s.streams[id].told) + data_on(
            seq![f],
            id,
        ),
        s.streams[id].state is Closed ==> handed(s, received(f)).streams[id].state is Closed,
        (f[3] == DATA || f[3] == HEADERS) && stream_of(f) == id && f[4] & 0x1 != 0 ==> handed(
            s,
            received(f),
        ).streams[id].state is Closed,
{
    let told = s.streams[id].told;
    let brought = data_on(seq![f], id);
    assert(brought == if f[3] == DATA && stream_of(f) == id {
        unpadded(f)
    } else {
        Seq::empty()
    }) by {
        let none = Seq::<Seq<u8>>::empty();
        assert(seq![f].drop_last() =~= none);
        assert(data_on(none, id) == Seq::<u8>::empty());
        assert(Seq::<u8>::empty() + unpadded(f) =~= unpadded(f));
        assert(Seq::<u8>::empty() + Seq::<u8>::empty() =~= Seq::<u8>::empty());
    }
    assert(stream_of(f) <= u32::MAX);
    if (f[3] == DATA || f[3] == HEADERS) && stream_of(f) as StreamId == id {
        let t = carried(s, f);
        heard_more(told, t);
        heard_more(told.push(t), Told::State(StreamState::Closed));
        assert(heard(handed(s, received(f)).streams[id].told) =~= heard(told) + brought);
    } else {
        assert(heard(told) + brought =~= heard(told));
    }
}

/// The data that comes in on a stream reaches the delegate of that stream, all of it and in
/// order, and no other data does.
pub proof fn data_reaches_its_delegate(
    s: SessionView,
    fs: Seq<Seq<u8>>,
    n: int,
    id: StreamId,
)
    requires
        0 <= n <= fs.len(),
        takes_first(s, fs, n),
        s.streams.contains_key(id),
    ensures
        after_frames(s, fs, n).streams.contains_key(id),
        heard(after_frames(s, fs, n).streams[id].told) == heard(s.streams[id].told) + data_on(
            fs.take(n),
            id,
        ),
    decreases n,
{
    if n == 0 {
        assert(heard(s.streams[id].told) + data_on(fs.take(0), id) =~= heard(s.streams[id].told));
    } else {
        let f = fs[n - 1];
        data_reaches_its_delegate(s, fs, n - 1, id);
        one_frame_heard(after_frames(s, fs, n - 1), f, id);
        assert(fs.take(n) =~= fs.take(n - 1) + seq![f]);
        data_on_both(fs.take(n - 1), seq![f], id);
        assert(heard(after_frames(s, fs, n).streams[id].told) =~= heard(s.streams[id].told)
            + data_on(fs.take(n), id));
    }
}

/// No stream joins or leaves the session with the frames that it is handed.
pub proof fn frames_keep_streams(s: SessionView, fs: Seq<Seq<u8>>, n: int)
    ensures
        after_frames(s, fs, n).streams.dom() == s.streams.dom(),
    decreases n,
{
    if n > 0 {
        frames_keep_streams(s, fs, n - 1);
        assert(after_frames(s, fs, n).streams.dom() =~= after_frames(
            s,
            fs,
            n - 1,
        ).streams.dom());
    }
}

/// A stream that is closed stays closed.
proof fn frames_keep_closed(s: SessionView, fs: Seq<Seq<u8>>, m: int, n: int, id: StreamId)
    requires
        0 <= m <= n <= fs.len(),
        takes_first(s, fs, n),
        after_frames(s, fs, m).streams.contains_key(id),
        after_frames(s, fs, m).streams[id].state is Closed,
    ensures
        after_frames(s, fs, n).streams.contains_key(id),
        after_frames(s, fs, n).streams[id].state is Closed,
    decreases n,
{
    if n > m {
        frames_keep_closed(s, fs, m, n - 1, id);
        assert(takes(after_frames(s, fs, n - 1), received(fs[n - 1])));
        one_frame_heard(after_frames(s, fs, n - 1), fs[n - 1], id);
    }
}

/// A stream that the peer ends is let go of with the frames that ended it, and so its delegate is
/// told nothing more.
pub proof fn ended_stream_is_let_go(
    before: SessionView,
    buf: Seq<u8>,
    out: Seq<Seq<u8>>,
    n: usize,
    after: SessionView,
    k: int,
)
    requires
        took_frames(before, buf, out, Ok(n), after),
        0 <= k < frames(buf).len(),
        frames(buf)[k][3] == DATA || frames(buf)[k][3] == HEADERS,
        frames(buf)[k][4] & 0x1 != 0,
    ensures
        !after.streams.contains_key(stream_of(frames(buf)[k]) as StreamId),
{
    let fs = frames(buf);
    let f = fs[k];
    let id = stream_of(f) as StreamId;
    let last = fs.len() as int;
    frames_keep_streams(before, fs, last);
    frames_keep_streams(before, fs, k);
    assert(takes(after_frames(before, fs, k), received(f)));
    assert(stream_of(f) <= u32::MAX);
    if before.streams.contains_key(id) {
        assert(after_frames(before, fs, k).streams.contains_key(id));
        one_frame_heard(after_frames(before, fs, k), f, id);
        frames_keep_closed(before, fs, k + 1, last, id);
    }
}

/// After a read that went well, no stream that is closed is held.
pub proof fn no_closed_stream_is_held(
    before: SessionView,
    buf: Seq<u8>,
    out: Seq<Seq<u8>>,
    n: usize,
    after: SessionView,
    id: StreamId,
)
    requires
        took_frames(before, buf, out, Ok(n), after),
        after.streams.contains_key(id),
    ensures
        !(after.streams[id].state is Closed),
{
}

/// Where the session refuses a frame is settled.
proof fn refuses_at_one_place(s: SessionView, fs: Seq<Seq<u8>>, j: int, k: int)
    requires
        refuses_at(s, fs, j),
        refuses_at(s, fs, k),
    ensures
        j == k,
{
    if j < k {
        assert(takes(after_frames(s, fs, j), received(fs[j])));
    } else if k < j {
        assert(takes(after_frames(s, fs, k), received(fs[k])));
    }
}

/// What becomes of what comes in is settled by what comes in and by the session as it was: the
/// answer, what is sent, and the session as it is afterwards.
pub proof fn reading_is_settled(
    before: SessionView,
    buf: Seq<u8>,
    out1: Seq<Seq<u8>>,
    r1: Result<usize, ()>,
    after1: SessionView,
    out2: Seq<Seq<u8>>,
    r2: Result<usize, ()>,
    after2: SessionView,
)
    requires
        took_frames(before, buf, out1, r1, after1),
        took_frames(before, buf, out2, r2, after2),
    ensures
        r1 is Ok <==> r2 is Ok,
        r1 is Ok ==> r1 == r2,
        out1 == out2,
        after1 == after2,
{
    let fs = frames(buf);
    if r1 is Err {
        let k = choose|k: int| #[trigger]
            refuses_at(before, fs, k) && out1 == all_replies(fs.take(k + 1)) && after1
                == after_frames(before, fs, k + 1);
        if r2 is Ok {
            assert(takes(after_frames(before, fs, k), received(fs[k])));
        } else {
            let j = choose|j: int| #[trigger]
                refuses_at(before, fs, j) && out2 == all_replies(fs.take(j + 1)) && after2
                    == after_frames(before, fs, j + 1);
            refuses_at_one_place(before, fs, j, k);
        }
    } else if r2 is Err {
        let j = choose|j: int| #[trigger] refuses_at(before, fs, j);
        assert(takes(after_frames(before, fs, j), received(fs[j])));
    }
}

/// The stream with the given number, as the session of a connection holds it.
pub open spec fn stream_on<S>(c: ConnectionView<Http2, S>, id: StreamId) -> Option<StreamView> {
    if c.protocol@.session.streams.contains_key(id) {
        Some(c.protocol@.session.streams[id])
    } else {
        None
    }
}

/// One read that went well: it leaves nothing but the beginning of a frame, and brings a delegate
/// the data that came in on its stream.
proof fn one_read<S>(
    c: ConnectionView<Http2, S>,
    data: Vec<u8>,
    d: ConnectionView<Http2, S>,
    id: StreamId,
)
    requires
        was_read(c, ReadOutcome::Received(data), d, Ok(())),
        first_frame(c.buf) is None,
    ensures
        d.buf == rest(c.buf + data@),
        stream_on(d, id) is Some ==> stream_on(c, id) is Some && heard(stream_on(d, id)->0.told)
            == heard(stream_on(c, id)->0.told) + data_on(frames(c.buf + data@), id),
{
    let all = c.buf + data@;
    if data@.len() == 0 {
        assert(all =~= c.buf);
        if stream_on(d, id) is Some {
            assert(heard(stream_on(c, id)->0.told) + data_on(frames(all), id) =~= heard(
                stream_on(c, id)->0.told,
            ));
        }
    } else {
        let before = c.protocol@.session;
        let fs = frames(all);
        let last = fs.len() as int;
        frames_and_rest_are_all(all);
        rest_has_no_frame(all);
        assert(all.skip(all.len() - rest(all).len()) =~= rest(all));
        frames_keep_streams(before, fs, last);
        if stream_on(d, id) is Some {
            assert(after_frames(before, fs, last).streams.contains_key(id));
            assert(before.streams.dom().contains(id));
            data_reaches_its_delegate(before, fs, last, id);
            assert(fs.take(last) =~= fs);
        }
    }
}

/// Reads that follow one another on a connection that speaks HTTP/2, all of which went well. `cs`
/// is what the connection was before each of them and after the last.
pub open spec fn read_run<S>(
    cs: Seq<ConnectionView<Http2, S>>,
    chunks: Seq<Vec<u8>>,
) -> bool {
    &&& cs.len() == chunks.len() + 1
    &&& forall|i: int|
        0 <= i < chunks.len() ==> was_read(
            cs[i],
            ReadOutcome::Received(#[trigger] chunks[i]),
            cs[i + 1],
            Ok(()),
        )
}

/// However the bytes that the peer sent are cut into reads, the delegate of a stream is told of
/// the data that the frames in all of these bytes carry on its stream, and what waits to be
/// completed is what is left behind all of these frames.
pub proof fn body_arrives_whatever_the_cuts<S>(
    cs: Seq<ConnectionView<Http2, S>>,
    chunks: Seq<Vec<u8>>,
    n: nat,
    id: StreamId,
)
    requires
        read_run(cs, chunks),
        n <= chunks.len(),
        first_frame(cs[0].buf) is None,
    ensures
        cs[n as int].buf == rest(cs[0].buf + came_in(chunks, n)),
        stream_on(cs[n as int], id) is Some ==> stream_on(cs[0], id) is Some && heard(
            stream_on(cs[n as int], id)->0.told,
        ) == heard(stream_on(cs[0], id)->0.told) + data_on(
            frames(cs[0].buf + came_in(chunks, n)),
            id,
        ),
    decreases n,
{
    let start = cs[0].buf;
    if n == 0 {
        assert(start + came_in(chunks, 0) =~= start);
        if stream_on(cs[0], id) is Some {
            assert(heard(stream_on(cs[0], id)->0.told) + data_on(frames(start), id) =~= heard(
                stream_on(cs[0], id)->0.told,
            ));
        }
    } else {
        let i = n - 1;
        let sofar = start + came_in(chunks, i as nat);
        body_arrives_whatever_the_cuts(cs, chunks, i as nat, id);
        rest_has_no_frame(sofar);
        assert(was_read(cs[i], ReadOutcome::Received(chunks[i]), cs[i + 1], Ok(())));
        one_read(cs[i], chunks[i], cs[n as int], id);
        cuts_do_not_matter(sofar, chunks[i]@);
        assert(start + came_in(chunks, n) =~= sofar + chunks[i]@);
        data_on_both(frames(sofar), frames(rest(sofar) + chunks[i]@), id);
        if stream_on(cs[n as int], id) is Some {
            assert(heard(stream_on(cs[n as int], id)->0.told) =~= heard(
                stream_on(cs[0], id)->0.told,
            ) + data_on(frames(start + came_in(chunks, n)), id));
        }
    }
}

/// Only what comes in tells a delegate of data: asking the streams for something to write does
/// not.
pub proof fn turns_bring_no_data(
    pre: Http2,
    token: Token,
    post: Http2,
    out: Seq<Seq<u8>>,
    id: StreamId,
)
    requires
        Http2::took_turn(pre, token, post, out),
        pre@.session.streams.contains_key(id),
    ensures
        post@.session.streams.contains_key(id),
        heard(post@.session.streams[id].told) == heard(pre@.session.streams[id].told),
{
    if pre@.init {
        let before = pre@.session.streams[id];
        let after = post@.session.streams[id];
        let gave = choose|gave: Option<(StreamId, Seq<u8>, bool)>| #[trigger]
            data_frames(out, gave) && asked_in_turn(
                pre@.session.streams,
                post@.session.streams,
                gave,
            );
        assert(post@.session.streams.dom().contains(id));
        assert forall|what: Option<(Seq<u8>, bool)>| heard(
            #[trigger] before.told.push(Told::Asked(what)),
        ) == heard(before.told) by {
            heard_more(before.told, Told::Asked(what));
            assert(heard(before.told) + Seq::<u8>::empty() =~= heard(before.told));
        }
        let asked = before.told.push(Told::Asked(None));
        heard_more(asked, Told::State(after.state));
        assert(heard(asked) + Seq::<u8>::empty() =~= heard(asked));
    }
}

/// Nor does the start of another request.
pub proof fn requests_bring_no_data(
    pre: Http2,
    token: Token,
    msg: HttpMsg,
    post: Http2,
    out: Seq<Seq<u8>>,
    r: Result<(), ()>,
    id: StreamId,
)
    requires
        Http2::took_message(pre, token, msg, post, out, r),
        pre@.session.streams.contains_key(id),
        id != pre@.next_stream_id,
    ensures
        post@.session.streams.contains_key(id),
        post@.session.streams[id] == pre@.session.streams[id],
{
}

/// How many of the given frames are settings of the peer.
pub open spec fn settings_among(fs: Seq<Seq<u8>>) -> nat
    decreases fs.len(),
{
    if fs.len() == 0 {
        0
    } else {
        settings_among(fs.drop_last()) + if fs.last()[3] == SETTINGS && decodes(fs.last())
            && fs.last()[4] & 0x1 == 0 {
            1nat
        } else {
            0
        }
    }
}

/// Every time the peer sends its settings, they are acknowledged once, and nothing else that
/// comes in is answered.
pub proof fn settings_are_acknowledged(fs: Seq<Seq<u8>>)
    ensures
        all_replies(fs) == Seq::new(settings_among(fs), |i: int| settings_ack()),
    decreases fs.len(),
{
    if fs.len() > 0 {
        settings_are_acknowledged(fs.drop_last());
        let f = fs.last();
        assert(f[3] == SETTINGS ==> received(f) == Some(f));
        assert(f[3] != SETTINGS ==> replies(f) == Seq::<Seq<u8>>::empty());
    }
    assert(all_replies(fs) =~= Seq::new(settings_among(fs), |i: int| settings_ack()));
}

} // verus!
