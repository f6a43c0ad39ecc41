//! What a client that speaks HTTP/2 sends over the lifetime of its connection.
use vstd::prelude::*;
use solicit::http::StreamId;
use crate::delegate::closed_local;
use crate::evtloop::{Protocol, Token};
use crate::frames::{frames, DATA};
use crate::h2::{
    after_frames, all_replies, client_preface, greeting, has_next, refuses_at, Http2, HttpMsg,
};
use crate::laws::reading::{frames_keep_streams, settings_are_acknowledged};
use crate::session::{
    asked_in_turn, data_frames, is_frame_on, sent_data, settings_ack, SessionView,
};

verus! {

/// What can happen to the protocol.
pub enum Event {
    /// It was shown what came in, and gave that answer.
    Data(Seq<u8>, Result<usize, ()>),
    /// It was asked for something to write.
    Turn,
    /// It was sent a message, and gave that answer.
    Message(HttpMsg, Result<(), ()>),
}

/// The event turned the protocol from `p` into `q`, and `out` was queued.
pub open spec fn happened(p: Http2, token: Token, e: Event, q: Http2, out: Seq<Seq<u8>>) -> bool {
    match e {
        Event::Data(buf, r) => Http2::took_data(p, token, buf, q, out, r),
        Event::Turn => Http2::took_turn(p, token, q, out),
        Event::Message(msg, r) => Http2::took_message(p, token, msg, q, out, r),
    }
}

/// The life of a connection up to some point. `ps` is what the protocol was before each event and
/// after the last, `outs` what was queued with each of them.
pub open spec fn life(
    token: Token,
    ps: Seq<Http2>,
    es: Seq<Event>,
    outs: Seq<Seq<Seq<u8>>>,
) -> bool {
    &&& ps.len() == es.len() + 1
    &&& outs.len() == es.len()
    &&& Http2::opened(token, ps[0])
    &&& forall|i: int|
        0 <= i < es.len() ==> happened(ps[i], token, #[trigger] es[i], ps[i + 1], outs[i])
}

/// The first `n` events gave the client no occasion to speak of its own accord.
pub open spec fn silent(es: Seq<Event>, n: int) -> bool {
    forall|i: int| 0 <= i < n ==> (#[trigger] es[i]) is Data
}

/// How many of the first `n` events were requests that were sent.
pub open spec fn requests(es: Seq<Event>, n: int) -> nat
    decreases n,
{
    if n <= 0 {
        0
    } else {
        requests(es, n - 1) + if es[n - 1] matches Event::Message(_, r) && r is Ok {
            1nat
        } else {
            0
        }
    }
}

/// The preface has been sent as soon as the client had an occasion to speak.
proof fn init_after_first_word(
    token: Token,
    ps: Seq<Http2>,
    es: Seq<Event>,
    outs: Seq<Seq<Seq<u8>>>,
    n: int,
)
    requires
        life(token, ps, es, outs),
        0 <= n <= es.len(),
    ensures
        ps[n]@.init <==> !silent(es, n),
    decreases n,
{
    if n > 0 {
        init_after_first_word(token, ps, es, outs, n - 1);
        assert(happened(ps[n - 1], token, es[n - 1], ps[n - 1 + 1], outs[n - 1]));
        if silent(es, n - 1) && es[n - 1] is Data {
            assert(silent(es, n));
        }
        if silent(es, n) {
            assert(silent(es, n - 1));
            assert(es[n - 1] is Data);
        }
    }
}

/// What the client sends of its own accord begins with the preface, and the preface is sent that
/// once: among all frames that are ever queued, the preface is the first one of the first
/// occasion on which the client may speak, and no other.
pub proof fn preface_first_and_once(
    token: Token,
    ps: Seq<Http2>,
    es: Seq<Event>,
    outs: Seq<Seq<Seq<u8>>>,
    i: int,
    k: int,
)
    requires
        life(token, ps, es, outs),
        0 <= i < es.len(),
    ensures
        !(es[i] is Data) && silent(es, i) ==> outs[i].len() > 0,
        0 <= k < outs[i].len() ==> (outs[i][k] == client_preface() <==> k == 0 && !(es[i] is Data)
            && silent(es, i)),
{
    let p = ps[i];
    let out = outs[i];
    init_after_first_word(token, ps, es, outs, i);
    assert(happened(p, token, es[i], ps[i + 1], out));
    // No frame has a type that its fourth octet in the preface would stand for.
    assert(client_preface()[3] == 0x20);
    match es[i] {
        Event::Data(buf, r) => {
            assert forall|fs: Seq<Seq<u8>>, j: int|
                0 <= j < all_replies(fs).len() implies (
            #[trigger] all_replies(fs)[j])[3] == 4 by {
                settings_are_acknowledged(fs);
                assert(settings_ack()[3] == 4);
            }
            assert(0 <= k < out.len() ==> out[k][3] == 4);
        },
        Event::Turn => {
            if p@.init {
                assert(out.len() > 0 ==> out[0][3] == 0);
            } else {
                assert(out =~= seq![client_preface()]);
            }
        },
        Event::Message(msg, r) => {
            if has_next(p@.next_stream_id) {
                assert(out.last()[3] == 1);
                assert(out =~= greeting(p@.init).push(out.last()));
            }
        },
    }
}

/// The streams of a client have odd numbers, from one on, each of which is used once: the number
/// of the next stream says how many requests were sent, and every stream that is held has an odd
/// number below it.
pub proof fn streams_are_numbered_in_order(
    token: Token,
    ps: Seq<Http2>,
    es: Seq<Event>,
    outs: Seq<Seq<Seq<u8>>>,
    n: int,
)
    requires
        life(token, ps, es, outs),
        0 <= n <= es.len(),
    ensures
        ps[n]@.next_stream_id == 1 + 2 * requests(es, n),
        forall|id: StreamId| #[trigger]
            ps[n]@.session.streams.contains_key(id) ==> id % 2 == 1 && id < ps[n]@.next_stream_id,
    decreases n,
{
    if n > 0 {
        streams_are_numbered_in_order(token, ps, es, outs, n - 1);
        let p = ps[n - 1];
        let q = ps[n];
        assert(happened(p, token, es[n - 1], ps[n - 1 + 1], outs[n - 1]));
        match es[n - 1] {
            Event::Data(buf, r) => {
                let fs = frames(buf);
                assert forall|id: StreamId| #[trigger]
                    q@.session.streams.contains_key(id) implies p@.session.streams.contains_key(
                    id,
                ) by {
                    let k = if r is Ok {
                        fs.len() as int
                    } else {
                        1 + choose|k: int| #[trigger]
                            refuses_at(p@.session, fs, k) && q@.session == after_frames(
                                p@.session,
                                fs,
                                k + 1,
                            )
                    };
                    frames_keep_streams(p@.session, fs, k);
                    assert(after_frames(p@.session, fs, k).streams.dom().contains(id));
                }
            },
            Event::Turn => {
                assert forall|id: StreamId| #[trigger]
                    q@.session.streams.contains_key(id) implies p@.session.streams.contains_key(
                    id,
                ) by {
                    if p@.init {
                        assert(q@.session.streams.dom() == p@.session.streams.dom());
                        assert(q@.session.streams.dom().contains(id));
                    }
                }
            },
            Event::Message(msg, r) => {},
        }
    }
}

/// A new request never takes the place of a stream that is held.
pub proof fn requests_get_fresh_streams(
    token: Token,
    ps: Seq<Http2>,
    es: Seq<Event>,
    outs: Seq<Seq<Seq<u8>>>,
    i: int,
)
    requires
        life(token, ps, es, outs),
        0 <= i < es.len(),
    ensures
        !ps[i]@.session.streams.contains_key(ps[i]@.next_stream_id),
{
    streams_are_numbered_in_order(token, ps, es, outs, i);
}

/// Two requests that were sent are on streams with different numbers, the later of which has the
/// higher one.
pub proof fn later_requests_have_higher_numbers(
    token: Token,
    ps: Seq<Http2>,
    es: Seq<Event>,
    outs: Seq<Seq<Seq<u8>>>,
    i: int,
    j: int,
)
    requires
        life(token, ps, es, outs),
        0 <= i < j < es.len(),
        es[i] matches Event::Message(_, r) && r is Ok,
        es[j] matches Event::Message(_, r) && r is Ok,
    ensures
        ps[i]@.next_stream_id < ps[j]@.next_stream_id,
{
    streams_are_numbered_in_order(token, ps, es, outs, i);
    streams_are_numbered_in_order(token, ps, es, outs, j);
    requests_add_up(es, i + 1, j);
}

/// More events bring no fewer requests.
proof fn requests_add_up(es: Seq<Event>, m: int, n: int)
    requires
        0 <= m <= n <= es.len(),
    ensures
        requests(es, m) <= requests(es, n),
    decreases n,
{
    if m < n {
        requests_add_up(es, m, n - 1);
    }
}

/// A stream whose end is closed is not asked for data any more, and no data goes out on it.
pub proof fn closed_ends_send_nothing(
    before: SessionView,
    after: SessionView,
    sent: Seq<Seq<u8>>,
    id: StreamId,
)
    requires
        sent_data(before, after, sent),
        before.streams.contains_key(id),
        closed_local(before.streams[id].state),
    ensures
        after.streams[id] == before.streams[id],
        forall|i: int| 0 <= i < sent.len() ==> !is_frame_on(#[trigger] sent[i], DATA, id),
{
    let gave = choose|gave: Option<(StreamId, Seq<u8>, bool)>| #[trigger]
        data_frames(sent, gave) && asked_in_turn(before.streams, after.streams, gave);
}

} // verus!
