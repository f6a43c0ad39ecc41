//! What the protocol sends, octet by octet, and to whom it turns.
use vstd::prelude::*;
use vstd::string::*;
use solicit::http::session::StreamState;
use solicit::http::{Header, StreamId};
use crate::delegate::{headers_of, Delegate, Headers, StreamView, Told};
use crate::evtloop::{Protocol, Token};
use crate::h2::{client_preface, pseudo_headers, Http2, HttpMsg};
use crate::laws::frames::{one_frame, spelled};
use crate::session::{
    asked_for_data, asked_in_turn, data_frames, encoded, is_data_frame, is_headers_frame, let_go,
    requested, sent_data, RequestStream, SessionView,
};

verus! {

/// What a client has to say first: the words that no other protocol begins with, and a SETTINGS
/// frame that says that nothing may be pushed to it.
pub open spec fn opening() -> Seq<u8> {
    "PRI * HTTP/2.0\r\n\r\nSM\r\n\r\n".spec_bytes() + seq![
        0u8, 0, 6, 4, 0, 0, 0, 0, 0, 0, 2, 0, 0, 0, 0,
    ]
}

/// The preface is those words and that frame.
pub proof fn preface_is_the_opening()
    ensures
        client_preface() == opening(),
{
    reveal_strlit("PRI * HTTP/2.0\r\n\r\nSM\r\n\r\n");
    let words = "PRI * HTTP/2.0\r\n\r\nSM\r\n\r\n";
    assert(words.is_ascii());
    is_ascii_spec_bytes(words);
    assert(client_preface() =~= opening());
}

/// The headers of a request with the given method and path.
pub open spec fn first_headers(method: Seq<u8>, path: Seq<u8>) -> Headers {
    seq![
        (":method".spec_bytes(), method),
        (":path".spec_bytes(), path),
        (":authority".spec_bytes(), "http2bin.org".spec_bytes()),
        (":scheme".spec_bytes(), "http".spec_bytes()),
    ]
}

/// Every request begins with its method, its path, whom it is for, and the scheme, in this order.
pub proof fn requests_begin_alike(method: Seq<u8>, path: Seq<u8>)
    ensures
        pseudo_headers(method, path) == first_headers(method, path),
{
}

/// Headers are their names and values, one for one and in order.
pub proof fn headers_are_names_and_values(headers: Seq<Header>)
    ensures
        headers_of(headers).len() == headers.len(),
        forall|i: int|
            0 <= i < headers.len() ==> (#[trigger] headers_of(headers)[i]).0 == headers[i].0@
                && headers_of(headers)[i].1 == headers[i].1@,
{
}

/// No more data goes out on a stream in this state.
pub open spec fn near_end_closed(state: StreamState) -> bool {
    state == StreamState::HalfClosedLocal || state == StreamState::Closed
}

/// The nine octets of a frame say how long it is, of what type, and on which stream. A length that
/// does not fit into three octets is cut.
pub open spec fn headed(f: Seq<u8>, kind: u8, id: StreamId) -> bool {
    &&& f.len() >= 9
    &&& f[0] * 65536 + f[1] * 256 + f[2] == (f.len() - 9) % 16777216
    &&& f[3] == kind
    &&& spelled(f) == id
}

/// A HEADERS frame carries its header block and nothing else. It says that its headers are
/// complete, and whether the stream is.
pub proof fn headers_frames_spelled_out(f: Seq<u8>, id: StreamId, block: Seq<u8>, end: bool)
    ensures
        is_headers_frame(f, id, block, end) <==> headed(f, 1, id) && f.skip(9) == block && f[4]
            == if end {
            5int
        } else {
            4
        },
{
}

/// A DATA frame carries its data and nothing else. It says whether the stream is complete.
pub proof fn data_frames_spelled_out(f: Seq<u8>, id: StreamId, data: Seq<u8>, last: bool)
    ensures
        is_data_frame(f, id, data, last) <==> headed(f, 0, id) && f.skip(9) == data && f[4]
            == if last {
            1int
        } else {
            0
        },
{
}

/// The session holds the stream of a request from its start on, under the number that the stream
/// has, and remembers the headers that it sent. The delegate is told which number that is. All
/// other streams stay as they are.
pub proof fn started_request_is_held(s: SessionView, req: RequestStream)
    ensures
        requested(s, req).blocks == s.blocks,
        requested(s, req).lists == s.lists.push(headers_of(req.headers@)),
        requested(s, req).streams == s.streams.insert(
            req.stream.spec_id(),
            StreamView {
                state: req.stream@.state,
                told: req.stream@.told.push(Told::Started(req.stream.spec_id())),
            },
        ),
{
}

/// A session lets go of the streams that are closed, and of no others.
pub proof fn only_closed_streams_are_let_go(s: SessionView, id: StreamId)
    ensures
        let_go(s).streams.contains_key(id) <==> s.streams.contains_key(id) && s.streams[id].state
            != StreamState::Closed,
        let_go(s).streams.contains_key(id) ==> let_go(s).streams[id] == s.streams[id],
        let_go(s).blocks == s.blocks,
        let_go(s).lists == s.lists,
{
}

/// A new protocol has sent nothing, holds no stream, and begins with stream one.
pub proof fn new_protocol_is_blank(token: Token, p: Http2)
    requires
        Http2::opened(token, p),
    ensures
        !p@.init,
        p@.next_stream_id == 1,
        p@.session.streams == Map::<StreamId, StreamView>::empty(),
        p@.session.blocks.len() == 0,
        p@.session.lists.len() == 0,
{
}

/// As long as there are numbers for two more streams, a request that the protocol is asked for goes
/// out: on the next stream, behind the preface where that has not been sent, in one HEADERS frame
/// with just the headers that every request has. The session holds the stream from then on, and
/// the stream after it gets the next odd number.
pub proof fn request_goes_out(
    pre: Http2,
    token: Token,
    delegate: Delegate,
    post: Http2,
    out: Seq<Seq<u8>>,
    r: Result<(), ()>,
)
    requires
        pre@.next_stream_id <= 4294967293,
        Http2::took_message(pre, token, HttpMsg::NewStream(delegate), post, out, r),
    ensures
        r is Ok,
        post@.init,
        post@.next_stream_id == pre@.next_stream_id + 2,
        post@.session.blocks == pre@.session.blocks,
        post@.session.lists == pre@.session.lists.push(
            first_headers("POST".spec_bytes(), "/post".spec_bytes()),
        ),
        post@.session.streams == pre@.session.streams.insert(
            pre@.next_stream_id,
            StreamView {
                state: delegate@.state,
                told: delegate@.told.push(Told::Started(pre@.next_stream_id)),
            },
        ),
        out.len() == if pre@.init {
            1nat
        } else {
            2
        },
        !pre@.init ==> out[0] == opening(),
        headed(out.last(), 1, pre@.next_stream_id),
        out.last().skip(9) == encoded(post@.session.lists),
        out.last()[4] == if near_end_closed(delegate@.state) {
            5int
        } else {
            4
        },
{
    preface_is_the_opening();
    if !pre@.init {
        assert(out.drop_last()[0] == out[0]);
    }
}

/// A request for which there is no number fails, and nothing but the preface goes out, where that
/// has not been sent. No stream is touched.
pub proof fn request_without_number_fails(
    pre: Http2,
    token: Token,
    msg: HttpMsg,
    post: Http2,
    out: Seq<Seq<u8>>,
    r: Result<(), ()>,
)
    requires
        pre@.next_stream_id > 4294967293,
        Http2::took_message(pre, token, msg, post, out, r),
    ensures
        r is Err,
        post@.init,
        post@.next_stream_id == pre@.next_stream_id,
        post@.session == pre@.session,
        out == if pre@.init {
            Seq::<Seq<u8>>::empty()
        } else {
            seq![opening()]
        },
{
    preface_is_the_opening();
}

/// The first turn of a protocol that has not said anything is the preface, and nothing else
/// happens.
pub proof fn first_turn_is_the_opening(
    pre: Http2,
    token: Token,
    post: Http2,
    out: Seq<Seq<u8>>,
)
    requires
        !pre@.init,
        Http2::took_turn(pre, token, post, out),
    ensures
        out == seq![opening()],
        post@.init,
        post@.next_stream_id == pre@.next_stream_id,
        post@.session == pre@.session,
{
    preface_is_the_opening();
}

/// A stream was asked for data once, and gave that. If it gave nothing, it may have said that it
/// will give nothing any more, and then has heard that its end is closed.
pub open spec fn asked_once(
    before: StreamView,
    after: StreamView,
    gave: Option<(Seq<u8>, bool)>,
) -> bool {
    ||| after.told == before.told + seq![Told::Asked(gave)]
    ||| gave is None && near_end_closed(after.state) && after.told == before.told + seq![
        Told::Asked(None),
        Told::State(after.state),
    ]
}

/// `f` is a DATA frame on the given stream, with the data that the stream gave when it was asked,
/// which is no more than 8192 octets, and all of it.
pub open spec fn frame_given_by(
    f: Seq<u8>,
    id: StreamId,
    before: StreamView,
    after: StreamView,
) -> bool {
    &&& !near_end_closed(before.state)
    &&& headed(f, 0, id)
    &&& one_frame(f)
    &&& f.len() <= 9 + 8192
    &&& f[4] == 0 || f[4] == 1
    &&& after.told == before.told + seq![Told::Asked(Some((f.skip(9), f[4] == 1)))]
}

/// The data that goes out when the streams of a session are asked: one frame at most, which holds
/// what one of them gave. Streams whose near end is closed are not asked, all others are asked
/// once at most, and none gave anything but that one. Nothing else changes.
pub proof fn data_goes_out(before: SessionView, after: SessionView, sent: Seq<Seq<u8>>)
    requires
        sent_data(before, after, sent),
    ensures
        after.blocks == before.blocks,
        after.lists == before.lists,
        after.streams.dom() == before.streams.dom(),
        sent.len() <= 1,
        sent.len() == 1 ==> exists|id: StreamId| #[trigger]
            before.streams.contains_key(id) && frame_given_by(
                sent[0],
                id,
                before.streams[id],
                after.streams[id],
            ),
        forall|id: StreamId| #[trigger]
            before.streams.contains_key(id) ==> after.streams[id] == before.streams[id] || (
            !near_end_closed(before.streams[id].state) && (asked_once(
                before.streams[id],
                after.streams[id],
                None,
            ) || (sent.len() == 1 && frame_given_by(
                sent[0],
                id,
                before.streams[id],
                after.streams[id],
            )))),
        asked_for_data(before, 8192, true) || asked_for_data(before, 8192, false),
{
    let gave = choose|gave: Option<(StreamId, Seq<u8>, bool)>| #[trigger]
        data_frames(sent, gave) && asked_in_turn(before.streams, after.streams, gave) && (gave
            matches Some((_, data, _)) ==> data.len() <= 8192);
    assert forall|id: StreamId| #[trigger] before.streams.contains_key(id) implies
        after.streams[id] == before.streams[id] || (!near_end_closed(before.streams[id].state) && (
    asked_once(before.streams[id], after.streams[id], None) || (sent.len() == 1
        && frame_given_by(sent[0], id, before.streams[id], after.streams[id])))) by {
        let told = before.streams[id].told;
        told_more(told, Told::Asked(None), Told::State(after.streams[id].state));
        if let Some((_, data, last)) = gave {
            told_more(told, Told::Asked(Some((data, last))), Told::Asked(None));
        }
    }
    if let Some((id, data, last)) = gave {
        assert(before.streams.contains_key(id));
        told_more(before.streams[id].told, Told::Asked(Some((data, last))), Told::Asked(None));
        assert(frame_given_by(sent[0], id, before.streams[id], after.streams[id]));
    }
}

/// One thing after another was told.
proof fn told_more(told: Seq<Told>, first: Told, second: Told)
    ensures
        told.push(first) == told + seq![first],
        told.push(first).push(second) == told + seq![first, second],
{
    assert(told.push(first) =~= told + seq![first]);
    assert(told.push(first).push(second) =~= told + seq![first, second]);
}

/// Nobody is passed over: where data can go out on some stream, some such stream is asked for it.
/// And where nothing goes out in the end, every such stream was asked and had nothing, unless one
/// of them failed.
pub proof fn open_streams_are_asked(
    before: SessionView,
    after: SessionView,
    sent: Seq<Seq<u8>>,
    open: StreamId,
)
    requires
        sent_data(before, after, sent),
        before.streams.contains_key(open),
        !near_end_closed(before.streams[open].state),
    ensures
        exists|id: StreamId| #[trigger]
            before.streams.contains_key(id) && !near_end_closed(before.streams[id].state)
                && after.streams[id].told.len() > before.streams[id].told.len(),
        sent.len() == 0 ==> asked_for_data(before, 8192, false) || asked_once(
            before.streams[open],
            after.streams[open],
            None,
        ),
{
    data_goes_out(before, after, sent);
    told_more(
        before.streams[open].told,
        Told::Asked(None),
        Told::State(after.streams[open].state),
    );
}

/// Once the preface has been sent, a turn is for the streams: where data can go out on some of
/// them, at least one such stream is asked for it; what it gives goes out, in one DATA frame; and
/// where nothing goes out, every such stream was asked and had nothing, unless one of them failed.
/// All the rest stays as it is.
pub proof fn turn_is_for_the_streams(
    pre: Http2,
    token: Token,
    post: Http2,
    out: Seq<Seq<u8>>,
)
    requires
        pre@.init,
        Http2::took_turn(pre, token, post, out),
    ensures
        post@.init,
        post@.next_stream_id == pre@.next_stream_id,
        post@.session.blocks == pre@.session.blocks,
        post@.session.lists == pre@.session.lists,
        post@.session.streams.dom() == pre@.session.streams.dom(),
        sent_data(pre@.session, post@.session, out),
        out.len() <= 1,
        out.len() == 1 ==> exists|id: StreamId| #[trigger]
            pre@.session.streams.contains_key(id) && frame_given_by(
                out[0],
                id,
                pre@.session.streams[id],
                post@.session.streams[id],
            ),
        forall|open: StreamId| #[trigger]
            pre@.session.streams.contains_key(open) && !near_end_closed(
                pre@.session.streams[open].state,
            ) ==> some_stream_asked(pre@.session, post@.session),
        out.len() == 0 ==> asked_for_data(pre@.session, 8192, false) || forall|open: StreamId|
         #[trigger]
            pre@.session.streams.contains_key(open) && !near_end_closed(
                pre@.session.streams[open].state,
            ) ==> asked_once(
                pre@.session.streams[open],
                post@.session.streams[open],
                None,
            ),
{
    let before = pre@.session;
    let after = post@.session;
    data_goes_out(before, after, out);
    assert forall|open: StreamId| #[trigger]
        before.streams.contains_key(open) && !near_end_closed(
            before.streams[open].state,
        ) implies some_stream_asked(before, after) && (out.len() == 0 ==> asked_for_data(
        before,
        8192,
        false,
    ) || asked_once(before.streams[open], after.streams[open], None)) by {
        open_streams_are_asked(before, after, out, open);
    }
}

/// Some stream on which data can go out was told or asked something.
pub open spec fn some_stream_asked(before: SessionView, after: SessionView) -> bool {
    exists|id: StreamId| #[trigger]
        before.streams.contains_key(id) && !near_end_closed(before.streams[id].state)
            && after.streams[id].told.len() > before.streams[id].told.len()
}

} // verus!
