//! What the protocols do that are there to try things out.
use vstd::prelude::*;
use vstd::string::*;
use crate::channel::{polled, put_bytes, sent};
use crate::evtloop::{Dummy, DummyMsg, Protocol, Token};
use crate::h2o::{gathered, looked, Http2, HttpMsg};
use crate::laws::clients::bytes_are_put_whole;
use crate::simple::{Msg, Simple};
use crate::stream::{joined, ProtoStream, Stream};

verus! {

/// A protocol without rules consumes all that it is shown, takes every message, and says the same
/// every time it may say something, which is its only occasion.
pub proof fn dummy_says_hello(
    pre: Dummy,
    token: Token,
    post: Dummy,
    buf: Seq<u8>,
    out: Seq<Seq<u8>>,
    consumed: Result<usize, ()>,
    msg: DummyMsg,
    answer: Result<(), ()>,
)
    requires
        buf.len() <= usize::MAX,
    ensures
        Dummy::took_data(pre, token, buf, post, out, consumed) ==> consumed is Ok
            && consumed->Ok_0 == buf.len() && out.len() == 0,
        Dummy::took_turn(pre, token, post, out) ==> out.len() == 1 && out[0]
            == "Hello from Dummy!".spec_bytes(),
        Dummy::took_message(pre, token, msg, post, out, answer) ==> answer is Ok && out.len() == 0,
{
}

/// The least protocol consumes all that it is shown, takes every message, and never says anything.
pub proof fn simple_is_silent(
    pre: Simple,
    token: Token,
    post: Simple,
    buf: Seq<u8>,
    out: Seq<Seq<u8>>,
    consumed: Result<usize, ()>,
    msg: Msg,
    answer: Result<(), ()>,
)
    requires
        buf.len() <= usize::MAX,
    ensures
        Simple::took_data(pre, token, buf, post, out, consumed) ==> consumed is Ok
            && consumed->Ok_0 == buf.len() && out.len() == 0,
        Simple::took_turn(pre, token, post, out) ==> out.len() == 0,
        Simple::took_message(pre, token, msg, post, out, answer) ==> answer is Ok && out.len() == 0,
{
}

/// A new protocol of streams without framing has no streams and has said nothing.
pub proof fn new_protocol_has_no_streams(token: Token, p: Http2)
    requires
        Http2::opened(token, p),
    ensures
        p@.streams.len() == 0,
        !p@.init,
{
}

/// What comes in goes to the first stream as one chunk, all of it, and is consumed if that is
/// taken; without a stream it is refused. Nothing goes out, and no other stream has a part in it.
pub proof fn data_is_for_the_first_stream(
    pre: Http2,
    token: Token,
    buf: Seq<u8>,
    post: Http2,
    out: Seq<Seq<u8>>,
    r: Result<usize, ()>,
)
    requires
        Http2::took_data(pre, token, buf, post, out, r),
    ensures
        out.len() == 0,
        post@.init == pre@.init,
        post@.streams.len() == pre@.streams.len(),
        forall|i: int|
            0 < i < pre@.streams.len() ==> #[trigger] post@.streams[i] == pre@.streams[i],
        pre@.streams.len() == 0 ==> r is Err,
        pre@.streams.len() > 0 ==> {
            let before = pre@.streams[0];
            let after = post@.streams[0];
            &&& after.rx == before.rx
            &&& after.tx.end() == before.tx.end()
            &&& after.tx@.len() == before.tx@.len() + 1
            &&& after.tx@.drop_last() == before.tx@
            &&& after.tx@.last().0@ == buf
            &&& after.tx@.last().1 == (r is Ok)
            &&& r is Ok ==> r->Ok_0 == buf.len()
        },
{
    if pre@.streams.len() > 0 {
        let before = pre@.streams[0].tx;
        let after = post@.streams[0].tx;
        assert(put_bytes(before, buf, r is Ok, after));
        bytes_are_put_whole(before, buf, r is Ok, after);
        assert(after@.drop_last() =~= before@);
    }
}

/// The first turn is a greeting, and changes nothing else.
pub proof fn first_turn_is_a_greeting(pre: Http2, token: Token, post: Http2, out: Seq<Seq<u8>>)
    requires
        !pre@.init,
        Http2::took_turn(pre, token, post, out),
    ensures
        out.len() == 1,
        out[0] == "Hello from Http2".spec_bytes(),
        post@.init,
        post@.streams == pre@.streams,
{
}

/// What was found in each of the streams at the last look.
pub open spec fn found(streams: Seq<ProtoStream>) -> Seq<Option<Vec<u8>>> {
    Seq::new(streams.len(), |i: int| streams[i].rx@.last())
}

/// Every later turn looks into each stream once, and sends what it finds.
pub proof fn turn_looks_into_each_stream(
    pre: Http2,
    token: Token,
    post: Http2,
    out: Seq<Seq<u8>>,
)
    requires
        pre@.init,
        Http2::took_turn(pre, token, post, out),
    ensures
        post@.init,
        post@.streams.len() == pre@.streams.len(),
        forall|i: int|
            0 <= i < pre@.streams.len() ==> {
                &&& (#[trigger] post@.streams[i]).tx == pre@.streams[i].tx
                &&& post@.streams[i].rx.end() == pre@.streams[i].rx.end()
                &&& post@.streams[i].rx@.len() == pre@.streams[i].rx@.len() + 1
                &&& post@.streams[i].rx@.drop_last() == pre@.streams[i].rx@
                &&& polled(pre@.streams[i].rx.end(), post@.streams[i].rx@.last())
            },
        out == gathered(found(post@.streams)),
{
    let before = pre@.streams;
    let after = post@.streams;
    let got = choose|got: Seq<Option<Vec<u8>>>| #[trigger]
        looked(before, got, after) && out == gathered(got);
    assert forall|i: int| 0 <= i < before.len() implies {
        &&& (#[trigger] after[i]).rx@.drop_last() == before[i].rx@
        &&& after[i].rx@.last() == got[i]
    } by {
        assert(after[i].rx@ == before[i].rx@.push(got[i]));
        assert(after[i].rx@.drop_last() =~= before[i].rx@);
    }
    assert(found(after) =~= got);
}

/// What was found goes out chunk by chunk, in the order of the streams, each chunk as it is; where
/// nothing was found, nothing goes out.
pub proof fn chunks_go_out_as_they_are(got: Seq<Option<Vec<u8>>>, next: Option<Vec<u8>>)
    ensures
        gathered(Seq::<Option<Vec<u8>>>::empty()) == Seq::<Seq<u8>>::empty(),
        next matches Some(chunk) ==> gathered(got.push(next)) == gathered(got) + seq![chunk@],
        next is None ==> gathered(got.push(next)) == gathered(got),
{
    assert(got.push(next).drop_last() =~= got);
    if let Some(chunk) = next {
        assert(gathered(got).push(chunk@) =~= gathered(got) + seq![chunk@]);
    }
}

/// A new stream is announced, joins the others, and its client end is handed over.
pub proof fn new_streams_are_announced(
    pre: Http2,
    token: Token,
    msg: HttpMsg,
    post: Http2,
    out: Seq<Seq<u8>>,
    r: Result<(), ()>,
)
    requires
        Http2::took_message(pre, token, msg, post, out, r),
    ensures
        out.len() == 1,
        out[0] == "New Stream Header".spec_bytes(),
        post@.init == pre@.init,
        post@.streams.len() == pre@.streams.len() + 1,
        post@.streams.drop_last() == pre@.streams,
        msg matches HttpMsg::NewStream(resolve) ==> exists|client: Stream|
            joined(client, post@.streams.last()) && #[trigger] sent(resolve, client, r is Ok),
{
    let HttpMsg::NewStream(resolve) = msg;
    let (client, proto) = choose|client: Stream, proto: ProtoStream| #[trigger]
        joined(client, proto) && sent(resolve, client, r is Ok) && post@.streams
            == pre@.streams.push(proto);
    assert(post@.streams.drop_last() =~= pre@.streams);
    assert(post@.streams.last() == proto);
    assert(sent(resolve, client, r is Ok));
}

} // verus!
