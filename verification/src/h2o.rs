//! A protocol of streams without any framing, to try out how streams and connections meet.
use vstd::prelude::*;
use vstd::slice::slice_to_vec;
use std::sync::mpsc::Sender;
use crate::channel::{polled_once, put_bytes, sent, Outlet};
use crate::evtloop::{ConnectionHandle, ConnectionRef, Protocol, Token};
use crate::stream::joined;
use crate::text::{bytes, bytes_of};

pub use crate::stream::{ProtoStream, Stream};

verus! {

/// What can be asked of the protocol.
pub enum HttpMsg {
    /// Open a stream, and hand its client end over.
    NewStream(Sender<Stream>),
}

/// What the protocol amounts to: its ends of the streams, and whether it has said hello.
pub struct Http2View {
    pub streams: Seq<ProtoStream>,
    pub init: bool,
}

/// Passes what comes in on to the first stream, and sends what the streams have to send.
pub struct Http2 {
    streams: Vec<ProtoStream>,
    init: bool,
}

impl View for Http2 {
    type V = Http2View;

    closed spec fn view(&self) -> Http2View {
        Http2View { streams: self.streams@, init: self.init }
    }
}

/// What was there to be had, in order.
pub open spec fn gathered(got: Seq<Option<Vec<u8>>>) -> Seq<Seq<u8>>
    decreases got.len(),
{
    if got.len() == 0 {
        Seq::empty()
    } else {
        let before = gathered(got.drop_last());
        match got.last() {
            Some(chunk) => before.push(chunk@),
            None => before,
        }
    }
}

/// The protocol looked once into what comes from each of the streams `before`, found that, and
/// holds the streams `after`.
pub open spec fn looked(
    before: Seq<ProtoStream>,
    got: Seq<Option<Vec<u8>>>,
    after: Seq<ProtoStream>,
) -> bool {
    &&& got.len() == before.len()
    &&& after.len() == before.len()
    &&& forall|i: int|
        #![trigger got[i]]
        #![trigger after[i]]
        0 <= i < got.len() ==> polled_once(before[i].rx, got[i], after[i].rx) && after[i].tx
            == before[i].tx
}

/// What came in was put into the channel of the first of the streams `before`, as one chunk, which
/// made them into `after`.
pub open spec fn went_to_first(
    before: Seq<ProtoStream>,
    data: Seq<u8>,
    ok: bool,
    after: Seq<ProtoStream>,
) -> bool {
    &&& put_bytes(before[0].tx, data, ok, after[0].tx)
    &&& after == before.update(0, ProtoStream { tx: after[0].tx, rx: before[0].rx })
}

/// Every time the protocol is asked for something to write, each stream gets to send one chunk
/// at most.
pub proof fn one_chunk_each(
    before: Seq<ProtoStream>,
    got: Seq<Option<Vec<u8>>>,
    after: Seq<ProtoStream>,
)
    requires
        looked(before, got, after),
    ensures
        gathered(got).len() <= before.len(),
{
    gathered_no_more(got);
}

/// No more chunks are gathered than channels were looked into.
proof fn gathered_no_more(got: Seq<Option<Vec<u8>>>)
    ensures
        gathered(got).len() <= got.len(),
    decreases got.len(),
{
    if got.len() > 0 {
        gathered_no_more(got.drop_last());
    }
}

impl Protocol for Http2 {
    type Message = HttpMsg;

    open spec fn opened(token: Token, p: Http2) -> bool {
        p@ == (Http2View { streams: Seq::<ProtoStream>::empty(), init: false })
    }

    open spec fn took_data(
        pre: Http2,
        token: Token,
        buf: Seq<u8>,
        post: Http2,
        frames: Seq<Seq<u8>>,
        r: Result<usize, ()>,
    ) -> bool {
        &&& frames == Seq::<Seq<u8>>::empty()
        &&& post@.init == pre@.init
        &&& if pre@.streams.len() == 0 {
            r is Err && post@ == pre@
        } else {
            went_to_first(pre@.streams, buf, r is Ok, post@.streams) && (r matches Ok(n) ==> n
                == buf.len())
        }
    }

    open spec fn took_turn(pre: Http2, token: Token, post: Http2, frames: Seq<Seq<u8>>) -> bool {
        if !pre@.init {
            post@ == (Http2View { init: true, ..pre@ }) && frames == seq![
                bytes_of("Hello from Http2"),
            ]
        } else {
            post@.init && exists|got: Seq<Option<Vec<u8>>>| #[trigger]
                looked(pre@.streams, got, post@.streams) && frames == gathered(got)
        }
    }

    open spec fn took_message(
        pre: Http2,
        token: Token,
        msg: HttpMsg,
        post: Http2,
        frames: Seq<Seq<u8>>,
        r: Result<(), ()>,
    ) -> bool {
        let HttpMsg::NewStream(resolve) = msg;
        &&& frames == seq![bytes_of("New Stream Header")]
        &&& exists|client: Stream, proto: ProtoStream| #[trigger]
            joined(client, proto) && sent(resolve, client, r is Ok) && post@ == (Http2View {
                streams: pre@.streams.push(proto),
                ..pre@
            })
    }

    fn new(_conn: ConnectionHandle<HttpMsg>) -> Http2 {
        Http2 { streams: Vec::new(), init: false }
    }

    fn on_data(&mut self, buf: &[u8], _conn: &mut ConnectionRef<HttpMsg>) -> Result<usize, ()> {
        if self.streams.is_empty() {
            return Err(());
        }
        let ghost before = self@.streams;
        let ok = self.streams[0].tx.put(slice_to_vec(buf));
        assert(self@.streams =~= before.update(
            0,
            ProtoStream { tx: self@.streams[0].tx, rx: before[0].rx },
        ));
        if ok {
            Ok(buf.len())
        } else {
            Err(())
        }
    }

    fn ready_write(&mut self, conn: &mut ConnectionRef<HttpMsg>) {
        if !self.init {
            conn.queue_frame(bytes("Hello from Http2"));
            self.init = true;
            assert(conn@ =~= seq![bytes_of("Hello from Http2")]);
        } else {
            let ghost mut got: Seq<Option<Vec<u8>>> = Seq::empty();
            let mut i: usize = 0;
            let ghost before = self@.streams;
            while i < self.streams.len()
                invariant
                    i <= self.streams@.len(),
                    self.init,
                    before == old(self)@.streams,
                    self.streams@.len() == before.len(),
                    got.len() == i,
                    forall|j: int|
                        #![trigger got[j]]
                        #![trigger self.streams@[j]]
                        0 <= j < i ==> polled_once(before[j].rx, got[j], self.streams@[j].rx)
                            && self.streams@[j].tx == before[j].tx,
                    forall|j: int|
                        i <= j < before.len() ==> #[trigger] self.streams@[j] == before[j],
                    conn@ == gathered(got),
                decreases self.streams@.len() - i,
            {
                let next = self.streams[i].rx.poll();
                proof {
                    assert(got.push(next).drop_last() =~= got);
                    got = got.push(next);
                }
                match next {
                    Some(chunk) => conn.queue_frame(chunk),
                    None => {},
                }
                i += 1;
            }
            assert(looked(old(self)@.streams, got, self@.streams));
        }
    }

    fn notify(&mut self, msg: HttpMsg, conn: &mut ConnectionRef<HttpMsg>) -> Result<(), ()> {
        match msg {
            HttpMsg::NewStream(resolve) => {
                let (client, proto) = Stream::pair();
                assert(joined(client, proto));
                self.streams.push(proto);
                conn.queue_frame(bytes("New Stream Header"));
                assert(conn@ =~= seq![bytes_of("New Stream Header")]);
                let mut resolve = Outlet::new(resolve);
                let ok = resolve.put(client);
                if ok {
                    Ok(())
                } else {
                    Err(())
                }
            },
        }
    }
}

} // verus!
