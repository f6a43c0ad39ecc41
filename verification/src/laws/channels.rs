//! What goes through channels over several operations.
//!
//! That a channel gives what was put into it, in order, is the channel's part; the laws that need
//! it have it as a premise.
use vstd::prelude::*;
use crate::channel::{all_arrived, connected, in_order, next_of, Inlet};
use crate::client::{began, passed_on, ChannelDelegate};
use crate::evtloop::{Protocol, Token};
use crate::h2o::{gathered, looked, Http2};
use crate::stream::Stream;

verus! {

/// Data came in for a protocol of streams without framing, which has at least one, call after
/// call, and every call went well. `ps` is what the protocol was before each of them and after
/// the last.
pub open spec fn fed(token: Token, ps: Seq<Http2>, bufs: Seq<Seq<u8>>) -> bool {
    &&& ps.len() == bufs.len() + 1
    &&& ps[0]@.streams.len() > 0
    &&& forall|i: int|
        0 <= i < bufs.len() ==> Http2::took_data(
            ps[i],
            token,
            #[trigger] bufs[i],
            ps[i + 1],
            Seq::empty(),
            Ok(bufs[i].len() as usize),
        )
}

/// All data that comes in is put into the channel of the first stream, in order, one chunk for
/// each call. No other stream gets any.
pub proof fn data_goes_to_first_stream(token: Token, ps: Seq<Http2>, bufs: Seq<Seq<u8>>, n: int)
    requires
        fed(token, ps, bufs),
        0 <= n <= bufs.len(),
    ensures
        ps[n]@.streams.len() == ps[0]@.streams.len(),
        forall|i: int| 0 < i < ps[0]@.streams.len() ==> #[trigger] ps[n]@.streams[i]
            == ps[0]@.streams[i],
        ps[n]@.streams[0].rx == ps[0]@.streams[0].rx,
        ps[n]@.streams[0].tx.end() == ps[0]@.streams[0].tx.end(),
        ps[n]@.streams[0].tx@.len() == ps[0]@.streams[0].tx@.len() + n,
        ps[n]@.streams[0].tx@.take(ps[0]@.streams[0].tx@.len() as int)
            == ps[0]@.streams[0].tx@,
        forall|k: int|
            ps[0]@.streams[0].tx@.len() <= k < ps[n]@.streams[0].tx@.len() ==> (
            #[trigger] ps[n]@.streams[0].tx@[k]).1 && ps[n]@.streams[0].tx@[k].0@ == bufs[k
                - ps[0]@.streams[0].tx@.len()],
    decreases n,
{
    let start = ps[0]@.streams[0].tx@;
    if n == 0 {
        assert(start.take(start.len() as int) =~= start);
    } else {
        data_goes_to_first_stream(token, ps, bufs, n - 1);
        let p = ps[n - 1]@.streams;
        let q = ps[n]@.streams;
        assert(Http2::took_data(
            ps[n - 1],
            token,
            bufs[n - 1],
            ps[n - 1 + 1],
            Seq::empty(),
            Ok(bufs[n - 1].len() as usize),
        ));
        assert(q[0].tx@.take(start.len() as int) =~= p[0].tx@.take(start.len() as int));
        assert forall|k: int| start.len() <= k < q[0].tx@.len() implies (#[trigger] q[0].tx@[k]).1
            && q[0].tx@[k].0@ == bufs[k - start.len()] by {
            if k < p[0].tx@.len() {
                assert(q[0].tx@[k] == p[0].tx@[k]);
            }
        }
    }
}

/// Data that comes in after the first stream was opened arrives at its client whole and in order:
/// the chunks that the client gets are what the calls were given, one for one.
pub proof fn data_arrives_whole_and_in_order(
    token: Token,
    ps: Seq<Http2>,
    bufs: Seq<Seq<u8>>,
    client: Stream,
    k: int,
)
    requires
        fed(token, ps, bufs),
        ps[0]@.streams[0].tx@.len() == 0,
        connected(ps[0]@.streams[0].tx.end(), client.rx.end()),
        in_order(ps.last()@.streams[0].tx@, client.rx@),
        0 <= k < client.rx@.len(),
    ensures
        match client.rx@[k] {
            Some(chunk) => k < bufs.len() && chunk@ == bufs[k],
            None => k >= bufs.len(),
        },
{
    let n = bufs.len() as int;
    data_goes_to_first_stream(token, ps, bufs, n);
    let puts = ps[n]@.streams[0].tx@;
    all_arrived(puts);
    assert(client.rx@[k] == next_of(puts, k));
    if k < n {
        assert(puts[k].0@ == bufs[k]);
    }
}

/// The protocol of streams without framing was asked for something to write, time after time,
/// after it had said hello. `ps` is what it was before each time and after the last, `outs` what
/// it queued.
pub open spec fn turns(token: Token, ps: Seq<Http2>, outs: Seq<Seq<Seq<u8>>>) -> bool {
    &&& ps.len() == outs.len() + 1
    &&& ps[0]@.init
    &&& forall|i: int|
        0 <= i < outs.len() ==> Http2::took_turn(ps[i], token, ps[i + 1], #[trigger] outs[i])
}

/// Every time, each stream is looked into once, and what was found before stays on record.
proof fn turns_look_once(token: Token, ps: Seq<Http2>, outs: Seq<Seq<Seq<u8>>>, m: int, n: int)
    requires
        turns(token, ps, outs),
        0 <= m <= n <= outs.len(),
    ensures
        ps[n]@.init,
        ps[n]@.streams.len() == ps[m]@.streams.len(),
        forall|i: int|
            0 <= i < ps[m]@.streams.len() ==> {
                &&& (#[trigger] ps[n]@.streams[i]).rx@.len() == ps[m]@.streams[i].rx@.len() + n - m
                &&& ps[m]@.streams[i].rx@.is_prefix_of(ps[n]@.streams[i].rx@)
            },
    decreases n,
{
    if m < n {
        turns_look_once(token, ps, outs, m, n - 1);
        let p = ps[n - 1]@.streams;
        let q = ps[n]@.streams;
        assert(Http2::took_turn(ps[n - 1], token, ps[n - 1 + 1], outs[n - 1]));
        let got = choose|got: Seq<Option<Vec<u8>>>| #[trigger] looked(p, got, q);
        assert forall|i: int| 0 <= i < p.len() implies {
            &&& (#[trigger] q[i]).rx@.len() == ps[m]@.streams[i].rx@.len() + n - m
            &&& ps[m]@.streams[i].rx@.is_prefix_of(q[i].rx@)
        } by {
            assert(q[i].rx@ == p[i].rx@.push(got[i]));
            assert(p[i].rx@.len() == ps[m]@.streams[i].rx@.len() + (n - 1) - m);
        }
    } else if n > 0 {
        turns_look_once(token, ps, outs, 0, n - 1);
        assert(Http2::took_turn(ps[n - 1], token, ps[n - 1 + 1], outs[n - 1]));
    }
}

/// What the clients wrote goes out in order, one chunk of each stream at a time, in the order in
/// which the streams were opened: at the `k`-th time, counting from none, the `k`-th chunk of each
/// stream that has as many.
pub proof fn writes_go_out_in_turns(
    token: Token,
    ps: Seq<Http2>,
    outs: Seq<Seq<Seq<u8>>>,
    clients: Seq<Stream>,
    k: int,
)
    requires
        turns(token, ps, outs),
        clients.len() == ps[0]@.streams.len(),
        forall|i: int|
            0 <= i < clients.len() ==> {
                &&& connected((#[trigger] clients[i]).tx.end(), ps[0]@.streams[i].rx.end())
                &&& ps[0]@.streams[i].rx@.len() == 0
                &&& in_order(clients[i].tx@, ps.last()@.streams[i].rx@)
            },
        0 <= k < outs.len(),
    ensures
        outs[k] == gathered(Seq::new(clients.len(), |i: int| next_of(clients[i].tx@, k))),
{
    let last = outs.len() as int;
    turns_look_once(token, ps, outs, 0, k);
    turns_look_once(token, ps, outs, k + 1, last);
    let p = ps[k]@.streams;
    let q = ps[k + 1]@.streams;
    assert(Http2::took_turn(ps[k], token, ps[k + 1], outs[k]));
    let got = choose|got: Seq<Option<Vec<u8>>>| #[trigger]
        looked(p, got, q) && outs[k] == gathered(got);
    assert forall|i: int| 0 <= i < clients.len() implies #[trigger] got[i] == next_of(
        clients[i].tx@,
        k,
    ) by {
        assert(q[i].rx@ == p[i].rx@.push(got[i]));
        let all = ps.last()@.streams[i].rx@;
        assert(ps[last]@.streams[i].rx@ == all);
        assert(p[i].rx@.len() == k);
        assert(in_order(clients[i].tx@, all));
        assert(all[k] == q[i].rx@[k]);
    }
    assert(got =~= Seq::new(clients.len(), |i: int| next_of(clients[i].tx@, k)));
}

/// What can arrive for a delegate that hands the response over.
pub enum Arrival {
    Headers,
    Data(Seq<u8>),
}

/// What arrived for a delegate that hands the response over. `ds` is what the delegate was before
/// each arrival and after the last.
pub open spec fn arrivals(ds: Seq<ChannelDelegate>, es: Seq<Arrival>) -> bool {
    &&& ds.len() == es.len() + 1
    &&& forall|i: int|
        0 <= i < es.len() ==> match #[trigger] es[i] {
            Arrival::Headers => began(ds[i], ds[i + 1]),
            Arrival::Data(data) => passed_on(ds[i], data, ds[i + 1]),
        }
}

/// Each response gets just the data between its headers and the next, one chunk for each time
/// that data arrived, and in order: that is all that was put into its channel.
pub proof fn each_response_gets_its_own_data(
    ds: Seq<ChannelDelegate>,
    es: Seq<Arrival>,
    i: int,
    k: int,
)
    requires
        arrivals(ds, es),
        0 <= i < k <= es.len(),
        es[i] is Headers,
        forall|m: int| i < m < k ==> (#[trigger] es[m]) is Data,
    ensures
        began(ds[i], ds[i + 1]),
        ds[k].resolve == ds[i + 1].resolve,
        ds[k].response_chunk_tx is Some,
        ds[k].response_chunk_tx->0.end() == ds[i + 1].response_chunk_tx->0.end(),
        ds[k].response_chunk_tx->0@.len() == k - i - 1,
        forall|m: int|
            0 <= m < k - i - 1 ==> es[i + 1 + m] == Arrival::Data(
                (#[trigger] ds[k].response_chunk_tx->0@[m]).0@,
            ),
    decreases k,
{
    assert(match es[i] {
        Arrival::Headers => began(ds[i], ds[i + 1]),
        Arrival::Data(data) => passed_on(ds[i], data, ds[i + 1]),
    });
    if k > i + 1 {
        each_response_gets_its_own_data(ds, es, i, k - 1);
        let e = es[k - 1];
        assert(e is Data);
        assert(match e {
            Arrival::Headers => began(ds[k - 1], ds[k - 1 + 1]),
            Arrival::Data(data) => passed_on(ds[k - 1], data, ds[k - 1 + 1]),
        });
        let before = ds[k - 1].response_chunk_tx->0@;
        let after = ds[k].response_chunk_tx->0@;
        assert forall|m: int| 0 <= m < k - i - 1 implies es[i + 1 + m] == Arrival::Data(
            (#[trigger] after[m]).0@,
        ) by {
            if m < before.len() {
                assert(after[m] == before[m]);
            }
        }
    }
}

/// A response that somebody reads gives just the data between its headers and the next, and
/// nothing after that.
pub proof fn response_gives_its_own_data(
    ds: Seq<ChannelDelegate>,
    es: Seq<Arrival>,
    i: int,
    k: int,
    rx: Inlet<Vec<u8>>,
    m: int,
)
    requires
        arrivals(ds, es),
        0 <= i < k <= es.len(),
        es[i] is Headers,
        forall|m: int| i < m < k ==> (#[trigger] es[m]) is Data,
        connected(ds[i + 1].response_chunk_tx->0.end(), rx.end()),
        forall|j: int|
            0 <= j < ds[k].response_chunk_tx->0@.len() ==> (
            #[trigger] ds[k].response_chunk_tx->0@[j]).1,
        in_order(ds[k].response_chunk_tx->0@, rx@),
        0 <= m < rx@.len(),
    ensures
        match rx@[m] {
            Some(chunk) => m < k - i - 1 && es[i + 1 + m] == Arrival::Data(chunk@),
            None => m >= k - i - 1,
        },
{
    each_response_gets_its_own_data(ds, es, i, k);
    let puts = ds[k].response_chunk_tx->0@;
    all_arrived(puts);
    assert(rx@[m] == next_of(puts, m));
    if m < k - i - 1 {
        assert(es[i + 1 + m] == Arrival::Data(puts[m].0@));
    }
}

/// Data that arrives before any headers goes nowhere.
pub proof fn early_data_goes_nowhere(ds: Seq<ChannelDelegate>, es: Seq<Arrival>, k: int)
    requires
        arrivals(ds, es),
        0 <= k <= es.len(),
        ds[0].response_chunk_tx is None,
        forall|m: int| 0 <= m < k ==> (#[trigger] es[m]) is Data,
    ensures
        ds[k].response_chunk_tx is None,
        ds[k].resolve == ds[0].resolve,
    decreases k,
{
    if k > 0 {
        early_data_goes_nowhere(ds, es, k - 1);
        assert(es[k - 1] is Data);
        assert(passed_on(ds[k - 1], es[k - 1]->Data_0, ds[k - 1 + 1]));
    }
}

} // verus!
