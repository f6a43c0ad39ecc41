//! All connections of one event loop.
use vstd::prelude::*;
use crate::connection::{
    became_writable, has_room, read_finished, was_notified, wrote, Connection, ConnectionView,
    ReadError, ReadOutcome, Round, Step, WriteOutcome,
};
use crate::evtloop::{ConnectionHandle, Envelope, OnConnectionReady, Protocol, Token, WorkItem};
use crate::slab::{slot_limit, slots, TokenSlab};

verus! {

/// How many connections an event loop takes.
pub const MAX_CONNECTIONS: usize = 1024;

/// What became of a work item.
pub enum Dispatched<C> {
    /// The connection took the message. What it wants done comes with it; where its protocol
    /// refused the message, there is nothing to go on with.
    Notified(Token, Result<Step, ()>),
    /// The connection was added under the given token. Its socket is to be registered, and then
    /// the callback is to be told.
    Added(Token, C),
    /// There is no room for another connection.
    Full,
}

/// A connection that was just added: it has the given token and socket, and a new protocol.
pub open spec fn added<P: Protocol, S>(token: Token, stream: S, c: ConnectionView<P, S>) -> bool {
    P::opened(token, c.protocol) && c == (ConnectionView {
        token,
        stream,
        backlog: Seq::<Seq<u8>>::empty(),
        writable: false,
        protocol: c.protocol,
        buf: Seq::<u8>::empty(),
    })
}

/// The connections of an event loop, found by their tokens. The view lists them: a connection
/// stands where its token says.
pub struct Dispatcher<P, S> where P: Protocol {
    slots: TokenSlab,
    connections: Vec<Connection<P, S>>,
}

impl<P, S> View for Dispatcher<P, S> where P: Protocol {
    type V = Seq<ConnectionView<P, S>>;

    closed spec fn view(&self) -> Seq<ConnectionView<P, S>> {
        Seq::new(self.connections@.len(), |i: int| self.connections@[i]@)
    }
}

impl<P, S> Dispatcher<P, S> where P: Protocol {
    /// Every slot of the table leads to the connection whose token is the slot's index, and
    /// there is no connection besides those.
    pub closed spec fn wf(&self) -> bool {
        &&& slot_limit(self.slots) == MAX_CONNECTIONS
        &&& slots(self.slots).len() == self.connections@.len()
        &&& self.connections@.len() <= MAX_CONNECTIONS
        &&& forall|i: int| 0 <= i < slots(self.slots).len() ==> #[trigger] slots(self.slots)[i] == i
        &&& forall|i: int|
            0 <= i < self.connections@.len() ==> (#[trigger] self.connections@[i])@.token == i
    }

    /// No connections.
    pub fn new() -> (d: Dispatcher<P, S>)
        ensures
            d.wf(),
            d@ == Seq::<ConnectionView<P, S>>::empty(),
    {
        let d = Dispatcher { slots: TokenSlab::new(MAX_CONNECTIONS), connections: Vec::new() };
        assert(d@ =~= Seq::<ConnectionView<P, S>>::empty());
        d
    }

    /// Where the connection with the given token is kept.
    fn find(&self, token: Token) -> (i: Option<usize>)
        requires
            self.wf(),
        ensures
            match i {
                Some(i) => i == token && token < self@.len(),
                None => token >= self@.len(),
            },
    {
        if token < MAX_CONNECTIONS {
            self.slots.get(token)
        } else {
            None
        }
    }

    /// Whether there is a connection with the given token.
    pub fn contains(&self, token: Token) -> (b: bool)
        requires
            self.wf(),
        ensures
            b == (token < self@.len()),
    {
        self.find(token).is_some()
    }

    /// The connection with the given token.
    pub fn connection(&self, token: Token) -> (c: Option<&Connection<P, S>>)
        requires
            self.wf(),
        ensures
            match c {
                Some(c) => token < self@.len() && c@ == self@[token as int],
                None => token >= self@.len(),
            },
    {
        match self.find(token) {
            Some(i) => Some(&self.connections[i]),
            None => None,
        }
    }

    /// Makes a connection for a socket, with a protocol of its own, and gives its token. Where
    /// there is no room for it, there is no token to give.
    pub fn add_connection(&mut self, stream: S) -> (t: Option<Token>)
        requires
            old(self).wf(),
        ensures
            final(self).wf(),
            match t {
                Some(t) => {
                    &&& t == old(self)@.len()
                    &&& old(self)@.len() < MAX_CONNECTIONS
                    &&& final(self)@ == old(self)@.push(final(self)@[t as int])
                    &&& added(t, stream, final(self)@[t as int])
                },
                None => old(self)@.len() == MAX_CONNECTIONS && final(self)@ == old(self)@,
            },
    {
        let ghost before = self@;
        match self.slots.insert_with(self.connections.len()) {
            None => {
                assert(self@ =~= before);
                None
            },
            Some(token) => {
                let protocol = P::new(ConnectionHandle::new(token));
                self.connections.push(Connection::new(token, stream, protocol));
                assert(self@ =~= before.push(self@[token as int]));
                Some(token)
            },
        }
    }

    /// The socket of the connection with the given token, to read from it or write to it.
    pub fn stream_mut(&mut self, token: Token) -> (s: &mut S)
        requires
            old(self).wf(),
            token < old(self)@.len(),
        ensures
            final(self).wf(),
            *s == old(self)@[token as int].stream,
            final(self)@ == old(self)@.update(
                token as int,
                ConnectionView { stream: *final(s), ..old(self)@[token as int] },
            ),
    {
        let i: usize = self.find(token).unwrap();
        self.connections[i].stream_mut()
    }

    /// How many bytes one read from the socket of a connection may bring.
    pub fn read_room(&mut self, token: Token) -> (n: usize)
        requires
            old(self).wf(),
            token < old(self)@.len(),
        ensures
            final(self).wf(),
            final(self)@ == old(self)@,
            n >= if old(self)@[token as int].buf.len() < 4096 {
                4096 - old(self)@[token as int].buf.len()
            } else {
                64int
            },
            has_room(old(self)@[token as int].buf, n),
    {
        let ghost before = self@;
        let i: usize = self.find(token).unwrap();
        let n = self.connections[i].read_room();
        assert(self@ =~= before);
        n
    }

    /// The socket of a connection is ready to be read from, or to be written to, or both.
    pub fn ready(&mut self, token: Token, readable: bool, writable: bool) -> (step: Step)
        requires
            old(self).wf(),
            token < old(self)@.len(),
        ensures
            final(self).wf(),
            final(self)@ == old(self)@.update(token as int, final(self)@[token as int]),
            ({
                let c = old(self)@[token as int];
                let d = final(self)@[token as int];
                if readable {
                    d == c && step == Step::Read(writable)
                } else if writable {
                    became_writable(c, d, step)
                } else {
                    d == c && step == Step::Done
                }
            }),
    {
        let ghost before = self@;
        let i: usize = self.find(token).unwrap();
        let step = self.connections[i].ready(readable, writable);
        assert(self@ =~= before.update(token as int, self@[token as int]));
        step
    }

    /// What a read from the socket of a connection came to.
    pub fn finish_read(&mut self, token: Token, outcome: ReadOutcome, writable: bool) -> (r: Result<
        Step,
        ReadError,
    >)
        requires
            old(self).wf(),
            token < old(self)@.len(),
        ensures
            final(self).wf(),
            final(self)@ == old(self)@.update(token as int, final(self)@[token as int]),
            read_finished(
                old(self)@[token as int],
                outcome,
                writable,
                final(self)@[token as int],
                r,
            ),
    {
        let ghost before = self@;
        let i: usize = self.find(token).unwrap();
        let r = self.connections[i].finish_read(outcome, writable);
        assert(self@ =~= before.update(token as int, self@[token as int]));
        r
    }

    /// What a write to the socket of a connection came to.
    pub fn write_backlog(&mut self, token: Token, round: Round, outcome: WriteOutcome) -> (step:
        Step)
        requires
            old(self).wf(),
            token < old(self)@.len(),
            outcome matches WriteOutcome::Wrote(n) ==> old(self)@[token as int].backlog.len() > 0
                && n <= old(self)@[token as int].backlog[0].len(),
        ensures
            final(self).wf(),
            final(self)@ == old(self)@.update(token as int, final(self)@[token as int]),
            wrote(old(self)@[token as int], round, outcome, final(self)@[token as int], step),
    {
        let ghost before = self@;
        let i: usize = self.find(token).unwrap();
        let step = self.connections[i].write_backlog(round, outcome);
        assert(self@ =~= before.update(token as int, self@[token as int]));
        step
    }

    /// Does what the event loop was asked to do.
    pub fn notify<C>(&mut self, item: WorkItem<P::Message, S, C>) -> (r: Dispatched<C>)
        requires
            old(self).wf(),
            item matches WorkItem::NotifyConnection(e) ==> e.0 < old(self)@.len(),
        ensures
            final(self).wf(),
            match item {
                WorkItem::NotifyConnection(e) => {
                    &&& final(self)@ == old(self)@.update(e.0 as int, final(self)@[e.0 as int])
                    &&& r matches Dispatched::Notified(token, answer) && token == e.0
                        && was_notified(
                        old(self)@[e.0 as int],
                        e.1,
                        final(self)@[e.0 as int],
                        answer,
                    )
                },
                WorkItem::AddConnection(stream, ready) => if old(self)@.len() < MAX_CONNECTIONS {
                    let token = old(self)@.len() as usize;
                    &&& r == Dispatched::Added(token, ready)
                    &&& final(self)@ == old(self)@.push(final(self)@[token as int])
                    &&& added(token, stream, final(self)@[token as int])
                } else {
                    r is Full && final(self)@ == old(self)@
                },
            },
    {
        match item {
            WorkItem::NotifyConnection(Envelope(token, msg)) => {
                let ghost before = self@;
                let i: usize = self.find(token).unwrap();
                let answer = self.connections[i].notify(msg);
                assert(self@ =~= before.update(token as int, self@[token as int]));
                Dispatched::Notified(token, answer)
            },
            WorkItem::AddConnection(stream, ready) => match self.add_connection(stream) {
                Some(token) => Dispatched::Added(token, ready),
                None => Dispatched::Full,
            },
        }
    }
}

/// Tells the callback of a connection that was added which handle the connection has. Nobody has
/// to listen to that any more, so the answer has no consequence.
pub fn connection_ready<M, C: OnConnectionReady<M>>(token: Token, ready: C) -> (r: Result<(), ()>)
    ensures
        exists|cb: &mut C, h: ConnectionHandle<M>|
            *cb == ready && h@ == token && #[trigger] call_ensures(
                C::connection_ready,
                (cb, h),
                r,
            ),
{
    let mut ready = ready;
    ready.connection_ready(ConnectionHandle::new(token))
}

/// A connection is found under its token for as long as it is there: the token of each is its
/// place in the order in which they were added, of which there are no more than there is room
/// for.
pub proof fn tokens_are_places<P: Protocol, S>(d: Dispatcher<P, S>)
    requires
        d.wf(),
    ensures
        d@.len() <= MAX_CONNECTIONS,
        forall|i: int| 0 <= i < d@.len() ==> (#[trigger] d@[i]).token == i,
{
}

} // verus!
