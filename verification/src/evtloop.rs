//! Connections driven by readiness events: what a connection does with the bytes that came in,
//! which bytes go out next, and who is asked in between.
//!
//! Nothing here touches a socket. Every operation of a connection says in its
//! [`Step`](crate::connection::Step) what is to be done with the socket next, and the outcome of
//! that is handed back.
use vstd::prelude::*;
use std::marker::PhantomData;
use crate::cursor::Cursor;
use crate::text::{bytes, bytes_of};

pub use crate::dispatcher::Dispatcher;

verus! {

/// Tells the connections of one event loop apart.
pub type Token = usize;

/// How much the read buffer of a connection is made for.
pub const READ_BUFFER: usize = 4096;

/// How much more the read buffer takes at a time once it is full.
pub const READ_GROWTH: usize = 64;

/// What can be sent to a connection of a running event loop.
#[derive(Debug)]
pub enum Message<M> {
    /// Nothing is to be done.
    Hello,
    /// The connection should try to write what it has.
    TryWrite,
    /// The frame is to be written after everything that is queued already.
    QueueFrame(Vec<u8>),
    /// For the protocol of the connection.
    Proto(M),
}

/// A message and the connection it is for.
pub struct Envelope<M>(pub Token, pub Message<M>);

/// What an event loop can be asked to do from outside.
pub enum WorkItem<M, S, C> {
    /// Take over a socket, and tell the callback when that is done.
    AddConnection(S, C),
    /// Pass a message on to a connection.
    NotifyConnection(Envelope<M>),
}

/// Names a connection to those who want to send it something. The view is its token.
pub struct ConnectionHandle<M> {
    token: Token,
    kind: PhantomData<M>,
}

impl<M> View for ConnectionHandle<M> {
    type V = Token;

    closed spec fn view(&self) -> Token {
        self.token
    }
}

impl<M> Clone for ConnectionHandle<M> {
    fn clone(&self) -> (h: ConnectionHandle<M>)
        ensures
            h@ == self@,
    {
        ConnectionHandle { token: self.token, kind: PhantomData }
    }
}

impl<M> ConnectionHandle<M> {
    /// The handle of the connection with the given token.
    pub fn new(token: Token) -> (h: ConnectionHandle<M>)
        ensures
            h@ == token,
    {
        ConnectionHandle { token, kind: PhantomData }
    }

    /// The token of the connection.
    pub fn token(&self) -> (t: Token)
        ensures
            t == self@,
    {
        self.token
    }

    /// What to send to the event loop so that `msg` reaches the connection.
    pub fn notify(&self, msg: Message<M>) -> (e: Envelope<M>)
        ensures
            e == Envelope(self@, msg),
    {
        Envelope(self.token, msg)
    }
}

/// Is told the handle of a connection once the event loop has taken the connection over.
pub trait OnConnectionReady<M> {
    fn connection_ready(&mut self, handle: ConnectionHandle<M>) -> Result<(), ()>;
}

/// The bytes that are left of each of the given frames.
pub open spec fn left_of(frames: Seq<Cursor>) -> Seq<Seq<u8>> {
    Seq::new(frames.len(), |i: int| frames[i]@)
}

/// What a protocol can do with its connection while it is being asked something. The view is
/// the frames that it has queued, in order.
pub struct ConnectionRef<M> {
    queued: Vec<Cursor>,
    handle: ConnectionHandle<M>,
}

impl<M> View for ConnectionRef<M> {
    type V = Seq<Seq<u8>>;

    closed spec fn view(&self) -> Seq<Seq<u8>> {
        left_of(self.queued@)
    }
}

impl<M> ConnectionRef<M> {
    /// The token of the connection.
    pub closed spec fn at(&self) -> Token {
        self.handle@
    }

    /// For the connection with the given handle, with nothing queued.
    pub fn new(handle: ConnectionHandle<M>) -> (c: ConnectionRef<M>)
        ensures
            c@ == Seq::<Seq<u8>>::empty(),
            c.at() == handle@,
    {
        let c = ConnectionRef { queued: Vec::new(), handle };
        assert(c@ =~= Seq::<Seq<u8>>::empty());
        c
    }

    /// Queues a frame.
    pub fn queue_frame(&mut self, frame: Vec<u8>)
        ensures
            final(self)@ == old(self)@.push(frame@),
            final(self).at() == old(self).at(),
    {
        let ghost before = self@;
        self.queued.push(Cursor::new(frame));
        assert(self@ =~= before.push(frame@));
    }

    /// Queues a frame. The connection is not woken up for it: the frame goes out with the next
    /// write.
    pub fn write_frame(&mut self, frame: Vec<u8>)
        ensures
            final(self)@ == old(self)@.push(frame@),
            final(self).at() == old(self).at(),
    {
        self.queue_frame(frame);
    }

    /// A handle of the connection.
    pub fn handle(&self) -> (h: ConnectionHandle<M>)
        ensures
            h@ == self.at(),
    {
        self.handle.clone()
    }

    /// The frames that were queued, in order.
    pub fn into_queued(self) -> (q: Vec<Cursor>)
        ensures
            left_of(q@) == self@,
    {
        self.queued
    }
}

/// What is spoken on a connection.
///
/// For each operation the protocol says, in a relation of its own, what the operation may do:
/// how the protocol changes, what it gives back and which frames it queues.
pub trait Protocol: Sized + 'static {
    /// What can be sent to the protocol from outside.
    type Message: Send;

    /// `p` may be the protocol of a new connection with the given token.
    spec fn opened(token: Token, p: Self) -> bool;

    /// Given `buf`, the protocol may turn from `pre` into `post`, queue `frames` and answer `r`.
    spec fn took_data(
        pre: Self,
        token: Token,
        buf: Seq<u8>,
        post: Self,
        frames: Seq<Seq<u8>>,
        r: Result<usize, ()>,
    ) -> bool;

    /// Asked for something to write, the protocol may turn from `pre` into `post` and queue
    /// `frames`.
    spec fn took_turn(pre: Self, token: Token, post: Self, frames: Seq<Seq<u8>>) -> bool;

    /// Given `msg`, the protocol may turn from `pre` into `post`, queue `frames` and answer `r`.
    spec fn took_message(
        pre: Self,
        token: Token,
        msg: Self::Message,
        post: Self,
        frames: Seq<Seq<u8>>,
        r: Result<(), ()>,
    ) -> bool;

    /// The protocol of a new connection.
    fn new(conn: ConnectionHandle<Self::Message>) -> (p: Self)
        ensures
            Self::opened(conn@, p),
    ;

    /// Takes note of what came in. `buf` is everything that has been read and not been consumed
    /// before. Gives the number of bytes, from the front of `buf`, that are consumed now.
    fn on_data(&mut self, buf: &[u8], conn: &mut ConnectionRef<Self::Message>) -> (r: Result<
        usize,
        (),
    >)
        requires
            old(conn)@ == Seq::<Seq<u8>>::empty(),
        ensures
            Self::took_data(*old(self), old(conn).at(), buf@, *final(self), final(conn)@, r),
    ;

    /// Has the chance to queue something, since the connection can be written to and nothing is
    /// waiting.
    fn ready_write(&mut self, conn: &mut ConnectionRef<Self::Message>)
        requires
            old(conn)@ == Seq::<Seq<u8>>::empty(),
        ensures
            Self::took_turn(*old(self), old(conn).at(), *final(self), final(conn)@),
    ;

    /// Takes a message that was sent to the connection for the protocol.
    fn notify(&mut self, msg: Self::Message, conn: &mut ConnectionRef<Self::Message>) -> (r: Result<
        (),
        (),
    >)
        requires
            old(conn)@ == Seq::<Seq<u8>>::empty(),
        ensures
            Self::took_message(*old(self), old(conn).at(), msg, *final(self), final(conn)@, r),
    ;
}

/// A protocol without rules: it takes no notice of what it is given, and has always the same
/// thing to say.
pub struct Dummy;

/// There is nothing to tell a [`Dummy`].
#[derive(Debug)]
pub struct DummyMsg;

impl Protocol for Dummy {
    type Message = DummyMsg;

    open spec fn opened(token: Token, p: Dummy) -> bool {
        true
    }

    open spec fn took_data(
        pre: Dummy,
        token: Token,
        buf: Seq<u8>,
        post: Dummy,
        frames: Seq<Seq<u8>>,
        r: Result<usize, ()>,
    ) -> bool {
        r == Ok::<usize, ()>(buf.len() as usize) && frames == Seq::<Seq<u8>>::empty()
    }

    open spec fn took_turn(pre: Dummy, token: Token, post: Dummy, frames: Seq<Seq<u8>>) -> bool {
        frames == seq![bytes_of("Hello from Dummy!")]
    }

    open spec fn took_message(
        pre: Dummy,
        token: Token,
        msg: DummyMsg,
        post: Dummy,
        frames: Seq<Seq<u8>>,
        r: Result<(), ()>,
    ) -> bool {
        r is Ok && frames == Seq::<Seq<u8>>::empty()
    }

    fn new(_conn: ConnectionHandle<DummyMsg>) -> Dummy {
        Dummy
    }

    fn on_data(&mut self, buf: &[u8], _conn: &mut ConnectionRef<DummyMsg>) -> Result<usize, ()> {
        Ok(buf.len())
    }

    fn ready_write(&mut self, conn: &mut ConnectionRef<DummyMsg>) {
        conn.queue_frame(bytes("Hello from Dummy!"));
        assert(conn@ =~= seq![bytes_of("Hello from Dummy!")]);
    }

    fn notify(&mut self, _msg: DummyMsg, _conn: &mut ConnectionRef<DummyMsg>) -> Result<(), ()> {
        Ok(())
    }
}

} // verus!
