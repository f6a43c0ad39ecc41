//! One connection of an event loop.
use vstd::prelude::*;
use crate::cursor::Cursor;
use crate::evtloop::{
    left_of, ConnectionHandle, ConnectionRef, Message, Protocol, Token, READ_BUFFER, READ_GROWTH,
};

verus! {

/// A write goes through two rounds: first what was waiting is flushed, then the protocol may
/// add something, and that is flushed.
#[derive(Clone, Copy, Debug, PartialEq, Eq, Structural)]
pub enum Round {
    First,
    Last,
}

/// What is to be done with the socket of a connection next.
#[derive(Clone, Copy, Debug, PartialEq, Eq, Structural)]
pub enum Step {
    /// Read once, and hand over what came with [`Connection::finish_read`]. The flag says
    /// whether the socket was reported to be writable too, and goes back with the outcome.
    Read(bool),
    /// Offer the socket [`Connection::pending`], and hand over what came of it with
    /// [`Connection::write_backlog`]. The round goes back with the outcome.
    Write(Round),
    /// Nothing, until the next event.
    Done,
}

/// What came of reading from a socket that does not block.
#[derive(Debug)]
pub enum ReadOutcome {
    /// These bytes were read. No bytes at all mean that the peer will send no more.
    Received(Vec<u8>),
    /// There is nothing to read at present.
    WouldBlock,
}

/// What came of writing to a socket that does not block.
#[derive(Clone, Copy, Debug, PartialEq, Eq, Structural)]
pub enum WriteOutcome {
    /// The socket took that many bytes.
    Wrote(usize),
    /// The socket takes nothing at present.
    WouldBlock,
}

/// Why a connection cannot go on after a read.
#[derive(Clone, Copy, Debug, PartialEq, Eq, Structural)]
pub enum ReadError {
    /// The protocol refused what it was given.
    Refused,
    /// The protocol claims to have consumed more than it was given.
    Overrun,
}

/// What a connection amounts to: its token and socket, what is left of each frame that waits to
/// be written, whether the socket is believed to be writable, the protocol, and what was read
/// and not consumed.
pub struct ConnectionView<P, S> {
    pub token: Token,
    pub stream: S,
    pub backlog: Seq<Seq<u8>>,
    pub writable: bool,
    pub protocol: P,
    pub buf: Seq<u8>,
}

/// A backlog after its first frame lost its first `n` bytes. A frame that has nothing left is
/// gone.
pub open spec fn after_write(backlog: Seq<Seq<u8>>, n: nat) -> Seq<Seq<u8>> {
    if backlog[0].len() == n {
        backlog.skip(1)
    } else {
        backlog.update(0, backlog[0].skip(n as int))
    }
}

/// Writing goes on as long as something waits.
pub open spec fn write_on(backlog: Seq<Seq<u8>>, round: Round) -> Step {
    if backlog.len() > 0 {
        Step::Write(round)
    } else {
        Step::Done
    }
}

/// The protocol of `c` was asked for something to write, which made `c` into `d`. What it
/// queued is written next, in the last round.
pub open spec fn offered<P: Protocol, S>(
    c: ConnectionView<P, S>,
    d: ConnectionView<P, S>,
    step: Step,
) -> bool {
    exists|frames: Seq<Seq<u8>>| #[trigger]
        P::took_turn(c.protocol, c.token, d.protocol, frames) && d == (ConnectionView {
            backlog: c.backlog + frames,
            protocol: d.protocol,
            ..c
        }) && step == write_on(d.backlog, Round::Last)
}

/// An attempt to write began, which made `c` into `d`. What waits goes first. Where nothing
/// waits, the protocol is asked; where the socket is not writable, nothing happens.
pub open spec fn tried<P: Protocol, S>(
    c: ConnectionView<P, S>,
    d: ConnectionView<P, S>,
    step: Step,
) -> bool {
    if !c.writable {
        d == c && step == Step::Done
    } else if c.backlog.len() > 0 {
        d == c && step == Step::Write(Round::First)
    } else {
        offered(c, d, step)
    }
}

/// A write in the given round had the given outcome, which made `c` into `d`. The first frame
/// that waits is shortened by what the socket took. After the first round the protocol is asked
/// for more; when the socket takes nothing, writing is over until it is writable again.
pub open spec fn wrote<P: Protocol, S>(
    c: ConnectionView<P, S>,
    round: Round,
    outcome: WriteOutcome,
    d: ConnectionView<P, S>,
    step: Step,
) -> bool {
    match outcome {
        WriteOutcome::WouldBlock => d == (ConnectionView { writable: false, ..c }) && step
            == Step::Done,
        WriteOutcome::Wrote(n) => {
            let e = ConnectionView { backlog: after_write(c.backlog, n as nat), ..c };
            if e.backlog.len() > 0 {
                d == e && step == Step::Write(round)
            } else if round == Round::First && e.writable {
                offered(e, d, step)
            } else {
                d == e && step == Step::Done
            }
        },
    }
}

/// A read had the given outcome, which made `c` into `d`. What was read joins what is left from
/// before, the protocol is shown all of it, and what the protocol consumed is gone.
pub open spec fn was_read<P: Protocol, S>(
    c: ConnectionView<P, S>,
    outcome: ReadOutcome,
    d: ConnectionView<P, S>,
    r: Result<(), ReadError>,
) -> bool {
    match outcome {
        ReadOutcome::WouldBlock => d == c && r is Ok,
        ReadOutcome::Received(data) => if data@.len() == 0 {
            d == c && r is Ok
        } else {
            let all = c.buf + data@;
            exists|frames: Seq<Seq<u8>>, answer: Result<usize, ()>| #[trigger]
                P::took_data(c.protocol, c.token, all, d.protocol, frames, answer) && d == (
                ConnectionView {
                    backlog: c.backlog + frames,
                    protocol: d.protocol,
                    buf: d.buf,
                    ..c
                }) && match answer {
                    Ok(n) => if n <= all.len() {
                        d.buf == all.skip(n as int) && r is Ok
                    } else {
                        d.buf == all && r == Err::<(), ReadError>(ReadError::Overrun)
                    },
                    Err(_) => d.buf == all && r == Err::<(), ReadError>(ReadError::Refused),
                }
        },
    }
}

/// The socket of `c` became writable, which made `c` into `d`: an attempt to write begins.
pub open spec fn became_writable<P: Protocol, S>(
    c: ConnectionView<P, S>,
    d: ConnectionView<P, S>,
    step: Step,
) -> bool {
    tried(ConnectionView { writable: true, ..c }, d, step)
}

/// A read had the given outcome, on a socket that was or was not reported to be writable too,
/// which made `c` into `d`. Where the read went well, the writing follows.
pub open spec fn read_finished<P: Protocol, S>(
    c: ConnectionView<P, S>,
    outcome: ReadOutcome,
    writable: bool,
    d: ConnectionView<P, S>,
    r: Result<Step, ReadError>,
) -> bool {
    exists|e: ConnectionView<P, S>, read: Result<(), ReadError>| #[trigger]
        was_read(c, outcome, e, read) && match read {
            Ok(_) => r matches Ok(step) && if writable {
                became_writable(e, d, step)
            } else {
                d == e && step == Step::Done
            },
            Err(error) => d == e && r == Err::<Step, ReadError>(error),
        }
}

/// A message made `c` into `d`. What is for the protocol goes to the protocol, and is no
/// occasion to write.
pub open spec fn was_notified<P: Protocol, S>(
    c: ConnectionView<P, S>,
    msg: Message<P::Message>,
    d: ConnectionView<P, S>,
    r: Result<Step, ()>,
) -> bool {
    match msg {
        Message::Hello => d == c && r == Ok::<Step, ()>(Step::Done),
        Message::TryWrite => r matches Ok(step) && tried(c, d, step),
        Message::QueueFrame(frame) => r matches Ok(step) && tried(
            ConnectionView { backlog: c.backlog.push(frame@), ..c },
            d,
            step,
        ),
        Message::Proto(m) => exists|frames: Seq<Seq<u8>>, answer: Result<(), ()>| #[trigger]
            P::took_message(c.protocol, c.token, m, d.protocol, frames, answer) && d == (
            ConnectionView { backlog: c.backlog + frames, protocol: d.protocol, ..c }) && r == (
            match answer {
                Ok(_) => Ok::<Step, ()>(Step::Done),
                Err(_) => Err::<Step, ()>(()),
            }),
    }
}

/// [`Vec::capacity`]: how many bytes the vector can hold without asking the allocator for more,
/// which is no fewer than it holds.
#[verifier::external_body]
fn capacity(v: &Vec<u8>) -> (n: usize)
    ensures
        n >= v@.len(),
{
    v.capacity()
}

/// There is room for `n` bytes in a buffer that holds those: what the buffer is made for or grows
/// by leaves as much, or a vector that holds them can hold that many more without asking the
/// allocator.
pub closed spec fn has_room(held: Seq<u8>, n: usize) -> bool {
    ||| n == if held.len() < 4096 {
        4096 - held.len()
    } else {
        64int
    }
    ||| exists|v: Vec<u8>, all: usize|
        v@ == held && n == all - held.len() && #[trigger] call_ensures(capacity, (&v,), all)
}

/// A connection: a socket, the protocol that is spoken on it, and what waits in either
/// direction.
pub struct Connection<P, S> where P: Protocol {
    token: Token,
    stream: S,
    backlog: Vec<Cursor>,
    is_writable: bool,
    protocol: P,
    buf: Vec<u8>,
}

impl<P, S> View for Connection<P, S> where P: Protocol {
    type V = ConnectionView<P, S>;

    closed spec fn view(&self) -> ConnectionView<P, S> {
        ConnectionView {
            token: self.token,
            stream: self.stream,
            backlog: left_of(self.backlog@),
            writable: self.is_writable,
            protocol: self.protocol,
            buf: self.buf@,
        }
    }
}

impl<P, S> Connection<P, S> where P: Protocol {
    /// A connection on which nothing has happened yet.
    pub fn new(token: Token, stream: S, proto: P) -> (c: Connection<P, S>)
        ensures
            c@ == (ConnectionView {
                token,
                stream,
                backlog: Seq::<Seq<u8>>::empty(),
                writable: false,
                protocol: proto,
                buf: Seq::<u8>::empty(),
            }),
    {
        let c = Connection {
            token,
            stream,
            backlog: Vec::new(),
            is_writable: false,
            protocol: proto,
            buf: Vec::with_capacity(READ_BUFFER),
        };
        assert(c@.backlog =~= Seq::<Seq<u8>>::empty());
        c
    }

    /// The socket of the connection.
    pub fn stream(&self) -> (s: &S)
        ensures
            *s == self@.stream,
    {
        &self.stream
    }

    /// The socket of the connection, to read from it or write to it.
    pub fn stream_mut(&mut self) -> (s: &mut S)
        ensures
            *s == old(self)@.stream,
            final(self)@ == (ConnectionView { stream: *final(s), ..old(self)@ }),
    {
        &mut self.stream
    }

    /// The protocol of the connection.
    pub fn protocol(&self) -> (p: &P)
        ensures
            *p == self@.protocol,
    {
        &self.protocol
    }

    /// How many bytes one read may bring: as many as there is room for in the buffer, which grows
    /// when it is full. How much room that is, beyond what the buffer is made for and grows by,
    /// is up to the allocator.
    pub fn read_room(&mut self) -> (n: usize)
        ensures
            final(self)@ == old(self)@,
            n >= if old(self)@.buf.len() < 4096 {
                4096 - old(self)@.buf.len()
            } else {
                64int
            },
            has_room(old(self)@.buf, n),
    {
        let len: usize = self.buf.len();
        if capacity(&self.buf) == len {
            self.buf.reserve(READ_GROWTH);
        }
        let all: usize = capacity(&self.buf);
        let room: usize = all - len;
        assert(call_ensures(capacity, (&self.buf,), all));
        let least: usize = if len < READ_BUFFER {
            READ_BUFFER - len
        } else {
            READ_GROWTH
        };
        if room < least {
            least
        } else {
            room
        }
    }

    /// What the socket is to be offered next: what is left of the first frame that waits.
    pub fn pending(&self) -> (b: Option<&[u8]>)
        ensures
            match b {
                Some(b) => self@.backlog.len() > 0 && b@ == self@.backlog[0],
                None => self@.backlog.len() == 0,
            },
    {
        if self.backlog.is_empty() {
            None
        } else {
            Some(self.backlog[0].bytes())
        }
    }

    /// The socket is ready to be read from, or to be written to, or both. Reading comes first.
    pub fn ready(&mut self, readable: bool, writable: bool) -> (step: Step)
        ensures
            readable ==> final(self)@ == old(self)@ && step == Step::Read(writable),
            !readable && writable ==> became_writable(old(self)@, final(self)@, step),
            !readable && !writable ==> final(self)@ == old(self)@ && step == Step::Done,
    {
        if readable {
            Step::Read(writable)
        } else if writable {
            self.set_writable(true);
            // Whenever the socket becomes writable, a write is tried.
            self.try_write()
        } else {
            Step::Done
        }
    }

    /// What the read that [`Step::Read`] asked for came to.
    pub fn finish_read(&mut self, outcome: ReadOutcome, writable: bool) -> (r: Result<
        Step,
        ReadError,
    >)
        ensures
            read_finished(old(self)@, outcome, writable, final(self)@, r),
    {
        let read = self.read(outcome);
        let ghost d = self@;
        assert(was_read(old(self)@, outcome, d, read));
        match read {
            Ok(_) => if writable {
                self.set_writable(true);
                Ok(self.try_write())
            } else {
                Ok(Step::Done)
            },
            Err(e) => Err(e),
        }
    }

    /// Takes a message that was sent to the connection.
    pub fn notify(&mut self, msg: Message<P::Message>) -> (r: Result<Step, ()>)
        ensures
            was_notified(old(self)@, msg, final(self)@, r),
    {
        match msg {
            Message::Hello => Ok(Step::Done),
            Message::TryWrite => Ok(self.try_write()),
            Message::QueueFrame(frame) => {
                self.queue_frame(frame);
                Ok(self.try_write())
            },
            Message::Proto(m) => {
                let mut conn = ConnectionRef::new(ConnectionHandle::new(self.token));
                let answer = self.protocol.notify(m, &mut conn);
                let ghost frames = conn@;
                self.enqueue(conn);
                assert(P::took_message(
                    old(self)@.protocol,
                    old(self)@.token,
                    m,
                    self@.protocol,
                    frames,
                    answer,
                ));
                match answer {
                    Ok(_) => Ok(Step::Done),
                    Err(_) => Err(()),
                }
            },
        }
    }

    /// Takes in what a read brought, and shows the protocol everything it has not consumed.
    pub fn read(&mut self, outcome: ReadOutcome) -> (r: Result<(), ReadError>)
        ensures
            was_read(old(self)@, outcome, final(self)@, r),
    {
        match outcome {
            ReadOutcome::WouldBlock => Ok(()),
            ReadOutcome::Received(data) => {
                if data.is_empty() {
                    // The peer will send no more.
                    return Ok(());
                }
                let ghost new = data@;
                let mut data = data;
                self.buf.append(&mut data);
                let ghost all = old(self)@.buf + new;
                assert(self.buf@ == all);
                let mut conn = ConnectionRef::new(ConnectionHandle::new(self.token));
                let answer = self.protocol.on_data(self.buf.as_slice(), &mut conn);
                let ghost frames = conn@;
                self.enqueue(conn);
                assert(P::took_data(
                    old(self)@.protocol,
                    old(self)@.token,
                    all,
                    self@.protocol,
                    frames,
                    answer,
                ));
                match answer {
                    Ok(consumed) => {
                        if consumed <= self.buf.len() {
                            let mut rest = self.buf.split_off(consumed);
                            self.buf.clear();
                            self.buf.append(&mut rest);
                            assert(self.buf@ =~= all.skip(consumed as int));
                            Ok(())
                        } else {
                            Err(ReadError::Overrun)
                        }
                    },
                    Err(_) => Err(ReadError::Refused),
                }
            },
        }
    }

    /// Begins to write, if the socket is writable.
    pub fn try_write(&mut self) -> (step: Step)
        ensures
            tried(old(self)@, final(self)@, step),
    {
        if !self.is_writable {
            return Step::Done;
        }
        // Anything that is queued already comes before what the protocol may have to add.
        if !self.backlog.is_empty() {
            return Step::Write(Round::First);
        }
        self.offer()
    }

    /// What the write that [`Step::Write`] asked for came to.
    pub fn write_backlog(&mut self, round: Round, outcome: WriteOutcome) -> (step: Step)
        requires
            outcome matches WriteOutcome::Wrote(n) ==> old(self)@.backlog.len() > 0 && n <= old(
                self,
            )@.backlog[0].len(),
        ensures
            wrote(old(self)@, round, outcome, final(self)@, step),
    {
        let n = match outcome {
            WriteOutcome::WouldBlock => {
                self.set_writable(false);
                return Step::Done;
            },
            WriteOutcome::Wrote(n) => n,
        };
        let ghost before = self@.backlog;
        self.backlog[0].advance(n);
        if self.backlog[0].remaining() == 0 {
            let _ = self.backlog.remove(0);
            assert(self@.backlog =~= before.skip(1));
        } else {
            assert(self@.backlog =~= before.update(0, before[0].skip(n as int)));
        }
        assert(self@.backlog == after_write(before, n as nat));
        if !self.backlog.is_empty() {
            return Step::Write(round);
        }
        match round {
            Round::First => if self.is_writable {
                // If the socket is still writable, the protocol may have something to add.
                self.offer()
            } else {
                Step::Done
            },
            Round::Last => Step::Done,
        }
    }

    /// Asks the protocol for something to write.
    fn offer(&mut self) -> (step: Step)
        ensures
            offered(old(self)@, final(self)@, step),
    {
        let mut conn = ConnectionRef::new(ConnectionHandle::new(self.token));
        self.protocol.ready_write(&mut conn);
        let ghost frames = conn@;
        self.enqueue(conn);
        assert(P::took_turn(old(self)@.protocol, old(self)@.token, self@.protocol, frames));
        if self.backlog.is_empty() {
            Step::Done
        } else {
            Step::Write(Round::Last)
        }
    }

    /// Puts what the protocol queued behind everything that waits already.
    fn enqueue(&mut self, conn: ConnectionRef<P::Message>)
        ensures
            final(self)@ == (ConnectionView { backlog: old(self)@.backlog + conn@, ..old(self)@ }),
    {
        let ghost before = self@.backlog;
        let mut queued = conn.into_queued();
        self.backlog.append(&mut queued);
        assert(self@.backlog =~= before + conn@);
    }

    /// Notes whether the socket is writable.
    pub fn set_writable(&mut self, w: bool)
        ensures
            final(self)@ == (ConnectionView { writable: w, ..old(self)@ }),
    {
        self.is_writable = w;
    }

    /// Puts a frame behind everything that waits already.
    pub fn queue_frame(&mut self, frame: Vec<u8>)
        ensures
            final(self)@ == (ConnectionView {
                backlog: old(self)@.backlog.push(frame@),
                ..old(self)@
            }),
    {
        let ghost before = self@.backlog;
        self.backlog.push(Cursor::new(frame));
        assert(self@.backlog =~= before.push(frame@));
    }
}

} // verus!
