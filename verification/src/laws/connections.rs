//! What each event does to a connection.
use vstd::prelude::*;
use crate::connection::{
    became_writable, offered, read_finished, tried, was_notified, was_read, wrote, ConnectionView,
    ReadError, ReadOutcome, Round, Step, WriteOutcome,
};
use crate::dispatcher::added;
use crate::evtloop::{Message, Protocol, Token};

verus! {

/// The protocol of `c`, for which nothing waits, was asked for something to write, which made `c`
/// into `d`. All that it queued waits then, and is written next; where it queued nothing, there
/// is nothing to do.
pub open spec fn turn_taken<P: Protocol, S>(
    c: ConnectionView<P, S>,
    d: ConnectionView<P, S>,
    step: Step,
) -> bool {
    exists|queued: Seq<Seq<u8>>| #[trigger]
        P::took_turn(c.protocol, c.token, d.protocol, queued) && d == (ConnectionView {
            token: c.token,
            stream: c.stream,
            backlog: queued,
            writable: c.writable,
            protocol: d.protocol,
            buf: c.buf,
        }) && step == (if queued.len() == 0 {
            Step::Done
        } else {
            Step::Write(Round::Last)
        })
}

/// What the protocol queues is all that waits where nothing waited before.
proof fn asked_while_idle<P: Protocol, S>(
    c: ConnectionView<P, S>,
    d: ConnectionView<P, S>,
    step: Step,
)
    requires
        offered(c, d, step),
        c.backlog.len() == 0,
    ensures
        turn_taken(c, d, step),
{
    let queued = choose|frames: Seq<Seq<u8>>| #[trigger]
        P::took_turn(c.protocol, c.token, d.protocol, frames) && d == (ConnectionView {
            backlog: c.backlog + frames,
            protocol: d.protocol,
            ..c
        });
    assert(c.backlog + queued =~= queued);
}

/// An attempt to write: where the socket is not writable, nothing happens; where something waits,
/// however much, it is written; where nothing waits, the protocol is asked.
pub proof fn attempt_writes_what_waits<P: Protocol, S>(
    c: ConnectionView<P, S>,
    d: ConnectionView<P, S>,
    step: Step,
)
    requires
        tried(c, d, step),
    ensures
        !c.writable ==> d == c && step == Step::Done,
        c.writable && c.backlog.len() > 0 ==> d == c && step == Step::Write(Round::First),
        c.writable && c.backlog.len() == 0 ==> turn_taken(c, d, step),
{
    if c.writable && c.backlog.len() == 0 {
        asked_while_idle(c, d, step);
    }
}

/// Whenever the socket of a connection becomes writable, what waits is written, however much that
/// is; where nothing waits, the protocol is asked. The connection takes note that its socket is
/// writable.
pub proof fn writable_socket_is_written_to<P: Protocol, S>(
    c: ConnectionView<P, S>,
    d: ConnectionView<P, S>,
    step: Step,
)
    requires
        became_writable(c, d, step),
    ensures
        d.writable,
        c.backlog.len() > 0 ==> step == Step::Write(Round::First) && d == (ConnectionView {
            token: c.token,
            stream: c.stream,
            backlog: c.backlog,
            writable: true,
            protocol: c.protocol,
            buf: c.buf,
        }),
        c.backlog.len() == 0 ==> turn_taken(ConnectionView { writable: true, ..c }, d, step),
{
    if c.backlog.len() == 0 {
        asked_while_idle(ConnectionView { writable: true, ..c }, d, step);
    }
}

/// The protocol was shown everything that was read and not consumed, which made `c` into `d`. What
/// it queued in answer waits behind what waited before.
pub open spec fn shown<P: Protocol, S>(
    c: ConnectionView<P, S>,
    all: Seq<u8>,
    d: ConnectionView<P, S>,
    answer: Result<usize, ()>,
) -> bool {
    exists|queued: Seq<Seq<u8>>| #[trigger]
        P::took_data(c.protocol, c.token, all, d.protocol, queued, answer) && d == (
        ConnectionView {
            token: c.token,
            stream: c.stream,
            backlog: c.backlog + queued,
            writable: c.writable,
            protocol: d.protocol,
            buf: match answer {
                Ok(n) => if n <= all.len() {
                    all.skip(n as int)
                } else {
                    all
                },
                Err(_) => all,
            },
        })
}

/// Where nothing was read, nothing happens.
pub proof fn nothing_read_changes_nothing<P: Protocol, S>(
    c: ConnectionView<P, S>,
    outcome: ReadOutcome,
    d: ConnectionView<P, S>,
    r: Result<(), ReadError>,
)
    requires
        was_read(c, outcome, d, r),
        outcome matches ReadOutcome::Received(data) ==> data@.len() == 0,
    ensures
        d == c,
        r is Ok,
{
}

/// What was read joins what was left, and the protocol is shown all of it. What the protocol says
/// that it consumed is gone from the front. Where it refuses what it is shown, or claims more than
/// that, the connection cannot go on, and keeps everything.
pub proof fn all_that_was_read_is_shown<P: Protocol, S>(
    c: ConnectionView<P, S>,
    data: Vec<u8>,
    d: ConnectionView<P, S>,
    r: Result<(), ReadError>,
)
    requires
        was_read(c, ReadOutcome::Received(data), d, r),
        data@.len() > 0,
    ensures
        exists|answer: Result<usize, ()>| #[trigger]
            shown(c, c.buf + data@, d, answer) && match answer {
                Ok(n) => if n <= c.buf.len() + data@.len() {
                    r is Ok
                } else {
                    r == Err::<(), ReadError>(ReadError::Overrun)
                },
                Err(_) => r == Err::<(), ReadError>(ReadError::Refused),
            },
{
    let all = c.buf + data@;
    let (queued, answer) = choose|queued: Seq<Seq<u8>>, answer: Result<usize, ()>| #[trigger]
        P::took_data(c.protocol, c.token, all, d.protocol, queued, answer) && d == (
        ConnectionView {
            backlog: c.backlog + queued,
            protocol: d.protocol,
            buf: d.buf,
            ..c
        }) && match answer {
            Ok(n) => if n <= all.len() {
                d.buf == all.skip(n as int) && r is Ok
            } else {
                d.buf == all && r == Err::<(), ReadError>(ReadError::Overrun)
            },
            Err(_) => d.buf == all && r == Err::<(), ReadError>(ReadError::Refused),
        };
    assert(shown(c, all, d, answer));
}

/// Reading comes first, and where it went well, writing follows if the socket was reported to be
/// writable too: what waits is written, however much that is, and where nothing waits, the
/// protocol is asked.
pub proof fn reading_comes_before_writing<P: Protocol, S>(
    c: ConnectionView<P, S>,
    outcome: ReadOutcome,
    writable: bool,
    d: ConnectionView<P, S>,
    r: Result<Step, ReadError>,
)
    requires
        read_finished(c, outcome, writable, d, r),
    ensures
        exists|e: ConnectionView<P, S>, read: Result<(), ReadError>| #[trigger]
            was_read(c, outcome, e, read) && match read {
                Err(error) => r == Err::<Step, ReadError>(error) && d == e,
                Ok(_) => if !writable {
                    r == Ok::<Step, ReadError>(Step::Done) && d == e
                } else if e.backlog.len() > 0 {
                    r == Ok::<Step, ReadError>(Step::Write(Round::First)) && d == (
                    ConnectionView { writable: true, ..e })
                } else {
                    r is Ok && turn_taken(ConnectionView { writable: true, ..e }, d, r->Ok_0)
                },
            },
{
    let (e, read) = choose|e: ConnectionView<P, S>, read: Result<(), ReadError>| #[trigger]
        was_read(c, outcome, e, read) && match read {
            Ok(_) => r matches Ok(step) && if writable {
                became_writable(e, d, step)
            } else {
                d == e && step == Step::Done
            },
            Err(error) => d == e && r == Err::<Step, ReadError>(error),
        };
    if read is Ok && writable {
        writable_socket_is_written_to(e, d, r->Ok_0);
    }
    assert(was_read(c, outcome, e, read));
}

/// A socket that took nothing ends the writing, and is not writable until it is reported to be.
pub proof fn blocked_socket_keeps_everything<P: Protocol, S>(
    c: ConnectionView<P, S>,
    round: Round,
    d: ConnectionView<P, S>,
    step: Step,
)
    requires
        wrote(c, round, WriteOutcome::WouldBlock, d, step),
    ensures
        step == Step::Done,
        d == (ConnectionView {
            token: c.token,
            stream: c.stream,
            backlog: c.backlog,
            writable: false,
            protocol: c.protocol,
            buf: c.buf,
        }),
{
}

/// A socket that took some of the first frame is offered the rest of it next.
pub proof fn rest_of_a_frame_is_offered_next<P: Protocol, S>(
    c: ConnectionView<P, S>,
    round: Round,
    n: usize,
    d: ConnectionView<P, S>,
    step: Step,
)
    requires
        c.backlog.len() > 0,
        n < c.backlog[0].len(),
        wrote(c, round, WriteOutcome::Wrote(n), d, step),
    ensures
        step == Step::Write(round),
        d == (ConnectionView {
            token: c.token,
            stream: c.stream,
            backlog: seq![c.backlog[0].skip(n as int)] + c.backlog.skip(1),
            writable: c.writable,
            protocol: c.protocol,
            buf: c.buf,
        }),
{
    assert(d.backlog =~= seq![c.backlog[0].skip(n as int)] + c.backlog.skip(1));
}

/// A socket that took all of the first frame is offered the next. Where there is no other, the
/// protocol is asked, unless it has been in this attempt or the socket is not writable.
pub proof fn next_frame_is_offered_next<P: Protocol, S>(
    c: ConnectionView<P, S>,
    round: Round,
    n: usize,
    d: ConnectionView<P, S>,
    step: Step,
)
    requires
        c.backlog.len() > 0,
        n == c.backlog[0].len(),
        wrote(c, round, WriteOutcome::Wrote(n), d, step),
    ensures
        c.backlog.len() > 1 ==> step == Step::Write(round) && d == (ConnectionView {
            token: c.token,
            stream: c.stream,
            backlog: c.backlog.skip(1),
            writable: c.writable,
            protocol: c.protocol,
            buf: c.buf,
        }),
        c.backlog.len() == 1 && (round == Round::Last || !c.writable) ==> step == Step::Done && d
            == (ConnectionView {
            token: c.token,
            stream: c.stream,
            backlog: Seq::<Seq<u8>>::empty(),
            writable: c.writable,
            protocol: c.protocol,
            buf: c.buf,
        }),
        c.backlog.len() == 1 && round == Round::First && c.writable ==> turn_taken(
            ConnectionView { backlog: Seq::<Seq<u8>>::empty(), ..c },
            d,
            step,
        ),
{
    if c.backlog.len() == 1 {
        assert(c.backlog.skip(1) =~= Seq::<Seq<u8>>::empty());
        if round == Round::First && c.writable {
            asked_while_idle(
                ConnectionView { backlog: Seq::<Seq<u8>>::empty(), ..c },
                d,
                step,
            );
        }
    }
}

/// A greeting does nothing, and a request to try and write is an attempt to write.
pub proof fn plain_messages<P: Protocol, S>(
    c: ConnectionView<P, S>,
    msg: Message<P::Message>,
    d: ConnectionView<P, S>,
    r: Result<Step, ()>,
)
    requires
        was_notified(c, msg, d, r),
        msg is Hello || msg is TryWrite,
    ensures
        r is Ok,
        msg is Hello || !c.writable ==> d == c && r->Ok_0 == Step::Done,
        msg is TryWrite && c.writable && c.backlog.len() > 0 ==> d == c && r->Ok_0 == Step::Write(
            Round::First,
        ),
        msg is TryWrite && c.writable && c.backlog.len() == 0 ==> turn_taken(c, d, r->Ok_0),
{
    if msg is TryWrite {
        attempt_writes_what_waits(c, d, r->Ok_0);
    }
}

/// A frame that is sent to a connection waits behind all others, and is written at once where the
/// socket is writable. The protocol has nothing to do with it.
pub proof fn frame_is_queued_and_written<P: Protocol, S>(
    c: ConnectionView<P, S>,
    frame: Vec<u8>,
    d: ConnectionView<P, S>,
    r: Result<Step, ()>,
)
    requires
        was_notified(c, Message::QueueFrame(frame), d, r),
    ensures
        r == Ok::<Step, ()>(
            if c.writable {
                Step::Write(Round::First)
            } else {
                Step::Done
            },
        ),
        d == (ConnectionView {
            token: c.token,
            stream: c.stream,
            backlog: c.backlog + seq![frame@],
            writable: c.writable,
            protocol: c.protocol,
            buf: c.buf,
        }),
{
    assert(c.backlog.push(frame@) =~= c.backlog + seq![frame@]);
}

/// What is for the protocol goes to the protocol, which may queue something behind what waits.
/// Nothing is written on that account, and where the protocol refuses it, the connection says so.
pub proof fn protocol_gets_its_messages<P: Protocol, S>(
    c: ConnectionView<P, S>,
    m: P::Message,
    d: ConnectionView<P, S>,
    r: Result<Step, ()>,
)
    requires
        was_notified(c, Message::Proto(m), d, r),
    ensures
        r matches Ok(step) ==> step == Step::Done,
        exists|queued: Seq<Seq<u8>>, answer: Result<(), ()>| #[trigger]
            P::took_message(c.protocol, c.token, m, d.protocol, queued, answer) && (answer is Ok)
                == (r is Ok) && d == (ConnectionView {
                token: c.token,
                stream: c.stream,
                backlog: c.backlog + queued,
                writable: c.writable,
                protocol: d.protocol,
                buf: c.buf,
            }),
{
}

/// A connection that was added has its token and its socket, and nothing has happened on it.
pub proof fn added_connection_is_blank<P: Protocol, S>(
    token: Token,
    stream: S,
    c: ConnectionView<P, S>,
)
    requires
        added(token, stream, c),
    ensures
        P::opened(token, c.protocol),
        c.token == token,
        c.stream == stream,
        c.backlog.len() == 0,
        !c.writable,
        c.buf.len() == 0,
{
}

} // verus!
