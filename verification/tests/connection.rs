use std::sync::mpsc::channel;

use solicit_mio::connection::{Connection, ReadError, ReadOutcome, Round, Step, WriteOutcome};
use solicit_mio::cursor::Cursor;
use solicit_mio::evtloop::{ConnectionHandle, Dummy, DummyMsg, Envelope, Message, Protocol};
use solicit_mio::h2::Http2;
use solicit_mio::h2o;
use solicit_mio::simple::{Msg, Simple};

/// What a socket does with what it is offered, one write after the other.
fn drive<P: Protocol>(
    c: &mut Connection<P, ()>,
    step: Step,
    outcomes: &[WriteOutcome],
) -> (Vec<u8>, Step) {
    let mut taken = Vec::new();
    let mut step = step;
    for outcome in outcomes.iter() {
        let round = match step {
            Step::Write(round) => round,
            _ => panic!("no write was asked for"),
        };
        if let WriteOutcome::Wrote(n) = *outcome {
            taken.extend_from_slice(&c.pending().unwrap()[..n]);
        }
        step = c.write_backlog(round, *outcome);
    }
    (taken, step)
}

fn simple() -> Connection<Simple, ()> {
    Connection::new(7, (), Simple)
}

fn dummy() -> Connection<Dummy, ()> {
    Connection::new(0, (), Dummy)
}

fn http2() -> Connection<Http2, ()> {
    Connection::new(5, (), Http2::new(ConnectionHandle::new(5)))
}

fn streams() -> Connection<h2o::Http2, ()> {
    Connection::new(5, (), h2o::Http2::new(ConnectionHandle::new(5)))
}

#[test]
fn a_new_connection_has_nothing_to_do() {
    let mut c = simple();
    assert!(c.pending().is_none());
    assert!(c.read_room() >= 4096);
    assert_eq!(c.ready(false, false), Step::Done);
    assert_eq!(*c.stream(), ());
}

#[test]
fn reading_comes_before_writing() {
    let mut c = dummy();
    assert_eq!(c.ready(true, true), Step::Read(true));
    assert_eq!(c.ready(true, false), Step::Read(false));
    assert_eq!(c.finish_read(ReadOutcome::WouldBlock, true), Ok(Step::Write(Round::Last)));
    assert_eq!(c.pending(), Some(&b"Hello from Dummy!"[..]));
}

#[test]
fn what_waits_goes_before_what_the_protocol_adds() {
    let mut c = dummy();
    assert_eq!(c.notify(Message::QueueFrame(vec![1, 2, 3])), Ok(Step::Done));
    assert_eq!(c.notify(Message::QueueFrame(vec![4])), Ok(Step::Done));
    let step = c.ready(false, true);
    assert_eq!(step, Step::Write(Round::First));
    let (taken, step) = drive(
        &mut c,
        step,
        &[
            WriteOutcome::Wrote(2),
            WriteOutcome::Wrote(1),
            WriteOutcome::Wrote(1),
            WriteOutcome::Wrote(5),
            WriteOutcome::Wrote(12),
        ],
    );
    assert_eq!(taken, b"\x01\x02\x03\x04Hello from Dummy!".to_vec());
    // The protocol always has something to say, and is asked only once.
    assert_eq!(step, Step::Done);
    assert!(c.pending().is_none());
}

#[test]
fn a_socket_that_takes_nothing_is_left_alone_until_it_is_writable() {
    let mut c = dummy();
    c.queue_frame(vec![1, 2, 3]);
    let step = c.ready(false, true);
    let (taken, step) = drive(&mut c, step, &[WriteOutcome::Wrote(1), WriteOutcome::WouldBlock]);
    assert_eq!(taken, vec![1]);
    assert_eq!(step, Step::Done);
    assert_eq!(c.notify(Message::TryWrite), Ok(Step::Done));
    assert_eq!(c.notify(Message::QueueFrame(vec![9])), Ok(Step::Done));
    assert_eq!(c.finish_read(ReadOutcome::WouldBlock, false), Ok(Step::Done));
    assert_eq!(c.pending(), Some(&[2, 3][..]));
    assert_eq!(c.ready(false, true), Step::Write(Round::First));
}

#[test]
fn a_frame_without_bytes_goes_with_the_next_write() {
    let mut c = simple();
    c.queue_frame(Vec::new());
    c.queue_frame(vec![5]);
    let step = c.ready(false, true);
    assert_eq!(c.pending(), Some(&[][..]));
    let (taken, step) = drive(&mut c, step, &[WriteOutcome::Wrote(0), WriteOutcome::Wrote(1)]);
    assert_eq!(taken, vec![5]);
    assert_eq!(step, Step::Done);
}

#[test]
fn a_writable_socket_is_written_to_when_a_frame_is_queued() {
    let mut c = simple();
    assert_eq!(c.ready(false, true), Step::Done);
    assert_eq!(c.notify(Message::Hello), Ok(Step::Done));
    assert_eq!(c.notify(Message::QueueFrame(vec![8, 9])), Ok(Step::Write(Round::First)));
    assert_eq!(c.notify(Message::TryWrite), Ok(Step::Write(Round::First)));
}

#[test]
fn messages_for_the_protocol_do_not_lead_to_a_write() {
    let mut c = streams();
    let step = c.ready(false, true);
    let (taken, step) = drive(&mut c, step, &[WriteOutcome::Wrote(16)]);
    assert_eq!(taken, b"Hello from Http2".to_vec());
    assert_eq!(step, Step::Done);
    let (tx, rx) = channel();
    assert_eq!(c.notify(Message::Proto(h2o::HttpMsg::NewStream(tx))), Ok(Step::Done));
    assert_eq!(c.pending(), Some(&b"New Stream Header"[..]));
    assert!(rx.try_recv().is_ok());
}

#[test]
fn a_message_that_the_protocol_refuses_fails() {
    let mut c = streams();
    let (tx, rx) = channel();
    drop(rx);
    assert_eq!(c.notify(Message::Proto(h2o::HttpMsg::NewStream(tx))), Err(()));
    assert_eq!(c.pending(), Some(&b"New Stream Header"[..]));
}

#[test]
fn what_is_not_consumed_is_shown_again() {
    let mut c = http2();
    let settings = [0, 0, 0, 4, 0, 0, 0, 0, 0];
    assert_eq!(c.finish_read(ReadOutcome::Received(settings[..5].to_vec()), false), Ok(Step::Done));
    assert!(c.read_room() >= 4091);
    assert!(c.pending().is_none());
    let mut rest = settings[5..].to_vec();
    rest.push(0);
    assert_eq!(c.finish_read(ReadOutcome::Received(rest), true), Ok(Step::Write(Round::First)));
    assert_eq!(c.pending(), Some(&[0, 0, 0, 4, 1, 0, 0, 0, 0][..]));
    // The last byte began another frame.
    assert_eq!(c.read(ReadOutcome::Received(settings[1..].to_vec())), Ok(()));
    let (taken, _) = drive(
        &mut c,
        Step::Write(Round::First),
        &[WriteOutcome::Wrote(9), WriteOutcome::Wrote(9)],
    );
    assert_eq!(taken, [0, 0, 0, 4, 1, 0, 0, 0, 0].repeat(2));
}

#[test]
fn the_end_of_the_input_is_not_shown() {
    // With no stream, the protocol would refuse whatever it is shown.
    let mut c = streams();
    assert_eq!(c.finish_read(ReadOutcome::Received(Vec::new()), false), Ok(Step::Done));
}

#[test]
fn a_protocol_that_refuses_ends_the_reading() {
    let mut c = streams();
    assert_eq!(c.finish_read(ReadOutcome::Received(vec![1]), true), Err(ReadError::Refused));
    // The socket was not noted to be writable.
    assert_eq!(c.notify(Message::TryWrite), Ok(Step::Done));
}

#[test]
fn a_full_buffer_grows() {
    let mut c = http2();
    let mut begun = vec![1, 0, 0, 0, 0, 0, 0, 0, 1];
    begun.extend(vec![0; 4087]);
    assert_eq!(c.read(ReadOutcome::Received(begun)), Ok(()));
    assert!(c.read_room() >= 64);
}

#[test]
fn the_least_protocol_consumes_everything_and_says_nothing() {
    let mut c = simple();
    assert_eq!(c.finish_read(ReadOutcome::Received(vec![1, 2]), true), Ok(Step::Done));
    assert_eq!(c.notify(Message::Proto(Msg)), Ok(Step::Done));
    let mut d = dummy();
    assert_eq!(d.read(ReadOutcome::Received(vec![1, 2])), Ok(()));
    assert_eq!(d.notify(Message::Proto(DummyMsg)), Ok(Step::Done));
    assert!(d.pending().is_none());
}

#[test]
fn handles_address_their_connection() {
    let h: ConnectionHandle<Msg> = ConnectionHandle::new(12);
    let Envelope(token, msg) = h.clone().notify(Message::TryWrite);
    assert_eq!(token, 12);
    assert!(matches!(msg, Message::TryWrite));
}

#[test]
fn cursors_move_over_what_is_done_with() {
    let mut c = Cursor::new(vec![1, 2, 3, 4, 5]);
    c.advance(1);
    let mut buf = [9; 2];
    assert_eq!(c.read(&mut buf), 2);
    assert_eq!(buf, [2, 3]);
    assert_eq!(c.bytes(), &[4, 5][..]);
    let mut buf = [9; 4];
    assert_eq!(c.read(&mut buf), 2);
    assert_eq!(buf, [4, 5, 9, 9]);
    assert_eq!(c.remaining(), 0);
}
