use solicit_mio::channel::pipe;
use solicit_mio::client::ChannelReady;
use solicit_mio::connection::{ReadError, ReadOutcome, Round, Step, WriteOutcome};
use solicit_mio::dispatcher::{connection_ready, Dispatched, Dispatcher, MAX_CONNECTIONS};
use solicit_mio::evtloop::{ConnectionHandle, Dummy, DummyMsg, Envelope, Message, WorkItem};
use solicit_mio::h2o;

type Item = WorkItem<DummyMsg, char, u8>;

#[test]
fn tokens_are_dealt_out_in_order() {
    let mut d: Dispatcher<Dummy, char> = Dispatcher::new();
    assert!(!d.contains(0));
    assert_eq!(d.add_connection('a'), Some(0));
    assert_eq!(d.add_connection('b'), Some(1));
    assert_eq!(d.add_connection('c'), Some(2));
    assert!(d.contains(2));
    assert!(!d.contains(3));
    assert!(!d.contains(usize::MAX));
    assert_eq!(*d.connection(1).unwrap().stream(), 'b');
    assert!(d.connection(3).is_none());
    *d.stream_mut(1) = 'x';
    assert_eq!(*d.connection(0).unwrap().stream(), 'a');
    assert_eq!(*d.connection(1).unwrap().stream(), 'x');
}

#[test]
fn an_event_loop_takes_so_many_connections() {
    let mut d: Dispatcher<Dummy, char> = Dispatcher::new();
    for i in 0..MAX_CONNECTIONS {
        assert_eq!(d.add_connection('s'), Some(i));
    }
    assert_eq!(MAX_CONNECTIONS, 1024);
    assert_eq!(d.add_connection('s'), None);
    let item: Item = WorkItem::AddConnection('t', 1);
    assert!(matches!(d.notify(item), Dispatched::Full));
    assert!(d.contains(1023));
    assert!(!d.contains(1024));
}

#[test]
fn the_callback_is_told_the_handle_of_its_connection() {
    let mut d: Dispatcher<Dummy, char> = Dispatcher::new();
    d.add_connection('a');
    let (tx, mut rx) = pipe();
    match d.notify(WorkItem::AddConnection('b', ChannelReady { resolve: tx })) {
        Dispatched::Added(token, ready) => {
            assert_eq!(token, 1);
            assert_eq!(connection_ready(token, ready), Ok(()));
        }
        _ => panic!("there was room"),
    }
    let handle: ConnectionHandle<DummyMsg> = rx.wait_for().unwrap().unwrap();
    assert_eq!(handle.token(), 1);
}

#[test]
fn nobody_has_to_wait_for_the_handle() {
    let (tx, rx) = pipe::<Option<ConnectionHandle<DummyMsg>>>();
    drop(rx);
    assert_eq!(connection_ready(0, ChannelReady { resolve: tx }), Err(()));
}

#[test]
fn events_go_to_the_connection_with_the_token() {
    let mut d: Dispatcher<Dummy, char> = Dispatcher::new();
    d.add_connection('a');
    d.add_connection('b');
    let item: Item = WorkItem::NotifyConnection(Envelope(1, Message::QueueFrame(vec![1, 2])));
    match d.notify(item) {
        Dispatched::Notified(token, answer) => {
            assert_eq!(token, 1);
            assert_eq!(answer, Ok(Step::Done));
        }
        _ => panic!("it was a message"),
    }
    assert!(d.connection(0).unwrap().pending().is_none());
    assert_eq!(d.ready(1, false, true), Step::Write(Round::First));
    assert_eq!(d.connection(1).unwrap().pending(), Some(&[1, 2][..]));
    assert_eq!(d.write_backlog(1, Round::First, WriteOutcome::Wrote(1)), Step::Write(Round::First));
    assert_eq!(d.write_backlog(1, Round::First, WriteOutcome::WouldBlock), Step::Done);
    assert_eq!(d.connection(1).unwrap().pending(), Some(&[2][..]));
    assert_eq!(d.ready(0, true, false), Step::Read(false));
    assert!(d.read_room(0) >= 4096);
    assert_eq!(d.finish_read(0, ReadOutcome::Received(vec![9]), false), Ok(Step::Done));
    assert_eq!(d.ready(0, false, true), Step::Write(Round::Last));
    assert_eq!(d.connection(0).unwrap().pending(), Some(&b"Hello from Dummy!"[..]));
}

#[test]
fn what_a_protocol_refuses_is_reported() {
    let mut d: Dispatcher<h2o::Http2, ()> = Dispatcher::new();
    d.add_connection(());
    assert_eq!(
        d.finish_read(0, ReadOutcome::Received(vec![1]), true),
        Err(ReadError::Refused)
    );
}
