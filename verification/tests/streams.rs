use std::sync::mpsc::channel;

use solicit_mio::channel::{pipe, Inlet, Outlet};
use solicit_mio::client::StreamResponse;
use solicit_mio::evtloop::{ConnectionHandle, ConnectionRef, Envelope, Message, Protocol};
use solicit_mio::future::Future;
use solicit_mio::h2o::{Http2, HttpMsg};
use solicit_mio::request::{FreshRequest, FutureRequest, Request};
use solicit_mio::response::{FutureResponse, Response, ResponseHandler};
use solicit_mio::stream::Stream;

/// What the protocol queues with what `f` does.
fn queued<F: FnOnce(&mut ConnectionRef<HttpMsg>)>(f: F) -> Vec<Vec<u8>> {
    let mut conn = ConnectionRef::new(ConnectionHandle::new(0));
    f(&mut conn);
    conn.into_queued().iter().map(|c| c.bytes().to_vec()).collect()
}

fn open(p: &mut Http2) -> Stream {
    let (tx, rx) = channel();
    let out = queued(|conn| assert_eq!(p.notify(HttpMsg::NewStream(tx), conn), Ok(())));
    assert_eq!(out, vec![b"New Stream Header".to_vec()]);
    rx.recv().unwrap()
}

fn turn(p: &mut Http2) -> Vec<Vec<u8>> {
    queued(|conn| p.ready_write(conn))
}

#[test]
fn what_is_written_comes_out_at_the_other_end() {
    let (mut client, mut proto) = Stream::pair();
    assert_eq!(client.write(vec![1, 2, 3]), Ok(()));
    assert_eq!(proto.rx.wait_for(), Some(vec![1, 2, 3]));
    assert!(proto.rx.poll().is_none());
    assert!(proto.tx.put(vec![4]));
    assert_eq!(client.recv_chunk(), Ok(vec![4]));
}

#[test]
fn nothing_can_be_done_once_the_other_end_is_gone() {
    let (mut client, proto) = Stream::pair();
    drop(proto);
    assert_eq!(client.write(vec![1]), Err(()));
    assert_eq!(client.recv_chunk(), Err(()));
}

#[test]
fn the_streams_protocol_greets_first() {
    let mut p = Http2::new(ConnectionHandle::new(0));
    let mut s = open(&mut p);
    s.write(vec![1]).unwrap();
    assert_eq!(turn(&mut p), vec![b"Hello from Http2".to_vec()]);
    assert_eq!(turn(&mut p), vec![vec![1]]);
    assert_eq!(turn(&mut p), Vec::<Vec<u8>>::new());
}

#[test]
fn each_stream_sends_one_chunk_at_a_time() {
    let mut p = Http2::new(ConnectionHandle::new(0));
    turn(&mut p);
    let mut a = open(&mut p);
    let mut b = open(&mut p);
    let mut c = open(&mut p);
    a.write(vec![1]).unwrap();
    a.write(vec![2]).unwrap();
    c.write(vec![3]).unwrap();
    assert_eq!(turn(&mut p), vec![vec![1], vec![3]]);
    b.write(vec![4]).unwrap();
    assert_eq!(turn(&mut p), vec![vec![2], vec![4]]);
}

#[test]
fn what_comes_in_goes_to_the_first_stream() {
    let mut p = Http2::new(ConnectionHandle::new(0));
    assert!(queued(|conn| assert_eq!(p.on_data(&[1], conn), Err(()))).is_empty());
    let mut a = open(&mut p);
    let _b = open(&mut p);
    assert!(queued(|conn| assert_eq!(p.on_data(&[1, 2], conn), Ok(2))).is_empty());
    assert_eq!(a.recv_chunk(), Ok(vec![1, 2]));
    drop(a);
    assert!(queued(|conn| assert_eq!(p.on_data(&[3], conn), Err(()))).is_empty());
}

#[test]
fn a_request_waits_for_its_stream() {
    let fresh = FreshRequest { conn: ConnectionHandle::new(3) };
    let (tx, rx) = channel();
    let future = FutureRequest { conn: fresh.conn.clone(), future_stream: rx };
    let (client, mut proto) = Stream::pair();
    tx.send(client).unwrap();
    let mut request = future.wait().unwrap();
    let (n, Envelope(token, msg)) = request.write(b"body").unwrap();
    assert_eq!(n, 4);
    assert_eq!(token, 3);
    assert!(matches!(msg, Message::TryWrite));
    assert_eq!(request.flush(), Ok(()));
    assert_eq!(proto.rx.poll(), Some(b"body".to_vec()));
    let (mut response, Envelope(token, _)) = request.send().unwrap();
    assert_eq!(token, 3);
    assert_eq!(proto.rx.poll(), Some(b"Trailer! Done here!".to_vec()));
    assert!(proto.tx.put(b"answer".to_vec()));
    let mut buf = [0; 6];
    assert_eq!(response.read(&mut buf), Ok(6));
    assert_eq!(buf, *b"answer");
}

#[test]
fn a_request_fails_once_nobody_takes_it() {
    let (tx, rx) = channel();
    drop(tx);
    let future = FutureRequest { conn: ConnectionHandle::new(0), future_stream: rx };
    assert!(future.wait().is_none());
    let (client, proto) = Stream::pair();
    drop(proto);
    let mut request = Request::new(ConnectionHandle::new(0), client);
    assert!(request.write(b"x").is_err());
    assert!(request.send().is_err());
}

#[test]
fn a_chunk_that_is_used_up_is_the_last() {
    let (mut tx, rx) = pipe();
    let mut response = StreamResponse { stream: rx, leftover: None };
    assert!(tx.put(b"abc".to_vec()));
    assert!(tx.put(b"def".to_vec()));
    let mut buf = [0; 5];
    assert_eq!(response.read(&mut buf), Ok(3));
    assert_eq!(buf, *b"abc\0\0");
    assert_eq!(response.read(&mut buf), Ok(0));
    assert_eq!(response.read(&mut buf), Ok(0));
    assert_eq!(buf, *b"abc\0\0");
    // The other chunk was left where it was.
    assert_eq!(response.stream.poll(), Some(b"def".to_vec()));
}

#[test]
fn what_does_not_fit_is_dropped() {
    let (mut tx, rx) = pipe();
    let mut response = Response::new(rx);
    assert!(tx.put(b"abcdef".to_vec()));
    assert!(tx.put(b"ghi".to_vec()));
    drop(tx);
    let mut buf = [0; 2];
    assert_eq!(response.read(&mut buf), Ok(2));
    assert_eq!(buf, *b"ab");
    assert_eq!(response.read(&mut buf), Ok(2));
    assert_eq!(buf, *b"gh");
    assert_eq!(response.read(&mut buf), Err(()));
    assert_eq!(buf, *b"gh");
}

#[test]
fn a_handler_passes_the_response_on() {
    let (future, resolve) = FutureResponse::new();
    let (tx, mut rx) = pipe();
    let mut handler = ResponseHandler { resolve, tx };
    assert_eq!(handler.on_headers(&[]), Ok(()));
    assert_eq!(handler.on_data(b"abc"), Ok(()));
    assert_eq!(rx.poll(), Some(b"abc".to_vec()));
    // What the response is read from is another channel, into which nothing is put.
    let mut response = future.response().unwrap();
    assert_eq!(response.read(&mut [0; 4]), Err(()));
    assert_eq!(handler.on_headers(&[]), Err(()));
    drop(rx);
    assert_eq!(handler.on_data(b"abc"), Err(()));
}

#[test]
fn the_first_response_comes_and_only_where_it_was_put() {
    let (first, mut tx1) = FutureResponse::new();
    let (second, tx2) = FutureResponse::new();
    let (mut body, rx) = pipe();
    assert!(body.put(b"one".to_vec()));
    assert!(tx1.put(Response::new(rx)));
    assert!(tx1.put(Response::new(pipe().1)));
    drop(tx2);
    let mut buf = [0; 3];
    assert_eq!(first.response().unwrap().read(&mut buf), Ok(3));
    assert_eq!(buf, *b"one");
    assert!(second.response().is_none());
}

#[test]
fn ends_of_channels_can_be_taken_over() {
    let (tx, rx) = channel();
    let mut tx = Outlet::new(tx);
    let mut rx = Inlet::new(rx);
    assert!(tx.put(1));
    assert!(tx.put(2));
    assert_eq!(rx.wait_for(), Some(1));
    assert_eq!(rx.poll(), Some(2));
    assert_eq!(rx.poll(), None);
    drop(tx);
    assert_eq!(rx.wait_for(), None);
}

#[test]
fn a_response_that_nobody_provides_does_not_come() {
    let (future, resolve) = FutureResponse::new();
    drop(resolve);
    assert!(future.response().is_none());
}

#[test]
fn a_future_gives_what_comes_out_of_its_channel() {
    let (tx, rx) = channel();
    tx.send(5).unwrap();
    assert_eq!(Future::from_channel(rx).wait(), Some(5));
    let (tx, rx) = channel::<u8>();
    drop(tx);
    assert_eq!(Future::from_channel(rx).wait(), None);
}
