use solicit::http::connection::SendFrame;
use solicit::http::frame::RawFrame;
use solicit::http::session::{Stream, StreamState};
use solicit::http::HttpScheme;
use solicit_mio::channel::{pipe, Inlet};
use solicit_mio::client::{ChannelDelegate, EchoDelegate, StreamResponse};
use solicit_mio::connection::{Connection, ReadError, ReadOutcome, Round, Step, WriteOutcome};
use solicit_mio::delegate::{close_local, is_closed_local, BoxStream, Delegate};
use solicit_mio::evtloop::{ConnectionHandle, ConnectionRef, Envelope, Message, Protocol};
use solicit_mio::h2::{Http2, HttpMsg, RequestDelegate, SendLongWay};

const PREFACE: &[u8] =
    b"PRI * HTTP/2.0\r\n\r\nSM\r\n\r\n\x00\x00\x06\x04\x00\x00\x00\x00\x00\x00\x02\x00\x00\x00\x00";
const ACK: &[u8] = &[0, 0, 0, 4, 1, 0, 0, 0, 0];
const SETTINGS: &[u8] = &[0, 0, 0, 4, 0, 0, 0, 0, 0];

/// A frame with the given type, flags, stream and payload.
fn frame(kind: u8, flags: u8, stream: u8, payload: &[u8]) -> Vec<u8> {
    let mut f = vec![0, 0, payload.len() as u8, kind, flags, 0, 0, 0, stream];
    f.extend_from_slice(payload);
    f
}

fn http2() -> Http2 {
    Http2::new(ConnectionHandle::new(0))
}

/// What the protocol queues with what `f` does.
fn queued<F: FnOnce(&mut ConnectionRef<HttpMsg>)>(f: F) -> Vec<Vec<u8>> {
    let mut conn = ConnectionRef::new(ConnectionHandle::new(0));
    f(&mut conn);
    conn.into_queued().iter().map(|c| c.bytes().to_vec()).collect()
}

fn request(p: &mut Http2, delegate: Box<dyn RequestDelegate>) -> Vec<Vec<u8>> {
    queued(|conn| {
        assert_eq!(p.notify(HttpMsg::NewStream(Delegate::new(delegate)), conn), Ok(()));
    })
}

fn received(p: &mut Http2, buf: &[u8]) -> (Vec<Vec<u8>>, Result<usize, ()>) {
    let mut answer = Err(());
    let out = queued(|conn| answer = p.on_data(buf, conn));
    (out, answer)
}

fn turn(p: &mut Http2) -> Vec<Vec<u8>> {
    queued(|conn| p.ready_write(conn))
}

fn channel_delegate() -> (Box<ChannelDelegate>, Inlet<StreamResponse>) {
    let (tx, rx) = pipe();
    (Box::new(ChannelDelegate::new(StreamState::Open, tx)), rx)
}

#[test]
fn the_preface_is_sent_first_and_once() {
    let mut p = http2();
    assert_eq!(turn(&mut p), vec![PREFACE.to_vec()]);
    assert_eq!(turn(&mut p), Vec::<Vec<u8>>::new());
    let sent = request(&mut p, Box::new(EchoDelegate::new(StreamState::Open)));
    assert_eq!(sent.len(), 1);
    assert_ne!(sent[0], PREFACE.to_vec());
}

#[test]
fn a_request_sends_the_preface_if_nothing_did() {
    let mut p = http2();
    let sent = request(&mut p, Box::new(EchoDelegate::new(StreamState::Open)));
    assert_eq!(sent.len(), 2);
    assert_eq!(sent[0], PREFACE.to_vec());
    assert_eq!(sent[1][3..9].to_vec(), vec![1, 4, 0, 0, 0, 1]);
    // The next turn is for the data of the stream.
    assert_eq!(turn(&mut p), vec![frame(0, 1, 1, b"AB")]);
}

#[test]
fn the_headers_of_a_request() {
    let mut p = http2();
    turn(&mut p);
    let sent = request(&mut p, Box::new(EchoDelegate::new(StreamState::Open)));
    let mut expected = Vec::new();
    // The table holds `:method` with `POST`.
    expected.push(0x83);
    // Of `:path` and `:authority` it holds the names.
    expected.extend_from_slice(b"\x05\x05/post");
    expected.extend_from_slice(b"\x01\x0chttp2bin.org");
    // The table holds `:scheme` with `http`.
    expected.push(0x86);
    assert_eq!(sent, vec![frame(1, 4, 1, &expected)]);
}

#[test]
fn extra_headers_follow_those_that_every_request_has() {
    let mut p = http2();
    let extras = [(b"accept".to_vec(), b"text/plain".to_vec())];
    let delegate = Delegate::new(Box::new(EchoDelegate::new(StreamState::Open)));
    let req = p.new_stream(b"GET", b"/", &extras, None, delegate);
    let expected: Vec<(Vec<u8>, Vec<u8>)> = vec![
        (b":method".to_vec(), b"GET".to_vec()),
        (b":path".to_vec(), b"/".to_vec()),
        (b":authority".to_vec(), b"http2bin.org".to_vec()),
        (b":scheme".to_vec(), HttpScheme::Http.as_bytes().to_vec()),
        (b"accept".to_vec(), b"text/plain".to_vec()),
    ];
    assert_eq!(req.headers, expected);
    assert_eq!(req.stream.id(), 1);
    assert_eq!(req.stream.state(), StreamState::Open);
    // A request that is never started uses up no number.
    let delegate = Delegate::new(Box::new(EchoDelegate::new(StreamState::Open)));
    assert_eq!(p.new_stream(b"GET", b"/", &[], None, delegate).stream.id(), 1);
    let sent = request(&mut p, Box::new(EchoDelegate::new(StreamState::Open)));
    assert_eq!(sent[1][8], 1);
}

#[test]
fn streams_have_odd_numbers_in_order() {
    let mut p = http2();
    turn(&mut p);
    for id in [1u8, 3, 5].iter() {
        let sent = request(&mut p, Box::new(EchoDelegate::new(StreamState::HalfClosedLocal)));
        assert_eq!(sent[0][8], *id);
        // There is no data to follow.
        assert_eq!(sent[0][4], 5);
    }
    assert_eq!(turn(&mut p), Vec::<Vec<u8>>::new());
}

#[test]
fn each_stream_sends_its_data_once() {
    let mut p = http2();
    turn(&mut p);
    request(&mut p, Box::new(EchoDelegate::new(StreamState::Open)));
    request(&mut p, Box::new(EchoDelegate::new(StreamState::Open)));
    let mut sent = turn(&mut p);
    sent.extend(turn(&mut p));
    sent.sort();
    assert_eq!(sent, vec![frame(0, 1, 1, b"AB"), frame(0, 1, 3, b"AB")]);
    assert_eq!(turn(&mut p), Vec::<Vec<u8>>::new());
}

#[test]
fn settings_are_acknowledged_once() {
    let mut p = http2();
    let mut buf = SETTINGS.to_vec();
    buf.extend(frame(4, 0, 0, &[0, 3, 0, 0, 0, 100]));
    buf.extend_from_slice(ACK);
    buf.extend(frame(6, 0, 0, &[0; 8]));
    let len = buf.len();
    buf.extend_from_slice(&[0, 0, 1]);
    assert_eq!(received(&mut p, &buf), (vec![ACK.to_vec(), ACK.to_vec()], Ok(len)));
    assert_eq!(received(&mut p, &[]), (Vec::new(), Ok(0)));
}

#[test]
fn the_first_frame_that_is_not_taken_ends_it() {
    let mut p = http2();
    let mut buf = SETTINGS.to_vec();
    buf.extend(frame(4, 0, 1, &[]));
    buf.extend_from_slice(SETTINGS);
    assert_eq!(received(&mut p, &buf), (vec![ACK.to_vec()], Err(())));
    // Headers that cannot be decoded, and headers that are cut off.
    assert_eq!(received(&mut p, &frame(1, 4, 1, &[0xff, 0x7f])), (Vec::new(), Err(())));
    assert_eq!(received(&mut p, &frame(1, 4, 1, &[0x3f])), (Vec::new(), Err(())));
}

#[test]
fn header_blocks_refer_to_those_before() {
    // The first entry that joins the table has number 62.
    let refers = frame(1, 4, 1, &[0x80 | 62]);
    let joins = frame(1, 4, 1, &[0x40, 1, 97, 1, 98]);
    assert_eq!(received(&mut http2(), &refers).1, Err(()));
    let mut p = http2();
    assert_eq!(received(&mut p, &joins).1, Ok(14));
    assert_eq!(received(&mut p, &refers).1, Ok(10));
}

#[test]
fn a_response_reaches_its_delegate_however_it_is_cut() {
    let mut all = SETTINGS.to_vec();
    all.extend(frame(1, 4, 1, &[0x88]));
    all.extend(frame(0, 0, 1, b"Hello"));
    all.extend(frame(0, 8, 1, b"\x02, \x00\x00"));
    all.extend(frame(0, 0, 3, b"of another stream"));
    all.extend(frame(0, 1, 1, b"World"));
    for size in 1..all.len() {
        let (delegate, mut resolve) = channel_delegate();
        let mut c = Connection::new(0, (), http2());
        let msg = HttpMsg::NewStream(Delegate::new(delegate));
        assert_eq!(c.notify(Message::Proto(msg)), Ok(Step::Done));
        for chunk in all.chunks(size) {
            assert_eq!(c.finish_read(ReadOutcome::Received(chunk.to_vec()), false), Ok(Step::Done));
        }
        let mut response = resolve.poll().unwrap();
        let mut chunks = Vec::new();
        while let Some(chunk) = response.stream.poll() {
            chunks.push(chunk);
        }
        assert_eq!(chunks, vec![b"Hello".to_vec(), b", ".to_vec(), b"World".to_vec()]);
    }
}

#[test]
fn a_stream_that_the_peer_ended_is_let_go_of() {
    let (delegate, mut resolve) = channel_delegate();
    let mut p = http2();
    request(&mut p, delegate);
    let mut buf = frame(1, 4, 1, &[0x88]);
    buf.extend(frame(0, 1, 1, b"end"));
    assert_eq!(received(&mut p, &buf).1, Ok(22));
    let mut response = resolve.poll().unwrap();
    assert_eq!(response.stream.wait_for(), Some(b"end".to_vec()));
    // Nobody is left to put anything more into the channel, nor to send the body of the request.
    assert!(response.stream.wait_for().is_none());
    assert!(resolve.wait_for().is_none());
    assert_eq!(turn(&mut p), Vec::<Vec<u8>>::new());
    assert_eq!(received(&mut p, &frame(0, 0, 1, b"late")), (Vec::new(), Ok(13)));
}

#[test]
fn each_response_gets_the_data_after_its_headers() {
    let (delegate, mut resolve) = channel_delegate();
    let mut d = *delegate;
    d.new_data_chunk(b"early");
    d.set_headers(Vec::new());
    d.new_data_chunk(b"one");
    d.new_data_chunk(b"two");
    d.set_headers(Vec::new());
    d.new_data_chunk(b"three");
    let mut first = resolve.poll().unwrap().stream;
    let mut second = resolve.poll().unwrap().stream;
    assert!(resolve.poll().is_none());
    assert_eq!(first.poll(), Some(b"one".to_vec()));
    assert_eq!(first.poll(), Some(b"two".to_vec()));
    assert_eq!(first.poll(), None);
    assert_eq!(second.poll(), Some(b"three".to_vec()));
    assert_eq!(second.poll(), None);
    // Nobody has to be there to take it.
    drop(second);
    d.new_data_chunk(b"four");
}

#[test]
fn data_before_headers_goes_nowhere() {
    let (delegate, mut resolve) = channel_delegate();
    let mut p = http2();
    request(&mut p, delegate);
    assert_eq!(received(&mut p, &frame(0, 0, 1, b"early")).1, Ok(14));
    assert!(resolve.poll().is_none());
    assert_eq!(received(&mut p, &frame(1, 4, 1, &[0x88])).1, Ok(10));
    assert_eq!(received(&mut p, &frame(0, 0, 1, b"now")).1, Ok(12));
    let mut response = resolve.poll().unwrap();
    let mut buf = [0; 5];
    assert_eq!(response.read(&mut buf), Ok(3));
    assert_eq!(buf, *b"now\0\0");
}

#[test]
fn a_whole_exchange_on_a_connection() {
    let (delegate, mut resolve) = channel_delegate();
    let mut c = Connection::new(0, (), http2());
    assert_eq!(c.ready(false, true), Step::Write(Round::Last));
    assert_eq!(c.pending(), Some(PREFACE));
    assert_eq!(c.write_backlog(Round::Last, WriteOutcome::Wrote(PREFACE.len())), Step::Done);
    let msg = HttpMsg::NewStream(Delegate::new(delegate));
    assert_eq!(c.notify(Message::Proto(msg)), Ok(Step::Done));
    assert_eq!(c.notify(Message::TryWrite), Ok(Step::Write(Round::First)));
    let n = c.pending().unwrap().len();
    assert_eq!(c.write_backlog(Round::First, WriteOutcome::Wrote(n)), Step::Write(Round::Last));
    assert_eq!(c.pending(), Some(&frame(0, 1, 1, b"AB")[..]));
    assert_eq!(c.write_backlog(Round::Last, WriteOutcome::Wrote(11)), Step::Done);
    let mut answer = SETTINGS.to_vec();
    answer.extend(frame(1, 4, 1, &[0x88]));
    answer.extend(frame(0, 1, 1, b"ok"));
    let r = c.finish_read(ReadOutcome::Received(answer), false);
    assert_eq!(r, Ok(Step::Done));
    assert_eq!(c.pending(), Some(ACK));
    let mut response = resolve.wait_for().unwrap();
    let mut buf = [0; 2];
    assert_eq!(response.read(&mut buf), Ok(2));
    assert_eq!(buf, *b"ok");
    assert_eq!(response.read(&mut buf), Ok(0));
    let refused = c.finish_read(ReadOutcome::Received(frame(0, 0, 0, &[])), true);
    assert_eq!(refused, Err(ReadError::Refused));
}

#[test]
fn frames_can_go_the_long_way() {
    let mut sender = SendLongWay::new(ConnectionHandle::new(4));
    assert!(sender.send_raw_frame(RawFrame::from(ACK.to_vec())).is_ok());
    assert!(sender.send_raw_frame(RawFrame::from(frame(0, 0, 1, b"x"))).is_ok());
    let posts = sender.into_posts();
    assert_eq!(posts.len(), 2);
    assert_eq!(posts[1].0, 4);
    match posts[0] {
        Envelope(4, Message::QueueFrame(ref f)) => assert_eq!(*f, ACK.to_vec()),
        _ => panic!("a frame was sent"),
    }
}

#[test]
fn closing_the_near_end_of_a_stream() {
    assert_eq!(close_local(StreamState::Open), StreamState::HalfClosedLocal);
    assert_eq!(close_local(StreamState::HalfClosedRemote), StreamState::Closed);
    assert!(is_closed_local(StreamState::HalfClosedLocal));
    assert!(is_closed_local(StreamState::Closed));
    assert!(!is_closed_local(StreamState::Open));
    assert!(!is_closed_local(StreamState::HalfClosedRemote));
}

#[test]
fn a_stream_passes_everything_on_to_its_delegate() {
    let (delegate, mut resolve) = channel_delegate();
    let mut s = BoxStream::with_delegate(7, Delegate::new(delegate));
    s.started();
    assert_eq!(s.id(), 7);
    assert!(!s.closed_local());
    Stream::set_headers(&mut s, Vec::new());
    Stream::new_data_chunk(&mut s, b"abc");
    assert_eq!(resolve.poll().unwrap().stream.poll(), Some(b"abc".to_vec()));
    let mut small = [0; 1];
    assert!(matches!(
        s.get_data_chunk(&mut small),
        Ok(solicit::http::session::StreamDataChunk::Unavailable)
    ));
    let mut buf = [0; 4];
    assert!(matches!(
        s.get_data_chunk(&mut buf),
        Ok(solicit::http::session::StreamDataChunk::Last(2))
    ));
    assert_eq!(buf, *b"AB\0\0");
    assert_eq!(s.state(), StreamState::HalfClosedLocal);
    assert!(s.closed_local());
    s.set_state(StreamState::Closed);
    assert_eq!(s.state(), StreamState::Closed);
    let open: BoxStream = Stream::new(9);
    assert_eq!(open.id(), 9);
    assert_eq!(open.state(), StreamState::Open);
}
