use solicit::http::connection::{ReceiveFrame, SendFrame};
use solicit::http::frame::RawFrame;
use solicit_mio::frames::{SendDirect, WrappedReceive};
use solicit_mio::header_block::breaks_off_in_size;

/// A frame with the given type, flags, stream and payload.
fn frame(kind: u8, flags: u8, stream: u8, payload: &[u8]) -> Vec<u8> {
    let mut f = vec![0, 0, payload.len() as u8, kind, flags, 0, 0, 0, stream];
    f.extend_from_slice(payload);
    f
}

/// The lengths of the frames that `buf` begins with, and how many bytes are left.
fn cut(buf: &[u8]) -> (Vec<usize>, usize) {
    let mut lens = Vec::new();
    let mut at = 0;
    while let Some(w) = WrappedReceive::parse(&buf[at..]) {
        lens.push(w.len());
        at += w.len();
    }
    (lens, buf.len() - at)
}

#[test]
fn a_frame_is_there_once_all_of_it_is() {
    let f = frame(0, 0, 1, b"abc");
    for n in 0..f.len() {
        assert!(WrappedReceive::parse(&f[..n]).is_none());
    }
    let w = WrappedReceive::parse(&f).unwrap();
    assert_eq!(w.len(), 12);
    assert_eq!(w.frame().unwrap().serialize(), f);
}

#[test]
fn what_follows_a_frame_is_left_alone() {
    let mut buf = frame(4, 0, 0, &[]);
    buf.extend(frame(0, 1, 1, b"xy"));
    let w = WrappedReceive::parse(&buf).unwrap();
    assert_eq!(w.len(), 9);
    assert_eq!(w.frame().unwrap().serialize(), frame(4, 0, 0, &[]));
}

#[test]
fn the_length_has_three_octets() {
    let mut buf = vec![1, 0, 2, 0, 0, 0, 0, 0, 1];
    buf.extend(vec![7; 0x1_0002]);
    assert_eq!(WrappedReceive::parse(&buf).unwrap().len(), 9 + 0x1_0002);
    buf.pop();
    assert!(WrappedReceive::parse(&buf).is_none());
}

#[test]
fn frames_do_not_depend_on_where_the_bytes_are_cut() {
    let mut all = frame(4, 0, 0, &[]);
    all.extend(frame(0, 0, 1, b"hello"));
    all.extend(frame(0, 1, 1, &[]));
    all.extend_from_slice(&[0, 0, 9, 0]);
    let (whole, left) = cut(&all);
    assert_eq!(whole, vec![9, 14, 9]);
    assert_eq!(left, 4);
    for n in 0..all.len() {
        let (first, rest) = cut(&all[..n]);
        let mut later = all[n - rest..n].to_vec();
        later.extend_from_slice(&all[n..]);
        let (second, end) = cut(&later);
        let mut both = first;
        both.extend(second);
        assert_eq!(both, whole);
        assert_eq!(end, left);
    }
}

#[test]
fn frames_that_are_what_they_say_are_received() {
    let good = [
        frame(0, 0, 1, b"abc"),
        frame(0, 8, 1, &[2, 65, 0, 0]),
        frame(1, 4, 3, &[0x88]),
        frame(4, 0, 0, &[0, 3, 0, 0, 0, 100]),
        frame(4, 1, 0, &[]),
        frame(99, 0, 0, b"whatever"),
    ];
    for f in good.iter() {
        assert!(WrappedReceive::parse(f).unwrap().recv_frame().is_ok());
    }
}

#[test]
fn frames_that_are_not_what_they_say_are_rejected() {
    let bad = [
        // Data and headers belong to a stream, settings do not.
        frame(0, 0, 0, b"abc"),
        frame(1, 4, 0, &[0x88]),
        frame(4, 0, 1, &[]),
        // The padding is as long as the payload.
        frame(0, 8, 1, &[1]),
        frame(0, 8, 1, &[]),
        // An acknowledgement carries nothing, and a setting takes six octets.
        frame(4, 1, 0, &[0, 3, 0, 0, 0, 100]),
        frame(4, 0, 0, &[0, 3, 0, 0, 0]),
    ];
    for f in bad.iter() {
        assert!(WrappedReceive::parse(f).unwrap().recv_frame().is_err());
    }
}

#[test]
fn headers_that_break_off_are_told_apart() {
    // The flags announce a priority, for which there is no room.
    let short = frame(1, 0x20, 1, &[0, 0, 0, 0]);
    let mut w = WrappedReceive::parse(&short).unwrap();
    assert_eq!(w.frame().unwrap().serialize(), short);
    assert!(!w.is_sound());
    assert!(w.recv_frame().is_err());
    // A new size of the table goes on after the end of the block.
    let cut = frame(1, 4, 1, &[0x3f, 0x80]);
    let mut w = WrappedReceive::parse(&cut).unwrap();
    assert_eq!(w.len(), 11);
    assert_eq!(w.frame().unwrap().serialize(), cut);
    assert!(!w.is_sound());
    assert!(w.recv_frame().is_ok());
    // With room for the priority, and with padding, nothing breaks off.
    assert!(WrappedReceive::parse(&frame(1, 0x20, 1, &[0, 0, 0, 0, 9, 0x88])).unwrap().is_sound());
    let padded = frame(1, 0x28, 1, &[1, 0, 0, 0, 0, 9, 0x88, 0]);
    assert!(WrappedReceive::parse(&padded).unwrap().is_sound());
    assert!(WrappedReceive::parse(&frame(4, 0, 0, &[])).unwrap().is_sound());
    assert!(!WrappedReceive::none().is_sound());
}

#[test]
fn header_blocks_that_break_off_within_a_size() {
    assert!(!breaks_off_in_size(&[]));
    assert!(!breaks_off_in_size(&[0x20]));
    assert!(!breaks_off_in_size(&[0x3f, 0x01]));
    assert!(breaks_off_in_size(&[0x3f]));
    assert!(breaks_off_in_size(&[0x3f, 0x81]));
    // An integer takes five octets at most.
    assert!(!breaks_off_in_size(&[0x3f, 0x80, 0x80, 0x80, 0x01]));
    assert!(breaks_off_in_size(&[0x3f, 0x80, 0x80, 0x80, 0x80, 0x01]));
    // Fields of the table, and literals with a name of their own and without, come before it.
    assert!(breaks_off_in_size(&[0x82, 0xff, 0x00, 0x3f]));
    assert!(breaks_off_in_size(&[0x40, 1, 97, 1, 98, 0x3f]));
    assert!(breaks_off_in_size(&[0x41, 1, 98, 0x3f]));
    assert!(breaks_off_in_size(&[0x00, 1, 97, 0, 0x3f]));
    // Other fields may break off: the decoder notices.
    assert!(!breaks_off_in_size(&[0xff]));
    assert!(!breaks_off_in_size(&[0x40, 1, 97]));
    assert!(!breaks_off_in_size(&[0x41, 2, 0x3f]));
    assert!(!breaks_off_in_size(&[0x10]));
}

#[test]
fn a_frame_can_be_received_again() {
    let ack = frame(4, 1, 0, &[]);
    let mut w = WrappedReceive::parse(&ack).unwrap();
    assert!(w.recv_frame().is_ok());
    assert!(w.recv_frame().is_ok());
    assert_eq!(w.frame().unwrap().serialize(), ack);
    assert!(WrappedReceive::none().recv_frame().is_err());
}

#[test]
fn frames_are_sent_in_order() {
    let mut sender = SendDirect::new();
    assert!(sender.send_raw_frame(RawFrame::from(vec![1, 2])).is_ok());
    assert!(sender.send_raw_frame(RawFrame::from(vec![3])).is_ok());
    assert_eq!(sender.into_frames(), vec![vec![1, 2], vec![3]]);
}
