//! The two ends of a stream: one in the hands of a client, one with the protocol.
use vstd::prelude::*;
use crate::channel::{fresh_pipe, pipe, put_bytes, waited_once, Inlet, Outlet};

verus! {

/// The client end of the stream. Allows them to queue data for writing and handle data that was
/// meant for that stream.
pub struct Stream {
    pub tx: Outlet<Vec<u8>>,
    pub rx: Inlet<Vec<u8>>,
}

/// What is written at either end of the stream comes out at the other. Nothing has been written
/// or has come out.
pub open spec fn joined(client: Stream, proto: ProtoStream) -> bool {
    fresh_pipe(client.tx, proto.rx) && fresh_pipe(proto.tx, client.rx)
}

impl Stream {
    /// The client end, with the channels that lead to the protocol and from it.
    pub fn new(tx: Outlet<Vec<u8>>, rx: Inlet<Vec<u8>>) -> (s: Stream)
        ensures
            s.tx == tx,
            s.rx == rx,
    {
        Stream { tx, rx }
    }

    /// Both ends of a new stream.
    pub fn pair() -> (ends: (Stream, ProtoStream))
        ensures
            joined(ends.0, ends.1),
    {
        let (out_tx, out_rx) = pipe();
        let (in_tx, in_rx) = pipe();
        (Stream::new(out_tx, in_rx), ProtoStream::new(out_rx, in_tx))
    }

    /// Queues data for writing. Fails where the protocol is gone.
    pub fn write(&mut self, buf: Vec<u8>) -> (r: Result<(), ()>)
        ensures
            put_bytes(old(self).tx, buf@, r is Ok, final(self).tx),
            final(self).rx == old(self).rx,
    {
        let ok = self.tx.put(buf);
        if ok {
            Ok(())
        } else {
            Err(())
        }
    }

    /// Waits for data that is meant for the stream. Fails where the protocol is gone.
    pub fn recv_chunk(&mut self) -> (r: Result<Vec<u8>, ()>)
        ensures
            final(self).tx == old(self).tx,
            waited_once(
                old(self).rx,
                match r {
                    Ok(chunk) => Some(chunk),
                    Err(_) => None,
                },
                final(self).rx,
            ),
    {
        match self.rx.wait_for() {
            Some(chunk) => Ok(chunk),
            None => Err(()),
        }
    }
}

/// The protocol end of the stream.
pub struct ProtoStream {
    pub rx: Inlet<Vec<u8>>,
    pub tx: Outlet<Vec<u8>>,
}

impl ProtoStream {
    /// The protocol end, with the channels that lead from the client and to it.
    pub fn new(rx: Inlet<Vec<u8>>, tx: Outlet<Vec<u8>>) -> (s: ProtoStream)
        ensures
            s.rx == rx,
            s.tx == tx,
    {
        ProtoStream { rx, tx }
    }
}

} // verus!
