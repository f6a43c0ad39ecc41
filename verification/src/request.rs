//! Requests whose body is written as it comes to be.
use vstd::prelude::*;
use vstd::slice::slice_to_vec;
use std::sync::mpsc::Receiver;
use crate::channel::{put_bytes, received, Inlet, Outlet};
use crate::cursor::Cursor;
use crate::evtloop::{ConnectionHandle, Envelope, Message};
use crate::h2::HttpMsg;
use crate::reader::{kept, read, read_once};
use crate::stream::Stream;
use crate::text::{bytes, bytes_of};

verus! {

/// A request of which nothing but the connection is settled.
pub struct FreshRequest {
    pub conn: ConnectionHandle<HttpMsg>,
}

/// A request whose stream is yet to be opened.
pub struct FutureRequest {
    pub conn: ConnectionHandle<HttpMsg>,
    pub future_stream: Receiver<Stream>,
}

impl FutureRequest {
    /// Waits for the stream. There is no request where nobody is left to open it.
    pub fn wait(self) -> (r: Option<Request>)
        ensures
            exists|got: Option<Stream>| #[trigger] received(self.future_stream, got) && match got {
                Some(stream) => r == Some(Request { conn: self.conn, stream }),
                None => r is None,
            },
    {
        match Inlet::new(self.future_stream).wait_for() {
            Some(stream) => Some(Request { conn: self.conn, stream }),
            None => None,
        }
    }
}

/// A request that is being written.
pub struct Request {
    pub conn: ConnectionHandle<HttpMsg>,
    pub stream: Stream,
}

impl Request {
    /// A request on the given connection and stream.
    pub fn new(conn: ConnectionHandle<HttpMsg>, stream: Stream) -> (r: Request)
        ensures
            r == (Request { conn, stream }),
    {
        Request { conn, stream }
    }

    /// Ends the request. Gives the response, and what is to be sent to the event loop so that
    /// the end goes out. Fails where nobody is left to take it.
    pub fn send(self) -> (r: Result<(StreamResponse, Envelope<HttpMsg>), ()>)
        ensures
            match r {
                Ok((response, wake)) => {
                    &&& put_bytes(
                        self.stream.tx,
                        bytes_of("Trailer! Done here!"),
                        true,
                        response.stream.tx,
                    )
                    &&& response == (StreamResponse {
                        conn: self.conn,
                        stream: Stream { tx: response.stream.tx, rx: self.stream.rx },
                        leftover: None,
                    })
                    &&& wake == Envelope::<HttpMsg>(self.conn@, Message::TryWrite)
                },
                Err(_) => exists|tx: Outlet<Vec<u8>>| #[trigger]
                    put_bytes(self.stream.tx, bytes_of("Trailer! Done here!"), false, tx),
            },
    {
        let mut request = self;
        let end = bytes("Trailer! Done here!");
        match request.write(end.as_slice()) {
            Ok((_, wake)) => Ok(
                (
                    StreamResponse { conn: request.conn, stream: request.stream, leftover: None },
                    wake,
                ),
            ),
            Err(_) => Err(()),
        }
    }

    /// Writes to the body of the request. Gives the number of bytes, and what is to be sent to
    /// the event loop so that they go out. Fails where nobody is left to take them.
    pub fn write(&mut self, buf: &[u8]) -> (r: Result<(usize, Envelope<HttpMsg>), ()>)
        ensures
            final(self).conn == old(self).conn,
            final(self).stream.rx == old(self).stream.rx,
            put_bytes(old(self).stream.tx, buf@, r is Ok, final(self).stream.tx),
            r matches Ok((n, wake)) ==> n == buf@.len() && wake == Envelope::<HttpMsg>(
                old(self).conn@,
                Message::TryWrite,
            ),
    {
        match self.stream.write(slice_to_vec(buf)) {
            Ok(_) => Ok((buf.len(), self.conn.notify(Message::TryWrite))),
            Err(_) => Err(()),
        }
    }

    /// There is nothing to flush.
    pub fn flush(&mut self) -> (r: Result<(), ()>)
        ensures
            *final(self) == *old(self),
            r is Ok,
    {
        Ok(())
    }
}

/// The response to a request, as it comes in.
pub struct StreamResponse {
    pub conn: ConnectionHandle<HttpMsg>,
    pub stream: Stream,
    pub leftover: Option<Cursor>,
}

impl StreamResponse {
    /// Reads from the body of the response. Fails where no more of it comes.
    pub fn read(&mut self, buf: &mut [u8]) -> (r: Result<usize, ()>)
        ensures
            final(self).conn == old(self).conn,
            final(self).stream.tx == old(self).stream.tx,
            read_once(
                old(self).stream.rx,
                kept(old(self).leftover),
                old(buf)@,
                final(buf)@,
                kept(final(self).leftover),
                r,
                final(self).stream.rx,
            ),
    {
        read(&mut self.stream.rx, &mut self.leftover, buf)
    }
}

} // verus!
