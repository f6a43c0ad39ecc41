//! Responses that are handed over as they come in.
use vstd::prelude::*;
use vstd::slice::slice_to_vec;
use solicit::http::Header;
use crate::channel::{
    connected, first_arrives, fresh_pipe, in_order, next_of, pipe, put_bytes, put_once, received,
    Inlet, Outlet,
};
use crate::cursor::Cursor;
use crate::reader::{kept, read, read_once};

verus! {

/// Takes what comes in of a response, and passes it on.
pub struct ResponseHandler {
    pub resolve: Outlet<Response>,
    pub tx: Outlet<Vec<u8>>,
}

/// A response was put into `before`, which made it into `after` and succeeded or did not. What the
/// response is read from is a channel of its own, into which nothing was put.
pub open spec fn resolved(before: Outlet<Response>, ok: bool, after: Outlet<Response>) -> bool {
    exists|tx: Outlet<Vec<u8>>, rx: Inlet<Vec<u8>>| #[trigger]
        fresh_pipe(tx, rx) && put_once(before, Response { rx, leftover: None }, ok, after)
}

impl ResponseHandler {
    /// The headers have arrived: a response begins. What it is read from is a channel of its
    /// own, into which nothing is put. Fails where nobody waits for the response.
    pub fn on_headers(&mut self, _headers: &[Header]) -> (r: Result<(), ()>)
        ensures
            final(self).tx == old(self).tx,
            resolved(old(self).resolve, r is Ok, final(self).resolve),
    {
        let (tx, rx) = pipe();
        assert(fresh_pipe(tx, rx));
        let response = Response::new(rx);
        let ok = self.resolve.put(response);
        if ok {
            Ok(())
        } else {
            Err(())
        }
    }

    /// Data has arrived. Fails where nobody is left to take it.
    pub fn on_data(&mut self, buf: &[u8]) -> (r: Result<(), ()>)
        ensures
            final(self).resolve == old(self).resolve,
            put_bytes(old(self).tx, buf@, r is Ok, final(self).tx),
    {
        let ok = self.tx.put(slice_to_vec(buf));
        if ok {
            Ok(())
        } else {
            Err(())
        }
    }
}

/// A response that will begin.
pub struct FutureResponse {
    pub rx: Inlet<Response>,
}

impl FutureResponse {
    /// A response that will begin, and where to put it once it does.
    pub fn new() -> (r: (FutureResponse, Outlet<Response>))
        ensures
            fresh_pipe(r.1, r.0.rx),
    {
        let (tx, rx) = pipe();
        let future = FutureResponse { rx };
        (future, tx)
    }

    /// Waits for the response to begin. There is none where nobody is left to provide it.
    pub fn response(self) -> (r: Option<Response>)
        ensures
            received(self.rx.end(), r),
    {
        let mut rx = self.rx;
        rx.wait_for()
    }
}

/// The response that comes is the first that was put where it is waited for, as it was put there;
/// none comes where none was put. What was put elsewhere does not count. That the channel gives
/// what was put into it, in order, is the channel's part.
pub proof fn first_response_comes(future: FutureResponse, tx: Outlet<Response>, r: Option<Response>)
    requires
        connected(tx.end(), future.rx.end()),
        future.rx@ == Seq::<Option<Response>>::empty(),
        received(future.rx.end(), r),
        in_order(tx@, future.rx@.push(r)),
    ensures
        r == next_of(tx@, 0),
        tx@.len() > 0 && tx@[0].1 ==> r == Some(tx@[0].0),
        tx@.len() == 0 ==> r is None,
{
    assert(future.rx@.push(r)[0] == r);
    if tx@.len() > 0 && tx@[0].1 {
        first_arrives(tx@);
    }
}

/// The body of a response, as it comes in.
pub struct Response {
    pub rx: Inlet<Vec<u8>>,
    pub leftover: Option<Cursor>,
}

impl Response {
    /// The response whose body comes out of the given channel.
    pub fn new(rx: Inlet<Vec<u8>>) -> (r: Response)
        ensures
            r == (Response { rx, leftover: None }),
    {
        Response { rx, leftover: None }
    }

    /// Reads from the body. Fails where no more of it comes.
    pub fn read(&mut self, buf: &mut [u8]) -> (r: Result<usize, ()>)
        ensures
            read_once(
                old(self).rx,
                kept(old(self).leftover),
                old(buf)@,
                final(buf)@,
                kept(final(self).leftover),
                r,
                final(self).rx,
            ),
    {
        read(&mut self.rx, &mut self.leftover, buf)
    }
}

} // verus!
