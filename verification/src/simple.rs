//! The least that a protocol can do.
use vstd::prelude::*;
use crate::evtloop::{ConnectionHandle, ConnectionRef, Protocol, Token};

verus! {

/// A protocol that takes no notice of what it is given, and has nothing to say.
pub struct Simple;

/// There is nothing to tell a [`Simple`].
#[derive(Debug)]
pub struct Msg;

impl Protocol for Simple {
    type Message = Msg;

    open spec fn opened(token: Token, p: Simple) -> bool {
        true
    }

    open spec fn took_data(
        pre: Simple,
        token: Token,
        buf: Seq<u8>,
        post: Simple,
        frames: Seq<Seq<u8>>,
        r: Result<usize, ()>,
    ) -> bool {
        r == Ok::<usize, ()>(buf.len() as usize) && frames == Seq::<Seq<u8>>::empty()
    }

    open spec fn took_turn(pre: Simple, token: Token, post: Simple, frames: Seq<Seq<u8>>) -> bool {
        frames == Seq::<Seq<u8>>::empty()
    }

    open spec fn took_message(
        pre: Simple,
        token: Token,
        msg: Msg,
        post: Simple,
        frames: Seq<Seq<u8>>,
        r: Result<(), ()>,
    ) -> bool {
        r is Ok && frames == Seq::<Seq<u8>>::empty()
    }

    fn new(_conn: ConnectionHandle<Msg>) -> Simple {
        Simple
    }

    fn on_data(&mut self, buf: &[u8], _conn: &mut ConnectionRef<Msg>) -> Result<usize, ()> {
        Ok(buf.len())
    }

    fn ready_write(&mut self, _conn: &mut ConnectionRef<Msg>) {
    }

    fn notify(&mut self, _msg: Msg, _conn: &mut ConnectionRef<Msg>) -> Result<(), ()> {
        Ok(())
    }
}

} // verus!
