//! Reading what comes in chunks into buffers of another size.
use vstd::prelude::*;
use crate::channel::{waited_once, Inlet};
use crate::cursor::{copied, Cursor};

verus! {

/// What is left of a chunk that was kept.
pub open spec fn kept(leftover: Option<Cursor>) -> Option<Seq<u8>> {
    match leftover {
        Some(c) => Some(c@),
        None => None,
    }
}

/// A chunk was read into a buffer, which made `before` into `after`. The first `n` bytes went
/// over. The chunk is kept once it is used up; what did not go over is not.
pub open spec fn chunk_read(
    chunk: Seq<u8>,
    before: Seq<u8>,
    after: Seq<u8>,
    n: usize,
    leftover: Option<Seq<u8>>,
) -> bool {
    &&& n == copied(chunk.len(), before.len())
    &&& after == chunk.take(n as int) + before.skip(n as int)
    &&& leftover == if n == chunk.len() {
        Some(Seq::<u8>::empty())
    } else {
        None
    }
}

/// The outcome of one read: from the chunk that was kept, or else from the next that comes out of
/// the channel, which is waited on once then. Where none comes any more, nothing is read.
pub open spec fn read_once(
    rx: Inlet<Vec<u8>>,
    from: Option<Seq<u8>>,
    before: Seq<u8>,
    after: Seq<u8>,
    leftover: Option<Seq<u8>>,
    r: Result<usize, ()>,
    rx_after: Inlet<Vec<u8>>,
) -> bool {
    match from {
        Some(chunk) => rx_after == rx && (r matches Ok(n) && chunk_read(
            chunk,
            before,
            after,
            n,
            leftover,
        )),
        None => exists|got: Option<Vec<u8>>| #[trigger]
            waited_once(rx, got, rx_after) && match got {
            Some(chunk) => r matches Ok(n) && chunk_read(chunk@, before, after, n, leftover),
            None => r is Err && after == before && leftover is None,
        },
    }
}

/// Waits for the next chunk.
pub fn get_next_chunk(rx: &mut Inlet<Vec<u8>>) -> (r: Result<Cursor, ()>)
    ensures
        exists|got: Option<Vec<u8>>| #[trigger]
            waited_once(*old(rx), got, *final(rx)) && match got {
            Some(chunk) => r matches Ok(c) && c@ == chunk@,
            None => r is Err,
        },
{
    let got = rx.wait_for();
    assert(waited_once(*old(rx), got, *rx));
    match got {
        Some(chunk) => Ok(Cursor::new(chunk)),
        None => Err(()),
    }
}

/// Reads once, from the chunk that was kept, or else from the next that comes.
pub fn read(rx: &mut Inlet<Vec<u8>>, leftover: &mut Option<Cursor>, buf: &mut [u8]) -> (r: Result<
    usize,
    (),
>)
    ensures
        read_once(
            *old(rx),
            kept(*old(leftover)),
            old(buf)@,
            final(buf)@,
            kept(*final(leftover)),
            r,
            *final(rx),
        ),
{
    let mut cursor = match leftover.take() {
        Some(cursor) => cursor,
        None => match get_next_chunk(rx) {
            Ok(cursor) => cursor,
            Err(_) => return Err(()),
        },
    };
    let n = cursor.read(buf);
    if cursor.remaining() == 0 {
        assert(cursor@ =~= Seq::<u8>::empty());
        *leftover = Some(cursor);
    }
    Ok(n)
}

/// Once a chunk is used up, nothing more is read: every further read gives no bytes, leaves the
/// buffer and the channel alone, and keeps things as they are.
pub proof fn used_up_for_good(
    rx: Inlet<Vec<u8>>,
    before: Seq<u8>,
    after: Seq<u8>,
    leftover: Option<Seq<u8>>,
    r: Result<usize, ()>,
    rx_after: Inlet<Vec<u8>>,
)
    requires
        read_once(rx, Some(Seq::<u8>::empty()), before, after, leftover, r, rx_after),
    ensures
        r == Ok::<usize, ()>(0),
        after == before,
        leftover == Some(Seq::<u8>::empty()),
        rx_after == rx,
{
    assert(Seq::<u8>::empty().take(0) + before.skip(0) =~= before);
}

/// A chunk that fits into the buffer is read whole, and is the last that is read.
pub proof fn whole_chunk_is_last(
    chunk: Seq<u8>,
    before: Seq<u8>,
    after: Seq<u8>,
    leftover: Option<Seq<u8>>,
    n: usize,
)
    requires
        chunk.len() <= before.len(),
        chunk_read(chunk, before, after, n, leftover),
    ensures
        n == chunk.len(),
        after.take(n as int) == chunk,
        after.skip(n as int) == before.skip(n as int),
        leftover == Some(Seq::<u8>::empty()),
{
    assert(after.take(n as int) =~= chunk);
    assert(after.skip(n as int) =~= before.skip(n as int));
}

/// Of a chunk that does not fit into the buffer, the first part fills the buffer, and the rest is
/// not read any more: the next read waits for the next chunk.
pub proof fn cut_chunk_is_dropped(
    chunk: Seq<u8>,
    before: Seq<u8>,
    after: Seq<u8>,
    leftover: Option<Seq<u8>>,
    n: usize,
)
    requires
        chunk.len() > before.len(),
        chunk_read(chunk, before, after, n, leftover),
    ensures
        n == before.len(),
        after == chunk.take(n as int),
        leftover is None,
{
    assert(after =~= chunk.take(n as int));
}

} // verus!
