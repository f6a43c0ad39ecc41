//! How a stream of bytes falls into frames, however it comes in.
use vstd::prelude::*;
use crate::frames::{first_frame, frames, rest};

verus! {

/// No byte gets lost or moved: the frames, one after the other, and what is left behind them are
/// the bytes that came in.
pub proof fn frames_and_rest_are_all(b: Seq<u8>)
    ensures
        frames(b).flatten() + rest(b) == b,
    decreases b.len(),
{
    match first_frame(b) {
        None => {
            assert(frames(b).flatten() + rest(b) =~= b);
        },
        Some(n) => {
            frames_and_rest_are_all(b.skip(n));
            let later = frames(b.skip(n));
            assert(frames(b).drop_first() =~= later);
            assert(frames(b).flatten() == b.take(n) + later.flatten());
            assert(frames(b).flatten() + rest(b) =~= b.take(n) + (later.flatten() + rest(
                b.skip(n),
            )));
            assert(b.take(n) + b.skip(n) =~= b);
        },
    }
}

/// What is left behind the frames does not begin with a whole frame.
pub proof fn rest_has_no_frame(b: Seq<u8>)
    ensures
        first_frame(rest(b)) is None,
        rest(b).len() <= b.len(),
    decreases b.len(),
{
    match first_frame(b) {
        None => {},
        Some(n) => rest_has_no_frame(b.skip(n)),
    }
}

/// It does not matter where the bytes are cut on their way: the frames that are there after the
/// first part, and those that come of what was left and the second part, are the frames of both
/// parts together.
pub proof fn cuts_do_not_matter(a: Seq<u8>, b: Seq<u8>)
    ensures
        frames(a + b) == frames(a) + frames(rest(a) + b),
        rest(a + b) == rest(rest(a) + b),
    decreases a.len(),
{
    match first_frame(a) {
        None => {
            assert(frames(a) + frames(rest(a) + b) =~= frames(a + b));
        },
        Some(n) => {
            assert(first_frame(a + b) == Some(n));
            assert((a + b).take(n) =~= a.take(n));
            assert((a + b).skip(n) =~= a.skip(n) + b);
            cuts_do_not_matter(a.skip(n), b);
            assert(frames(a + b) =~= frames(a) + frames(rest(a) + b));
        },
    }
}

/// A whole frame at the front is found, whatever follows it: nine octets, of which the first three
/// say how many octets come behind them, and these octets. Then it goes on with what follows.
pub proof fn whole_frame_is_found(header: Seq<u8>, carried: Seq<u8>, more: Seq<u8>)
    requires
        header.len() == 9,
        carried.len() == header[0] * 65536 + header[1] * 256 + header[2],
    ensures
        first_frame(header + carried + more) == Some((9 + carried.len()) as int),
        frames(header + carried + more) == seq![header + carried] + frames(more),
        rest(header + carried + more) == rest(more),
{
    let b = header + carried + more;
    let n = (9 + carried.len()) as int;
    assert(b.take(n) =~= header + carried);
    assert(b.skip(n) =~= more);
}

/// As long as some of a frame is missing, no frame is found, and everything stays where it is.
pub proof fn part_of_a_frame_waits(b: Seq<u8>)
    requires
        b.len() < 9 || b.len() < 9 + b[0] * 65536 + b[1] * 256 + b[2],
    ensures
        first_frame(b) is None,
        frames(b) == Seq::<Seq<u8>>::empty(),
        rest(b) == b,
{
}

} // verus!
