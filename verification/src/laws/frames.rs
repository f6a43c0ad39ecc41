//! What a frame that came in does to the session, octet by octet.
//!
//! A frame is nine octets and what they announce: three with the length of what follows, one with
//! the type, one with flags, and four with the number of the stream.
use vstd::prelude::*;
use solicit::http::session::StreamState;
use solicit::http::StreamId;
use crate::delegate::{StreamView, Told};
use crate::evtloop::{Protocol, Token};
use crate::frames::{frames, header_block, unpadded};
use crate::h2::{after_frames, all_replies, refuses_at, took_frames, Http2, Http2View};
use crate::header_block::cut_in_size;
use crate::laws::framing::{part_of_a_frame_waits, rest_has_no_frame, whole_frame_is_found};
use crate::session::{decoded, handed, received, replies_to, takes, SessionView};

verus! {

/// `f` is one frame, all of it and nothing else.
pub open spec fn one_frame(f: Seq<u8>) -> bool {
    f.len() >= 9 && f.len() == 9 + f[0] * 65536 + f[1] * 256 + f[2]
}

/// The number that the last four octets of the nine spell.
pub open spec fn spelled(f: Seq<u8>) -> int {
    f[5] * 16777216 + f[6] * 65536 + f[7] * 256 + f[8]
}

/// What a frame without padding carries is all that follows the nine octets; what a padded one
/// carries is preceded by one octet, and followed by as many as that octet says.
pub open spec fn inside(f: Seq<u8>) -> Option<Seq<u8>> {
    if f[4] & 8 == 0 {
        Some(f.skip(9))
    } else if f.len() >= 10 && 10 + f[9] <= f.len() {
        Some(f.subrange(10, f.len() - f[9]))
    } else {
        None
    }
}

/// A stream whose delegate was told one thing, and that the stream is over, where that is so.
pub open spec fn told_of(s: StreamView, what: Told, over: bool) -> StreamView {
    if over {
        StreamView {
            state: StreamState::Closed,
            told: s.told + seq![what, Told::State(StreamState::Closed)],
        }
    } else {
        StreamView { state: s.state, told: s.told + seq![what] }
    }
}

/// Data on a stream goes to the delegate of that stream, and to nobody where the stream is not
/// held. Where the frame says that it is the last, the stream is over. Nothing is answered.
pub proof fn data_frame_is_delivered(s: SessionView, f: Seq<u8>)
    requires
        one_frame(f),
        f[3] == 0,
        spelled(f) != 0,
        inside(f) is Some,
    ensures
        takes(s, received(f)),
        replies_to(received(f)) == Seq::<Seq<u8>>::empty(),
        handed(s, received(f)).blocks == s.blocks,
        handed(s, received(f)).lists == s.lists,
        handed(s, received(f)).streams == if s.streams.contains_key(spelled(f) as StreamId) {
            s.streams.insert(
                spelled(f) as StreamId,
                told_of(
                    s.streams[spelled(f) as StreamId],
                    Told::Data(inside(f)->0),
                    f[4] & 1 != 0,
                ),
            )
        } else {
            s.streams
        },
{
    let id = spelled(f) as StreamId;
    let what = Told::Data(inside(f)->0);
    if f[4] & 8 != 0 {
        assert(unpadded(f) =~= inside(f)->0);
    }
    assert(s.streams[id].told.push(what) =~= s.streams[id].told + seq![what]);
    assert(s.streams[id].told.push(what).push(Told::State(StreamState::Closed))
        =~= s.streams[id].told + seq![what, Told::State(StreamState::Closed)]);
}

/// Data on no stream, or in a frame that is shorter than its padding, is refused, and changes
/// nothing.
pub proof fn bad_data_frame_is_refused(s: SessionView, f: Seq<u8>)
    requires
        one_frame(f),
        f[3] == 0,
        spelled(f) == 0 || inside(f) is None,
    ensures
        !takes(s, received(f)),
        replies_to(received(f)) == Seq::<Seq<u8>>::empty(),
        handed(s, received(f)) == s,
{
}

/// Settings are acknowledged by an empty frame of their type, and acknowledgements are not
/// answered. Neither changes the session.
pub proof fn settings_frame_is_acknowledged(s: SessionView, f: Seq<u8>)
    requires
        one_frame(f),
        f[3] == 4,
        spelled(f) == 0,
        if f[4] & 1 != 0 {
            f.len() == 9
        } else {
            (f.len() - 9) % 6 == 0
        },
    ensures
        takes(s, received(f)),
        handed(s, received(f)) == s,
        replies_to(received(f)) == if f[4] & 1 == 0 {
            seq![seq![0u8, 0, 0, 4, 1, 0, 0, 0, 0]]
        } else {
            Seq::<Seq<u8>>::empty()
        },
{
}

/// Settings that are on a stream, that are cut off, or that come with an acknowledgement, are
/// refused, and change nothing.
pub proof fn bad_settings_frame_is_refused(s: SessionView, f: Seq<u8>)
    requires
        one_frame(f),
        f[3] == 4,
        spelled(f) != 0 || if f[4] & 1 != 0 {
            f.len() != 9
        } else {
            (f.len() - 9) % 6 != 0
        },
    ensures
        !takes(s, received(f)),
        handed(s, received(f)) == s,
        replies_to(received(f)) == Seq::<Seq<u8>>::empty(),
{
}

/// Frames of all other types are passed over, whatever they hold.
pub proof fn other_frame_is_passed_over(s: SessionView, f: Seq<u8>)
    requires
        f[3] != 0,
        f[3] != 1,
        f[3] != 4,
    ensures
        takes(s, received(f)),
        handed(s, received(f)) == s,
        replies_to(received(f)) == Seq::<Seq<u8>>::empty(),
{
}

/// The header block of a HEADERS frame: what the frame carries, without the five octets in front of
/// it where the frame says that there are any.
pub open spec fn block_inside(f: Seq<u8>) -> Option<Seq<u8>> {
    if f[4] & 32 == 0 {
        inside(f)
    } else if inside(f) is Some && (inside(f)->0).len() >= 5 {
        Some((inside(f)->0).skip(5))
    } else {
        None
    }
}

/// The headers on a stream go to the delegate of that stream, and to nobody where the stream is
/// not held; they are what the decoder makes of their block and all blocks before. Where the
/// frame says that nothing follows, the stream is over. Headers that cannot be decoded are
/// refused, and reach nobody.
pub proof fn headers_frame_is_delivered(s: SessionView, f: Seq<u8>)
    requires
        one_frame(f),
        f[3] == 1,
        spelled(f) != 0,
        block_inside(f) is Some,
        !cut_in_size(block_inside(f)->0),
    ensures
        takes(s, received(f)) == (decoded(s.blocks.push(block_inside(f)->0)) is Some),
        replies_to(received(f)) == Seq::<Seq<u8>>::empty(),
        handed(s, received(f)).blocks == s.blocks.push(block_inside(f)->0),
        handed(s, received(f)).lists == s.lists,
        handed(s, received(f)).streams == if takes(s, received(f)) && s.streams.contains_key(
            spelled(f) as StreamId,
        ) {
            s.streams.insert(
                spelled(f) as StreamId,
                told_of(
                    s.streams[spelled(f) as StreamId],
                    Told::Headers(decoded(s.blocks.push(block_inside(f)->0))->0),
                    f[4] & 1 != 0,
                ),
            )
        } else {
            s.streams
        },
{
    let id = spelled(f) as StreamId;
    let block = block_inside(f)->0;
    headers_have_their_block(f);
    let what = Told::Headers(decoded(s.blocks.push(block))->0);
    assert(s.streams[id].told.push(what) =~= s.streams[id].told + seq![what]);
    assert(s.streams[id].told.push(what).push(Told::State(StreamState::Closed))
        =~= s.streams[id].told + seq![what, Told::State(StreamState::Closed)]);
}

/// Where the header block of a HEADERS frame is.
pub proof fn headers_have_their_block(f: Seq<u8>)
    requires
        f.len() >= 9,
    ensures
        header_block(f) == block_inside(f),
{
    if f[4] & 8 != 0 && inside(f) is Some {
        assert(unpadded(f) =~= inside(f)->0);
    }
}

/// Headers on no stream, and headers in a frame that is too short for what its flags announce, are
/// refused, and change nothing.
pub proof fn bad_headers_frame_is_refused(s: SessionView, f: Seq<u8>)
    requires
        one_frame(f),
        f[3] == 1,
        spelled(f) == 0 || block_inside(f) is None,
    ensures
        !takes(s, received(f)),
        handed(s, received(f)) == s,
        replies_to(received(f)) == Seq::<Seq<u8>>::empty(),
{
    headers_have_their_block(f);
}

/// Headers whose block breaks off within a size of the table are refused, and change nothing.
pub proof fn cut_headers_frame_is_refused(s: SessionView, f: Seq<u8>)
    requires
        one_frame(f),
        f[3] == 1,
        block_inside(f) is Some,
        cut_in_size(block_inside(f)->0),
    ensures
        !takes(s, received(f)),
        handed(s, received(f)) == s,
        replies_to(received(f)) == Seq::<Seq<u8>>::empty(),
{
    headers_have_their_block(f);
}

/// What is answered to one frame comes before what is answered to those behind it.
proof fn replies_begin_with_first(f: Seq<u8>, fs: Seq<Seq<u8>>)
    ensures
        all_replies(seq![f] + fs) == replies_to(received(f)) + all_replies(fs),
    decreases fs.len(),
{
    let all = seq![f] + fs;
    if fs.len() == 0 {
        assert(all.drop_last() =~= Seq::<Seq<u8>>::empty());
        assert(all_replies(all.drop_last()) == Seq::<Seq<u8>>::empty());
    } else {
        replies_begin_with_first(f, fs.drop_last());
        assert(all.drop_last() =~= seq![f] + fs.drop_last());
    }
    assert(all_replies(all) =~= replies_to(received(f)) + all_replies(fs));
}

/// To be handed one frame and then others is to be handed the others after that frame.
proof fn handed_one_by_one(s: SessionView, f: Seq<u8>, fs: Seq<Seq<u8>>, n: int)
    requires
        0 <= n <= fs.len(),
    ensures
        after_frames(s, seq![f] + fs, n + 1) == after_frames(handed(s, received(f)), fs, n),
    decreases n,
{
    let all = seq![f] + fs;
    assert(all[0] == f);
    if n == 0 {
        assert(after_frames(s, all, 0) == s);
    } else {
        handed_one_by_one(s, f, fs, n - 1);
        assert(all[n] == fs[n - 1]);
    }
}

/// What comes in is handed to the session frame by frame: to be shown a frame that the session
/// takes, and more behind it, is to be handed that frame, and then to be shown what is behind it.
/// The answers to both follow one another, and what both consume adds up.
pub proof fn taken_frame_by_frame(
    before: SessionView,
    f: Seq<u8>,
    more: Seq<u8>,
    out: Seq<Seq<u8>>,
    r: Result<usize, ()>,
    after: SessionView,
)
    requires
        one_frame(f),
        takes(before, received(f)),
        took_frames(before, f + more, out, r, after),
    ensures
        exists|later: Seq<Seq<u8>>, s: Result<usize, ()>| #[trigger]
            took_frames(handed(before, received(f)), more, later, s, after) && out == replies_to(
                received(f),
            ) + later && match s {
                Ok(n) => r matches Ok(m) && m == f.len() + n,
                Err(_) => r is Err,
            },
{
    whole_frame_is_found(f.take(9), f.skip(9), more);
    assert(f.take(9) + f.skip(9) =~= f);
    let fs = frames(more);
    let all = frames(f + more);
    let next = handed(before, received(f));
    assert(all[0] == f);
    assert(after_frames(before, all, 0) == before);
    match r {
        Ok(m) => {
            rest_has_no_frame(more);
            let n = (m - f.len()) as usize;
            let later = all_replies(fs);
            replies_begin_with_first(f, fs);
            handed_one_by_one(before, f, fs, fs.len() as int);
            assert forall|i: int| 0 <= i < fs.len() implies takes(
                after_frames(next, fs, i),
                received(#[trigger] fs[i]),
            ) by {
                handed_one_by_one(before, f, fs, i);
                assert(all[i + 1] == fs[i]);
            }
            assert(took_frames(next, more, later, Ok(n), after));
        },
        Err(_) => {
            let k = choose|k: int| #[trigger]
                refuses_at(before, all, k) && out == all_replies(all.take(k + 1)) && after
                    == after_frames(before, all, k + 1);
            assert(k > 0);
            let later = all_replies(fs.take(k));
            assert(all.take(k + 1) =~= seq![f] + fs.take(k));
            replies_begin_with_first(f, fs.take(k));
            handed_one_by_one(before, f, fs, k);
            handed_one_by_one(before, f, fs, k - 1);
            assert(all[k] == fs[k - 1]);
            assert forall|i: int| 0 <= i < k - 1 implies takes(
                after_frames(next, fs, i),
                received(#[trigger] fs[i]),
            ) by {
                handed_one_by_one(before, f, fs, i);
                assert(all[i + 1] == fs[i]);
            }
            assert(refuses_at(next, fs, k - 1));
            assert(took_frames(next, more, later, Err(()), after));
        },
    }
}

/// The first frame that the session does not take ends it: what is behind that frame is not looked
/// at, and the answer is a failure.
pub proof fn refused_frame_ends_it(
    before: SessionView,
    f: Seq<u8>,
    more: Seq<u8>,
    out: Seq<Seq<u8>>,
    r: Result<usize, ()>,
    after: SessionView,
)
    requires
        one_frame(f),
        !takes(before, received(f)),
        took_frames(before, f + more, out, r, after),
    ensures
        r is Err,
        out == replies_to(received(f)),
        after == handed(before, received(f)),
{
    whole_frame_is_found(f.take(9), f.skip(9), more);
    assert(f.take(9) + f.skip(9) =~= f);
    let all = frames(f + more);
    assert(all[0] == f);
    assert(after_frames(before, all, 0) == before);
    assert(after_frames(before, all, 1) == handed(before, received(f)));
    if r is Ok {
        assert(takes(after_frames(before, all, 0), received(all[0])));
    } else {
        let k = choose|k: int| #[trigger]
            refuses_at(before, all, k) && out == all_replies(all.take(k + 1)) && after
                == after_frames(before, all, k + 1);
        if k > 0 {
            assert(takes(after_frames(before, all, 0), received(all[0])));
        }
        assert(all.take(1) =~= seq![f] + Seq::<Seq<u8>>::empty());
        replies_begin_with_first(f, Seq::empty());
        assert(out =~= replies_to(received(f)));
    }
}

/// Where no whole frame is left, nothing is consumed or answered, and the streams that are closed
/// are let go of; all others stay as they are.
pub proof fn nothing_taken_of_part_of_a_frame(
    before: SessionView,
    b: Seq<u8>,
    out: Seq<Seq<u8>>,
    r: Result<usize, ()>,
    after: SessionView,
)
    requires
        b.len() < 9 || b.len() < 9 + b[0] * 65536 + b[1] * 256 + b[2],
        took_frames(before, b, out, r, after),
    ensures
        r == Ok::<usize, ()>(0),
        out == Seq::<Seq<u8>>::empty(),
        after.blocks == before.blocks,
        after.lists == before.lists,
        forall|id: StreamId| #[trigger]
            after.streams.contains_key(id) <==> before.streams.contains_key(id)
                && !(before.streams[id].state is Closed),
        forall|id: StreamId| #[trigger]
            after.streams.contains_key(id) ==> after.streams[id] == before.streams[id],
{
    part_of_a_frame_waits(b);
}

/// What the protocol makes of what comes in is what its session makes of it; the preface and the
/// numbers of streams have nothing to do with it.
pub proof fn data_is_for_the_session(
    pre: Http2,
    token: Token,
    buf: Seq<u8>,
    post: Http2,
    out: Seq<Seq<u8>>,
    r: Result<usize, ()>,
)
    requires
        Http2::took_data(pre, token, buf, post, out, r),
    ensures
        took_frames(pre@.session, buf, out, r, post@.session),
        post@ == (Http2View {
            init: pre@.init,
            session: post@.session,
            next_stream_id: pre@.next_stream_id,
        }),
{
}

} // verus!
