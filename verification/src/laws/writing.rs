//! What goes out on a connection, and when.
use vstd::prelude::*;
use vstd::seq_lib::lemma_flatten_concat;
use crate::connection::{
    after_write, became_writable, offered, read_finished, tried, was_notified, wrote,
    ConnectionView, ReadError, ReadOutcome, Round, Step, WriteOutcome,
};
use crate::evtloop::{Message, Protocol};

verus! {

/// The bytes that the socket took of what it was offered.
pub open spec fn accepted(backlog: Seq<Seq<u8>>, outcome: WriteOutcome) -> Seq<u8> {
    match outcome {
        WriteOutcome::Wrote(n) => backlog[0].take(n as int),
        WriteOutcome::WouldBlock => Seq::empty(),
    }
}

/// The socket takes no more than it was offered.
pub open spec fn within(backlog: Seq<Seq<u8>>, outcome: WriteOutcome) -> bool {
    outcome matches WriteOutcome::Wrote(n) ==> backlog.len() > 0 && n <= backlog[0].len()
}

/// Writes that follow one another, each because the step before asked for it. `cs` is what the
/// connection was before each of them and after the last, `steps` the steps that were asked for
/// then, and `outcomes` what came of the writes.
pub open spec fn write_run<P: Protocol, S>(
    cs: Seq<ConnectionView<P, S>>,
    steps: Seq<Step>,
    outcomes: Seq<WriteOutcome>,
) -> bool {
    &&& cs.len() == outcomes.len() + 1
    &&& steps.len() == outcomes.len() + 1
    &&& forall|i: int|
        0 <= i < outcomes.len() ==> {
            &&& within(cs[i].backlog, #[trigger] outcomes[i])
            &&& steps[i] matches Step::Write(round) && wrote(
                cs[i],
                round,
                outcomes[i],
                cs[i + 1],
                steps[i + 1],
            )
        }
}

/// All bytes that the socket took in the first `n` of such writes, in order.
pub open spec fn taken<P: Protocol, S>(
    cs: Seq<ConnectionView<P, S>>,
    outcomes: Seq<WriteOutcome>,
    n: nat,
) -> Seq<u8>
    decreases n,
{
    if n == 0 {
        Seq::empty()
    } else {
        taken(cs, outcomes, (n - 1) as nat) + accepted(cs[n - 1].backlog, outcomes[n - 1])
    }
}

/// Between `c` and `d` the protocol was asked for something to write at most once, and queued
/// that.
pub open spec fn at_most_one_turn<P: Protocol, S>(
    c: ConnectionView<P, S>,
    d: ConnectionView<P, S>,
    queued: Seq<Seq<u8>>,
) -> bool {
    ||| d.protocol == c.protocol && queued == Seq::<Seq<u8>>::empty()
    ||| P::took_turn(c.protocol, c.token, d.protocol, queued)
}

/// In none of the first `n` writes the socket took nothing.
pub open spec fn nothing_blocks(outcomes: Seq<WriteOutcome>, n: nat) -> bool {
    forall|i: int| 0 <= i < n ==> (#[trigger] outcomes[i]) is Wrote
}

/// What the socket took, and what still waits, is what waited before.
proof fn after_write_keeps_bytes(backlog: Seq<Seq<u8>>, n: nat)
    requires
        backlog.len() > 0,
        n <= backlog[0].len(),
    ensures
        backlog[0].take(n as int) + after_write(backlog, n).flatten() == backlog.flatten(),
{
    let later = backlog.drop_first();
    assert(backlog.flatten() == backlog[0] + later.flatten());
    if backlog[0].len() == n {
        assert(after_write(backlog, n) =~= later);
        assert(backlog[0].take(n as int) =~= backlog[0]);
    } else {
        let shorter = backlog[0].skip(n as int);
        assert(after_write(backlog, n).drop_first() =~= later);
        assert(after_write(backlog, n).flatten() == shorter + later.flatten());
        assert(backlog[0].take(n as int) + (shorter + later.flatten()) =~= backlog[0]
            + later.flatten());
    }
}

/// What the protocol queued goes behind everything that waits.
proof fn offered_keeps_bytes<P: Protocol, S>(
    c: ConnectionView<P, S>,
    d: ConnectionView<P, S>,
    step: Step,
) -> (queued: Seq<Seq<u8>>)
    requires
        offered(c, d, step),
    ensures
        P::took_turn(c.protocol, c.token, d.protocol, queued),
        d.backlog.flatten() == c.backlog.flatten() + queued.flatten(),
        step != Step::Write(Round::First),
{
    let queued = choose|frames: Seq<Seq<u8>>| #[trigger]
        P::took_turn(c.protocol, c.token, d.protocol, frames) && d == (ConnectionView {
            backlog: c.backlog + frames,
            protocol: d.protocol,
            ..c
        });
    lemma_flatten_concat(c.backlog, queued);
    queued
}

/// The first `n` writes of such a run. As long as the first round lasts, the protocol has not
/// been asked; if the run begins in the last round, it never is.
proof fn run_keeps_bytes<P: Protocol, S>(
    cs: Seq<ConnectionView<P, S>>,
    steps: Seq<Step>,
    outcomes: Seq<WriteOutcome>,
    n: nat,
) -> (queued: Seq<Seq<u8>>)
    requires
        write_run(cs, steps, outcomes),
        n <= outcomes.len(),
    ensures
        at_most_one_turn(cs[0], cs[n as int], queued),
        steps[0] != Step::Write(Round::First) || steps[n as int] == Step::Write(Round::First)
            ==> cs[n as int].protocol == cs[0].protocol && queued == Seq::<Seq<u8>>::empty(),
        steps[n as int] == Step::Write(Round::First) ==> steps[0] == Step::Write(Round::First),
        taken(cs, outcomes, n) + cs[n as int].backlog.flatten() == cs[0].backlog.flatten()
            + queued.flatten(),
        cs[n as int] == (ConnectionView {
            backlog: cs[n as int].backlog,
            writable: cs[n as int].writable,
            protocol: cs[n as int].protocol,
            ..cs[0]
        }),
        nothing_blocks(outcomes, n) ==> cs[n as int].writable == cs[0].writable,
        nothing_blocks(outcomes, n) && cs[0].writable && steps[0] == Step::Write(Round::First)
            && steps[n as int] != Step::Write(Round::First) ==> P::took_turn(
            cs[0].protocol,
            cs[0].token,
            cs[n as int].protocol,
            queued,
        ),
        nothing_blocks(outcomes, n) && n > 0 && steps[n as int] == Step::Done
            ==> cs[n as int].backlog.len() == 0,
    decreases n,
{
    let none = Seq::<Seq<u8>>::empty();
    assert(none.flatten() =~= Seq::<u8>::empty());
    if n == 0 {
        assert(taken(cs, outcomes, 0) + cs[0].backlog.flatten() =~= cs[0].backlog.flatten()
            + none.flatten());
        none
    } else {
        let i = n - 1;
        let before = run_keeps_bytes(cs, steps, outcomes, i as nat);
        if nothing_blocks(outcomes, n) {
            assert(outcomes[i] is Wrote);
            assert(nothing_blocks(outcomes, i as nat));
        }
        let c = cs[i];
        let d = cs[n as int];
        let round = steps[i]->Write_0;
        assert(within(c.backlog, outcomes[i]));
        let got = accepted(c.backlog, outcomes[i]);
        let sofar = taken(cs, outcomes, i as nat);
        match outcomes[i] {
            WriteOutcome::WouldBlock => {
                assert(sofar + got =~= sofar);
                before
            },
            WriteOutcome::Wrote(k) => {
                let e = ConnectionView { backlog: after_write(c.backlog, k as nat), ..c };
                after_write_keeps_bytes(c.backlog, k as nat);
                assert((sofar + got) + e.backlog.flatten() =~= sofar + (got
                    + e.backlog.flatten()));
                if e.backlog.len() == 0 && round == Round::First && e.writable {
                    let queued = offered_keeps_bytes(e, d, steps[n as int]);
                    assert((sofar + got) + d.backlog.flatten() =~= ((sofar + got)
                        + e.backlog.flatten()) + queued.flatten());
                    assert(cs[0].backlog.flatten() + before.flatten()
                        =~= cs[0].backlog.flatten());
                    queued
                } else {
                    before
                }
            },
        }
    }
}

/// Nothing is lost, repeated or reordered on the way out. Once an attempt to write has begun,
/// the bytes that the socket took and those that still wait are, in this order, those that
/// waited when it began and those that the protocol queued when it was asked, which it is at
/// most once.
pub proof fn written_in_order<P: Protocol, S>(
    c: ConnectionView<P, S>,
    cs: Seq<ConnectionView<P, S>>,
    steps: Seq<Step>,
    outcomes: Seq<WriteOutcome>,
)
    requires
        write_run(cs, steps, outcomes),
        tried(c, cs[0], steps[0]),
    ensures
        exists|queued: Seq<Seq<u8>>| #[trigger]
            at_most_one_turn(c, cs.last(), queued) && taken(cs, outcomes, outcomes.len())
                + cs.last().backlog.flatten() == c.backlog.flatten() + queued.flatten(),
        cs.last() == (ConnectionView {
            backlog: cs.last().backlog,
            writable: cs.last().writable,
            protocol: cs.last().protocol,
            ..c
        }),
{
    let queued = run_keeps_bytes(cs, steps, outcomes, outcomes.len());
    let none = Seq::<Seq<u8>>::empty();
    assert(none.flatten() =~= Seq::<u8>::empty());
    if c.writable && c.backlog.len() == 0 {
        let first = offered_keeps_bytes(c, cs[0], steps[0]);
        assert(c.backlog.flatten() + first.flatten() =~= cs[0].backlog.flatten());
        assert(cs[0].backlog.flatten() + none.flatten() =~= cs[0].backlog.flatten());
        assert(at_most_one_turn(c, cs.last(), first));
    } else {
        assert(at_most_one_turn(c, cs.last(), queued));
    }
}

/// An attempt to write on a writable socket that never blocks asks the protocol for something to
/// write exactly once, and is over only when everything that waited and everything that the
/// protocol queued then has gone out.
pub proof fn asked_once_where_nothing_blocks<P: Protocol, S>(
    c: ConnectionView<P, S>,
    cs: Seq<ConnectionView<P, S>>,
    steps: Seq<Step>,
    outcomes: Seq<WriteOutcome>,
)
    requires
        c.writable,
        write_run(cs, steps, outcomes),
        tried(c, cs[0], steps[0]),
        nothing_blocks(outcomes, outcomes.len()),
        steps.last() == Step::Done,
    ensures
        exists|queued: Seq<Seq<u8>>| #[trigger]
            P::took_turn(c.protocol, c.token, cs.last().protocol, queued) && taken(
                cs,
                outcomes,
                outcomes.len(),
            ) == c.backlog.flatten() + queued.flatten(),
        cs.last().backlog.len() == 0,
        cs.last().writable,
{
    let queued = run_keeps_bytes(cs, steps, outcomes, outcomes.len());
    let none = Seq::<Seq<u8>>::empty();
    assert(none.flatten() =~= Seq::<u8>::empty());
    let all = taken(cs, outcomes, outcomes.len());
    assert(cs.last().backlog =~= none);
    assert(all + none.flatten() =~= all);
    if c.backlog.len() == 0 {
        let first = offered_keeps_bytes(c, cs[0], steps[0]);
        assert(cs[0].backlog.flatten() + none.flatten() =~= cs[0].backlog.flatten());
        assert(P::took_turn(c.protocol, c.token, cs.last().protocol, first));
    } else {
        assert(P::took_turn(c.protocol, c.token, cs.last().protocol, queued));
    }
}

/// A socket that took nothing is left alone: messages do not lead to another write, nor to the
/// protocol being asked for something to write, until the socket is reported to be writable.
pub proof fn blocked_until_writable<P: Protocol, S>(
    c: ConnectionView<P, S>,
    msg: Message<P::Message>,
    d: ConnectionView<P, S>,
    r: Result<Step, ()>,
)
    requires
        !c.writable,
        was_notified(c, msg, d, r),
    ensures
        r matches Ok(step) ==> step == Step::Done,
        !d.writable,
        !(msg is Proto) ==> d.protocol == c.protocol,
{
}

/// The same of what is read while the socket is not reported to be writable.
pub proof fn blocked_while_reading<P: Protocol, S>(
    c: ConnectionView<P, S>,
    outcome: ReadOutcome,
    d: ConnectionView<P, S>,
    r: Result<Step, ReadError>,
)
    requires
        !c.writable,
        read_finished(c, outcome, false, d, r),
    ensures
        r matches Ok(step) ==> step == Step::Done,
        !d.writable,
{
}

/// A write after which the socket took nothing ends the attempt, whatever still waits.
pub proof fn would_block_ends_attempt<P: Protocol, S>(
    c: ConnectionView<P, S>,
    round: Round,
    d: ConnectionView<P, S>,
    step: Step,
)
    requires
        wrote(c, round, WriteOutcome::WouldBlock, d, step),
    ensures
        step == Step::Done,
        !d.writable,
        d.backlog == c.backlog,
        d.protocol == c.protocol,
{
}

/// Whatever is queued by a message goes behind everything that waits already.
pub proof fn messages_queue_behind<P: Protocol, S>(
    c: ConnectionView<P, S>,
    msg: Message<P::Message>,
    d: ConnectionView<P, S>,
    r: Result<Step, ()>,
)
    requires
        was_notified(c, msg, d, r),
    ensures
        c.backlog.is_prefix_of(d.backlog),
{
}

/// Whatever is queued in answer to what was read goes behind everything that waits already.
pub proof fn reads_queue_behind<P: Protocol, S>(
    c: ConnectionView<P, S>,
    outcome: ReadOutcome,
    writable: bool,
    d: ConnectionView<P, S>,
    r: Result<Step, ReadError>,
)
    requires
        read_finished(c, outcome, writable, d, r),
    ensures
        c.backlog.is_prefix_of(d.backlog),
{
}

/// An attempt to write that finds the socket writable, and nothing waiting, asks the protocol.
/// So an attempt asks for a write unless the protocol has nothing to say either.
pub proof fn writable_and_idle_asks_protocol<P: Protocol, S>(
    c: ConnectionView<P, S>,
    d: ConnectionView<P, S>,
    step: Step,
)
    requires
        became_writable(c, d, step),
        c.backlog.len() == 0,
    ensures
        exists|queued: Seq<Seq<u8>>| #[trigger]
            P::took_turn(c.protocol, c.token, d.protocol, queued) && d.backlog == queued && (step
                == Step::Done <==> queued.len() == 0),
{
    let e = ConnectionView { writable: true, ..c };
    assert(offered(e, d, step));
    let queued = choose|frames: Seq<Seq<u8>>| #[trigger]
        P::took_turn(c.protocol, c.token, d.protocol, frames) && d == (ConnectionView {
            backlog: e.backlog + frames,
            protocol: d.protocol,
            ..e
        });
    assert(e.backlog + queued =~= queued);
}

} // verus!
