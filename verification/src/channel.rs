//! Channels between threads: [`std::sync::mpsc`].
//!
//! What comes out of a channel, and whether anybody is left at its other end, is up to the
//! threads at both ends. So nothing is claimed here of what an operation on a channel gives.
//! That it was carried out, on which end and with which value, can be said of it all the same:
//! each relation below holds of an outcome only where a call of the operation had it. [`Outlet`]
//! and [`Inlet`] keep an account of all operations on an end.
use vstd::prelude::*;
use std::sync::mpsc::{Receiver, RecvError, SendError, Sender, TryRecvError};

verus! {

/// [`std::sync::mpsc::Sender`], of which nothing is visible.
#[verifier::external_type_specification]
#[verifier::external_body]
#[verifier::reject_recursive_types(T)]
pub struct ExSender<T>(Sender<T>);

/// [`std::sync::mpsc::Receiver`], of which nothing is visible.
#[verifier::external_type_specification]
#[verifier::external_body]
#[verifier::reject_recursive_types(T)]
pub struct ExReceiver<T>(Receiver<T>);

/// [`std::sync::mpsc::SendError`], of which nothing is visible.
#[verifier::external_type_specification]
#[verifier::external_body]
#[verifier::reject_recursive_types(T)]
pub struct ExSendError<T>(SendError<T>);

/// [`std::sync::mpsc::RecvError`], of which nothing is visible.
#[verifier::external_type_specification]
#[verifier::external_body]
pub struct ExRecvError(RecvError);

/// [`std::sync::mpsc::TryRecvError`], of which nothing is visible.
#[verifier::external_type_specification]
#[verifier::external_body]
pub struct ExTryRecvError(TryRecvError);

/// [`std::sync::mpsc::channel`]: nothing is claimed of the two ends.
pub assume_specification<T>[ std::sync::mpsc::channel::<T> ]() -> (ends: (Sender<T>, Receiver<T>));

/// [`std::sync::mpsc::Sender::send`]: nothing is claimed of whether the value can be delivered.
pub assume_specification<T>[ Sender::<T>::send ](tx: &Sender<T>, t: T) -> (r: Result<
    (),
    SendError<T>,
>);

/// [`std::sync::mpsc::Receiver::recv`]: nothing is claimed of what comes.
pub assume_specification<T>[ Receiver::<T>::recv ](rx: &Receiver<T>) -> (r: Result<T, RecvError>);

/// [`std::sync::mpsc::Receiver::try_recv`]: nothing is claimed of what comes.
pub assume_specification<T>[ Receiver::<T>::try_recv ](rx: &Receiver<T>) -> (r: Result<
    T,
    TryRecvError,
>);

/// The two are the ends of one channel, as they were made.
pub open spec fn connected<T>(tx: Sender<T>, rx: Receiver<T>) -> bool {
    call_ensures(std::sync::mpsc::channel::<T>, (), (tx, rx))
}

/// The value was put into the channel, which succeeded or did not.
pub open spec fn sent<T>(tx: Sender<T>, value: T, ok: bool) -> bool {
    exists|r: Result<(), SendError<T>>| #[trigger]
        call_ensures(Sender::<T>::send, (&tx, value), r) && (r is Ok) == ok
}

/// The channel was waited on, and gave that; nothing, where nobody is left at its other end.
pub open spec fn received<T>(rx: Receiver<T>, got: Option<T>) -> bool {
    exists|r: Result<T, RecvError>| #[trigger]
        call_ensures(Receiver::<T>::recv, (&rx,), r) && match r {
            Ok(v) => got == Some(v),
            Err(_) => got is None,
        }
}

/// The channel was looked into, and gave that; nothing, where nothing was in it.
pub open spec fn polled<T>(rx: Receiver<T>, got: Option<T>) -> bool {
    exists|r: Result<T, TryRecvError>| #[trigger]
        call_ensures(Receiver::<T>::try_recv, (&rx,), r) && match r {
            Ok(v) => got == Some(v),
            Err(_) => got is None,
        }
}

/// The end of a channel that values are put into. The view is all that was put into it, in order,
/// each with whether that succeeded.
#[verifier::reject_recursive_types(T)]
pub struct Outlet<T> {
    tx: Sender<T>,
    log: Ghost<Seq<(T, bool)>>,
}

impl<T> View for Outlet<T> {
    type V = Seq<(T, bool)>;

    closed spec fn view(&self) -> Seq<(T, bool)> {
        self.log@
    }
}

/// One value was put into an end of a channel, which succeeded or did not, and made it into
/// `after`.
pub open spec fn put_once<T>(before: Outlet<T>, value: T, ok: bool, after: Outlet<T>) -> bool {
    &&& sent(before.end(), value, ok)
    &&& after.end() == before.end()
    &&& after@ == before@.push((value, ok))
}

/// The same of bytes, as one value.
pub open spec fn put_bytes(
    before: Outlet<Vec<u8>>,
    bytes: Seq<u8>,
    ok: bool,
    after: Outlet<Vec<u8>>,
) -> bool {
    exists|v: Vec<u8>| v@ == bytes && #[trigger] put_once(before, v, ok, after)
}

impl<T> Outlet<T> {
    /// The end itself.
    pub closed spec fn end(&self) -> Sender<T> {
        self.tx
    }

    /// An end into which nothing has been put by way of this.
    pub fn new(tx: Sender<T>) -> (o: Outlet<T>)
        ensures
            o.end() == tx,
            o@ == Seq::<(T, bool)>::empty(),
    {
        Outlet { tx, log: Ghost(Seq::empty()) }
    }

    /// Puts a value into the channel. Says whether that succeeded.
    pub fn put(&mut self, value: T) -> (ok: bool)
        ensures
            put_once(*old(self), value, ok, *final(self)),
    {
        let r = self.tx.send(value);
        assert(call_ensures(Sender::<T>::send, (&self.tx, value), r));
        let ok = r.is_ok();
        self.log = Ghost(self.log@.push((value, ok)));
        ok
    }
}

/// The end of a channel that values come out of. The view is what every look into it gave, in
/// order: nothing, where nothing was there.
#[verifier::reject_recursive_types(T)]
pub struct Inlet<T> {
    rx: Receiver<T>,
    log: Ghost<Seq<Option<T>>>,
}

impl<T> View for Inlet<T> {
    type V = Seq<Option<T>>;

    closed spec fn view(&self) -> Seq<Option<T>> {
        self.log@
    }
}

/// An end of a channel was waited on once, gave that, and became `after`.
pub open spec fn waited_once<T>(before: Inlet<T>, got: Option<T>, after: Inlet<T>) -> bool {
    &&& received(before.end(), got)
    &&& after.end() == before.end()
    &&& after@ == before@.push(got)
}

/// An end of a channel was looked into once, gave that, and became `after`.
pub open spec fn polled_once<T>(before: Inlet<T>, got: Option<T>, after: Inlet<T>) -> bool {
    &&& polled(before.end(), got)
    &&& after.end() == before.end()
    &&& after@ == before@.push(got)
}

impl<T> Inlet<T> {
    /// The end itself.
    pub closed spec fn end(&self) -> Receiver<T> {
        self.rx
    }

    /// An end that has not been looked into by way of this.
    pub fn new(rx: Receiver<T>) -> (i: Inlet<T>)
        ensures
            i.end() == rx,
            i@ == Seq::<Option<T>>::empty(),
    {
        Inlet { rx, log: Ghost(Seq::empty()) }
    }

    /// Waits for what comes out of the channel.
    pub fn wait_for(&mut self) -> (got: Option<T>)
        ensures
            waited_once(*old(self), got, *final(self)),
    {
        let r = self.rx.recv();
        assert(call_ensures(Receiver::<T>::recv, (&self.rx,), r));
        let got = match r {
            Ok(v) => Some(v),
            Err(_) => None,
        };
        self.log = Ghost(self.log@.push(got));
        got
    }

    /// Takes what is in the channel, if anything is.
    pub fn poll(&mut self) -> (got: Option<T>)
        ensures
            polled_once(*old(self), got, *final(self)),
    {
        let r = self.rx.try_recv();
        assert(call_ensures(Receiver::<T>::try_recv, (&self.rx,), r));
        let got = match r {
            Ok(v) => Some(v),
            Err(_) => None,
        };
        self.log = Ghost(self.log@.push(got));
        got
    }
}

/// The two are the ends of one channel, and neither has been used.
pub open spec fn fresh_pipe<T>(out: Outlet<T>, into: Inlet<T>) -> bool {
    &&& connected(out.end(), into.end())
    &&& out@ == Seq::<(T, bool)>::empty()
    &&& into@ == Seq::<Option<T>>::empty()
}

/// Both ends of a new channel.
pub fn pipe<T>() -> (ends: (Outlet<T>, Inlet<T>))
    ensures
        fresh_pipe(ends.0, ends.1),
{
    let (tx, rx) = std::sync::mpsc::channel();
    (Outlet::new(tx), Inlet::new(rx))
}

/// The values that were put into a channel with success, in order.
pub open spec fn arrived<T>(puts: Seq<(T, bool)>) -> Seq<T>
    decreases puts.len(),
{
    if puts.len() == 0 {
        Seq::empty()
    } else {
        let before = arrived(puts.drop_last());
        if puts.last().1 {
            before.push(puts.last().0)
        } else {
            before
        }
    }
}

/// What a look into a channel gives, after `n` others, where those values are all that was put
/// into it.
pub open spec fn next_of<T>(puts: Seq<(T, bool)>, n: int) -> Option<T> {
    if 0 <= n < arrived(puts).len() {
        Some(arrived(puts)[n])
    } else {
        None
    }
}

/// The channel behaves as channels do: every look gives the next of the values that were put into
/// it, all of which was done before.
pub open spec fn in_order<T>(puts: Seq<(T, bool)>, looks: Seq<Option<T>>) -> bool {
    forall|i: int| 0 <= i < looks.len() ==> #[trigger] looks[i] == next_of(puts, i)
}

/// What is put first, with success, arrives first, whatever follows.
pub proof fn first_arrives<T>(puts: Seq<(T, bool)>)
    requires
        puts.len() > 0,
        puts[0].1,
    ensures
        arrived(puts).len() > 0,
        arrived(puts)[0] == puts[0].0,
    decreases puts.len(),
{
    if puts.len() > 1 {
        first_arrives(puts.drop_last());
    } else {
        assert(arrived(puts.drop_last()) == Seq::<T>::empty());
    }
}

/// Where everything was put with success, all of it arrived.
pub proof fn all_arrived<T>(puts: Seq<(T, bool)>)
    requires
        forall|i: int| 0 <= i < puts.len() ==> (#[trigger] puts[i]).1,
    ensures
        arrived(puts) == Seq::new(puts.len(), |i: int| puts[i].0),
    decreases puts.len(),
{
    if puts.len() > 0 {
        let before = puts.drop_last();
        assert forall|i: int| 0 <= i < before.len() implies (#[trigger] before[i]).1 by {
            assert(before[i] == puts[i]);
        }
        all_arrived(before);
    }
    assert(arrived(puts) =~= Seq::new(puts.len(), |i: int| puts[i].0));
}

} // verus!
