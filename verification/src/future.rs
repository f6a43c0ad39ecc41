//! A very simple future, backed by a channel.
use vstd::prelude::*;
use std::sync::mpsc::Receiver;
use crate::channel::{received, Inlet};

verus! {

/// A value that will come out of a channel.
#[verifier::reject_recursive_types(T)]
pub struct Future<T> {
    pub rx: Receiver<T>,
}

impl<T> Future<T> {
    /// The value that will come out of the given channel.
    pub fn from_channel(rx: Receiver<T>) -> (f: Future<T>)
        ensures
            f.rx == rx,
    {
        Future { rx }
    }

    /// Waits for the value. There is none where nobody is left to provide it.
    pub fn wait(self) -> (r: Option<T>)
        ensures
            received(self.rx, r),
    {
        Inlet::new(self.rx).wait_for()
    }
}

} // verus!
