//! The table that deals out tokens.
use vstd::prelude::*;
use mio::util::Slab;

verus! {

/// A table of numbers with a fixed number of slots, which are known by their index. It is a
/// [`mio::util::Slab`] that is only ever added to, so that its slots fill up from the first on.
#[verifier::external_body]
pub struct TokenSlab {
    slab: Slab<usize>,
}

/// What the slots of the table hold, from the first to the last that is filled.
pub uninterp spec fn slots(s: TokenSlab) -> Seq<usize>;

/// How many slots the table was made with.
pub uninterp spec fn slot_limit(s: TokenSlab) -> nat;

impl TokenSlab {
    /// `Slab::new`: a table with `capacity` slots, none of which is filled. The slots are
    /// numbered from one when they are linked up, so the capacity has to leave room for that.
    #[verifier::external_body]
    pub(crate) fn new(capacity: usize) -> (s: TokenSlab)
        requires
            capacity < usize::MAX,
        ensures
            slots(s) == Seq::<usize>::empty(),
            slot_limit(s) == capacity,
    {
        TokenSlab { slab: Slab::new(capacity) }
    }

    /// `Slab::insert_with`: fills the first free slot, which is the one after the last that is
    /// filled, and gives its index. Where no slot is free, nothing changes.
    #[verifier::external_body]
    pub(crate) fn insert_with(&mut self, value: usize) -> (t: Option<usize>)
        ensures
            slot_limit(*final(self)) == slot_limit(*old(self)),
            match t {
                Some(t) => slots(*old(self)).len() < slot_limit(*old(self)) && t == slots(
                    *old(self),
                ).len() && slots(*final(self)) == slots(*old(self)).push(value),
                None => slots(*old(self)).len() >= slot_limit(*old(self)) && slots(*final(self))
                    == slots(*old(self)),
            },
    {
        self.slab.insert_with(|_| value).map(|t| t.as_usize())
    }

    /// `Slab::get`: what the slot with the given index holds. The index has to be that of a slot
    /// of the table; of one that is not filled, there is nothing to give.
    #[verifier::external_body]
    pub(crate) fn get(&self, token: usize) -> (v: Option<usize>)
        requires
            token < slot_limit(*self),
        ensures
            match v {
                Some(v) => token < slots(*self).len() && v == slots(*self)[token as int],
                None => token >= slots(*self).len(),
            },
    {
        self.slab.get(mio::Token(token)).cloned()
    }
}

} // verus!
