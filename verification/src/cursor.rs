//! A run of bytes and the place in it up to which it has been used.
use vstd::prelude::*;

verus! {

/// A buffer together with a position in it. Everything before the position is done with:
/// written to a socket, or copied out to a reader.
///
/// The view is what is left, that is the bytes from the position on.
pub struct Cursor {
    data: Vec<u8>,
    pos: usize,
}

impl View for Cursor {
    type V = Seq<u8>;

    closed spec fn view(&self) -> Seq<u8> {
        self.data@.skip(self.pos as int)
    }
}

/// How many bytes one copy moves between two buffers of the given sizes.
pub open spec fn copied(available: nat, room: nat) -> nat {
    if available <= room {
        available
    } else {
        room
    }
}

impl Cursor {
    #[verifier::type_invariant]
    spec fn in_bounds(self) -> bool {
        self.pos <= self.data@.len()
    }

    /// A cursor at the start of `data`.
    pub fn new(data: Vec<u8>) -> (c: Cursor)
        ensures
            c@ == data@,
    {
        let c = Cursor { data, pos: 0 };
        assert(c.data@.skip(0) =~= data@);
        c
    }

    /// How many bytes are left.
    pub fn remaining(&self) -> (n: usize)
        ensures
            n == self@.len(),
    {
        proof {
            use_type_invariant(self);
        }
        self.data.len() - self.pos
    }

    /// The bytes that are left.
    pub fn bytes(&self) -> (b: &[u8])
        ensures
            b@ == self@,
    {
        proof {
            use_type_invariant(self);
        }
        vstd::slice::slice_subrange(self.data.as_slice(), self.pos, self.data.len())
    }

    /// Moves the position over the next `n` bytes.
    pub fn advance(&mut self, n: usize)
        requires
            n <= old(self)@.len(),
        ensures
            final(self)@ == old(self)@.skip(n as int),
    {
        proof {
            use_type_invariant(&*self);
        }
        let ghost before = self@;
        let left: usize = self.data.len() - self.pos;
        assert(n <= left);
        self.pos = self.pos + n;
        assert(self@ =~= before.skip(n as int));
    }

    /// Copies as much as fits into `buf`, and moves the position over it. Gives the number of
    /// bytes copied.
    pub fn read(&mut self, buf: &mut [u8]) -> (n: usize)
        ensures
            n == copied(old(self)@.len(), old(buf)@.len()),
            final(buf)@ == old(self)@.take(n as int) + old(buf)@.skip(n as int),
            final(self)@ == old(self)@.skip(n as int),
    {
        proof {
            use_type_invariant(&*self);
        }
        let left: usize = self.data.len() - self.pos;
        let n: usize = if left <= buf.len() {
            left
        } else {
            buf.len()
        };
        let ghost from = self@;
        let ghost to = buf@;
        let mut i: usize = 0;
        while i < n
            invariant
                self.pos <= self.data@.len(),
                self.data@.len() <= usize::MAX,
                from == self.data@.skip(self.pos as int),
                i <= n,
                n <= from.len(),
                n <= to.len(),
                buf@ == from.take(i as int) + to.skip(i as int),
            decreases n - i,
        {
            buf[i] = self.data[self.pos + i];
            i += 1;
            assert(buf@ =~= from.take(i as int) + to.skip(i as int));
        }
        self.pos = self.pos + n;
        assert(self@ =~= from.skip(n as int));
        n
    }
}

} // verus!
