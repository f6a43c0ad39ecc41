//! Text as bytes.
use vstd::prelude::*;
use vstd::slice::slice_to_vec;
use vstd::string::*;

verus! {

/// The bytes of a text.
pub open spec fn bytes_of(text: &str) -> Seq<u8> {
    text.spec_bytes()
}

/// The bytes of a text.
pub fn bytes(text: &str) -> (b: Vec<u8>)
    ensures
        b@ == bytes_of(text),
{
    slice_to_vec(text.as_bytes())
}

} // verus!
