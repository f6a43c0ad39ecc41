//! Where a header block breaks off, octet by octet.
use vstd::prelude::*;
use crate::header_block::{cut_in_size, field_len, int_at, int_tail, literal_len, string_len};

verus! {

/// What the bits of an octet have to do with its value.
proof fn bits(x: u8)
    ensures
        x & 128 != 0 <==> x >= 128,
        x & 127 == if x >= 128 {
            x - 128
        } else {
            x as int
        },
        x < 128 ==> (x & 64 != 0 <==> x >= 64),
        x < 64 ==> (x & 32 != 0 <==> x >= 32),
        64 <= x < 128 ==> x & 63 == x - 64,
        32 <= x < 64 ==> x & 31 == x - 32,
        x < 16 ==> x & 15 == x,
        16 <= x < 32 ==> x & 15 == x - 16,
{
    assert(x & 128 != 0 <==> x >= 128) by (bit_vector);
    assert(x >= 128 ==> x & 127 == x - 128) by (bit_vector);
    assert(x < 128 ==> x & 127 == x) by (bit_vector);
    assert(x < 128 ==> (x & 64 != 0 <==> x >= 64)) by (bit_vector);
    assert(x < 64 ==> (x & 32 != 0 <==> x >= 32)) by (bit_vector);
    assert(64 <= x && x < 128 ==> x & 63 == x - 64) by (bit_vector);
    assert(32 <= x && x < 64 ==> x & 31 == x - 32) by (bit_vector);
    assert(x < 16 ==> x & 15 == x) by (bit_vector);
    assert(16 <= x && x < 32 ==> x & 15 == x - 16) by (bit_vector);
}

/// What an integer stands for whose first octet has all its bits set, which are `most` together:
/// the octets that follow, up to the first below 128, of which there are four at most, count seven
/// bits each, the first of them least.
pub open spec fn spelled_behind(b: Seq<u8>, most: nat) -> Option<(nat, nat)> {
    if b.len() > 1 && b[1] < 128 {
        Some((most + b[1] as nat, 2))
    } else if b.len() > 2 && b[2] < 128 {
        Some((most + (b[1] - 128) as nat + b[2] as nat * 128, 3))
    } else if b.len() > 3 && b[3] < 128 {
        Some((most + (b[1] - 128) as nat + (b[2] - 128) as nat * 128 + b[3] as nat * 16384, 4))
    } else if b.len() > 4 && b[4] < 128 {
        Some(
            (
                most + (b[1] - 128) as nat + (b[2] - 128) as nat * 128 + (b[3] - 128) as nat * 16384
                    + b[4] as nat * 2097152,
                5,
            ),
        )
    } else {
        None
    }
}

/// An integer whose first octet leaves some of its bits unset stands for those bits, and takes one
/// octet.
pub proof fn short_integers(b: Seq<u8>, mask: u8)
    requires
        b.len() > 0,
        b[0] & mask < mask,
    ensures
        int_at(b, mask) == Some(((b[0] & mask) as nat, 1nat)),
{
}

/// An integer whose first octet has all its bits set goes on behind it.
pub proof fn long_integers(b: Seq<u8>, mask: u8)
    requires
        b.len() > 0,
        b[0] & mask == mask,
    ensures
        int_at(b, mask) == spelled_behind(b, mask as nat),
{
    if b.len() > 1 {
        bits(b[1]);
    }
    if b.len() > 2 {
        bits(b[2]);
    }
    if b.len() > 3 {
        bits(b[3]);
    }
    if b.len() > 4 {
        bits(b[4]);
    }
    reveal_with_fuel(int_tail, 6);
}

/// There is no integer where there is no octet.
pub proof fn no_integer_in_nothing(b: Seq<u8>, mask: u8)
    requires
        b.len() == 0,
    ensures
        int_at(b, mask) is None,
{
}

/// A string is the integer that says how many octets follow, of whose first octet one bit does not
/// count, and these octets, all of which have to be there.
pub proof fn strings_are_counted(b: Seq<u8>)
    ensures
        match int_at(b, 127) {
            Some((count, n)) => if b.len() >= n + count {
                string_len(b) == Some((n + count) as nat)
            } else {
                string_len(b) is None
            },
            None => string_len(b) is None,
        },
{
}

/// A literal is the integer that says which name the field has, the name as a string where that is
/// zero, and the value as a string.
pub proof fn literals_have_name_and_value(b: Seq<u8>, mask: u8)
    ensures
        int_at(b, mask) is None ==> literal_len(b, mask) is None,
        int_at(b, mask) matches Some((name, n)) ==> name > 0 ==> literal_len(b, mask) == match (
            string_len(b.skip(n as int))) {
            Some(k) => Some((n + k) as nat),
            None => None,
        },
        int_at(b, mask) matches Some((name, n)) ==> name == 0 ==> literal_len(b, mask) == match (
            string_len(b.skip(n as int))) {
            Some(m) => match string_len(b.skip((n + m) as int)) {
                Some(k) => Some((n + m + k) as nat),
                None => None,
            },
            None => None,
        },
{
}

/// The first octet of a field says what it is: from 128 on, a field of the table; from 64 on, a
/// literal that joins the table; from 32 on, a new size of the table; else another literal.
pub proof fn first_octet_says_what_it_is(b: Seq<u8>)
    requires
        b.len() > 0,
    ensures
        b[0] >= 128 ==> field_len(b) == match int_at(b, 127) {
            Some((_, n)) => Some(n),
            None => None,
        },
        64 <= b[0] < 128 ==> field_len(b) == literal_len(b, 63),
        32 <= b[0] < 64 ==> field_len(b) == match int_at(b, 31) {
            Some((_, n)) => Some(n),
            None => None,
        },
        b[0] < 32 ==> field_len(b) == literal_len(b, 15),
{
    bits(b[0]);
}

/// Fields that are whole do not matter to where a block breaks off: what counts is what follows
/// them.
pub proof fn whole_fields_are_passed_over(b: Seq<u8>, n: nat)
    requires
        field_len(b) == Some(n),
        0 < n <= b.len(),
    ensures
        cut_in_size(b) == cut_in_size(b.skip(n as int)),
{
}

/// A block that breaks off within a field that is no size of the table does not count as cut.
pub proof fn only_sizes_count(b: Seq<u8>)
    requires
        field_len(b) is None,
        b.len() > 0 ==> b[0] < 32 || b[0] >= 64,
    ensures
        !cut_in_size(b),
{
    if b.len() > 0 {
        bits(b[0]);
    }
}

/// Fields of one octet, which are those of the table with small numbers and small sizes of the
/// table, are passed over.
pub proof fn short_fields_are_passed_over(x: u8, more: Seq<u8>)
    requires
        128 <= x < 255 || 32 <= x < 63,
    ensures
        cut_in_size(seq![x] + more) == cut_in_size(more),
{
    let b = seq![x] + more;
    bits(x);
    assert(b[0] == x);
    assert(field_len(b) == Some(1nat));
    assert(b.skip(1) =~= more);
}

/// A literal whose name has a small number, and whose value is short, is passed over with the
/// whole of its value, whatever the value holds.
pub proof fn short_literals_are_passed_over(x: u8, value: Seq<u8>, huffman: bool, more: Seq<u8>)
    requires
        64 < x < 127 || 0 < x < 15 || 16 < x < 31,
        value.len() < 127,
    ensures
        cut_in_size(
            seq![x, (value.len() + if huffman { 128int } else { 0 }) as u8] + value + more,
        ) == cut_in_size(more),
{
    let l = (value.len() + if huffman { 128int } else { 0 }) as u8;
    let b = seq![x, l] + value + more;
    bits(x);
    bits(l);
    assert(b[0] == x);
    let mask: u8 = if x >= 64 { 63 } else { 15 };
    assert(int_at(b, mask) == Some(((b[0] & mask) as nat, 1nat)));
    let s = b.skip(1);
    assert(s[0] == l);
    assert(int_at(s, 127) == Some((value.len(), 1nat)));
    assert(string_len(s) == Some((1 + value.len()) as nat));
    assert(literal_len(b, mask) == Some((2 + value.len()) as nat));
    assert(field_len(b) == Some((2 + value.len()) as nat));
    assert(b.skip((2 + value.len()) as int) =~= more);
}

/// An empty block is whole.
pub proof fn empty_block_is_whole(b: Seq<u8>)
    requires
        b.len() == 0,
    ensures
        !cut_in_size(b),
{
}

/// Somewhere in `b` a size of the table, which is an octet of that value and others up to the
/// first of them below 128, is not over within five octets, or not over where `b` is.
pub open spec fn size_dangles(b: Seq<u8>) -> bool {
    exists|k: int| #[trigger] size_dangles_at(b, k)
}

/// The same of the place `k` in `b`.
pub open spec fn size_dangles_at(b: Seq<u8>, k: int) -> bool {
    0 <= k < b.len() && b[k] == 0x3f && forall|j: int|
        k < j <= k + 4 && j < b.len() ==> #[trigger] b[j] >= 128
}

/// A block that begins with a size of the table that is not over is cut.
pub proof fn cut_where_first_size_dangles(b: Seq<u8>)
    requires
        size_dangles_at(b, 0),
    ensures
        cut_in_size(b),
{
    bits(b[0]);
    assert(b.len() > 1 ==> b[1] >= 128);
    assert(b.len() > 2 ==> b[2] >= 128);
    assert(b.len() > 3 ==> b[3] >= 128);
    assert(b.len() > 4 ==> b[4] >= 128);
    long_integers(b, 31);
}

/// A block is cut only where a size of the table in it is not over.
pub proof fn cut_only_where_a_size_dangles(b: Seq<u8>)
    ensures
        cut_in_size(b) ==> size_dangles(b),
    decreases b.len(),
{
    if cut_in_size(b) {
        bits(b[0]);
        match field_len(b) {
            None => {
                assert(32 <= b[0] < 64);
                if b[0] < 63 {
                    short_integers(b, 31);
                } else {
                    long_integers(b, 31);
                    assert(size_dangles_at(b, 0));
                }
            },
            Some(n) => {
                let later = b.skip(n as int);
                cut_only_where_a_size_dangles(later);
                let k = choose|k: int| #[trigger] size_dangles_at(later, k);
                assert forall|j: int| k + n < j <= k + n + 4 && j < b.len() implies #[trigger] b[j]
                    >= 128 by {
                    assert(later[j - n] == b[j]);
                }
                assert(size_dangles_at(b, k + n));
            },
        }
    }
}

} // verus!
