//! The outline of a header block: where its fields begin and end.
//!
//! The header blocks of a connection can only be decoded in order, by whoever keeps the table
//! that they refer to. Where a block breaks off shows without the table.
use vstd::prelude::*;

verus! {

/// An integer takes at most that many octets.
pub const MAX_INT_LEN: usize = 5;

/// The rest of an integer whose octets before the `i`-th stand for `value`, the `i`-th counting
/// `weight` times: what the whole stands for, and how many octets it takes.
pub open spec fn int_tail(b: Seq<u8>, i: nat, value: nat, weight: nat) -> Option<(nat, nat)>
    decreases MAX_INT_LEN - i,
{
    if i >= MAX_INT_LEN || i >= b.len() {
        None
    } else {
        let v = value + (b[i as int] & 127) as nat * weight;
        if b[i as int] & 128 == 0 {
            Some((v, i + 1))
        } else {
            int_tail(b, i + 1, v, weight * 128)
        }
    }
}

/// The integer at the front of `b`, of which `mask` picks the bits in the first octet: its
/// value, and how many octets it takes. There is none where it is cut off or takes too many.
pub open spec fn int_at(b: Seq<u8>, mask: u8) -> Option<(nat, nat)> {
    if b.len() == 0 {
        None
    } else if b[0] & mask < mask {
        Some(((b[0] & mask) as nat, 1))
    } else {
        int_tail(b, 1, (b[0] & mask) as nat, 1)
    }
}

/// How many octets the string at the front of `b` takes. There is none where it is cut off.
pub open spec fn string_len(b: Seq<u8>) -> Option<nat> {
    match int_at(b, 127) {
        None => None,
        Some((len, n)) => if n + len <= b.len() {
            Some(n + len)
        } else {
            None
        },
    }
}

/// How many octets a literal field at the front of `b` takes: the number of its name, the name
/// itself where that number is zero, and the value.
pub open spec fn literal_len(b: Seq<u8>, mask: u8) -> Option<nat> {
    match int_at(b, mask) {
        None => None,
        Some((name, n)) => {
            let named = if name == 0 {
                string_len(b.skip(n as int))
            } else {
                Some(0nat)
            };
            match named {
                None => None,
                Some(m) => match string_len(b.skip((n + m) as int)) {
                    None => None,
                    Some(k) => Some(n + m + k),
                },
            }
        },
    }
}

/// How many octets the field at the front of `b` takes. Its first octet says what it is: a field
/// of the table, a literal that joins the table, a new size of the table, or another literal.
pub open spec fn field_len(b: Seq<u8>) -> Option<nat> {
    if b.len() == 0 {
        None
    } else if b[0] & 128 != 0 {
        match int_at(b, 127) {
            None => None,
            Some((_, n)) => Some(n),
        }
    } else if b[0] & 64 != 0 {
        literal_len(b, 63)
    } else if b[0] & 32 != 0 {
        match int_at(b, 31) {
            None => None,
            Some((_, n)) => Some(n),
        }
    } else {
        literal_len(b, 15)
    }
}

/// `b` breaks off within a new size of the table, with nothing but whole fields before it.
pub open spec fn cut_in_size(b: Seq<u8>) -> bool
    decreases b.len(),
{
    if b.len() == 0 {
        false
    } else {
        match field_len(b) {
            None => b[0] & 128 == 0 && b[0] & 64 == 0 && b[0] & 32 != 0,
            Some(n) => 0 < n <= b.len() && cut_in_size(b.skip(n as int)),
        }
    }
}

/// An integer begins within `b` and ends within it.
proof fn int_tail_bounds(b: Seq<u8>, i: nat, value: nat, weight: nat)
    requires
        1 <= i,
    ensures
        int_tail(b, i, value, weight) matches Some((v, n)) ==> i < n <= b.len() && n
            <= MAX_INT_LEN,
    decreases MAX_INT_LEN - i,
{
    if i < MAX_INT_LEN && i < b.len() && b[i as int] & 128 != 0 {
        let v = value + (b[i as int] & 127) as nat * weight;
        int_tail_bounds(b, i + 1, v, weight * 128);
    }
}

/// A field takes at least one octet, and ends within `b`.
proof fn field_len_bounds(b: Seq<u8>)
    ensures
        field_len(b) matches Some(n) ==> 0 < n <= b.len(),
{
    if b.len() > 0 {
        int_tail_bounds(b, 1, (b[0] & 127) as nat, 1);
        int_tail_bounds(b, 1, (b[0] & 63) as nat, 1);
        int_tail_bounds(b, 1, (b[0] & 31) as nat, 1);
        int_tail_bounds(b, 1, (b[0] & 15) as nat, 1);
    }
}

/// Reads the integer at the front of `b`.
fn read_int(b: &[u8], mask: u8) -> (r: Option<(usize, usize)>)
    ensures
        match r {
            Some((v, n)) => int_at(b@, mask) == Some((v as nat, n as nat)) && v
                <= 0x2000_0000 && 1 <= n <= b@.len() && n <= MAX_INT_LEN,
            None => int_at(b@, mask) is None,
        },
{
    if b.len() == 0 {
        return None;
    }
    let first: u8 = b[0] & mask;
    if first < mask {
        return Some((first as usize, 1));
    }
    let mut value: usize = first as usize;
    let mut weight: usize = 1;
    let mut i: usize = 1;
    while i < MAX_INT_LEN && i < b.len()
        invariant
            1 <= i <= MAX_INT_LEN,
            i == 1 ==> weight == 1 && value <= 255,
            i == 2 ==> weight == 128 && value <= 255 + 127,
            i == 3 ==> weight == 128 * 128 && value <= 255 + 127 + 127 * 128,
            i == 4 ==> weight == 128 * 128 * 128 && value <= 255 + 127 + 127 * 128 + 127 * 128
                * 128,
            i == 5 ==> value <= 255 + 127 + 127 * 128 + 127 * 128 * 128 + 127 * 128 * 128 * 128,
            int_at(b@, mask) == int_tail(b@, i as nat, value as nat, weight as nat),
        decreases MAX_INT_LEN - i,
    {
        let octet: u8 = b[i];
        let low: u8 = octet & 127;
        assert(low <= 127) by (bit_vector)
            requires
                low == octet & 127,
        ;
        assert(low as int * weight <= 127 * weight) by (nonlinear_arith)
            requires
                low <= 127,
                weight >= 0,
        ;
        let v: usize = value + low as usize * weight;
        if octet & 128 == 0 {
            return Some((v, i + 1));
        }
        value = v;
        weight = weight * 128;
        i += 1;
    }
    None
}

/// Finds the end of the string that begins at `at`.
fn read_string(b: &[u8], at: usize) -> (r: Option<usize>)
    requires
        at <= b@.len(),
    ensures
        match r {
            Some(end) => string_len(b@.skip(at as int)) == Some((end - at) as nat) && at < end
                <= b@.len(),
            None => string_len(b@.skip(at as int)) is None,
        },
{
    let rest = vstd::slice::slice_subrange(b, at, b.len());
    assert(rest@ =~= b@.skip(at as int));
    match read_int(rest, 127) {
        None => None,
        Some((len, n)) => if len <= rest.len() - n {
            Some(at + n + len)
        } else {
            None
        },
    }
}

/// Finds the end of the literal field at the front of `b`.
fn read_literal(b: &[u8], mask: u8) -> (r: Option<usize>)
    ensures
        match r {
            Some(n) => literal_len(b@, mask) == Some(n as nat) && 0 < n <= b@.len(),
            None => literal_len(b@, mask) is None,
        },
{
    match read_int(b, mask) {
        None => None,
        Some((name, n)) => {
            let mut at: usize = n;
            if name == 0 {
                match read_string(b, n) {
                    None => return None,
                    Some(end) => {
                        at = end;
                    },
                }
            }
            read_string(b, at)
        },
    }
}

/// Finds the end of the field at the front of `b`.
fn read_field(b: &[u8]) -> (r: Option<usize>)
    ensures
        match r {
            Some(n) => field_len(b@) == Some(n as nat) && 0 < n <= b@.len(),
            None => field_len(b@) is None,
        },
{
    proof {
        field_len_bounds(b@);
    }
    if b.len() == 0 {
        None
    } else if b[0] & 128 != 0 {
        match read_int(b, 127) {
            None => None,
            Some((_, n)) => Some(n),
        }
    } else if b[0] & 64 != 0 {
        read_literal(b, 63)
    } else if b[0] & 32 != 0 {
        match read_int(b, 31) {
            None => None,
            Some((_, n)) => Some(n),
        }
    } else {
        read_literal(b, 15)
    }
}

/// Whether a header block breaks off within a new size of the table.
pub fn breaks_off_in_size(b: &[u8]) -> (cut: bool)
    ensures
        cut == cut_in_size(b@),
{
    let mut at: usize = 0;
    assert(b@.skip(0) =~= b@);
    while at < b.len()
        invariant
            at <= b@.len(),
            cut_in_size(b@) == cut_in_size(b@.skip(at as int)),
        decreases b@.len() - at,
    {
        let rest = vstd::slice::slice_subrange(b, at, b.len());
        assert(rest@ =~= b@.skip(at as int));
        match read_field(rest) {
            None => {
                return rest[0] & 128 == 0 && rest[0] & 64 == 0 && rest[0] & 32 != 0;
            },
            Some(n) => {
                assert(rest@.skip(n as int) =~= b@.skip((at + n) as int));
                at = at + n;
            },
        }
    }
    false
}

} // verus!
