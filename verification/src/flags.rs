//! The status byte and the rule by which a result byte updates it.

use vstd::prelude::*;

verus! {

/// Bit 1 of the status byte: the last result was zero.
pub const ZERO_FLAG: u8 = 0x02;

/// Bit 7 of the status byte: bit 7 of the last result was set.
pub const NEGATIVE_FLAG: u8 = 0x80;

/// The six bits of the status byte that no instruction touches.
pub const RESERVED_BITS: u8 = 0x7D;

/// The two facts about a result byte that the status byte records.
#[derive(Clone, Copy, Debug, PartialEq, Eq, Structural)]
pub struct Flags {
    /// The result is zero.
    pub zero: bool,
    /// Bit 7 of the result is set.
    pub negative: bool,
}

/// The flags that describe `result`.
pub open spec fn flags_of(result: u8) -> Flags {
    Flags { zero: result == 0, negative: result >= 0x80 }
}

/// The zero bit, as `status` holds it.
pub open spec fn zero_bit(status: u8) -> bool {
    status & ZERO_FLAG == ZERO_FLAG
}

/// The negative bit, as `status` holds it.
pub open spec fn negative_bit(status: u8) -> bool {
    status & NEGATIVE_FLAG == NEGATIVE_FLAG
}

/// The status byte that holds `flags` in bits 1 and 7 and agrees with
/// `status` on the six other bits.
pub open spec fn merged(status: u8, flags: Flags) -> u8 {
    let zero: u8 = if flags.zero { ZERO_FLAG } else { 0 };
    let negative: u8 = if flags.negative { NEGATIVE_FLAG } else { 0 };
    (status & RESERVED_BITS) | zero | negative
}

/// The status byte after an instruction has written `result` to its
/// destination register.
pub open spec fn updated_status(status: u8, result: u8) -> u8 {
    merged(status, flags_of(result))
}

impl Flags {
    /// Computes the flags of a result byte.
    pub fn of(result: u8) -> (flags: Flags)
        ensures
            flags == flags_of(result),
            flags.zero <==> result == 0,
            flags.negative <==> result & NEGATIVE_FLAG == NEGATIVE_FLAG,
    {
        assert((result & 0x80 == 0x80 <==> result >= 0x80) && (result & 0x80 != 0 <==> result
            >= 0x80)) by (bit_vector);
        Flags { zero: result == 0, negative: result & NEGATIVE_FLAG != 0 }
    }

    /// Writes the flags into bits 1 and 7 of `status`, leaving the other
    /// bits as they are.
    pub fn merge_into(self, status: u8) -> (merged_status: u8)
        ensures
            merged_status == merged(status, self),
            zero_bit(merged_status) == self.zero,
            negative_bit(merged_status) == self.negative,
            merged_status & RESERVED_BITS == status & RESERVED_BITS,
    {
        let mut s: u8 = status;
        if self.zero {
            s = s | ZERO_FLAG;
        } else {
            s = s & 0b1111_1101;
        }
        if self.negative {
            s = s | NEGATIVE_FLAG;
        } else {
            s = s & 0b0111_1111;
        }
        proof {
            lemma_merged(status, self);
            lemma_merge_steps(status);
        }
        s
    }
}

/// What `merged` does to each bit: bits 1 and 7 hold the flags and the rest
/// of the byte is untouched.
pub proof fn lemma_merged(status: u8, flags: Flags)
    ensures
        zero_bit(merged(status, flags)) == flags.zero,
        negative_bit(merged(status, flags)) == flags.negative,
        merged(status, flags) & RESERVED_BITS == status & RESERVED_BITS,
{
    assert(((status & 0x7D) | 0x02u8 | 0x80u8) & 0x02 == 0x02
        && ((status & 0x7D) | 0x02u8 | 0x80u8) & 0x80 == 0x80
        && ((status & 0x7D) | 0x02u8 | 0x80u8) & 0x7D == status & 0x7D) by (bit_vector);
    assert(((status & 0x7D) | 0x02u8 | 0u8) & 0x02 == 0x02
        && ((status & 0x7D) | 0x02u8 | 0u8) & 0x80 != 0x80
        && ((status & 0x7D) | 0x02u8 | 0u8) & 0x7D == status & 0x7D) by (bit_vector);
    assert(((status & 0x7D) | 0u8 | 0x80u8) & 0x02 != 0x02
        && ((status & 0x7D) | 0u8 | 0x80u8) & 0x80 == 0x80
        && ((status & 0x7D) | 0u8 | 0x80u8) & 0x7D == status & 0x7D) by (bit_vector);
    assert(((status & 0x7D) | 0u8 | 0u8) & 0x02 != 0x02
        && ((status & 0x7D) | 0u8 | 0u8) & 0x80 != 0x80
        && ((status & 0x7D) | 0u8 | 0u8) & 0x7D == status & 0x7D) by (bit_vector);
}

/// A status byte is determined by its zero bit, its negative bit and its six
/// other bits.
pub proof fn lemma_status_determined(s: u8, t: u8)
    requires
        zero_bit(s) == zero_bit(t),
        negative_bit(s) == negative_bit(t),
        s & RESERVED_BITS == t & RESERVED_BITS,
    ensures
        s == t,
{
    assert((s & 0x02 == 0x02) == (t & 0x02 == 0x02) && (s & 0x80 == 0x80) == (t & 0x80 == 0x80)
        && s & 0x7D == t & 0x7D ==> s == t) by (bit_vector);
}

/// Setting or clearing bit 1 and then bit 7 gives the merged byte.
proof fn lemma_merge_steps(status: u8)
    ensures
        (status | 0x02) | 0x80 == (status & 0x7D) | 0x02u8 | 0x80u8,
        (status | 0x02) & 0x7F == (status & 0x7D) | 0x02u8 | 0u8,
        (status & 0xFD) | 0x80 == (status & 0x7D) | 0u8 | 0x80u8,
        (status & 0xFD) & 0x7F == (status & 0x7D) | 0u8 | 0u8,
{
    assert((status | 0x02) | 0x80 == (status & 0x7D) | 0x02u8 | 0x80u8) by (bit_vector);
    assert((status | 0x02) & 0x7F == (status & 0x7D) | 0x02u8 | 0u8) by (bit_vector);
    assert((status & 0xFD) | 0x80 == (status & 0x7D) | 0u8 | 0x80u8) by (bit_vector);
    assert((status & 0xFD) & 0x7F == (status & 0x7D) | 0u8 | 0u8) by (bit_vector);
}

} // verus!
