use vstd::prelude::*;

verus! {

/// Leading (most significant) nibble of an instruction word.
pub open spec fn nib0(w: u16) -> u8 {
    (w >> 12) as u8
}

/// Second nibble of an instruction word: the X register operand.
pub open spec fn nib1(w: u16) -> u8 {
    ((w >> 8) & 0xF) as u8
}

/// Third nibble of an instruction word: the Y register operand.
pub open spec fn nib2(w: u16) -> u8 {
    ((w >> 4) & 0xF) as u8
}

/// Trailing nibble of an instruction word.
pub open spec fn nib3(w: u16) -> u8 {
    (w & 0xF) as u8
}

/// Low byte of an instruction word: the immediate operand.
pub open spec fn low_byte(w: u16) -> u8 {
    (w & 0xFF) as u8
}

/// Low 12 bits of an instruction word: the absolute address operand.
pub open spec fn addr_of(w: u16) -> u16 {
    w & 0xFFF
}

/// Every nibble is below 16, the immediate fits a byte, and the address
/// operand fits 12 bits.
pub proof fn lemma_field_bounds(w: u16)
    by (bit_vector)
    ensures
        nib0(w) < 16,
        nib1(w) < 16,
        nib2(w) < 16,
        nib3(w) < 16,
        addr_of(w) < 0x1000,
{
}

/// The three decimal digits of a byte, most significant first.
pub open spec fn spec_bcd(num: u8) -> Seq<u8> {
    seq![(num / 100) as u8, ((num / 10) % 10) as u8, (num % 10) as u8]
}

/// Get the binary coded decimal digits of a byte, hundreds digit first.
pub fn bcd(num: u8) -> (r: [u8; 3])
    ensures
        r@ == spec_bcd(num),
{
    let hundreds: u8 = num / 100;
    let tens: u8 = (num / 10) % 10;
    let units: u8 = num % 10;
    let r: [u8; 3] = [hundreds, tens, units];
    proof {
        assert(r@ =~= spec_bcd(num));
    }
    r
}

/// Split a 16-bit word into its four nibbles, most significant first,
/// each stretched to a byte.
pub fn stretch_u16(input: u16) -> (r: [u8; 4])
    ensures
        r@ == seq![nib0(input), nib1(input), nib2(input), nib3(input)],
{
    let fourth = (input & 0x000F) as u8;
    let third = ((input & 0x00F0) >> 4) as u8;
    let second = ((input & 0x0F00) >> 8) as u8;
    let first = ((input & 0xF000) >> 12) as u8;
    proof {
        assert((input & 0x000F) as u8 == nib3(input)
            && ((input & 0x00F0) >> 4) as u8 == nib2(input)
            && ((input & 0x0F00) >> 8) as u8 == nib1(input)
            && ((input & 0xF000) >> 12) as u8 == nib0(input)) by (bit_vector);
    }
    let r: [u8; 4] = [first, second, third, fourth];
    proof {
        assert(r@ =~= seq![nib0(input), nib1(input), nib2(input), nib3(input)]);
    }
    r
}

}
