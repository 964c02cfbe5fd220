//! A two-byte instruction and its decoded sub-fields. Decoding is a pure
//! view over the bytes: any two bytes are structurally valid.

use vstd::prelude::*;

verus! {

/// The opcode group: the first nibble of the instruction, kept in the high
/// four bits of the first byte.
pub open spec fn spec_first_nibble(b0: u8) -> u8 {
    b0 & 0xF0
}

/// The register index X: the second nibble of the instruction.
pub open spec fn spec_second_nibble(b0: u8) -> u8 {
    b0 & 0x0F
}

/// The register index Y: the third nibble of the instruction.
pub open spec fn spec_third_nibble(b1: u8) -> u8 {
    (b1 & 0xF0) >> 4u8
}

/// The 12-bit address NNN: the low nibble of the first byte followed by the
/// whole second byte.
pub open spec fn spec_nnn(b0: u8, b1: u8) -> u16 {
    ((b0 & 0x0F) as u16 * 256 + b1 as u16) as u16
}

/// Register indices decode into [0, 16).
pub proof fn lemma_nibble_bounds(b0: u8, b1: u8)
    ensures
        spec_second_nibble(b0) < 16,
        spec_third_nibble(b1) < 16,
        spec_nnn(b0, b1) < 4096,
{
    assert((b0 & 0x0F) < 16) by (bit_vector);
    assert(((b1 & 0xF0) >> 4u8) < 16) by (bit_vector);
}

#[derive(Debug)]
pub struct Instruction {
    pub val: [u8; 2],
}

impl Instruction {
    pub fn new(val: [u8; 2]) -> (ins: Instruction)
        ensures
            ins.val@ == val@,
    {
        Instruction { val }
    }

    /// The immediate byte NN.
    pub fn get_nn(&self) -> (r: u8)
        ensures
            r == self.val[1],
    {
        self.val[1]
    }

    /// The 12-bit address NNN spanning both bytes.
    pub fn get_nnn(&self) -> (r: u16)
        ensures
            r == spec_nnn(self.val[0], self.val[1]),
    {
        let b0 = self.val[0];
        assert((b0 & 0x0F) < 16) by (bit_vector);
        (b0 & 0x0F) as u16 * 256 + self.val[1] as u16
    }

    /// The opcode group (high nibble of the first byte, kept in place).
    pub fn get_first_nibble(&self) -> (r: u8)
        ensures
            r == spec_first_nibble(self.val[0]),
    {
        self.val[0] & 0xF0
    }

    /// The register index Y (high nibble of the second byte, shifted down).
    pub fn get_third_nibble(&self) -> (r: u8)
        ensures
            r == spec_third_nibble(self.val[1]),
            r < 16,
    {
        let b1 = self.val[1];
        assert(((b1 & 0xF0) >> 4u8) < 16) by (bit_vector);
        (b1 & 0xF0) >> 4
    }

    /// The register index X (low nibble of the first byte).
    pub fn get_second_nibble(&self) -> (r: u8)
        ensures
            r == spec_second_nibble(self.val[0]),
            r < 16,
    {
        let b0 = self.val[0];
        assert((b0 & 0x0F) < 16) by (bit_vector);
        b0 & 0x0F
    }
}

} // verus!
