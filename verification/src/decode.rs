//! Splitting a 16-bit opcode into its nibble fields.
//!
//! An opcode is decomposed into the instruction family (top nibble), the
//! register selectors X and Y, the trailing nibble N, the trailing byte NN
//! and the trailing 12-bit address NNN. Every 16-bit value is a valid input.

use vstd::prelude::*;

verus! {

/// Instruction family: the top nibble, bits 12-15.
pub open spec fn op_family(op: u16) -> u16 {
    op >> 12
}

/// Register selector X: bits 8-11.
pub open spec fn op_x(op: u16) -> u16 {
    (op >> 8) & 0xF
}

/// Register selector Y: bits 4-7.
pub open spec fn op_y(op: u16) -> u16 {
    (op >> 4) & 0xF
}

/// Trailing nibble N: bits 0-3.
pub open spec fn op_n(op: u16) -> u16 {
    op & 0xF
}

/// Trailing byte NN: bits 0-7.
pub open spec fn op_nn(op: u16) -> u16 {
    op & 0xFF
}

/// Trailing address NNN: bits 0-11.
pub open spec fn op_nnn(op: u16) -> u16 {
    op & 0xFFF
}

/// Reassembles an opcode from its four nibble fields.
pub open spec fn encode_fields(family: u16, x: u16, y: u16, n: u16) -> u16 {
    (((family & 0xF) << 12) | ((x & 0xF) << 8)) | (((y & 0xF) << 4) | (n & 0xF))
}

/// Decoding an opcode into its four nibbles and re-encoding those fields
/// reconstructs the original 16-bit value.
pub proof fn lemma_decode_encode_roundtrip(op: u16)
    ensures
        encode_fields(op_family(op), op_x(op), op_y(op), op_n(op)) == op,
{
    assert(((((op >> 12) & 0xF) << 12) | ((((op >> 8) & 0xF) & 0xF) << 8)) | (((((op
        >> 4) & 0xF) & 0xF) << 4) | ((op & 0xF) & 0xF)) == op) by (bit_vector);
}

/// The nibble fields are always 4-bit values and NN and NNN fit their widths.
pub proof fn lemma_field_bounds(op: u16)
    ensures
        op_family(op) < 16,
        op_x(op) < 16,
        op_y(op) < 16,
        op_n(op) < 16,
        op_nn(op) < 256,
        op_nnn(op) < 4096,
{
    assert(op >> 12 < 16 && (op >> 8) & 0xF < 16 && (op >> 4) & 0xF < 16 && op & 0xF < 16 && op
        & 0xFF < 256 && op & 0xFFF < 4096) by (bit_vector);
}

/// Extracts the register selector X, ready for indexing the register file.
pub fn reg_x(op: u16) -> (r: usize)
    ensures
        r == op_x(op),
        r < 16,
{
    proof {
        lemma_field_bounds(op);
    }
    ((op >> 8) & 0xF) as usize
}

/// Extracts the register selector Y, ready for indexing the register file.
pub fn reg_y(op: u16) -> (r: usize)
    ensures
        r == op_y(op),
        r < 16,
{
    proof {
        lemma_field_bounds(op);
    }
    ((op >> 4) & 0xF) as usize
}

/// Extracts the trailing nibble N.
pub fn imm_n(op: u16) -> (r: u8)
    ensures
        r == op_n(op),
        r < 16,
{
    proof {
        lemma_field_bounds(op);
        assert((op & 0xF) as u8 == op & 0xF) by (bit_vector);
    }
    (op & 0xF) as u8
}

/// Extracts the trailing byte NN.
pub fn imm_nn(op: u16) -> (r: u8)
    ensures
        r == op_nn(op),
{
    proof {
        lemma_field_bounds(op);
        assert((op & 0xFF) as u8 == op & 0xFF) by (bit_vector);
    }
    (op & 0xFF) as u8
}

/// Extracts the trailing address NNN.
pub fn imm_nnn(op: u16) -> (r: u16)
    ensures
        r == op_nnn(op),
        r < 4096,
{
    proof {
        lemma_field_bounds(op);
    }
    op & 0xFFF
}

} // verus!
