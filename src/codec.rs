//! Bit fields of a 16-bit opcode: extraction and packing.
//!
//! Every field is stated arithmetically: an opcode is
//! `hi * 0x1000 + x * 0x100 + y * 0x10 + n`, with `kk == y * 0x10 + n`
//! and `nnn == x * 0x100 + kk`.
use vstd::prelude::*;

verus! {

/// The top nibble, which selects the instruction family.
pub open spec fn hi_of(op: u16) -> int {
    op as int / 0x1000
}

/// The register index in bits 8..12.
pub open spec fn x_of(op: u16) -> int {
    (op as int / 0x100) % 0x10
}

/// The register index in bits 4..8.
pub open spec fn y_of(op: u16) -> int {
    (op as int / 0x10) % 0x10
}

/// The low byte.
pub open spec fn kk_of(op: u16) -> int {
    op as int % 0x100
}

/// The low 12 bits, an address.
pub open spec fn nnn_of(op: u16) -> int {
    op as int % 0x1000
}

/// The low nibble.
pub open spec fn n_of(op: u16) -> int {
    op as int % 0x10
}

/// An opcode is the sum of its four nibbles at their places.
pub proof fn lemma_nibbles(op: u16)
    ensures
        0 <= hi_of(op) < 16,
        0 <= x_of(op) < 16,
        0 <= y_of(op) < 16,
        0 <= n_of(op) < 16,
        op as int == hi_of(op) * 0x1000 + x_of(op) * 0x100 + y_of(op) * 0x10 + n_of(op),
        kk_of(op) == y_of(op) * 0x10 + n_of(op),
        nnn_of(op) == x_of(op) * 0x100 + kk_of(op),
{
    let v = op as int;
    assert(v == (v / 0x1000) * 0x1000 + (v / 0x100) % 0x10 * 0x100 + (v / 0x10) % 0x10 * 0x10
        + v % 0x10) by (nonlinear_arith)
        requires
            0 <= v < 0x10000,
    ;
    assert(v % 0x100 == (v / 0x10) % 0x10 * 0x10 + v % 0x10) by (nonlinear_arith)
        requires
            0 <= v,
    ;
    assert(v % 0x1000 == (v / 0x100) % 0x10 * 0x100 + v % 0x100) by (nonlinear_arith)
        requires
            0 <= v,
    ;
}

/// The low byte of an opcode.
pub fn op_to_kk(opcode: u16) -> (r: u8)
    ensures
        r == kk_of(opcode),
{
    assert((opcode & 0xFF) == opcode % 0x100) by (bit_vector);
    (opcode & 0xFF) as u8
}

/// The low 12 bits of an opcode.
pub fn op_to_nnn(opcode: u16) -> (r: u16)
    ensures
        r == nnn_of(opcode),
{
    assert((opcode & 0xFFF) == opcode % 0x1000) by (bit_vector);
    opcode & 0xFFF
}

/// The register index in bits 8..12.
pub fn op_to_vx(opcode: u16) -> (r: u8)
    ensures
        r == x_of(opcode),
        r < 16,
{
    assert(((opcode >> 8) & 0xF) == (opcode / 0x100) % 0x10) by (bit_vector);
    ((opcode >> 8) & 0xF) as u8
}

/// The register index in bits 4..8.
pub fn op_to_vy(opcode: u16) -> (r: u8)
    ensures
        r == y_of(opcode),
        r < 16,
{
    assert(((opcode >> 4) & 0xF) == (opcode / 0x10) % 0x10) by (bit_vector);
    ((opcode >> 4) & 0xF) as u8
}

/// The low nibble of an opcode.
pub fn op_to_n(opcode: u16) -> (r: u8)
    ensures
        r == n_of(opcode),
        r < 16,
{
    assert((opcode & 0xF) == opcode % 0x10) by (bit_vector);
    (opcode & 0xF) as u8
}

/// The top nibble of an opcode.
pub fn op_to_hi(opcode: u16) -> (r: u8)
    ensures
        r == hi_of(opcode),
        r < 16,
{
    assert((opcode >> 12) == opcode / 0x1000) by (bit_vector);
    (opcode >> 12) as u8
}

/// An instruction without operands is its base pattern.
pub fn no_args(base: u16) -> (r: u16)
    ensures
        r == base,
{
    base
}

/// Places a 12-bit address under the family nibble of `base`.
pub fn arg_nnn(base: u16, target: u16) -> (r: u16)
    requires
        target <= 0xFFF,
    ensures
        r == hi_of(base) * 0x1000 + target,
{
    assert(target <= 0xFFF ==> (base & 0xF000) | (target & 0x0FFF) == (base / 0x1000) * 0x1000
        + target) by (bit_vector);
    (base & 0xF000) | (target & 0x0FFF)
}

/// Places a register index and a byte under the family nibble of `base`.
pub fn arg_x_kk(base: u16, x: u8, kk: u8) -> (r: u16)
    requires
        x < 16,
    ensures
        r == hi_of(base) * 0x1000 + x * 0x100 + kk,
{
    let xw = x as u16;
    let kw = kk as u16;
    assert(xw < 16 && kw < 0x100 ==> (base & 0xF000) | ((xw & 0xF) << 8) | kw == (base / 0x1000)
        * 0x1000 + xw * 0x100 + kw) by (bit_vector);
    (base & 0xF000) | ((xw & 0xF) << 8) | kw
}

/// Places two register indexes between the family nibble and the low
/// nibble of `base`.
pub fn arg_x_y(base: u16, x: u8, y: u8) -> (r: u16)
    requires
        x < 16,
        y < 16,
    ensures
        r == hi_of(base) * 0x1000 + x * 0x100 + y * 0x10 + n_of(base),
{
    let xw = x as u16;
    let yw = y as u16;
    assert(xw < 16 && yw < 16 ==> (base & 0xF00F) | ((xw & 0xF) << 8) | ((yw & 0xF) << 4) == (base
        / 0x1000) * 0x1000 + xw * 0x100 + yw * 0x10 + base % 0x10) by (bit_vector);
    (base & 0xF00F) | ((xw & 0xF) << 8) | ((yw & 0xF) << 4)
}

/// Places two register indexes and a nibble under the family nibble of
/// `base`.
pub fn arg_x_y_n(base: u16, x: u8, y: u8, n: u8) -> (r: u16)
    requires
        x < 16,
        y < 16,
        n < 16,
    ensures
        r == hi_of(base) * 0x1000 + x * 0x100 + y * 0x10 + n,
{
    let xw = x as u16;
    let yw = y as u16;
    let nw = n as u16;
    assert(xw < 16 && yw < 16 && nw < 16 ==> (base & 0xF000) | ((xw & 0xF) << 8) | ((yw & 0xF)
        << 4) | (nw & 0xF) == (base / 0x1000) * 0x1000 + xw * 0x100 + yw * 0x10 + nw)
        by (bit_vector);
    (base & 0xF000) | ((xw & 0xF) << 8) | ((yw & 0xF) << 4) | (nw & 0xF)
}

/// Places a register index between the family nibble and the low byte of
/// `base`.
pub fn arg_x(base: u16, x: u8) -> (r: u16)
    requires
        x < 16,
    ensures
        r == hi_of(base) * 0x1000 + x * 0x100 + kk_of(base),
{
    let xw = x as u16;
    assert(xw < 16 ==> (base & 0xF0FF) | ((xw & 0xF) << 8) == (base / 0x1000) * 0x1000 + xw
        * 0x100 + base % 0x100) by (bit_vector);
    (base & 0xF0FF) | ((xw & 0xF) << 8)
}

} // verus!
