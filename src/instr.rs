//! The instruction model shared by the interpreter and the assembler: one
//! closed sum type with a case per operand shape, its bit-exact encoding and
//! decoding, and its canonical text.
use vstd::prelude::*;
use crate::codec::{
    arg_nnn, arg_x, arg_x_kk, arg_x_y, arg_x_y_n, hi_of, kk_of, lemma_nibbles, n_of, nnn_of,
    no_args, op_to_hi, op_to_kk, op_to_n, op_to_nnn, op_to_vx, op_to_vy, x_of, y_of,
};
use crate::text::{dec_text, hex_text, push_chars, push_dec, push_hex, push_str, string_of};

verus! {

/// Instructions without operands.
#[derive(Clone, Copy, Debug, PartialEq, Eq, Structural)]
pub enum NoArgOp {
    /// `CLS`: clear the screen.
    Cls,
    /// `RET`: return from a subroutine.
    Ret,
}

/// Instructions whose operand is a 12-bit address, or a label that
/// stands for one.
#[derive(Clone, Copy, Debug, PartialEq, Eq, Structural)]
pub enum AddrOp {
    /// `SYS addr`: a machine routine, ignored.
    Sys,
    /// `JP addr`
    Jp,
    /// `CALL addr`
    Call,
    /// `LD I, addr`
    LdI,
    /// `JP V0, addr`
    JpV0,
}

/// Instructions on a register and an immediate byte.
#[derive(Clone, Copy, Debug, PartialEq, Eq, Structural)]
pub enum ByteOp {
    /// `SE Vx, kk`
    Se,
    /// `SNE Vx, kk`
    Sne,
    /// `LD Vx, kk`
    Ld,
    /// `ADD Vx, kk`
    Add,
    /// `RND Vx, kk`
    Rnd,
}

/// Instructions on two registers. `SHR` and `SHL` read only the first; the
/// second index is kept so that every opcode decodes and encodes back.
#[derive(Clone, Copy, Debug, PartialEq, Eq, Structural)]
pub enum PairOp {
    /// `SE Vx, Vy`
    Se,
    /// `SNE Vx, Vy`
    Sne,
    /// `LD Vx, Vy`
    Ld,
    /// `OR Vx, Vy`
    Or,
    /// `AND Vx, Vy`
    And,
    /// `XOR Vx, Vy`
    Xor,
    /// `ADD Vx, Vy`
    Add,
    /// `SUB Vx, Vy`
    Sub,
    /// `SHR Vx`
    Shr,
    /// `SUBN Vx, Vy`
    Subn,
    /// `SHL Vx`
    Shl,
}

/// Instructions on a single register.
#[derive(Clone, Copy, Debug, PartialEq, Eq, Structural)]
pub enum RegOp {
    /// `SKP Vx`
    Skp,
    /// `SKNP Vx`
    Sknp,
    /// `LD Vx, DT`
    GetDelay,
    /// `LD Vx, K`
    WaitKey,
    /// `LD DT, Vx`
    SetDelay,
    /// `LD ST, Vx`
    SetSound,
    /// `ADD I, Vx`
    AddI,
    /// `LD F, Vx`
    Digit,
    /// `LD B, Vx`
    Bcd,
    /// `LD [I], Vx`
    Store,
    /// `LD Vx, [I]`
    Load,
}

/// What the embedding loop must do around the execution of an instruction.
#[derive(Clone, Copy, Debug, PartialEq, Eq, Structural)]
pub enum InstrFlags {
    /// Nothing.
    NoEffect,
    /// Redraw the screen afterwards.
    Screen,
    /// Refresh the key state before.
    Keys,
    /// Wait for a key press before, and store it as the pressed key.
    WaitKey,
    /// The sound timer changes.
    Sound,
}

/// The operand of an address instruction: an address, or a label still to
/// be resolved.
#[derive(Clone, Debug, PartialEq, Eq)]
pub enum AddressOrSymbol {
    Address(u16),
    Symbol(String),
}

/// The mathematical value of an [`AddressOrSymbol`].
pub enum Target {
    Address(u16),
    Symbol(Seq<char>),
}

impl View for AddressOrSymbol {
    type V = Target;

    open spec fn view(&self) -> Target {
        match self {
            AddressOrSymbol::Address(a) => Target::Address(*a),
            AddressOrSymbol::Symbol(s) => Target::Symbol(s@),
        }
    }
}

/// `DRW Vx, Vy, n`: draw an `n`-row sprite.
#[derive(Clone, Copy, Debug, PartialEq, Eq)]
pub struct DrawSpriteInstr {
    pub x: u8,
    pub y: u8,
    pub n: u8,
}

/// `.word w`: a raw 16-bit literal, emitted by the assembler.
#[derive(Clone, Copy, Debug, PartialEq, Eq)]
pub struct WordInstr {
    pub word: u16,
}

/// A placeholder for an opcode that carries a message in place of operands.
#[derive(Clone, Debug, PartialEq, Eq)]
pub struct UndefInstr {
    pub opcode: u16,
    pub message: String,
}

/// An instruction, by operand shape.
#[derive(Clone, Debug, PartialEq, Eq)]
pub enum Instr {
    Plain(NoArgOp),
    Addr(AddrOp, AddressOrSymbol),
    Byte(ByteOp, u8, u8),
    Pair(PairOp, u8, u8),
    Reg(RegOp, u8),
    Draw(DrawSpriteInstr),
    Word(WordInstr),
    Undef(UndefInstr),
}

/// The mathematical value of an [`Instr`].
pub enum InstrView {
    Plain(NoArgOp),
    Addr(AddrOp, Target),
    Byte(ByteOp, u8, u8),
    Pair(PairOp, u8, u8),
    Reg(RegOp, u8),
    Draw(u8, u8, u8),
    Word(u16),
    Undef(u16, Seq<char>),
}

impl View for Instr {
    type V = InstrView;

    open spec fn view(&self) -> InstrView {
        match self {
            Instr::Plain(o) => InstrView::Plain(*o),
            Instr::Addr(o, t) => InstrView::Addr(*o, t@),
            Instr::Byte(o, x, kk) => InstrView::Byte(*o, *x, *kk),
            Instr::Pair(o, x, y) => InstrView::Pair(*o, *x, *y),
            Instr::Reg(o, x) => InstrView::Reg(*o, *x),
            Instr::Draw(d) => InstrView::Draw(d.x, d.y, d.n),
            Instr::Word(w) => InstrView::Word(w.word),
            Instr::Undef(u) => InstrView::Undef(u.opcode, u.message@),
        }
    }
}

impl AddrOp {
    pub open spec fn spec_base(self) -> u16 {
        match self {
            AddrOp::Sys => 0x0000,
            AddrOp::Jp => 0x1000,
            AddrOp::Call => 0x2000,
            AddrOp::LdI => 0xA000,
            AddrOp::JpV0 => 0xB000,
        }
    }

    /// The opcode pattern with a zero address.
    pub fn base(self) -> (r: u16)
        ensures
            r == self.spec_base(),
    {
        match self {
            AddrOp::Sys => 0x0000,
            AddrOp::Jp => 0x1000,
            AddrOp::Call => 0x2000,
            AddrOp::LdI => 0xA000,
            AddrOp::JpV0 => 0xB000,
        }
    }
}

impl ByteOp {
    pub open spec fn spec_base(self) -> u16 {
        match self {
            ByteOp::Se => 0x3000,
            ByteOp::Sne => 0x4000,
            ByteOp::Ld => 0x6000,
            ByteOp::Add => 0x7000,
            ByteOp::Rnd => 0xC000,
        }
    }

    /// The opcode pattern with zero operands.
    pub fn base(self) -> (r: u16)
        ensures
            r == self.spec_base(),
    {
        match self {
            ByteOp::Se => 0x3000,
            ByteOp::Sne => 0x4000,
            ByteOp::Ld => 0x6000,
            ByteOp::Add => 0x7000,
            ByteOp::Rnd => 0xC000,
        }
    }
}

impl PairOp {
    pub open spec fn spec_base(self) -> u16 {
        match self {
            PairOp::Se => 0x5000,
            PairOp::Sne => 0x9000,
            PairOp::Ld => 0x8000,
            PairOp::Or => 0x8001,
            PairOp::And => 0x8002,
            PairOp::Xor => 0x8003,
            PairOp::Add => 0x8004,
            PairOp::Sub => 0x8005,
            PairOp::Shr => 0x8006,
            PairOp::Subn => 0x8007,
            PairOp::Shl => 0x800E,
        }
    }

    /// The opcode pattern with zero register indexes.
    pub fn base(self) -> (r: u16)
        ensures
            r == self.spec_base(),
    {
        match self {
            PairOp::Se => 0x5000,
            PairOp::Sne => 0x9000,
            PairOp::Ld => 0x8000,
            PairOp::Or => 0x8001,
            PairOp::And => 0x8002,
            PairOp::Xor => 0x8003,
            PairOp::Add => 0x8004,
            PairOp::Sub => 0x8005,
            PairOp::Shr => 0x8006,
            PairOp::Subn => 0x8007,
            PairOp::Shl => 0x800E,
        }
    }
}

impl RegOp {
    pub open spec fn spec_base(self) -> u16 {
        match self {
            RegOp::Skp => 0xE09E,
            RegOp::Sknp => 0xE0A1,
            RegOp::GetDelay => 0xF007,
            RegOp::WaitKey => 0xF00A,
            RegOp::SetDelay => 0xF015,
            RegOp::SetSound => 0xF018,
            RegOp::AddI => 0xF01E,
            RegOp::Digit => 0xF029,
            RegOp::Bcd => 0xF033,
            RegOp::Store => 0xF055,
            RegOp::Load => 0xF065,
        }
    }

    /// The opcode pattern with register index zero.
    pub fn base(self) -> (r: u16)
        ensures
            r == self.spec_base(),
    {
        match self {
            RegOp::Skp => 0xE09E,
            RegOp::Sknp => 0xE0A1,
            RegOp::GetDelay => 0xF007,
            RegOp::WaitKey => 0xF00A,
            RegOp::SetDelay => 0xF015,
            RegOp::SetSound => 0xF018,
            RegOp::AddI => 0xF01E,
            RegOp::Digit => 0xF029,
            RegOp::Bcd => 0xF033,
            RegOp::Store => 0xF055,
            RegOp::Load => 0xF065,
        }
    }
}

/// The two-register operation selected by the low nibble of a `0x8XYN`
/// opcode.
pub open spec fn alu_op(n: int) -> Option<PairOp> {
    if n == 0 {
        Some(PairOp::Ld)
    } else if n == 1 {
        Some(PairOp::Or)
    } else if n == 2 {
        Some(PairOp::And)
    } else if n == 3 {
        Some(PairOp::Xor)
    } else if n == 4 {
        Some(PairOp::Add)
    } else if n == 5 {
        Some(PairOp::Sub)
    } else if n == 6 {
        Some(PairOp::Shr)
    } else if n == 7 {
        Some(PairOp::Subn)
    } else if n == 0xE {
        Some(PairOp::Shl)
    } else {
        None
    }
}

/// The single-register operation selected by the low byte of a `0xFXKK`
/// opcode.
pub open spec fn misc_op(kk: int) -> Option<RegOp> {
    if kk == 0x07 {
        Some(RegOp::GetDelay)
    } else if kk == 0x0A {
        Some(RegOp::WaitKey)
    } else if kk == 0x15 {
        Some(RegOp::SetDelay)
    } else if kk == 0x18 {
        Some(RegOp::SetSound)
    } else if kk == 0x1E {
        Some(RegOp::AddI)
    } else if kk == 0x29 {
        Some(RegOp::Digit)
    } else if kk == 0x33 {
        Some(RegOp::Bcd)
    } else if kk == 0x55 {
        Some(RegOp::Store)
    } else if kk == 0x65 {
        Some(RegOp::Load)
    } else {
        None
    }
}

/// The instruction that an opcode stands for, if any.
pub open spec fn decode_spec(op: u16) -> Option<InstrView> {
    let h = hi_of(op);
    let x = x_of(op) as u8;
    let y = y_of(op) as u8;
    let n = n_of(op);
    let kk = kk_of(op);
    let nnn = nnn_of(op) as u16;
    if h == 0 {
        if nnn == 0x0E0 {
            Some(InstrView::Plain(NoArgOp::Cls))
        } else if nnn == 0x0EE {
            Some(InstrView::Plain(NoArgOp::Ret))
        } else {
            Some(InstrView::Addr(AddrOp::Sys, Target::Address(nnn)))
        }
    } else if h == 1 {
        Some(InstrView::Addr(AddrOp::Jp, Target::Address(nnn)))
    } else if h == 2 {
        Some(InstrView::Addr(AddrOp::Call, Target::Address(nnn)))
    } else if h == 3 {
        Some(InstrView::Byte(ByteOp::Se, x, kk as u8))
    } else if h == 4 {
        Some(InstrView::Byte(ByteOp::Sne, x, kk as u8))
    } else if h == 5 {
        if n == 0 {
            Some(InstrView::Pair(PairOp::Se, x, y))
        } else {
            None
        }
    } else if h == 6 {
        Some(InstrView::Byte(ByteOp::Ld, x, kk as u8))
    } else if h == 7 {
        Some(InstrView::Byte(ByteOp::Add, x, kk as u8))
    } else if h == 8 {
        match alu_op(n) {
            Some(p) => Some(InstrView::Pair(p, x, y)),
            None => None,
        }
    } else if h == 9 {
        if n == 0 {
            Some(InstrView::Pair(PairOp::Sne, x, y))
        } else {
            None
        }
    } else if h == 0xA {
        Some(InstrView::Addr(AddrOp::LdI, Target::Address(nnn)))
    } else if h == 0xB {
        Some(InstrView::Addr(AddrOp::JpV0, Target::Address(nnn)))
    } else if h == 0xC {
        Some(InstrView::Byte(ByteOp::Rnd, x, kk as u8))
    } else if h == 0xD {
        Some(InstrView::Draw(x, y, n as u8))
    } else if h == 0xE {
        if kk == 0x9E {
            Some(InstrView::Reg(RegOp::Skp, x))
        } else if kk == 0xA1 {
            Some(InstrView::Reg(RegOp::Sknp, x))
        } else {
            None
        }
    } else {
        match misc_op(kk) {
            Some(r) => Some(InstrView::Reg(r, x)),
            None => None,
        }
    }
}

impl InstrView {
    /// Operands in range: register indexes and nibbles below 16, addresses
    /// of 12 bits.
    pub open spec fn wf(self) -> bool {
        match self {
            InstrView::Addr(_, Target::Address(a)) => a <= 0xFFF,
            InstrView::Byte(_, x, _) => x < 16,
            InstrView::Pair(_, x, y) => x < 16 && y < 16,
            InstrView::Reg(_, x) => x < 16,
            InstrView::Draw(x, y, n) => x < 16 && y < 16 && n < 16,
            _ => true,
        }
    }

    /// No label is left to resolve.
    pub open spec fn resolved(self) -> bool {
        match self {
            InstrView::Addr(_, Target::Symbol(_)) => false,
            _ => true,
        }
    }

    /// The label this instruction refers to, if it is still unresolved.
    pub open spec fn symbol(self) -> Option<Seq<char>> {
        match self {
            InstrView::Addr(_, Target::Symbol(s)) => Some(s),
            _ => None,
        }
    }

    /// The 16-bit encoding of a resolved instruction.
    pub open spec fn encode(self) -> int {
        match self {
            InstrView::Plain(NoArgOp::Cls) => 0x00E0,
            InstrView::Plain(NoArgOp::Ret) => 0x00EE,
            InstrView::Addr(o, Target::Address(a)) => o.spec_base() + a,
            InstrView::Addr(o, Target::Symbol(_)) => o.spec_base() as int,
            InstrView::Byte(o, x, kk) => o.spec_base() + x * 0x100 + kk,
            InstrView::Pair(o, x, y) => o.spec_base() + x * 0x100 + y * 0x10,
            InstrView::Reg(o, x) => o.spec_base() + x * 0x100,
            InstrView::Draw(x, y, n) => 0xD000 + x * 0x100 + y * 0x10 + n,
            InstrView::Word(w) => w as int,
            InstrView::Undef(o, _) => o as int,
        }
    }

    /// What the embedding loop must do around this instruction.
    pub open spec fn flags(self) -> InstrFlags {
        match self {
            InstrView::Plain(NoArgOp::Cls) => InstrFlags::Screen,
            InstrView::Draw(_, _, _) => InstrFlags::Screen,
            InstrView::Reg(RegOp::Skp, _) => InstrFlags::Keys,
            InstrView::Reg(RegOp::Sknp, _) => InstrFlags::Keys,
            InstrView::Reg(RegOp::WaitKey, _) => InstrFlags::WaitKey,
            InstrView::Reg(RegOp::SetSound, _) => InstrFlags::Sound,
            _ => InstrFlags::NoEffect,
        }
    }
}

/// Every opcode that decodes encodes back to itself, and decodes to an
/// instruction with operands in range and nothing left to resolve.
pub proof fn lemma_decode_encode(op: u16)
    requires
        decode_spec(op) is Some,
    ensures
        decode_spec(op)->0.encode() == op as int,
        decode_spec(op)->0.wf(),
        decode_spec(op)->0.resolved(),
{
    lemma_nibbles(op);
}


/// The decimal numeral of a register index, after a `V`.
pub open spec fn reg_text(x: u8) -> Seq<char> {
    "V"@ + dec_text(x as nat)
}

/// An address as `0x` and three upper-case hexadecimal digits, or a label
/// as written.
pub open spec fn target_text(t: Target) -> Seq<char> {
    match t {
        Target::Address(a) => "0x"@ + hex_text(a as nat, 3),
        Target::Symbol(s) => s,
    }
}

impl InstrView {
    /// The canonical upper-case mnemonic.
    pub open spec fn mnemonic(self) -> Seq<char> {
        match self {
            InstrView::Plain(NoArgOp::Cls) => "CLS"@,
            InstrView::Plain(NoArgOp::Ret) => "RET"@,
            InstrView::Addr(AddrOp::Sys, _) => "SYS"@,
            InstrView::Addr(AddrOp::Jp, _) => "JP"@,
            InstrView::Addr(AddrOp::Call, _) => "CALL"@,
            InstrView::Addr(AddrOp::LdI, _) => "LD"@,
            InstrView::Addr(AddrOp::JpV0, _) => "JP"@,
            InstrView::Byte(ByteOp::Se, _, _) => "SE"@,
            InstrView::Byte(ByteOp::Sne, _, _) => "SNE"@,
            InstrView::Byte(ByteOp::Ld, _, _) => "LD"@,
            InstrView::Byte(ByteOp::Add, _, _) => "ADD"@,
            InstrView::Byte(ByteOp::Rnd, _, _) => "RND"@,
            InstrView::Pair(PairOp::Se, _, _) => "SE"@,
            InstrView::Pair(PairOp::Sne, _, _) => "SNE"@,
            InstrView::Pair(PairOp::Ld, _, _) => "LD"@,
            InstrView::Pair(PairOp::Or, _, _) => "OR"@,
            InstrView::Pair(PairOp::And, _, _) => "AND"@,
            InstrView::Pair(PairOp::Xor, _, _) => "XOR"@,
            InstrView::Pair(PairOp::Add, _, _) => "ADD"@,
            InstrView::Pair(PairOp::Sub, _, _) => "SUB"@,
            InstrView::Pair(PairOp::Shr, _, _) => "SHR"@,
            InstrView::Pair(PairOp::Subn, _, _) => "SUBN"@,
            InstrView::Pair(PairOp::Shl, _, _) => "SHL"@,
            InstrView::Reg(RegOp::Skp, _) => "SKP"@,
            InstrView::Reg(RegOp::Sknp, _) => "SKNP"@,
            InstrView::Reg(RegOp::AddI, _) => "ADD"@,
            InstrView::Reg(_, _) => "LD"@,
            InstrView::Draw(_, _, _) => "DRW"@,
            InstrView::Word(_) => ".word"@,
            InstrView::Undef(_, _) => "UNDEF"@,
        }
    }

    /// The operands as written after the mnemonic: registers as `V` and a
    /// decimal index, bytes as `0x` and two hexadecimal digits, addresses as
    /// `0x` and three, words as `0x` and four, sprite heights in decimal.
    pub open spec fn args_text(self) -> Seq<char> {
        match self {
            InstrView::Plain(_) => Seq::empty(),
            InstrView::Addr(AddrOp::LdI, t) => "I, "@ + target_text(t),
            InstrView::Addr(AddrOp::JpV0, t) => "V0, "@ + target_text(t),
            InstrView::Addr(_, t) => target_text(t),
            InstrView::Byte(_, x, kk) => reg_text(x) + ", 0x"@ + hex_text(kk as nat, 2),
            InstrView::Pair(PairOp::Shr, x, _) => reg_text(x),
            InstrView::Pair(PairOp::Shl, x, _) => reg_text(x),
            InstrView::Pair(_, x, y) => reg_text(x) + ", "@ + reg_text(y),
            InstrView::Reg(RegOp::Skp, x) => reg_text(x),
            InstrView::Reg(RegOp::Sknp, x) => reg_text(x),
            InstrView::Reg(RegOp::GetDelay, x) => reg_text(x) + ", DT"@,
            InstrView::Reg(RegOp::WaitKey, x) => reg_text(x) + ", K"@,
            InstrView::Reg(RegOp::Load, x) => reg_text(x) + ", [I]"@,
            InstrView::Reg(RegOp::SetDelay, x) => "DT, "@ + reg_text(x),
            InstrView::Reg(RegOp::SetSound, x) => "ST, "@ + reg_text(x),
            InstrView::Reg(RegOp::AddI, x) => "I, "@ + reg_text(x),
            InstrView::Reg(RegOp::Digit, x) => "F, "@ + reg_text(x),
            InstrView::Reg(RegOp::Bcd, x) => "B, "@ + reg_text(x),
            InstrView::Reg(RegOp::Store, x) => "[I], "@ + reg_text(x),
            InstrView::Draw(x, y, n) => reg_text(x) + ", "@ + reg_text(y) + ", "@ + dec_text(
                n as nat,
            ),
            InstrView::Word(w) => "0x"@ + hex_text(w as nat, 4),
            InstrView::Undef(_, m) => m,
        }
    }

    /// The mnemonic, then a space and the operands when there are any.
    pub open spec fn text(self) -> Seq<char> {
        if self.args_text().len() == 0 {
            self.mnemonic()
        } else {
            self.mnemonic() + " "@ + self.args_text()
        }
    }
}

fn push_reg(out: &mut Vec<char>, x: u8)
    ensures
        final(out)@ == old(out)@ + reg_text(x),
{
    push_str(out, "V");
    push_dec(out, x as usize);
    assert(old(out)@ + "V"@ + dec_text(x as nat) == old(out)@ + reg_text(x));
}

fn push_target(out: &mut Vec<char>, t: &AddressOrSymbol)
    ensures
        final(out)@ == old(out)@ + target_text(t@),
{
    match t {
        AddressOrSymbol::Address(a) => {
            push_str(out, "0x");
            push_hex(out, *a as usize, 3);
            assert(old(out)@ + "0x"@ + hex_text(*a as nat, 3) == old(out)@ + target_text(t@));
        },
        AddressOrSymbol::Symbol(s) => {
            push_str(out, s.as_str());
        },
    }
}

impl DrawSpriteInstr {
    /// The sprite instruction held in a `0xDXYN` opcode.
    pub fn new(opc: u16) -> (r: DrawSpriteInstr)
        ensures
            r.x == x_of(opc),
            r.y == y_of(opc),
            r.n == n_of(opc),
    {
        DrawSpriteInstr { x: op_to_vx(opc), y: op_to_vy(opc), n: op_to_n(opc) }
    }

    /// `DRW Vx, Vy, n`.
    pub fn create(x: u8, y: u8, n: u8) -> (r: DrawSpriteInstr)
        requires
            x < 16,
            y < 16,
            n < 16,
        ensures
            r == (DrawSpriteInstr { x, y, n }),
    {
        let opc = arg_x_y_n(0xD000, x, y, n);
        proof {
            lemma_nibbles(opc);
        }
        DrawSpriteInstr::new(opc)
    }
}

impl WordInstr {
    /// The literal word `opc`.
    pub fn new(opc: u16) -> (r: WordInstr)
        ensures
            r.word == opc,
    {
        WordInstr { word: opc }
    }

    /// `.word word`.
    pub fn create(word: u16) -> (r: WordInstr)
        ensures
            r.word == word,
    {
        WordInstr::new(word)
    }
}

impl UndefInstr {
    /// A placeholder for `opc` that renders as `UNDEF msg`.
    pub fn new(opc: u16, msg: String) -> (r: UndefInstr)
        ensures
            r.opcode == opc,
            r.message == msg,
    {
        UndefInstr { opcode: opc, message: msg }
    }
}

impl Instr {
    /// An instruction without operands.
    pub fn plain(op: NoArgOp) -> (r: Instr)
        ensures
            r@ == InstrView::Plain(op),
    {
        Instr::Plain(op)
    }

    /// An address instruction with a 12-bit address.
    pub fn address(op: AddrOp, target: u16) -> (r: Instr)
        requires
            target <= 0xFFF,
        ensures
            r@ == InstrView::Addr(op, Target::Address(target)),
            r@.wf(),
    {
        Instr::Addr(op, AddressOrSymbol::Address(target))
    }

    /// An address instruction whose address is the label `sym`, to be
    /// resolved later.
    pub fn symbol(op: AddrOp, sym: String) -> (r: Instr)
        ensures
            r@ == InstrView::Addr(op, Target::Symbol(sym@)),
            r@.wf(),
    {
        Instr::Addr(op, AddressOrSymbol::Symbol(sym))
    }

    /// An instruction on register `x` and the byte `kk`.
    pub fn byte(op: ByteOp, x: u8, kk: u8) -> (r: Instr)
        requires
            x < 16,
        ensures
            r@ == InstrView::Byte(op, x, kk),
            r@.wf(),
    {
        Instr::Byte(op, x, kk)
    }

    /// An instruction on registers `x` and `y`.
    pub fn pair(op: PairOp, x: u8, y: u8) -> (r: Instr)
        requires
            x < 16,
            y < 16,
        ensures
            r@ == InstrView::Pair(op, x, y),
            r@.wf(),
    {
        Instr::Pair(op, x, y)
    }

    /// An instruction on register `x`.
    pub fn reg(op: RegOp, x: u8) -> (r: Instr)
        requires
            x < 16,
        ensures
            r@ == InstrView::Reg(op, x),
            r@.wf(),
    {
        Instr::Reg(op, x)
    }

    /// The instruction that `opcode` stands for; `None` for a bit pattern
    /// that no instruction has.
    pub fn decode(opcode: u16) -> (r: Option<Instr>)
        ensures
            match r {
                Some(i) => decode_spec(opcode) == Some(i@),
                None => decode_spec(opcode) is None,
            },
    {
        let h = op_to_hi(opcode);
        let x = op_to_vx(opcode);
        let y = op_to_vy(opcode);
        let n = op_to_n(opcode);
        let kk = op_to_kk(opcode);
        let nnn = op_to_nnn(opcode);
        if h == 0 {
            if nnn == 0x0E0 {
                Some(Instr::Plain(NoArgOp::Cls))
            } else if nnn == 0x0EE {
                Some(Instr::Plain(NoArgOp::Ret))
            } else {
                Some(Instr::Addr(AddrOp::Sys, AddressOrSymbol::Address(nnn)))
            }
        } else if h == 1 {
            Some(Instr::Addr(AddrOp::Jp, AddressOrSymbol::Address(nnn)))
        } else if h == 2 {
            Some(Instr::Addr(AddrOp::Call, AddressOrSymbol::Address(nnn)))
        } else if h == 3 {
            Some(Instr::Byte(ByteOp::Se, x, kk))
        } else if h == 4 {
            Some(Instr::Byte(ByteOp::Sne, x, kk))
        } else if h == 5 {
            if n == 0 {
                Some(Instr::Pair(PairOp::Se, x, y))
            } else {
                None
            }
        } else if h == 6 {
            Some(Instr::Byte(ByteOp::Ld, x, kk))
        } else if h == 7 {
            Some(Instr::Byte(ByteOp::Add, x, kk))
        } else if h == 8 {
            let p = if n == 0 {
                Some(PairOp::Ld)
            } else if n == 1 {
                Some(PairOp::Or)
            } else if n == 2 {
                Some(PairOp::And)
            } else if n == 3 {
                Some(PairOp::Xor)
            } else if n == 4 {
                Some(PairOp::Add)
            } else if n == 5 {
                Some(PairOp::Sub)
            } else if n == 6 {
                Some(PairOp::Shr)
            } else if n == 7 {
                Some(PairOp::Subn)
            } else if n == 0xE {
                Some(PairOp::Shl)
            } else {
                None
            };
            match p {
                Some(p) => Some(Instr::Pair(p, x, y)),
                None => None,
            }
        } else if h == 9 {
            if n == 0 {
                Some(Instr::Pair(PairOp::Sne, x, y))
            } else {
                None
            }
        } else if h == 0xA {
            Some(Instr::Addr(AddrOp::LdI, AddressOrSymbol::Address(nnn)))
        } else if h == 0xB {
            Some(Instr::Addr(AddrOp::JpV0, AddressOrSymbol::Address(nnn)))
        } else if h == 0xC {
            Some(Instr::Byte(ByteOp::Rnd, x, kk))
        } else if h == 0xD {
            Some(Instr::Draw(DrawSpriteInstr::new(opcode)))
        } else if h == 0xE {
            if kk == 0x9E {
                Some(Instr::Reg(RegOp::Skp, x))
            } else if kk == 0xA1 {
                Some(Instr::Reg(RegOp::Sknp, x))
            } else {
                None
            }
        } else {
            let r = if kk == 0x07 {
                Some(RegOp::GetDelay)
            } else if kk == 0x0A {
                Some(RegOp::WaitKey)
            } else if kk == 0x15 {
                Some(RegOp::SetDelay)
            } else if kk == 0x18 {
                Some(RegOp::SetSound)
            } else if kk == 0x1E {
                Some(RegOp::AddI)
            } else if kk == 0x29 {
                Some(RegOp::Digit)
            } else if kk == 0x33 {
                Some(RegOp::Bcd)
            } else if kk == 0x55 {
                Some(RegOp::Store)
            } else if kk == 0x65 {
                Some(RegOp::Load)
            } else {
                None
            };
            match r {
                Some(r) => Some(Instr::Reg(r, x)),
                None => None,
            }
        }
    }

    /// The 16-bit encoding. An unresolved label has no encoding.
    pub fn get_opcode(&self) -> (r: u16)
        requires
            self@.wf(),
            self@.resolved(),
        ensures
            r == self@.encode(),
    {
        match self {
            Instr::Plain(NoArgOp::Cls) => no_args(0x00E0),
            Instr::Plain(NoArgOp::Ret) => no_args(0x00EE),
            Instr::Addr(o, AddressOrSymbol::Address(a)) => arg_nnn(o.base(), *a),
            Instr::Addr(o, AddressOrSymbol::Symbol(_)) => o.base(),
            Instr::Byte(o, x, kk) => arg_x_kk(o.base(), *x, *kk),
            Instr::Pair(o, x, y) => arg_x_y(o.base(), *x, *y),
            Instr::Reg(o, x) => arg_x(o.base(), *x),
            Instr::Draw(d) => arg_x_y_n(0xD000, d.x, d.y, d.n),
            Instr::Word(w) => w.word,
            Instr::Undef(u) => u.opcode,
        }
    }

    /// What the embedding loop must do around this instruction.
    pub fn get_flags(&self) -> (r: InstrFlags)
        ensures
            r == self@.flags(),
    {
        match self {
            Instr::Plain(NoArgOp::Cls) => InstrFlags::Screen,
            Instr::Draw(_) => InstrFlags::Screen,
            Instr::Reg(RegOp::Skp, _) => InstrFlags::Keys,
            Instr::Reg(RegOp::Sknp, _) => InstrFlags::Keys,
            Instr::Reg(RegOp::WaitKey, _) => InstrFlags::WaitKey,
            Instr::Reg(RegOp::SetSound, _) => InstrFlags::Sound,
            _ => InstrFlags::NoEffect,
        }
    }

    /// The label this instruction still refers to, if any.
    pub fn get_symbol(&self) -> (r: Option<String>)
        ensures
            match r {
                Some(s) => self@.symbol() == Some(s@),
                None => self@.symbol() is None,
            },
    {
        match self {
            Instr::Addr(_, AddressOrSymbol::Symbol(s)) => Some(s.clone()),
            _ => None,
        }
    }

    /// The same instruction with its label replaced by the address `addr`.
    pub fn resolve_symbol(self, addr: u16) -> (r: Instr)
        requires
            self@.symbol() is Some,
            addr <= 0xFFF,
        ensures
            r@ == InstrView::Addr(self@->Addr_0, Target::Address(addr)),
            r@.wf(),
    {
        match self {
            Instr::Addr(o, _) => Instr::Addr(o, AddressOrSymbol::Address(addr)),
            _ => self,
        }
    }

    /// A copy of this instruction.
    pub fn copy(&self) -> (r: Instr)
        ensures
            r@ == self@,
    {
        match self {
            Instr::Plain(o) => Instr::Plain(*o),
            Instr::Addr(o, AddressOrSymbol::Address(a)) => Instr::Addr(*o, AddressOrSymbol::Address(*a)),
            Instr::Addr(o, AddressOrSymbol::Symbol(s)) => Instr::Addr(*o, AddressOrSymbol::Symbol(s.clone())),
            Instr::Byte(o, x, kk) => Instr::Byte(*o, *x, *kk),
            Instr::Pair(o, x, y) => Instr::Pair(*o, *x, *y),
            Instr::Reg(o, x) => Instr::Reg(*o, *x),
            Instr::Draw(d) => Instr::Draw(DrawSpriteInstr { x: d.x, y: d.y, n: d.n }),
            Instr::Word(w) => Instr::Word(WordInstr { word: w.word }),
            Instr::Undef(u) => Instr::Undef(UndefInstr { opcode: u.opcode, message: u.message.clone() }),
        }
    }

    fn push_mnemonic(&self, out: &mut Vec<char>)
        ensures
            final(out)@ == old(out)@ + self@.mnemonic(),
    {
        let m = match self {
            Instr::Plain(NoArgOp::Cls) => "CLS",
            Instr::Plain(NoArgOp::Ret) => "RET",
            Instr::Addr(AddrOp::Sys, _) => "SYS",
            Instr::Addr(AddrOp::Jp, _) => "JP",
            Instr::Addr(AddrOp::Call, _) => "CALL",
            Instr::Addr(AddrOp::LdI, _) => "LD",
            Instr::Addr(AddrOp::JpV0, _) => "JP",
            Instr::Byte(ByteOp::Se, _, _) => "SE",
            Instr::Byte(ByteOp::Sne, _, _) => "SNE",
            Instr::Byte(ByteOp::Ld, _, _) => "LD",
            Instr::Byte(ByteOp::Add, _, _) => "ADD",
            Instr::Byte(ByteOp::Rnd, _, _) => "RND",
            Instr::Pair(PairOp::Se, _, _) => "SE",
            Instr::Pair(PairOp::Sne, _, _) => "SNE",
            Instr::Pair(PairOp::Ld, _, _) => "LD",
            Instr::Pair(PairOp::Or, _, _) => "OR",
            Instr::Pair(PairOp::And, _, _) => "AND",
            Instr::Pair(PairOp::Xor, _, _) => "XOR",
            Instr::Pair(PairOp::Add, _, _) => "ADD",
            Instr::Pair(PairOp::Sub, _, _) => "SUB",
            Instr::Pair(PairOp::Shr, _, _) => "SHR",
            Instr::Pair(PairOp::Subn, _, _) => "SUBN",
            Instr::Pair(PairOp::Shl, _, _) => "SHL",
            Instr::Reg(RegOp::Skp, _) => "SKP",
            Instr::Reg(RegOp::Sknp, _) => "SKNP",
            Instr::Reg(RegOp::AddI, _) => "ADD",
            Instr::Reg(_, _) => "LD",
            Instr::Draw(_) => "DRW",
            Instr::Word(_) => ".word",
            Instr::Undef(_) => "UNDEF",
        };
        push_str(out, m);
    }

    fn push_args(&self, out: &mut Vec<char>)
        ensures
            final(out)@ == old(out)@ + self@.args_text(),
    {
        let ghost start = out@;
        match self {
            Instr::Plain(_) => {
                assert(start + Seq::<char>::empty() == start);
            },
            Instr::Addr(o, t) => {
                match o {
                    AddrOp::LdI => push_str(out, "I, "),
                    AddrOp::JpV0 => push_str(out, "V0, "),
                    _ => {},
                }
                push_target(out, t);
            },
            Instr::Byte(_, x, kk) => {
                push_reg(out, *x);
                push_str(out, ", 0x");
                push_hex(out, *kk as usize, 2);
            },
            Instr::Pair(o, x, y) => {
                push_reg(out, *x);
                match o {
                    PairOp::Shr => {},
                    PairOp::Shl => {},
                    _ => {
                        push_str(out, ", ");
                        push_reg(out, *y);
                    },
                }
            },
            Instr::Reg(o, x) => {
                match o {
                    RegOp::Skp => push_reg(out, *x),
                    RegOp::Sknp => push_reg(out, *x),
                    RegOp::GetDelay => {
                        push_reg(out, *x);
                        push_str(out, ", DT");
                    },
                    RegOp::WaitKey => {
                        push_reg(out, *x);
                        push_str(out, ", K");
                    },
                    RegOp::Load => {
                        push_reg(out, *x);
                        push_str(out, ", [I]");
                    },
                    RegOp::SetDelay => {
                        push_str(out, "DT, ");
                        push_reg(out, *x);
                    },
                    RegOp::SetSound => {
                        push_str(out, "ST, ");
                        push_reg(out, *x);
                    },
                    RegOp::AddI => {
                        push_str(out, "I, ");
                        push_reg(out, *x);
                    },
                    RegOp::Digit => {
                        push_str(out, "F, ");
                        push_reg(out, *x);
                    },
                    RegOp::Bcd => {
                        push_str(out, "B, ");
                        push_reg(out, *x);
                    },
                    RegOp::Store => {
                        push_str(out, "[I], ");
                        push_reg(out, *x);
                    },
                }
            },
            Instr::Draw(d) => {
                push_reg(out, d.x);
                push_str(out, ", ");
                push_reg(out, d.y);
                push_str(out, ", ");
                push_dec(out, d.n as usize);
            },
            Instr::Word(w) => {
                push_str(out, "0x");
                push_hex(out, w.word as usize, 4);
            },
            Instr::Undef(u) => {
                push_str(out, u.message.as_str());
            },
        }
        assert(out@ =~= start + self@.args_text());
    }

    /// The canonical mnemonic.
    pub fn get_mnemonic(&self) -> (r: String)
        ensures
            r@ == self@.mnemonic(),
    {
        let mut out: Vec<char> = Vec::new();
        self.push_mnemonic(&mut out);
        assert(out@ =~= self@.mnemonic());
        string_of(&out)
    }

    /// The operands as written after the mnemonic.
    pub fn get_formatted_args(&self) -> (r: String)
        ensures
            r@ == self@.args_text(),
    {
        let mut out: Vec<char> = Vec::new();
        self.push_args(&mut out);
        assert(out@ =~= self@.args_text());
        string_of(&out)
    }

    /// The canonical text: the mnemonic, then a space and the operands when
    /// there are any (`ADD V3, 0x68`, `JP V0, 0x123`, `.word 0x1234`).
    pub fn repr(&self) -> (r: String)
        ensures
            r@ == self@.text(),
    {
        let mut out: Vec<char> = Vec::new();
        self.push_mnemonic(&mut out);
        let mut args: Vec<char> = Vec::new();
        self.push_args(&mut args);
        assert(args@ =~= self@.args_text());
        if args.len() > 0 {
            push_str(&mut out, " ");
            push_chars(&mut out, &args);
        }
        assert(out@ =~= self@.text());
        string_of(&out)
    }
}

} // verus!
